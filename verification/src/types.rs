//! The data of the mesh: peers, channels and private groups, messages, file
//! transfers, and the packets exchanged between nodes.

use vstd::prelude::*;
use vstd::string::*;
use crate::text::{decimal, push_char, push_decimal};
use crate::rounding::{div_round_half_even, float_value, pct_of, scale_mult, two_53};

verus! {

/// A node's identity on the mesh (a random UUID in text form).
pub type NodeId = String;

/// A moment in UTC: whole seconds since the Unix epoch and the nanoseconds
/// within that second.
#[derive(Clone, Copy, Debug, PartialEq, Eq, Structural)]
pub struct Timestamp {
    pub secs: i64,
    pub nanos: u32,
}

/// Calls `chrono::Utc::now`, read back through `timestamp` and
/// `timestamp_subsec_nanos`.  Nothing is claimed: it is the clock.
#[verifier::external_body]
pub(crate) fn now() -> (r: Timestamp) {
    let t = chrono::Utc::now();
    Timestamp { secs: t.timestamp(), nanos: t.timestamp_subsec_nanos() }
}

/// Calls `uuid::Uuid::new_v4` and renders it with `to_string`.  The crate
/// renders the hyphenated form: 36 characters.  Nothing is claimed of the
/// value: it is random.
#[verifier::external_body]
pub fn new_id() -> (r: String)
    ensures
        r@.len() == 36,
{
    uuid::Uuid::new_v4().to_string()
}

/// A socket address of a peer.  An IPv4 address is held by its octets; an
/// IPv6 address by the display form of its address (which is all the mesh
/// reads of it), its port and its scope id.
#[derive(Debug)]
pub enum PeerAddr {
    V4 { octets: [u8; 4], port: u16 },
    V6 { ip: String, port: u16, scope_id: u32 },
}

/// Dotted-quad rendering of four octets.
pub open spec fn dotted(o: Seq<u8>) -> Seq<char> {
    decimal(o[0] as nat) + seq!['.'] + decimal(o[1] as nat) + seq!['.'] + decimal(o[2] as nat)
        + seq!['.'] + decimal(o[3] as nat)
}

/// How a socket address is displayed: `ip:port` for IPv4, `[ip]:port` for
/// IPv6 (`[ip%scope]:port` with a scope id).
pub open spec fn addr_text(a: PeerAddr) -> Seq<char> {
    match a {
        PeerAddr::V4 { octets, port } => dotted(octets@) + seq![':'] + decimal(port as nat),
        PeerAddr::V6 { ip, port, scope_id } => seq!['['] + ip@ + (if scope_id == 0 {
            Seq::<char>::empty()
        } else {
            seq!['%'] + decimal(scope_id as nat)
        }) + seq![']', ':'] + decimal(port as nat),
    }
}

/// How the IP address alone is displayed.
pub open spec fn ip_text(a: PeerAddr) -> Seq<char> {
    match a {
        PeerAddr::V4 { octets, .. } => dotted(octets@),
        PeerAddr::V6 { ip, .. } => ip@,
    }
}

/// The subnet label of an address: the first two octets of an IPv4 address
/// followed by `.x.x`, or `IPv6`.
pub open spec fn subnet_text(a: PeerAddr) -> Seq<char> {
    match a {
        PeerAddr::V4 { octets, .. } => decimal(octets@[0] as nat) + seq!['.'] + decimal(
            octets@[1] as nat,
        ) + seq!['.', 'x', '.', 'x'],
        PeerAddr::V6 { .. } => seq!['I', 'P', 'v', '6'],
    }
}

impl Clone for PeerAddr {
    fn clone(&self) -> (r: Self)
        ensures
            r == *self,
    {
        match self {
            PeerAddr::V4 { octets, port } => PeerAddr::V4 { octets: *octets, port: *port },
            PeerAddr::V6 { ip, port, scope_id } => PeerAddr::V6 { ip: ip.clone(), port: *port, scope_id: *scope_id },
        }
    }
}

/// Appends the dotted-quad rendering of `o` to `s`.
fn push_dotted(s: &mut String, o: &[u8; 4])
    ensures
        final(s)@ == old(s)@ + dotted(o@),
{
    push_decimal(s, o[0] as u64);
    push_char(s, '.');
    push_decimal(s, o[1] as u64);
    push_char(s, '.');
    push_decimal(s, o[2] as u64);
    push_char(s, '.');
    push_decimal(s, o[3] as u64);
    assert(final(s)@ =~= old(s)@ + dotted(o@));
}

/// The display form of an address.
pub fn addr_to_text(a: &PeerAddr) -> (r: String)
    ensures
        r@ == addr_text(*a),
{
    match a {
        PeerAddr::V4 { octets, port } => {
            let mut s = String::new();
            push_dotted(&mut s, octets);
            push_char(&mut s, ':');
            push_decimal(&mut s, *port as u64);
            assert(s@ =~= addr_text(*a));
            s
        },
        PeerAddr::V6 { ip, port, scope_id } => {
            let mut s = String::new();
            push_char(&mut s, '[');
            s.append(ip.as_str());
            if *scope_id != 0 {
                push_char(&mut s, '%');
                push_decimal(&mut s, *scope_id as u64);
            }
            push_char(&mut s, ']');
            push_char(&mut s, ':');
            push_decimal(&mut s, *port as u64);
            assert(s@ =~= addr_text(*a));
            s
        },
    }
}

/// The display form of the IP address alone.
pub fn ip_to_text(a: &PeerAddr) -> (r: String)
    ensures
        r@ == ip_text(*a),
{
    match a {
        PeerAddr::V4 { octets, .. } => {
            let mut s = String::new();
            push_dotted(&mut s, octets);
            assert(s@ =~= ip_text(*a));
            s
        },
        PeerAddr::V6 { ip, .. } => ip.clone(),
    }
}

/// The subnet label of an address.
pub fn subnet_from_addr(a: &PeerAddr) -> (r: String)
    ensures
        r@ == subnet_text(*a),
{
    match a {
        PeerAddr::V4 { octets, .. } => {
            let mut s = String::new();
            push_decimal(&mut s, octets[0] as u64);
            push_char(&mut s, '.');
            push_decimal(&mut s, octets[1] as u64);
            push_char(&mut s, '.');
            push_char(&mut s, 'x');
            push_char(&mut s, '.');
            push_char(&mut s, 'x');
            assert(s@ =~= subnet_text(*a));
            s
        },
        PeerAddr::V6 { .. } => {
            let mut s = String::new();
            push_char(&mut s, 'I');
            push_char(&mut s, 'P');
            push_char(&mut s, 'v');
            push_char(&mut s, '6');
            assert(s@ =~= subnet_text(*a));
            s
        },
    }
}

/// Another node of the mesh.
#[derive(Debug)]
pub struct Peer {
    pub id: NodeId,
    pub nickname: String,
    pub addr: PeerAddr,
    pub subnet: String,
    pub last_seen: Timestamp,
    pub is_gateway: bool,
}

impl Clone for Peer {
    fn clone(&self) -> (r: Self)
        ensures
            r == *self,
    {
        Peer {
            id: self.id.clone(),
            nickname: self.nickname.clone(),
            addr: self.addr.clone(),
            subnet: self.subnet.clone(),
            last_seen: self.last_seen,
            is_gateway: self.is_gateway,
        }
    }
}

impl Peer {
    /// A peer first seen now, not a gateway, with the subnet of its address.
    pub fn new(id: NodeId, nickname: String, addr: PeerAddr) -> (r: Peer)
        ensures
            r.id == id,
            r.nickname == nickname,
            r.addr == addr,
            r.subnet@ == subnet_text(addr),
            !r.is_gateway,
    {
        let subnet = subnet_from_addr(&addr);
        Peer { id, nickname, addr, subnet, last_seen: now(), is_gateway: false }
    }
}

/// Whether a channel is open to all or a private group.
#[derive(Debug, PartialEq)]
pub enum ChannelKind {
    /// Open channel: anyone on the mesh can join by typing /join.
    Open,
    /// Private group: one must request to join; the creator approves.
    Group { creator_id: NodeId, members: Vec<NodeId>, pending: Vec<NodeId> },
}

/// A copy of a vector of texts, equal to it.
pub fn clone_texts(v: &Vec<String>) -> (r: Vec<String>)
    ensures
        r@ == v@,
{
    let mut r: Vec<String> = Vec::new();
    let mut i: usize = 0;
    while i < v.len()
        invariant
            i <= v.len(),
            r@ == v@.take(i as int),
        decreases v.len() - i,
    {
        r.push(v[i].clone());
        assert(r@ =~= v@.take(i as int + 1));
        i = i + 1;
    }
    assert(v@.take(v.len() as int) =~= v@);
    r
}

/// Two channel kinds with the same contents.
pub open spec fn same_kind(a: ChannelKind, b: ChannelKind) -> bool {
    match (a, b) {
        (ChannelKind::Open, ChannelKind::Open) => true,
        (
            ChannelKind::Group { creator_id: c1, members: m1, pending: p1 },
            ChannelKind::Group { creator_id: c2, members: m2, pending: p2 },
        ) => c1 == c2 && m1@ == m2@ && p1@ == p2@,
        _ => false,
    }
}

impl Clone for ChannelKind {
    fn clone(&self) -> (r: Self)
        ensures
            same_kind(r, *self),
    {
        match self {
            ChannelKind::Open => ChannelKind::Open,
            ChannelKind::Group { creator_id, members, pending } => {
                let m = clone_texts(members);
                let p = clone_texts(pending);
                ChannelKind::Group { creator_id: creator_id.clone(), members: m, pending: p }
            },
        }
    }
}

/// A channel: its name, its messages in arrival order, how many arrived
/// while another channel was shown, and whether it is a private group.
#[derive(Debug)]
pub struct Channel {
    pub name: String,
    pub messages: Vec<Message>,
    pub unread: usize,
    pub kind: ChannelKind,
}

/// A copy of a vector of messages, equal to it.
pub fn clone_messages(v: &Vec<Message>) -> (r: Vec<Message>)
    ensures
        r@ == v@,
{
    let mut r: Vec<Message> = Vec::new();
    let mut i: usize = 0;
    while i < v.len()
        invariant
            i <= v.len(),
            r@ == v@.take(i as int),
        decreases v.len() - i,
    {
        r.push(v[i].clone());
        assert(r@ =~= v@.take(i as int + 1));
        i = i + 1;
    }
    assert(v@.take(v.len() as int) =~= v@);
    r
}

impl Clone for Channel {
    fn clone(&self) -> (r: Self)
        ensures
            r.name == self.name,
            r.messages@ == self.messages@,
            r.unread == self.unread,
            same_kind(r.kind, self.kind),
    {
        Channel {
            name: self.name.clone(),
            messages: clone_messages(&self.messages),
            unread: self.unread,
            kind: self.kind.clone(),
        }
    }
}

/// `c` is a fresh open channel named `name`: no messages, nothing unread.
pub open spec fn is_fresh_open(c: Channel, name: Seq<char>) -> bool {
    &&& c.name@ == name
    &&& c.messages@.len() == 0
    &&& c.unread == 0
    &&& c.kind is Open
}

/// `c` is a fresh private group named `name` created by `creator`, who is
/// its only member, with no pending requests.
pub open spec fn is_fresh_group(c: Channel, name: Seq<char>, creator: Seq<char>) -> bool {
    &&& c.name@ == name
    &&& c.messages@.len() == 0
    &&& c.unread == 0
    &&& c.kind matches ChannelKind::Group { creator_id, members, pending }
    &&& creator_id@ == creator
    &&& members@.len() == 1
    &&& members@[0]@ == creator
    &&& pending@.len() == 0
}

/// Whether `id` may read a channel: every node for an open channel, the
/// members for a group.
pub open spec fn member_of(kind: ChannelKind, id: Seq<char>) -> bool {
    match kind {
        ChannelKind::Open => true,
        ChannelKind::Group { members, .. } => exists|i: int|
            0 <= i < members@.len() && #[trigger] members@[i]@ == id,
    }
}

impl Channel {
    /// An open channel with no messages.
    pub fn new(name: String) -> (r: Channel)
        ensures
            r.name == name,
            is_fresh_open(r, name@),
    {
        Channel { name, messages: Vec::new(), unread: 0, kind: ChannelKind::Open }
    }

    /// A private group whose creator is its first and only member.
    pub fn new_group(name: String, creator_id: NodeId) -> (r: Channel)
        ensures
            r.name == name,
            is_fresh_group(r, name@, creator_id@),
    {
        let creator = creator_id.clone();
        let mut members: Vec<NodeId> = Vec::new();
        members.push(creator);
        Channel {
            name,
            messages: Vec::new(),
            unread: 0,
            kind: ChannelKind::Group { creator_id, members, pending: Vec::new() },
        }
    }

    /// Whether the channel is a private group.
    pub fn is_group(&self) -> (r: bool)
        ensures
            r == (self.kind is Group),
    {
        match self.kind {
            ChannelKind::Group { .. } => true,
            ChannelKind::Open => false,
        }
    }

    /// Whether `node_id` may read the channel.
    pub fn is_member(&self, node_id: &str) -> (r: bool)
        ensures
            r == member_of(self.kind, node_id@),
    {
        match &self.kind {
            ChannelKind::Open => true,
            ChannelKind::Group { members, .. } => {
                let mut i: usize = 0;
                while i < members.len()
                    invariant
                        self.kind matches ChannelKind::Group { members: mm, .. } && mm == *members,
                        i <= members.len(),
                        forall|k: int| 0 <= k < i ==> (#[trigger] members@[k])@ != node_id@,
                    decreases members.len() - i,
                {
                    if crate::text::text_eq(members[i].as_str(), node_id) {
                        assert(members@[i as int]@ == node_id@);
                        return true;
                    }
                    i = i + 1;
                }
                false
            },
        }
    }
}

/// Delivery status of a message, shown as tick marks.
#[derive(Clone, Copy, Debug, PartialEq, Eq, Structural)]
pub enum MessageStatus {
    /// Only exists locally (outgoing, before any peer got it).
    Sending,
    /// Sent to at least one peer (single tick).
    Sent,
    /// Acknowledged by the peer (double tick).
    Delivered,
    /// Read acknowledgement (reserved).
    Read,
    /// Generated by this node; no tick is shown.
    System,
}

/// What a message carries.
#[derive(Debug)]
pub enum MessageContent {
    Chat(String),
    System(String),
    Command(String),
    FileOffer { name: String, size: u64, transfer_id: String },
}

impl Clone for MessageContent {
    fn clone(&self) -> (r: Self)
        ensures
            r == *self,
    {
        match self {
            MessageContent::Chat(t) => MessageContent::Chat(t.clone()),
            MessageContent::System(t) => MessageContent::System(t.clone()),
            MessageContent::Command(t) => MessageContent::Command(t.clone()),
            MessageContent::FileOffer { name, size, transfer_id } => MessageContent::FileOffer {
                name: name.clone(),
                size: *size,
                transfer_id: transfer_id.clone(),
            },
        }
    }
}

/// A message of a channel.
#[derive(Debug)]
pub struct Message {
    pub id: String,
    pub sender_id: NodeId,
    pub sender_nick: String,
    pub channel: String,
    pub content: MessageContent,
    pub timestamp: Timestamp,
    pub status: MessageStatus,
}

impl Clone for Message {
    fn clone(&self) -> (r: Self)
        ensures
            r == *self,
    {
        Message {
            id: self.id.clone(),
            sender_id: self.sender_id.clone(),
            sender_nick: self.sender_nick.clone(),
            channel: self.channel.clone(),
            content: self.content.clone(),
            timestamp: self.timestamp,
            status: self.status,
        }
    }
}

impl Message {
    /// A chat line by `sid` (nickname `nick`) in channel `ch`, not yet sent,
    /// with a fresh id and the current time.
    pub fn chat(sid: &str, nick: &str, ch: &str, text: String) -> (r: Message)
        ensures
            r.id@.len() == 36,
            r.sender_id@ == sid@,
            r.sender_nick@ == nick@,
            r.channel@ == ch@,
            r.content == MessageContent::Chat(text),
            r.status == MessageStatus::Sending,
    {
        Message {
            id: new_id(),
            sender_id: sid.to_owned(),
            sender_nick: nick.to_owned(),
            channel: ch.to_owned(),
            content: MessageContent::Chat(text),
            timestamp: now(),
            status: MessageStatus::Sending,
        }
    }

    /// A notice of this node in `#general`, from `system`, with a fresh id
    /// and the current time.
    pub fn system(text: String) -> (r: Message)
        ensures
            r.id@.len() == 36,
            r.sender_id@ == "system"@,
            r.sender_nick@ == "system"@,
            r.channel@ == "#general"@,
            r.content == MessageContent::System(text),
            r.status == MessageStatus::System,
    {
        Message {
            id: new_id(),
            sender_id: "system".to_owned(),
            sender_nick: "system".to_owned(),
            channel: "#general".to_owned(),
            content: MessageContent::System(text),
            timestamp: now(),
            status: MessageStatus::System,
        }
    }

    /// A shared command line by `sid` (nickname `nick`) in channel `ch`, not
    /// yet sent, with a fresh id and the current time.
    pub fn command(sid: &str, nick: &str, ch: &str, cmd: String) -> (r: Message)
        ensures
            r.id@.len() == 36,
            r.sender_id@ == sid@,
            r.sender_nick@ == nick@,
            r.channel@ == ch@,
            r.content == MessageContent::Command(cmd),
            r.status == MessageStatus::Sending,
    {
        Message {
            id: new_id(),
            sender_id: sid.to_owned(),
            sender_nick: nick.to_owned(),
            channel: ch.to_owned(),
            content: MessageContent::Command(cmd),
            timestamp: now(),
            status: MessageStatus::Sending,
        }
    }
}

/// Which way a file travels.
#[derive(Clone, Copy, Debug, PartialEq, Eq, Structural)]
pub enum TransferDirection {
    Sending,
    Receiving,
}

/// Where a file transfer stands.
#[derive(Debug, PartialEq)]
pub enum TransferStatus {
    Pending,
    Active,
    Complete,
    Failed(String),
}

impl Clone for TransferStatus {
    fn clone(&self) -> (r: Self)
        ensures
            r == *self,
    {
        match self {
            TransferStatus::Pending => TransferStatus::Pending,
            TransferStatus::Active => TransferStatus::Active,
            TransferStatus::Complete => TransferStatus::Complete,
            TransferStatus::Failed(e) => TransferStatus::Failed(e.clone()),
        }
    }
}

/// A file transfer, in either direction.
#[derive(Debug)]
pub struct FileTransfer {
    pub id: String,
    pub filename: String,
    pub size: u64,
    pub transferred: u64,
    pub direction: TransferDirection,
    pub peer_nick: String,
    pub status: TransferStatus,
}

impl FileTransfer {
    /// How far the transfer has come, in percent (see `pct_of`): 100 for an
    /// empty file, never more than 100.
    pub fn progress_pct(&self) -> (r: u8)
        ensures
            r == pct_of(self.transferred as nat, self.size as nat),
    {
        let transferred = self.transferred;
        let size = self.size;
        if size == 0 {
            return 100;
        }
        let a = float_value(transferred);
        let b = float_value(size);
        if a >= b {
            return 100;
        }
        if a == 0 {
            return 0;
        }
        let mut m: u128 = 1;
        while a * m < 4503599627370496 * b
            invariant
                1 <= a < b,
                b <= 36893488147419103232,
                1 <= m,
                a * m < two_53() * b,
                scale_mult(a as nat, b as nat, m as nat) == scale_mult(a as nat, b as nat, 1),
            decreases two_53() * b - a * m,
        {
            assert(a * (2 * m) == 2 * (a * m)) by (nonlinear_arith);
            assert(m <= a * m) by (nonlinear_arith)
                requires
                    a >= 1,
                    m >= 1,
            {
            }
            m = 2 * m;
        }
        assert(scale_mult(a as nat, b as nat, m as nat) == m);
        let am = a * m;
        assert(am / b < two_53()) by (nonlinear_arith)
            requires
                am < two_53() * b,
                b >= 1,
        {
        }
        let q = div_round_half_even(am, b);
        assert(q <= two_53());
        let p = float_value((100 * q) as u64);
        let f = p / m;
        if f >= 100 {
            100
        } else {
            f as u8
        }
    }
}

impl Clone for FileTransfer {
    fn clone(&self) -> (r: Self)
        ensures
            r == *self,
    {
        FileTransfer {
            id: self.id.clone(),
            filename: self.filename.clone(),
            size: self.size,
            transferred: self.transferred,
            direction: self.direction,
            peer_nick: self.peer_nick.clone(),
            status: self.status.clone(),
        }
    }
}

/// A private group as announced on the mesh.
#[derive(Debug)]
pub struct GroupInfo {
    pub name: String,
    pub creator_id: NodeId,
    pub members: Vec<NodeId>,
}

/// A packet on the wire (discovery datagrams and session frames).
#[derive(Debug)]
pub enum WirePacket {
    Hello { node_id: NodeId, nickname: String, tcp_port: u16, is_gateway: bool },
    KeyExchange { node_id: NodeId, public_key: Vec<u8> },
    KeyExchangeAck { node_id: NodeId, public_key: Vec<u8> },
    Encrypted { from_id: NodeId, nonce: Vec<u8>, ciphertext: Vec<u8> },
    Ping { node_id: NodeId },
    Goodbye { node_id: NodeId },
    FileChunk { transfer_id: String, chunk_index: u64, data: Vec<u8>, is_last: bool },
}

/// The payload of an encrypted packet, between two peers.
#[derive(Debug)]
pub enum AppMessage {
    Chat(Message),
    /// Delivery acknowledgement for a message id.
    Delivered { msg_id: String },
    FileOffer { name: String, size: u64, transfer_id: String, from_id: NodeId },
    FileAccept { transfer_id: String },
    FileReject { transfer_id: String },
    /// A private group exists.
    GroupAnnounce { info: GroupInfo },
    GroupJoinReq { group_name: String, requester_id: NodeId, requester_nick: String },
    GroupJoinApprove { group_name: String, approved_id: NodeId },
    GroupJoinDeny { group_name: String, denied_id: NodeId },
    Ping,
}

} // verus!
