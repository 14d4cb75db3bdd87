//! The node's state: known peers, channels and their messages, file
//! transfers, join requests received as a group owner, and gateway mode.

use vstd::prelude::*;
use vstd::string::*;
use crate::discovery::PEER_TIMEOUT_SECS;
use crate::text::{starts, starts_with, text_eq};
use crate::types::{clone_messages, same_kind, is_fresh_open, is_fresh_group, Channel, ChannelKind, FileTransfer, Message, MessageContent, MessageStatus, NodeId, Peer, Timestamp, TransferStatus, now};

verus! {

/// A join request received as a group owner: group, requester id, nickname.
pub type JoinRequest = (String, NodeId, String);

/// Whether some channel of `chs` is named `name`.
pub open spec fn has_channel(chs: Seq<Channel>, name: Seq<char>) -> bool {
    exists|i: int| 0 <= i < chs.len() && #[trigger] chs[i].name@ == name
}

/// Whether some peer of `ps` has the id `id`.
pub open spec fn has_peer(ps: Seq<Peer>, id: Seq<char>) -> bool {
    exists|i: int| 0 <= i < ps.len() && #[trigger] ps[i].id@ == id
}

/// Whether `reqs` holds a request of `id` for `group`.
pub open spec fn has_request(reqs: Seq<JoinRequest>, group: Seq<char>, id: Seq<char>) -> bool {
    exists|i: int| 0 <= i < reqs.len() && (#[trigger] reqs[i]).0@ == group && reqs[i].1@ == id
}

/// `s` without the texts equal to `x`, in order.
pub open spec fn without(s: Seq<String>, x: Seq<char>) -> Seq<String>
    decreases s.len(),
{
    if s.len() == 0 {
        s
    } else {
        let r = without(s.drop_last(), x);
        if s.last()@ == x {
            r
        } else {
            r.push(s.last())
        }
    }
}

/// `reqs` without the requests of `id` for `group`, in order.
pub open spec fn without_request(reqs: Seq<JoinRequest>, group: Seq<char>, id: Seq<char>) -> Seq<
    JoinRequest,
>
    decreases reqs.len(),
{
    if reqs.len() == 0 {
        reqs
    } else {
        let r = without_request(reqs.drop_last(), group, id);
        if reqs.last().0@ == group && reqs.last().1@ == id {
            r
        } else {
            r.push(reqs.last())
        }
    }
}

/// The node's shared state.
pub struct AppState {
    self_id: String,
    nickname: String,
    peers: Vec<Peer>,
    channels: Vec<Channel>,
    transfers: Vec<FileTransfer>,
    active_ch: usize,
    pending_reqs: Vec<JoinRequest>,
    gateway_mode: bool,
}

/// The greeting placed in `#general` when a node starts.
pub const WELCOME: &'static str = "mshwisper online. Mesh discovery active. All traffic is end-to-end encrypted.";

impl AppState {
    /// This node's id.
    pub closed spec fn id_view(&self) -> Seq<char> {
        self.self_id@
    }

    /// This node's nickname.
    pub closed spec fn nick_view(&self) -> Seq<char> {
        self.nickname@
    }

    /// The known peers.
    pub closed spec fn peer_seq(&self) -> Seq<Peer> {
        self.peers@
    }

    /// The channels, in the order they were added.
    pub closed spec fn channel_seq(&self) -> Seq<Channel> {
        self.channels@
    }

    /// The file transfers, in the order they were added.
    pub closed spec fn transfer_seq(&self) -> Seq<FileTransfer> {
        self.transfers@
    }

    /// The index of the channel shown.
    pub closed spec fn active(&self) -> nat {
        self.active_ch as nat
    }

    /// Join requests received as a group owner, in arrival order.
    pub closed spec fn request_seq(&self) -> Seq<JoinRequest> {
        self.pending_reqs@
    }

    /// Whether this node bridges to another subnet.
    pub closed spec fn gateway(&self) -> bool {
        self.gateway_mode
    }

    /// The state's invariant: the shown channel exists, channel names are
    /// distinct, peer ids are distinct, and no join request is held twice.
    pub closed spec fn wf(&self) -> bool {
        &&& self.active_ch < self.channels@.len()
        &&& forall|i: int, j: int|
            0 <= i < j < self.channels@.len() ==> (#[trigger] self.channels@[i]).name@
                != (#[trigger] self.channels@[j]).name@
        &&& forall|i: int, j: int|
            0 <= i < j < self.peers@.len() ==> (#[trigger] self.peers@[i]).id@
                != (#[trigger] self.peers@[j]).id@
        &&& forall|i: int, j: int|
            0 <= i < j < self.pending_reqs@.len() ==> !((#[trigger] self.pending_reqs@[i]).0@
                == (#[trigger] self.pending_reqs@[j]).0@ && self.pending_reqs@[i].1@
                == self.pending_reqs@[j].1@)
    }

    /// Everything but the channels and the shown channel is as in `old`.
    pub open spec fn same_but_channels(&self, old: &AppState) -> bool {
        &&& self.id_view() == old.id_view()
        &&& self.nick_view() == old.nick_view()
        &&& self.peer_seq() == old.peer_seq()
        &&& self.transfer_seq() == old.transfer_seq()
        &&& self.request_seq() == old.request_seq()
        &&& self.gateway() == old.gateway()
    }

    /// Everything but the peers is as in `old`.
    pub open spec fn same_but_peers(&self, old: &AppState) -> bool {
        &&& self.id_view() == old.id_view()
        &&& self.nick_view() == old.nick_view()
        &&& self.channel_seq() == old.channel_seq()
        &&& self.active() == old.active()
        &&& self.transfer_seq() == old.transfer_seq()
        &&& self.request_seq() == old.request_seq()
        &&& self.gateway() == old.gateway()
    }

    /// Everything but the transfers is as in `old`.
    pub open spec fn same_but_transfers(&self, old: &AppState) -> bool {
        &&& self.id_view() == old.id_view()
        &&& self.nick_view() == old.nick_view()
        &&& self.peer_seq() == old.peer_seq()
        &&& self.channel_seq() == old.channel_seq()
        &&& self.active() == old.active()
        &&& self.request_seq() == old.request_seq()
        &&& self.gateway() == old.gateway()
    }

    /// Everything but the join requests is as in `old`.
    pub open spec fn same_but_requests(&self, old: &AppState) -> bool {
        &&& self.id_view() == old.id_view()
        &&& self.nick_view() == old.nick_view()
        &&& self.peer_seq() == old.peer_seq()
        &&& self.channel_seq() == old.channel_seq()
        &&& self.active() == old.active()
        &&& self.transfer_seq() == old.transfer_seq()
        &&& self.gateway() == old.gateway()
    }

    /// A fresh state: the channels `#general` (holding the greeting),
    /// `#recon` and `#web-attack`, `#general` shown, nothing else known.
    pub fn new(self_id: String, nickname: String) -> (r: AppState)
        ensures
            r.wf(),
            r.id_view() == self_id@,
            r.nick_view() == nickname@,
            r.peer_seq().len() == 0,
            r.transfer_seq().len() == 0,
            r.request_seq().len() == 0,
            !r.gateway(),
            r.active() == 0,
            r.channel_seq().len() == 3,
            r.channel_seq()[0].name@ == "#general"@,
            r.channel_seq()[1].name@ == "#recon"@,
            r.channel_seq()[2].name@ == "#web-attack"@,
            r.channel_seq()[0].messages@.len() == 1,
            r.channel_seq()[0].messages@[0].content matches MessageContent::System(t) && t@ == WELCOME@,
            r.channel_seq()[0].messages@[0].status == MessageStatus::System,
            forall|i: int| 0 <= i < 3 ==> (#[trigger] r.channel_seq()[i]).unread == 0 && r.channel_seq()[i].kind is Open,
            r.channel_seq()[1].messages@.len() == 0,
            r.channel_seq()[2].messages@.len() == 0,
    {
        let mut general = Channel::new("#general".to_owned());
        general.messages.push(Message::system(WELCOME.to_owned()));
        let mut channels: Vec<Channel> = Vec::new();
        channels.push(general);
        channels.push(Channel::new("#recon".to_owned()));
        channels.push(Channel::new("#web-attack".to_owned()));
        proof {
            reveal_strlit("#general");
            reveal_strlit("#recon");
            reveal_strlit("#web-attack");
            assert(channels@[0].name@.len() == 8);
            assert(channels@[1].name@.len() == 6);
            assert(channels@[2].name@.len() == 11);
        }
        AppState {
            self_id,
            nickname,
            peers: Vec::new(),
            channels,
            transfers: Vec::new(),
            active_ch: 0,
            pending_reqs: Vec::new(),
            gateway_mode: false,
        }
    }

    /// This node's id.
    pub fn self_id(&self) -> (r: &str)
        ensures
            r@ == self.id_view(),
    {
        self.self_id.as_str()
    }

    /// This node's nickname.
    pub fn nickname(&self) -> (r: &str)
        ensures
            r@ == self.nick_view(),
    {
        self.nickname.as_str()
    }

    // ── Peers ──────────────────────────────────────────────────────────────

    /// The position of the peer with id `id`, if known.
    pub fn peer_index(&self, id: &str) -> (r: Option<usize>)
        ensures
            match r {
                Some(i) => i < self.peer_seq().len() && self.peer_seq()[i as int].id@ == id@,
                None => !has_peer(self.peer_seq(), id@),
            },
    {
        let mut i: usize = 0;
        while i < self.peers.len()
            invariant
                i <= self.peers@.len(),
                forall|k: int| 0 <= k < i ==> (#[trigger] self.peers@[k]).id@ != id@,
            decreases self.peers@.len() - i,
        {
            if text_eq(self.peers[i].id.as_str(), id) {
                return Some(i);
            }
            i = i + 1;
        }
        None
    }

    /// The known peers.
    pub fn peers(&self) -> (r: &Vec<Peer>)
        ensures
            r@ == self.peer_seq(),
    {
        &self.peers
    }

    /// How many peers are known.
    pub fn peer_count(&self) -> (r: usize)
        ensures
            r == self.peer_seq().len(),
    {
        self.peers.len()
    }

    /// Records `p`, replacing the peer with the same id if there is one.
    pub fn add_peer(&mut self, p: Peer)
        requires
            old(self).wf(),
        ensures
            final(self).wf(),
            final(self).same_but_peers(old(self)),
            has_peer(old(self).peer_seq(), p.id@) ==> exists|i: int|
                0 <= i < old(self).peer_seq().len() && old(self).peer_seq()[i].id@ == p.id@
                    && final(self).peer_seq() == old(self).peer_seq().update(i, p),
            !has_peer(old(self).peer_seq(), p.id@) ==> final(self).peer_seq() == old(self).peer_seq().push(p),
    {
        match self.peer_index(p.id.as_str()) {
            Some(i) => {
                self.peers.set(i, p);
            },
            None => {
                self.peers.push(p);
            },
        }
    }

    /// Forgets the peer with id `id`, if known.
    pub fn remove_peer(&mut self, id: &str)
        requires
            old(self).wf(),
        ensures
            final(self).wf(),
            final(self).same_but_peers(old(self)),
            has_peer(old(self).peer_seq(), id@) ==> exists|i: int|
                0 <= i < old(self).peer_seq().len() && old(self).peer_seq()[i].id@ == id@
                    && final(self).peer_seq() == old(self).peer_seq().remove(i),
            !has_peer(old(self).peer_seq(), id@) ==> final(self).peer_seq() == old(self).peer_seq(),
            !has_peer(final(self).peer_seq(), id@),
    {
        match self.peer_index(id) {
            Some(i) => {
                self.peers.remove(i);
                assert forall|k: int| 0 <= k < self.peers@.len() implies (#[trigger] self.peers@[k]).id@ != id@ by {
                    if k < i {
                        assert(self.peers@[k] == old(self).peers@[k]);
                    } else {
                        assert(self.peers@[k] == old(self).peers@[k + 1]);
                    }
                }
            },
            None => {},
        }
    }

    /// Marks the peer with id `id`, if known, as seen at `at`.
    pub fn touch_peer(&mut self, id: &str, at: Timestamp)
        requires
            old(self).wf(),
        ensures
            final(self).wf(),
            final(self).same_but_peers(old(self)),
            final(self).peer_seq().len() == old(self).peer_seq().len(),
            forall|i: int| 0 <= i < old(self).peer_seq().len() ==> {
                let (o, n) = (old(self).peer_seq()[i], #[trigger] final(self).peer_seq()[i]);
                if o.id@ == id@ {
                    n == Peer { last_seen: at, ..o }
                } else {
                    n == o
                }
            },
    {
        match self.peer_index(id) {
            Some(i) => {
                let mut p = self.peers.remove(i);
                p.last_seen = at;
                self.peers.insert(i, p);
                assert forall|k: int| 0 <= k < old(self).peers@.len() && k != i implies old(self).peers@[k].id@ != id@ by {
                    if k < i {
                        assert(old(self).peers@[k].id@ != old(self).peers@[i as int].id@);
                    } else {
                        assert(old(self).peers@[i as int].id@ != old(self).peers@[k].id@);
                    }
                }
            },
            None => {},
        }
    }

    /// Marks the peer with id `id`, if known, as seen now.
    pub fn update_peer_seen(&mut self, id: &str)
        requires
            old(self).wf(),
        ensures
            final(self).wf(),
            final(self).same_but_peers(old(self)),
            final(self).peer_seq().len() == old(self).peer_seq().len(),
            forall|i: int| 0 <= i < old(self).peer_seq().len() ==> {
                let (o, n) = (old(self).peer_seq()[i], #[trigger] final(self).peer_seq()[i]);
                &&& n.id == o.id
                &&& n.nickname == o.nickname
                &&& n.addr == o.addr
                &&& n.subnet == o.subnet
                &&& n.is_gateway == o.is_gateway
                &&& o.id@ != id@ ==> n == o
            },
    {
        let at = now();
        self.touch_peer(id, at);
    }

    /// The nickname of the peer with id `id`, if known.
    pub fn peer_nickname(&self, id: &str) -> (r: Option<String>)
        ensures
            match r {
                Some(n) => exists|i: int|
                    0 <= i < self.peer_seq().len() && self.peer_seq()[i].id@ == id@ && #[trigger] self.peer_seq()[i].nickname == n,
                None => !has_peer(self.peer_seq(), id@),
            },
    {
        match self.peer_index(id) {
            Some(i) => Some(self.peers[i].nickname.clone()),
            None => None,
        }
    }

    /// The ids of the peers last seen more than `PEER_TIMEOUT_SECS` whole
    /// seconds before `at`, in the order the peers are held.
    pub fn stale_peers(&self, at: Timestamp) -> (r: Vec<NodeId>)
        ensures
            r@.map_values(|x: String| x@) == stale_ids(self.peer_seq(), at),
    {
        let mut r: Vec<NodeId> = Vec::new();
        let mut i: usize = 0;
        while i < self.peers.len()
            invariant
                i <= self.peers@.len(),
                r@.map_values(|x: String| x@) == stale_ids(self.peers@.take(i as int), at),
            decreases self.peers@.len() - i,
        {
            let ghost prev = r@;
            assert(self.peers@.take(i as int + 1).drop_last() =~= self.peers@.take(i as int));
            if is_stale(&self.peers[i], at) {
                r.push(self.peers[i].id.clone());
                assert(r@.map_values(|x: String| x@) =~= prev.map_values(|x: String| x@).push(self.peers@[i as int].id@));
            }
            i = i + 1;
        }
        assert(self.peers@.take(self.peers@.len() as int) =~= self.peers@);
        r
    }

    // ── Channels ───────────────────────────────────────────────────────────

    /// The position of the channel named `name`, if there is one.
    pub fn channel_index(&self, name: &str) -> (r: Option<usize>)
        ensures
            match r {
                Some(i) => i < self.channel_seq().len() && self.channel_seq()[i as int].name@ == name@,
                None => !has_channel(self.channel_seq(), name@),
            },
    {
        let mut i: usize = 0;
        while i < self.channels.len()
            invariant
                i <= self.channels@.len(),
                forall|k: int| 0 <= k < i ==> (#[trigger] self.channels@[k]).name@ != name@,
            decreases self.channels@.len() - i,
        {
            if text_eq(self.channels[i].name.as_str(), name) {
                return Some(i);
            }
            i = i + 1;
        }
        None
    }

    /// How many channels there are.
    pub fn channels_len(&self) -> (r: usize)
        ensures
            r == self.channel_seq().len(),
    {
        self.channels.len()
    }

    /// The channel names, in order.
    pub fn channel_names(&self) -> (r: Vec<String>)
        ensures
            r@.len() == self.channel_seq().len(),
            forall|i: int| 0 <= i < r@.len() ==> #[trigger] r@[i] == self.channel_seq()[i].name,
    {
        let mut r: Vec<String> = Vec::new();
        let mut i: usize = 0;
        while i < self.channels.len()
            invariant
                i <= self.channels@.len(),
                r@.len() == i,
                forall|k: int| 0 <= k < i ==> #[trigger] r@[k] == self.channels@[k].name,
            decreases self.channels@.len() - i,
        {
            r.push(self.channels[i].name.clone());
            i = i + 1;
        }
        r
    }

    /// The unread counts of the channels, in order.
    pub fn channel_unreads(&self) -> (r: Vec<usize>)
        ensures
            r@.len() == self.channel_seq().len(),
            forall|i: int| 0 <= i < r@.len() ==> #[trigger] r@[i] == self.channel_seq()[i].unread,
    {
        let mut r: Vec<usize> = Vec::new();
        let mut i: usize = 0;
        while i < self.channels.len()
            invariant
                i <= self.channels@.len(),
                r@.len() == i,
                forall|k: int| 0 <= k < i ==> #[trigger] r@[k] == self.channels@[k].unread,
            decreases self.channels@.len() - i,
        {
            r.push(self.channels[i].unread);
            i = i + 1;
        }
        r
    }

    /// The kinds of the channels, in order.
    pub fn channel_kinds(&self) -> (r: Vec<ChannelKind>)
        ensures
            r@.len() == self.channel_seq().len(),
            forall|i: int| 0 <= i < r@.len() ==> same_kind(#[trigger] r@[i], self.channel_seq()[i].kind),
    {
        let mut r: Vec<ChannelKind> = Vec::new();
        let mut i: usize = 0;
        while i < self.channels.len()
            invariant
                i <= self.channels@.len(),
                r@.len() == i,
                forall|k: int| 0 <= k < i ==> same_kind(#[trigger] r@[k], self.channels@[k].kind),
            decreases self.channels@.len() - i,
        {
            r.push(self.channels[i].kind.clone());
            i = i + 1;
        }
        r
    }

    /// The name of the channel shown.
    pub fn active_channel_name(&self) -> (r: String)
        requires
            self.wf(),
        ensures
            r == self.channel_seq()[self.active() as int].name,
    {
        self.channels[self.active_ch].name.clone()
    }

    /// The first peer, in the order peers are held, whose nickname is
    /// `target` or whose id begins with `target`.
    pub fn find_peer_for_target(&self, target: &str) -> (r: Option<NodeId>)
        ensures
            match r {
                Some(id) => exists|i: int|
                    #![trigger self.peer_seq()[i]]
                    0 <= i < self.peer_seq().len() && self.peer_seq()[i].id == id && targets(self.peer_seq()[i], target@)
                        && forall|k: int| 0 <= k < i ==> !targets(#[trigger] self.peer_seq()[k], target@),
                None => forall|k: int| 0 <= k < self.peer_seq().len() ==> !targets(#[trigger] self.peer_seq()[k], target@),
            },
    {
        let mut i: usize = 0;
        while i < self.peers.len()
            invariant
                i <= self.peers@.len(),
                forall|k: int| 0 <= k < i ==> !targets(#[trigger] self.peers@[k], target@),
            decreases self.peers@.len() - i,
        {
            let p = &self.peers[i];
            if text_eq(p.nickname.as_str(), target) || starts_with(p.id.as_str(), target) {
                assert(targets(self.peer_seq()[i as int], target@));
                return Some(p.id.clone());
            }
            i = i + 1;
        }
        None
    }

    /// The index of the channel shown.
    pub fn active_channel_index(&self) -> (r: usize)
        ensures
            r == self.active(),
            self.wf() ==> r < self.channel_seq().len(),
    {
        self.active_ch
    }

    /// Shows channel `idx` and clears its unread count; nothing happens when
    /// there is no such channel.
    pub fn set_active_channel(&mut self, idx: usize)
        requires
            old(self).wf(),
        ensures
            final(self).wf(),
            final(self).same_but_channels(old(self)),
            idx < old(self).channel_seq().len() ==> {
                &&& final(self).active() == idx
                &&& final(self).channel_seq() == old(self).channel_seq().update(
                    idx as int,
                    Channel { unread: 0, ..old(self).channel_seq()[idx as int] },
                )
            },
            idx >= old(self).channel_seq().len() ==> final(self).active() == old(self).active()
                && final(self).channel_seq() == old(self).channel_seq(),
    {
        if idx < self.channels.len() {
            self.active_ch = idx;
            let mut ch = self.channels.remove(idx);
            ch.unread = 0;
            self.channels.insert(idx, ch);
            assert(self.channels@ =~= old(self).channels@.update(
                idx as int,
                Channel { unread: 0, ..old(self).channels@[idx as int] },
            ));
        }
    }

    /// Adds an open channel named `name` unless a channel has that name.
    pub fn add_channel(&mut self, name: String)
        requires
            old(self).wf(),
        ensures
            final(self).wf(),
            final(self).same_but_channels(old(self)),
            final(self).active() == old(self).active(),
            channel_added(old(self).channel_seq(), final(self).channel_seq(), name@),
            final(self).channel_seq().len() > old(self).channel_seq().len() ==> final(self).channel_seq().last().name == name,
    {
        match self.channel_index(name.as_str()) {
            Some(_) => {},
            None => {
                self.channels.push(Channel::new(name));
                assert(self.channels@.drop_last() =~= old(self).channels@);
            },
        }
    }

    /// Adds a private group named `name` created by `creator_id` unless a
    /// channel has that name; tells whether it was added.
    pub fn add_group_channel(&mut self, name: String, creator_id: NodeId) -> (r: bool)
        requires
            old(self).wf(),
        ensures
            final(self).wf(),
            final(self).same_but_channels(old(self)),
            final(self).active() == old(self).active(),
            r == !has_channel(old(self).channel_seq(), name@),
            !r ==> final(self).channel_seq() == old(self).channel_seq(),
            r ==> {
                &&& final(self).channel_seq().drop_last() == old(self).channel_seq()
                &&& final(self).channel_seq().len() == old(self).channel_seq().len() + 1
                &&& is_fresh_group(final(self).channel_seq().last(), name@, creator_id@)
            },
    {
        match self.channel_index(name.as_str()) {
            Some(_) => false,
            None => {
                self.channels.push(Channel::new_group(name, creator_id));
                assert(self.channels@.drop_last() =~= old(self).channels@);
                true
            },
        }
    }

    /// Admits `member_id` to the private group named `group_name`: drops
    /// its pending requests and adds it to the members unless it is one.
    /// Nothing happens when there is no such channel or it is open.
    pub fn group_approve(&mut self, group_name: &str, member_id: NodeId)
        requires
            old(self).wf(),
        ensures
            final(self).wf(),
            final(self).same_but_channels(old(self)),
            final(self).active() == old(self).active(),
            group_approved(old(self).channel_seq(), final(self).channel_seq(), group_name@, member_id),
    {
        match self.channel_index(group_name) {
            None => {},
            Some(i) => {
                let ch = self.channels.remove(i);
                let Channel { name, messages, unread, kind } = ch;
                let ghost old_kind = kind;
                let new_kind = match kind {
                    ChannelKind::Open => ChannelKind::Open,
                    ChannelKind::Group { creator_id, members, pending } => {
                        let p = drop_text(&pending, member_id.as_str());
                        let mut m = members;
                        if !contains_text(&m, member_id.as_str()) {
                            m.push(member_id);
                        }
                        ChannelKind::Group { creator_id, members: m, pending: p }
                    },
                };
                assert(approved(old_kind, new_kind, member_id));
                self.channels.insert(i, Channel { name, messages, unread, kind: new_kind });
                assert(only_kind_changed(old(self).channels@, self.channels@, i as int));
                assert(old(self).channel_seq()[i as int].name@ == group_name@
                    && only_kind_changed(old(self).channel_seq(), self.channel_seq(), i as int)
                    && approved(old(self).channel_seq()[i as int].kind, self.channel_seq()[i as int].kind, member_id));
            },
        }
    }

    /// Whether the channel named `group` is a private group this node
    /// created.
    pub fn owns_group(&self, group: &str) -> (r: bool)
        requires
            self.wf(),
        ensures
            r == group_owned_by(self.channel_seq(), group@, self.id_view()),
    {
        match self.channel_index(group) {
            None => false,
            Some(i) => {
                let owned = match &self.channels[i].kind {
                    ChannelKind::Open => false,
                    ChannelKind::Group { creator_id, .. } => text_eq(creator_id.as_str(), self.self_id.as_str()),
                };
                proof {
                    assert forall|j: int| 0 <= j < self.channels@.len() && self.channels@[j].name@ == group@ implies j == i by {
                        if j < i {
                            assert(self.channels@[j].name@ != self.channels@[i as int].name@);
                        } else if j > i {
                            assert(self.channels@[i as int].name@ != self.channels@[j].name@);
                        }
                    }
                }
                owned
            },
        }
    }

    /// Drops the pending request of `requester_id` from the private group
    /// named `group_name`.  Nothing happens when there is no such channel or
    /// it is open.
    pub fn group_deny(&mut self, group_name: &str, requester_id: &str)
        requires
            old(self).wf(),
        ensures
            final(self).wf(),
            final(self).same_but_channels(old(self)),
            final(self).active() == old(self).active(),
            group_denied(old(self).channel_seq(), final(self).channel_seq(), group_name@, requester_id@),
    {
        match self.channel_index(group_name) {
            None => {},
            Some(i) => {
                let ch = self.channels.remove(i);
                let Channel { name, messages, unread, kind } = ch;
                let ghost old_kind = kind;
                let new_kind = match kind {
                    ChannelKind::Open => ChannelKind::Open,
                    ChannelKind::Group { creator_id, members, pending } => {
                        let p = drop_text(&pending, requester_id);
                        ChannelKind::Group { creator_id, members, pending: p }
                    },
                };
                assert(denied(old_kind, new_kind, requester_id@));
                self.channels.insert(i, Channel { name, messages, unread, kind: new_kind });
                assert(only_kind_changed(old(self).channels@, self.channels@, i as int));
                assert(old(self).channel_seq()[i as int].name@ == group_name@
                    && only_kind_changed(old(self).channel_seq(), self.channel_seq(), i as int)
                    && denied(old(self).channel_seq()[i as int].kind, self.channel_seq()[i as int].kind, requester_id@));
            },
        }
    }

    /// Records a pending request of `requester_id` in the private group
    /// named `group_name`, unless it is already pending.  Nothing happens
    /// when there is no such channel or it is open.
    pub fn group_add_pending(&mut self, group_name: &str, requester_id: NodeId)
        requires
            old(self).wf(),
        ensures
            final(self).wf(),
            final(self).same_but_channels(old(self)),
            final(self).active() == old(self).active(),
            group_pending_added(old(self).channel_seq(), final(self).channel_seq(), group_name@, requester_id),
    {
        match self.channel_index(group_name) {
            None => {},
            Some(i) => {
                let ch = self.channels.remove(i);
                let Channel { name, messages, unread, kind } = ch;
                let ghost old_kind = kind;
                let new_kind = match kind {
                    ChannelKind::Open => ChannelKind::Open,
                    ChannelKind::Group { creator_id, members, pending } => {
                        let mut p = pending;
                        if !contains_text(&p, requester_id.as_str()) {
                            p.push(requester_id);
                        }
                        ChannelKind::Group { creator_id, members, pending: p }
                    },
                };
                assert(with_pending(old_kind, new_kind, requester_id));
                self.channels.insert(i, Channel { name, messages, unread, kind: new_kind });
                assert(only_kind_changed(old(self).channels@, self.channels@, i as int));
                assert(old(self).channel_seq()[i as int].name@ == group_name@
                    && only_kind_changed(old(self).channel_seq(), self.channel_seq(), i as int)
                    && with_pending(old(self).channel_seq()[i as int].kind, self.channel_seq()[i as int].kind, requester_id));
            },
        }
    }

    /// Appends `msg` to the channel it names, counting it unread unless that
    /// channel is shown; a channel of that name is opened when none exists.
    pub fn push_message(&mut self, msg: Message)
        requires
            old(self).wf(),
        ensures
            final(self).wf(),
            final(self).same_but_channels(old(self)),
            final(self).active() == old(self).active(),
            message_pushed(old(self).channel_seq(), final(self).channel_seq(), old(self).active() as int, msg),
    {
        match self.channel_index(msg.channel.as_str()) {
            Some(p) => {
                let mut ch = self.channels.remove(p);
                ch.messages.push(msg);
                if p != self.active_ch {
                    ch.unread = ch.unread.saturating_add(1);
                }
                self.channels.insert(p, ch);
                assert(self.channel_seq()[p as int].name@ == msg.channel@);
                assert(delivered_to(old(self).channel_seq(), self.channel_seq(), p as int, old(self).active() as int, msg));
            },
            None => {
                let mut ch = Channel::new(msg.channel.clone());
                ch.messages.push(msg);
                self.channels.push(ch);
                assert(self.channels@.drop_last() =~= old(self).channels@);
                assert(self.channels@.last().messages@ =~= seq![msg]);
            },
        }
    }

    /// Moves the first message, in channel order then arrival order, whose
    /// id is `msg_id` and whose status is `from` to status `to`.
    fn restamp(&mut self, msg_id: &str, from: MessageStatus, to: MessageStatus)
        requires
            old(self).wf(),
        ensures
            final(self).wf(),
            final(self).same_but_channels(old(self)),
            final(self).active() == old(self).active(),
            restamped(old(self).channel_seq(), final(self).channel_seq(), msg_id@, from, to),
    {
        let mut c: usize = 0;
        while c < self.channels.len()
            invariant
                self.wf(),
                *self == *old(self),
                c <= self.channels@.len(),
                forall|c2: int, m2: int| 0 <= c2 < c ==> !#[trigger] is_hit(self.channels@, c2, m2, msg_id@, from),
            decreases self.channels@.len() - c,
        {
            let n = self.channels[c].messages.len();
            let mut m: usize = 0;
            while m < n
                invariant
                    self.wf(),
                    *self == *old(self),
                    c < self.channels@.len(),
                    n == self.channels@[c as int].messages@.len(),
                    m <= n,
                    forall|c2: int, m2: int| 0 <= c2 < c ==> !#[trigger] is_hit(self.channels@, c2, m2, msg_id@, from),
                    forall|m2: int| 0 <= m2 < m ==> !#[trigger] is_hit(self.channels@, c as int, m2, msg_id@, from),
                decreases n - m,
            {
                let hit = self.channels[c].messages[m].status == from && text_eq(
                    self.channels[c].messages[m].id.as_str(),
                    msg_id,
                );
                if hit {
                    let ghost old_chs = self.channels@;
                    assert(is_hit(old_chs, c as int, m as int, msg_id@, from));
                    assert(first_hit(old_chs, c as int, m as int, msg_id@, from)) by {
                        assert forall|c2: int, m2: int| #[trigger] is_hit(old_chs, c2, m2, msg_id@, from) implies c < c2 || (c == c2 && m <= m2) by {
                            if c2 < c {
                            } else if c2 == c && m2 < m {
                            }
                        }
                    }
                    let mut ch = self.channels.remove(c);
                    let mut mm = ch.messages.remove(m);
                    mm.status = to;
                    ch.messages.insert(m, mm);
                    self.channels.insert(c, ch);
                    assert(self.channels@[c as int].messages@ =~= old_chs[c as int].messages@.update(
                        m as int,
                        Message { status: to, ..old_chs[c as int].messages@[m as int] },
                    ));
                    assert(stamped_at(old_chs, self.channels@, c as int, m as int, to));
                    return;
                }
                m = m + 1;
            }
            c = c + 1;
        }
        assert(!exists|c2: int, m2: int| #[trigger] is_hit(self.channels@, c2, m2, msg_id@, from));
    }

    /// Marks the first message with id `msg_id` that is still `Sending`
    /// as `Sent`.
    pub fn mark_sent(&mut self, msg_id: &str)
        requires
            old(self).wf(),
        ensures
            final(self).wf(),
            final(self).same_but_channels(old(self)),
            final(self).active() == old(self).active(),
            restamped(old(self).channel_seq(), final(self).channel_seq(), msg_id@, MessageStatus::Sending, MessageStatus::Sent),
    {
        self.restamp(msg_id, MessageStatus::Sending, MessageStatus::Sent);
    }

    /// Marks the first message with id `msg_id` that is `Sent` as
    /// `Delivered`.
    pub fn mark_delivered(&mut self, msg_id: &str)
        requires
            old(self).wf(),
        ensures
            final(self).wf(),
            final(self).same_but_channels(old(self)),
            final(self).active() == old(self).active(),
            restamped(old(self).channel_seq(), final(self).channel_seq(), msg_id@, MessageStatus::Sent, MessageStatus::Delivered),
    {
        self.restamp(msg_id, MessageStatus::Sent, MessageStatus::Delivered);
    }

    /// The messages of the channel shown.
    pub fn active_messages(&self) -> (r: Vec<Message>)
        requires
            self.wf(),
        ensures
            r@ == self.channel_seq()[self.active() as int].messages@,
    {
        clone_messages(&self.channels[self.active_ch].messages)
    }

    // ── Transfers ──────────────────────────────────────────────────────────

    /// The file transfers.
    pub fn transfers(&self) -> (r: Vec<FileTransfer>)
        ensures
            r@ == self.transfer_seq(),
    {
        let mut r: Vec<FileTransfer> = Vec::new();
        let mut i: usize = 0;
        while i < self.transfers.len()
            invariant
                i <= self.transfers@.len(),
                r@ == self.transfers@.take(i as int),
            decreases self.transfers@.len() - i,
        {
            r.push(self.transfers[i].clone());
            assert(r@ =~= self.transfers@.take(i as int + 1));
            i = i + 1;
        }
        assert(self.transfers@.take(self.transfers@.len() as int) =~= self.transfers@);
        r
    }

    /// The transfer at position `i`.
    pub fn transfer_at(&self, i: usize) -> (r: &FileTransfer)
        requires
            i < self.transfer_seq().len(),
        ensures
            *r == self.transfer_seq()[i as int],
    {
        &self.transfers[i]
    }

    /// Records a new transfer at the end.
    pub fn add_transfer(&mut self, t: FileTransfer)
        requires
            old(self).wf(),
        ensures
            final(self).wf(),
            final(self).same_but_transfers(old(self)),
            final(self).transfer_seq() == old(self).transfer_seq().push(t),
    {
        self.transfers.push(t);
    }

    /// The position of the first transfer with id `id`, if any.
    pub fn transfer_index(&self, id: &str) -> (r: Option<usize>)
        ensures
            match r {
                Some(i) => first_transfer(self.transfer_seq(), id@, i as int),
                None => forall|k: int| 0 <= k < self.transfer_seq().len() ==> (#[trigger] self.transfer_seq()[k]).id@ != id@,
            },
    {
        let mut i: usize = 0;
        while i < self.transfers.len()
            invariant
                i <= self.transfers@.len(),
                forall|k: int| 0 <= k < i ==> (#[trigger] self.transfers@[k]).id@ != id@,
            decreases self.transfers@.len() - i,
        {
            if text_eq(self.transfers[i].id.as_str(), id) {
                return Some(i);
            }
            i = i + 1;
        }
        None
    }

    /// Replaces the status of the first transfer with id `id`, if any.
    fn set_transfer(&mut self, id: &str, transferred: Option<u64>, status: TransferStatus)
        requires
            old(self).wf(),
        ensures
            final(self).wf(),
            final(self).same_but_transfers(old(self)),
            transfer_updated(old(self).transfer_seq(), final(self).transfer_seq(), id@, transferred, status),
    {
        match self.transfer_index(id) {
            Some(i) => {
                let mut t = self.transfers.remove(i);
                match transferred {
                    Some(b) => {
                        t.transferred = b;
                    },
                    None => {},
                }
                t.status = status;
                self.transfers.insert(i, t);
                assert(self.transfers@ =~= old(self).transfers@.update(
                    i as int,
                    FileTransfer {
                        transferred: match transferred {
                            Some(b) => b,
                            None => old(self).transfers@[i as int].transferred,
                        },
                        status,
                        ..old(self).transfers@[i as int]
                    },
                ));
                assert(first_transfer(old(self).transfer_seq(), id@, i as int));
            },
            None => {},
        }
    }

    /// Records progress of the first transfer with id `id`: `bytes_done`
    /// bytes moved, and the transfer active.
    pub fn update_transfer_progress(&mut self, id: &str, bytes_done: u64)
        requires
            old(self).wf(),
        ensures
            final(self).wf(),
            final(self).same_but_transfers(old(self)),
            transfer_updated(old(self).transfer_seq(), final(self).transfer_seq(), id@, Some(bytes_done), TransferStatus::Active),
    {
        self.set_transfer(id, Some(bytes_done), TransferStatus::Active);
    }

    /// Ends the first transfer with id `id`: complete when `ok`, otherwise
    /// failed with `err` (empty when none is given).
    pub fn complete_transfer(&mut self, id: &str, ok: bool, err: Option<String>)
        requires
            old(self).wf(),
        ensures
            final(self).wf(),
            final(self).same_but_transfers(old(self)),
            ok ==> transfer_updated(old(self).transfer_seq(), final(self).transfer_seq(), id@, None, TransferStatus::Complete),
            !ok ==> exists|e: String|
                e@ == (match err {
                    Some(x) => x@,
                    None => Seq::<char>::empty(),
                }) && #[trigger] transfer_updated(old(self).transfer_seq(), final(self).transfer_seq(), id@, None, TransferStatus::Failed(e)),
    {
        if ok {
            self.set_transfer(id, None, TransferStatus::Complete);
        } else {
            let e = match err {
                Some(x) => x,
                None => String::new(),
            };
            self.set_transfer(id, None, TransferStatus::Failed(e));
        }
    }

    // ── Join requests ──────────────────────────────────────────────────────

    /// The join requests received as a group owner.
    pub fn pending_requests(&self) -> (r: Vec<JoinRequest>)
        ensures
            r@ == self.request_seq(),
    {
        let mut r: Vec<JoinRequest> = Vec::new();
        let mut i: usize = 0;
        while i < self.pending_reqs.len()
            invariant
                i <= self.pending_reqs@.len(),
                r@ == self.pending_reqs@.take(i as int),
            decreases self.pending_reqs@.len() - i,
        {
            let q = &self.pending_reqs[i];
            r.push((q.0.clone(), q.1.clone(), q.2.clone()));
            assert(r@ =~= self.pending_reqs@.take(i as int + 1));
            i = i + 1;
        }
        assert(self.pending_reqs@.take(self.pending_reqs@.len() as int) =~= self.pending_reqs@);
        r
    }

    /// Records the request of `id` (nickname `nick`) to join `group`,
    /// unless one of `id` for `group` is held already.
    pub fn add_pending_request(&mut self, group: String, id: NodeId, nick: String)
        requires
            old(self).wf(),
        ensures
            final(self).wf(),
            final(self).same_but_requests(old(self)),
            has_request(old(self).request_seq(), group@, id@) ==> final(self).request_seq() == old(self).request_seq(),
            !has_request(old(self).request_seq(), group@, id@) ==> final(self).request_seq() == old(self).request_seq().push((group, id, nick)),
    {
        let mut i: usize = 0;
        while i < self.pending_reqs.len()
            invariant
                self.wf(),
                *self == *old(self),
                i <= self.pending_reqs@.len(),
                forall|k: int| 0 <= k < i ==> !((#[trigger] self.pending_reqs@[k]).0@ == group@ && self.pending_reqs@[k].1@ == id@),
            decreases self.pending_reqs@.len() - i,
        {
            if text_eq(self.pending_reqs[i].0.as_str(), group.as_str()) && text_eq(self.pending_reqs[i].1.as_str(), id.as_str()) {
                assert(has_request(self.pending_reqs@, group@, id@)) by {
                    assert(self.pending_reqs@[i as int].0@ == group@);
                }
                return;
            }
            i = i + 1;
        }
        self.pending_reqs.push((group, id, nick));
    }

    /// Drops the requests of `id` to join `group`.
    pub fn remove_pending_request(&mut self, group: &str, id: &str)
        requires
            old(self).wf(),
        ensures
            final(self).wf(),
            final(self).same_but_requests(old(self)),
            final(self).request_seq() == without_request(old(self).request_seq(), group@, id@),
            !has_request(final(self).request_seq(), group@, id@),
    {
        let mut kept: Vec<JoinRequest> = Vec::new();
        let mut i: usize = 0;
        while i < self.pending_reqs.len()
            invariant
                *self == *old(self),
                i <= self.pending_reqs@.len(),
                kept@ == without_request(self.pending_reqs@.take(i as int), group@, id@),
            decreases self.pending_reqs@.len() - i,
        {
            assert(self.pending_reqs@.take(i as int + 1).drop_last() =~= self.pending_reqs@.take(i as int));
            let q = &self.pending_reqs[i];
            if !(text_eq(q.0.as_str(), group) && text_eq(q.1.as_str(), id)) {
                kept.push((q.0.clone(), q.1.clone(), q.2.clone()));
            }
            i = i + 1;
        }
        assert(self.pending_reqs@.take(self.pending_reqs@.len() as int) =~= self.pending_reqs@);
        proof {
            lemma_without_request(self.pending_reqs@, group@, id@);
        }
        self.pending_reqs = kept;
    }

    // ── Gateway ────────────────────────────────────────────────────────────

    /// Whether this node bridges to another subnet.
    pub fn is_gateway(&self) -> (r: bool)
        ensures
            r == self.gateway(),
    {
        self.gateway_mode
    }

    /// Turns gateway mode on or off.
    pub fn set_gateway(&mut self, v: bool)
        requires
            old(self).wf(),
        ensures
            final(self).wf(),
            final(self).gateway() == v,
            final(self).id_view() == old(self).id_view(),
            final(self).nick_view() == old(self).nick_view(),
            final(self).peer_seq() == old(self).peer_seq(),
            final(self).channel_seq() == old(self).channel_seq(),
            final(self).active() == old(self).active(),
            final(self).transfer_seq() == old(self).transfer_seq(),
            final(self).request_seq() == old(self).request_seq(),
    {
        self.gateway_mode = v;
    }

    // ── Wipe ───────────────────────────────────────────────────────────────

    /// Forgets every message, peer, transfer and join request; the channels
    /// stay, empty.
    pub fn wipe(&mut self)
        requires
            old(self).wf(),
        ensures
            final(self).wf(),
            final(self).id_view() == old(self).id_view(),
            final(self).nick_view() == old(self).nick_view(),
            final(self).active() == old(self).active(),
            final(self).gateway() == old(self).gateway(),
            final(self).peer_seq().len() == 0,
            final(self).transfer_seq().len() == 0,
            final(self).request_seq().len() == 0,
            final(self).channel_seq().len() == old(self).channel_seq().len(),
            forall|i: int| 0 <= i < old(self).channel_seq().len() ==> {
                let (o, n) = (old(self).channel_seq()[i], #[trigger] final(self).channel_seq()[i]);
                &&& n.name == o.name
                &&& n.unread == o.unread
                &&& n.kind == o.kind
                &&& n.messages@.len() == 0
            },
    {
        let mut i: usize = 0;
        while i < self.channels.len()
            invariant
                self.channels@.len() == old(self).channels@.len(),
                self.active_ch == old(self).active_ch,
                self.self_id == old(self).self_id,
                self.nickname == old(self).nickname,
                self.peers == old(self).peers,
                self.transfers == old(self).transfers,
                self.pending_reqs == old(self).pending_reqs,
                self.gateway_mode == old(self).gateway_mode,
                i <= self.channels@.len(),
                forall|k: int| 0 <= k < self.channels@.len() ==> {
                    let (o, n) = (old(self).channels@[k], #[trigger] self.channels@[k]);
                    &&& n.name == o.name
                    &&& n.unread == o.unread
                    &&& n.kind == o.kind
                    &&& k < i ==> n.messages@.len() == 0
                    &&& k >= i ==> n == o
                },
            decreases self.channels@.len() - i,
        {
            let mut ch = self.channels.remove(i);
            ch.messages.clear();
            self.channels.insert(i, ch);
            i = i + 1;
        }
        self.peers.clear();
        self.transfers.clear();
        self.pending_reqs.clear();
        assert(self.wf()) by {
            assert forall|a: int, b: int| 0 <= a < b < self.channels@.len() implies (#[trigger] self.channels@[a]).name@ != (#[trigger] self.channels@[b]).name@ by {
                assert(old(self).channels@[a].name@ != old(self).channels@[b].name@);
            }
        }
    }
}

/// Nanoseconds from `then` to `at`.
pub open spec fn nanos_between(at: Timestamp, then: Timestamp) -> int {
    (at.secs - then.secs) * 1_000_000_000 + at.nanos - then.nanos
}

/// Whole seconds from `then` to `at`, rounded toward zero.
pub open spec fn seconds_between(at: Timestamp, then: Timestamp) -> int {
    let d = nanos_between(at, then);
    if d >= 0 {
        d / 1_000_000_000
    } else {
        -((-d) / 1_000_000_000)
    }
}

/// Whether `target` names peer `p`: its nickname, or the beginning of its id.
pub open spec fn targets(p: Peer, target: Seq<char>) -> bool {
    p.nickname@ == target || starts(p.id@, target)
}

/// `new` is `old` with an open channel named `name` at the end, unless
/// `old` already has a channel of that name, in which case they are equal.
pub open spec fn channel_added(old: Seq<Channel>, new: Seq<Channel>, name: Seq<char>) -> bool {
    if has_channel(old, name) {
        new == old
    } else {
        &&& new.len() == old.len() + 1
        &&& new.drop_last() == old
        &&& is_fresh_open(new.last(), name)
    }
}

/// Transfer `i` is the first of `ts` with id `id`.
pub open spec fn first_transfer(ts: Seq<FileTransfer>, id: Seq<char>, i: int) -> bool {
    &&& 0 <= i < ts.len()
    &&& ts[i].id@ == id
    &&& forall|k: int| 0 <= k < i ==> (#[trigger] ts[k]).id@ != id
}

/// `new` is `old` where the first transfer with id `id`, if any, has the
/// status `status` and, when `transferred` is given, that many bytes moved.
pub open spec fn transfer_updated(
    old: Seq<FileTransfer>,
    new: Seq<FileTransfer>,
    id: Seq<char>,
    transferred: Option<u64>,
    status: TransferStatus,
) -> bool {
    if exists|i: int| 0 <= i < old.len() && #[trigger] old[i].id@ == id {
        exists|i: int|
            #[trigger] first_transfer(old, id, i) && new == old.update(
                i,
                FileTransfer {
                    transferred: match transferred {
                        Some(b) => b,
                        None => old[i].transferred,
                    },
                    status,
                    ..old[i]
                },
            )
    } else {
        new == old
    }
}

/// `new` is `old` where channel `p` got `msg` at the end of its messages,
/// counted unread unless `p` is the channel shown (`active`).
pub open spec fn delivered_to(old: Seq<Channel>, new: Seq<Channel>, p: int, active: int, msg: Message) -> bool {
    &&& 0 <= p < old.len()
    &&& new.len() == old.len()
    &&& forall|j: int| 0 <= j < old.len() && j != p ==> #[trigger] new[j] == old[j]
    &&& new[p].name == old[p].name
    &&& new[p].kind == old[p].kind
    &&& new[p].messages@ == old[p].messages@.push(msg)
    &&& new[p].unread == if p == active {
        old[p].unread
    } else if old[p].unread == usize::MAX {
        old[p].unread
    } else {
        (old[p].unread + 1) as usize
    }
}

/// `new` is `old` once `msg` is pushed: appended to the channel it names,
/// or to a new open channel of that name at the end.
pub open spec fn message_pushed(old: Seq<Channel>, new: Seq<Channel>, active: int, msg: Message) -> bool {
    if has_channel(old, msg.channel@) {
        exists|p: int| 0 <= p < old.len() && old[p].name@ == msg.channel@ && #[trigger] delivered_to(old, new, p, active, msg)
    } else {
        &&& new.len() == old.len() + 1
        &&& new.drop_last() == old
        &&& new.last().name == msg.channel
        &&& new.last().messages@ == seq![msg]
        &&& new.last().unread == 0
        &&& new.last().kind is Open
    }
}

/// Message `m` of channel `c` has id `id` and status `st`.
pub open spec fn is_hit(chs: Seq<Channel>, c: int, m: int, id: Seq<char>, st: MessageStatus) -> bool {
    &&& 0 <= c < chs.len()
    &&& 0 <= m < chs[c].messages@.len()
    &&& chs[c].messages@[m].id@ == id
    &&& chs[c].messages@[m].status == st
}

/// Message `m` of channel `c` is the first such message, channel by
/// channel and within a channel in arrival order.
pub open spec fn first_hit(chs: Seq<Channel>, c: int, m: int, id: Seq<char>, st: MessageStatus) -> bool {
    &&& is_hit(chs, c, m, id, st)
    &&& forall|c2: int, m2: int| #[trigger] is_hit(chs, c2, m2, id, st) ==> c < c2 || (c == c2 && m <= m2)
}

/// `new` is `old` where only message `m` of channel `c` changed, to status `to`.
pub open spec fn stamped_at(old: Seq<Channel>, new: Seq<Channel>, c: int, m: int, to: MessageStatus) -> bool {
    &&& new.len() == old.len()
    &&& forall|j: int| 0 <= j < old.len() && j != c ==> #[trigger] new[j] == old[j]
    &&& new[c].name == old[c].name
    &&& new[c].kind == old[c].kind
    &&& new[c].unread == old[c].unread
    &&& new[c].messages@ == old[c].messages@.update(m, Message { status: to, ..old[c].messages@[m] })
}

/// `new` is `old` once the first message with id `id` and status `from`
/// is moved to status `to`; equal to `old` when there is no such message.
pub open spec fn restamped(old: Seq<Channel>, new: Seq<Channel>, id: Seq<char>, from: MessageStatus, to: MessageStatus) -> bool {
    if exists|c: int, m: int| #[trigger] is_hit(old, c, m, id, from) {
        exists|c: int, m: int| #[trigger] first_hit(old, c, m, id, from) && stamped_at(old, new, c, m, to)
    } else {
        new == old
    }
}

/// Marking message `id` sent or delivered touches only that message:
/// channels and their messages keep their number, every message with
/// another id is left as it was, and a message that changes had the id
/// `id` and the status `from`, and now has the status `to` (all else
/// kept).  When some message has that id and status, one of them changes.
pub proof fn law_restamp_touches_only_that_id(old: Seq<Channel>, new: Seq<Channel>, id: Seq<char>, from: MessageStatus, to: MessageStatus)
    requires
        restamped(old, new, id, from, to),
    ensures
        new.len() == old.len(),
        forall|c: int| 0 <= c < old.len() ==> (#[trigger] new[c]).messages@.len() == old[c].messages@.len(),
        forall|c: int, m: int|
            0 <= c < old.len() && 0 <= m < old[c].messages@.len() && (#[trigger] old[c].messages@[m]).id@ != id
                ==> new[c].messages@[m] == old[c].messages@[m],
        forall|c: int, m: int|
            0 <= c < old.len() && 0 <= m < old[c].messages@.len() && (#[trigger] new[c].messages@[m]) != old[c].messages@[m]
                ==> old[c].messages@[m].id@ == id && old[c].messages@[m].status == from
                    && new[c].messages@[m] == (Message { status: to, ..old[c].messages@[m] }),
        (exists|c: int, m: int|
            0 <= c < old.len() && 0 <= m < old[c].messages@.len() && (#[trigger] old[c].messages@[m]).id@ == id
                && old[c].messages@[m].status == from)
            ==> exists|c: int, m: int|
                0 <= c < old.len() && 0 <= m < old[c].messages@.len() && (#[trigger] old[c].messages@[m]).id@ == id
                    && old[c].messages@[m].status == from && new[c].messages@[m].status == to,
{
    if exists|c: int, m: int| #[trigger] is_hit(old, c, m, id, from) {
        let (c0, m0) = choose|c: int, m: int| #[trigger] first_hit(old, c, m, id, from) && stamped_at(old, new, c, m, to);
        assert(old[c0].messages@[m0].id@ == id);
        assert forall|c: int| 0 <= c < old.len() implies (#[trigger] new[c]).messages@.len() == old[c].messages@.len() by {
            if c != c0 {
                assert(new[c] == old[c]);
            }
        }
        assert forall|c: int, m: int|
            0 <= c < old.len() && 0 <= m < old[c].messages@.len() && (#[trigger] old[c].messages@[m]).id@ != id
                implies new[c].messages@[m] == old[c].messages@[m] by {
            if c != c0 {
                assert(new[c] == old[c]);
            }
        }
        assert forall|c: int, m: int|
            0 <= c < old.len() && 0 <= m < old[c].messages@.len() && (#[trigger] new[c].messages@[m]) != old[c].messages@[m]
                implies old[c].messages@[m].id@ == id && old[c].messages@[m].status == from
                    && new[c].messages@[m] == (Message { status: to, ..old[c].messages@[m] }) by {
            if c != c0 {
                assert(new[c] == old[c]);
            }
        }
        assert(new[c0].messages@[m0].status == to);
    } else {
        assert forall|c: int, m: int|
            0 <= c < old.len() && 0 <= m < old[c].messages@.len() && (#[trigger] old[c].messages@[m]).id@ == id
                implies old[c].messages@[m].status != from by {
            if old[c].messages@[m].status == from {
                assert(is_hit(old, c, m, id, from));
            }
        }
    }
}

/// `n` is the kind of a channel of kind `o` once `member` is approved: for
/// a private group, its pending requests of `member` dropped and `member`
/// added to the members unless it is one; an open channel stays open.
pub open spec fn approved(o: ChannelKind, n: ChannelKind, member: String) -> bool {
    match (o, n) {
        (ChannelKind::Open, ChannelKind::Open) => true,
        (
            ChannelKind::Group { creator_id: c1, members: m1, pending: p1 },
            ChannelKind::Group { creator_id: c2, members: m2, pending: p2 },
        ) => {
            &&& c2 == c1
            &&& p2@ == without(p1@, member@)
            &&& m2@ == if seq_has_text(m1@, member@) {
                m1@
            } else {
                m1@.push(member)
            }
        },
        _ => false,
    }
}

/// `n` is the kind of a channel of kind `o` once `requester` asks to join:
/// for a private group, `requester` added to the pending requests unless
/// already there; an open channel stays open.
pub open spec fn with_pending(o: ChannelKind, n: ChannelKind, requester: String) -> bool {
    match (o, n) {
        (ChannelKind::Open, ChannelKind::Open) => true,
        (
            ChannelKind::Group { creator_id: c1, members: m1, pending: p1 },
            ChannelKind::Group { creator_id: c2, members: m2, pending: p2 },
        ) => {
            &&& c2 == c1
            &&& m2 == m1
            &&& p2@ == if seq_has_text(p1@, requester@) {
                p1@
            } else {
                p1@.push(requester)
            }
        },
        _ => false,
    }
}

/// Some channel named `group` is a private group created by `me`.
pub open spec fn group_owned_by(chs: Seq<Channel>, group: Seq<char>, me: Seq<char>) -> bool {
    exists|i: int|
        0 <= i < chs.len() && #[trigger] chs[i].name@ == group
            && (chs[i].kind matches ChannelKind::Group { creator_id, .. } && creator_id@ == me)
}

/// `n` is the kind of a channel of kind `o` once the request of `requester`
/// is denied: for a private group, its pending requests of `requester`
/// dropped, the members kept; an open channel stays open.
pub open spec fn denied(o: ChannelKind, n: ChannelKind, requester: Seq<char>) -> bool {
    match (o, n) {
        (ChannelKind::Open, ChannelKind::Open) => true,
        (
            ChannelKind::Group { creator_id: c1, members: m1, pending: p1 },
            ChannelKind::Group { creator_id: c2, members: m2, pending: p2 },
        ) => {
            &&& c2 == c1
            &&& m2 == m1
            &&& p2@ == without(p1@, requester)
        },
        _ => false,
    }
}

/// `new` is `old` once the request of `requester` to join the channel named
/// `group` is denied; equal to `old` when there is no such channel.
pub open spec fn group_denied(old: Seq<Channel>, new: Seq<Channel>, group: Seq<char>, requester: Seq<char>) -> bool {
    if has_channel(old, group) {
        exists|i: int|
            0 <= i < old.len() && old[i].name@ == group && #[trigger] only_kind_changed(old, new, i)
                && denied(old[i].kind, new[i].kind, requester)
    } else {
        new == old
    }
}

/// `new` is `old` once `member` is approved into the channel named
/// `group`; equal to `old` when there is no such channel.
pub open spec fn group_approved(old: Seq<Channel>, new: Seq<Channel>, group: Seq<char>, member: String) -> bool {
    if has_channel(old, group) {
        exists|i: int|
            0 <= i < old.len() && old[i].name@ == group && #[trigger] only_kind_changed(old, new, i)
                && approved(old[i].kind, new[i].kind, member)
    } else {
        new == old
    }
}

/// `new` is `old` once `requester` asks to join the channel named `group`;
/// equal to `old` when there is no such channel.
pub open spec fn group_pending_added(old: Seq<Channel>, new: Seq<Channel>, group: Seq<char>, requester: String) -> bool {
    if has_channel(old, group) {
        exists|i: int|
            0 <= i < old.len() && old[i].name@ == group && #[trigger] only_kind_changed(old, new, i)
                && with_pending(old[i].kind, new[i].kind, requester)
    } else {
        new == old
    }
}

/// `new` is `old` where only the kind of channel `i` may differ.
pub open spec fn only_kind_changed(old: Seq<Channel>, new: Seq<Channel>, i: int) -> bool {
    &&& new.len() == old.len()
    &&& 0 <= i < old.len()
    &&& forall|j: int| 0 <= j < old.len() && j != i ==> #[trigger] new[j] == old[j]
    &&& new[i].name == old[i].name
    &&& new[i].messages == old[i].messages
    &&& new[i].unread == old[i].unread
}

/// Whether `s` holds a text equal to `x`.
pub open spec fn seq_has_text(s: Seq<String>, x: Seq<char>) -> bool {
    exists|i: int| 0 <= i < s.len() && #[trigger] s[i]@ == x
}

/// The ids of the peers of `ps` silent for too long at `at`, in order.
pub open spec fn stale_ids(ps: Seq<Peer>, at: Timestamp) -> Seq<Seq<char>>
    decreases ps.len(),
{
    if ps.len() == 0 {
        Seq::empty()
    } else {
        let r = stale_ids(ps.drop_last(), at);
        if seconds_between(at, ps.last().last_seen) > PEER_TIMEOUT_SECS {
            r.push(ps.last().id@)
        } else {
            r
        }
    }
}

/// Whether `p` has been silent for more than `PEER_TIMEOUT_SECS` seconds at `at`.
pub fn is_stale(p: &Peer, at: Timestamp) -> (r: bool)
    ensures
        r == (seconds_between(at, p.last_seen) > PEER_TIMEOUT_SECS),
{
    let d: i128 = (at.secs as i128 - p.last_seen.secs as i128) * 1_000_000_000i128 + at.nanos as i128
        - p.last_seen.nanos as i128;
    assert(d == nanos_between(at, p.last_seen));
    d >= 16_000_000_000i128
}

/// Whether `v` holds a text equal to `x`.
pub fn contains_text(v: &Vec<String>, x: &str) -> (r: bool)
    ensures
        r == seq_has_text(v@, x@),
{
    let mut i: usize = 0;
    while i < v.len()
        invariant
            i <= v@.len(),
            forall|k: int| 0 <= k < i ==> (#[trigger] v@[k])@ != x@,
        decreases v@.len() - i,
    {
        if text_eq(v[i].as_str(), x) {
            assert(v@[i as int]@ == x@);
            return true;
        }
        i = i + 1;
    }
    false
}

/// The texts of `v` other than `x`, in order.
pub fn drop_text(v: &Vec<String>, x: &str) -> (r: Vec<String>)
    ensures
        r@ == without(v@, x@),
{
    let mut r: Vec<String> = Vec::new();
    let mut i: usize = 0;
    while i < v.len()
        invariant
            i <= v@.len(),
            r@ == without(v@.take(i as int), x@),
        decreases v@.len() - i,
    {
        assert(v@.take(i as int + 1).drop_last() =~= v@.take(i as int));
        if !text_eq(v[i].as_str(), x) {
            r.push(v[i].clone());
        }
        i = i + 1;
    }
    assert(v@.take(v@.len() as int) =~= v@);
    r
}

/// What `without_request` leaves holds no request of `id` for `group`,
/// and nothing that was not in the input; distinct keys stay distinct.
pub proof fn lemma_without_request(reqs: Seq<JoinRequest>, group: Seq<char>, id: Seq<char>)
    ensures
        !has_request(without_request(reqs, group, id), group, id),
        forall|k: int| 0 <= k < without_request(reqs, group, id).len() ==> reqs.contains(
            #[trigger] without_request(reqs, group, id)[k],
        ),
        (forall|a: int, b: int| 0 <= a < b < reqs.len() ==> !((#[trigger] reqs[a]).0@ == (#[trigger] reqs[b]).0@ && reqs[a].1@ == reqs[b].1@))
            ==> (forall|a: int, b: int| 0 <= a < b < without_request(reqs, group, id).len() ==>
                !((#[trigger] without_request(reqs, group, id)[a]).0@ == (#[trigger] without_request(reqs, group, id)[b]).0@
                && without_request(reqs, group, id)[a].1@ == without_request(reqs, group, id)[b].1@)),
    decreases reqs.len(),
{
    if reqs.len() > 0 {
        let init = reqs.drop_last();
        lemma_without_request(init, group, id);
        let r = without_request(init, group, id);
        assert forall|k: int| 0 <= k < r.len() implies reqs.contains(#[trigger] r[k]) by {
            let j = choose|j: int| 0 <= j < init.len() && init[j] == r[k];
            assert(reqs[j] == r[k]);
        }
        if !(reqs.last().0@ == group && reqs.last().1@ == id) {
            let w = r.push(reqs.last());
            assert(w[r.len() as int] == reqs.last());
            assert(reqs[reqs.len() - 1] == reqs.last());
            if forall|a: int, b: int| 0 <= a < b < reqs.len() ==> !((#[trigger] reqs[a]).0@ == (#[trigger] reqs[b]).0@ && reqs[a].1@ == reqs[b].1@) {
                assert forall|a: int, b: int| 0 <= a < b < init.len() implies !((#[trigger] init[a]).0@ == (#[trigger] init[b]).0@ && init[a].1@ == init[b].1@) by {
                    assert(init[a] == reqs[a] && init[b] == reqs[b]);
                }
                assert forall|a: int, b: int| 0 <= a < b < w.len() implies !((#[trigger] w[a]).0@ == (#[trigger] w[b]).0@ && w[a].1@ == w[b].1@) by {
                    if b == r.len() {
                        let j = choose|j: int| 0 <= j < init.len() && init[j] == r[a];
                        assert(reqs[j] == w[a]);
                        assert(reqs[reqs.len() - 1] == w[b]);
                    } else {
                        assert(w[a] == r[a] && w[b] == r[b]);
                    }
                }
            }
            assert forall|k: int| 0 <= k < w.len() implies reqs.contains(#[trigger] w[k]) by {
                if k == r.len() {
                    assert(reqs[reqs.len() - 1] == w[k]);
                } else {
                    assert(w[k] == r[k]);
                }
            }
            assert(!has_request(w, group, id)) by {
                if has_request(w, group, id) {
                    let k = choose|k: int| 0 <= k < w.len() && (#[trigger] w[k]).0@ == group && w[k].1@ == id;
                    if k < r.len() {
                        assert(w[k] == r[k]);
                    }
                }
            }
        } else {
            if forall|a: int, b: int| 0 <= a < b < reqs.len() ==> !((#[trigger] reqs[a]).0@ == (#[trigger] reqs[b]).0@ && reqs[a].1@ == reqs[b].1@) {
                assert forall|a: int, b: int| 0 <= a < b < init.len() implies !((#[trigger] init[a]).0@ == (#[trigger] init[b]).0@ && init[a].1@ == init[b].1@) by {
                    assert(init[a] == reqs[a] && init[b] == reqs[b]);
                }
            }
        }
    }
}

// ── Laws ──────────────────────────────────────────────────────────────────

/// Adding a channel that was just added changes nothing: adding is
/// idempotent.
pub proof fn law_add_channel_idempotent(a: Seq<Channel>, b: Seq<Channel>, c: Seq<Channel>, name: Seq<char>)
    requires
        channel_added(a, b, name),
        channel_added(b, c, name),
    ensures
        c == b,
{
    if !has_channel(a, name) {
        assert(b[b.len() - 1].name@ == name);
    }
}

/// After adding a channel, a channel of that name exists, and every
/// channel that existed is still there, unchanged.
pub proof fn law_add_channel_present(a: Seq<Channel>, b: Seq<Channel>, name: Seq<char>)
    requires
        channel_added(a, b, name),
    ensures
        has_channel(b, name),
        forall|i: int| 0 <= i < a.len() ==> #[trigger] b[i] == a[i],
{
    if !has_channel(a, name) {
        assert(b[b.len() - 1].name@ == name);
        assert forall|i: int| 0 <= i < a.len() implies #[trigger] b[i] == a[i] by {
            assert(b.drop_last()[i] == b[i]);
        }
    }
}

/// A pushed message becomes the last message of a channel named by the
/// message, and the messages already there stay, in order.
pub proof fn law_push_message_lands(old: Seq<Channel>, new: Seq<Channel>, active: int, msg: Message)
    requires
        message_pushed(old, new, active, msg),
    ensures
        exists|p: int|
            0 <= p < new.len() && new[p].name@ == msg.channel@ && #[trigger] new[p].messages@.last() == msg
                && new[p].messages@.drop_last() == (if p < old.len() {
                    old[p].messages@
                } else {
                    Seq::<Message>::empty()
                }),
{
    if has_channel(old, msg.channel@) {
        let p = choose|p: int| 0 <= p < old.len() && old[p].name@ == msg.channel@ && #[trigger] delivered_to(old, new, p, active, msg);
        assert(new[p].messages@.drop_last() =~= old[p].messages@);
        assert(new[p].messages@.last() == msg);
    } else {
        let p = new.len() - 1;
        assert(new[p].messages@.drop_last() =~= Seq::<Message>::empty());
        assert(new[p].messages@.last() == msg);
    }
}

/// Marking a message sent or delivered keeps every channel's messages: the
/// same number, the same ids, the same contents; only a status changes.
pub proof fn law_restamp_keeps_messages(
    old: Seq<Channel>,
    new: Seq<Channel>,
    id: Seq<char>,
    from: MessageStatus,
    to: MessageStatus,
)
    requires
        restamped(old, new, id, from, to),
    ensures
        new.len() == old.len(),
        forall|c: int| 0 <= c < old.len() ==> (#[trigger] new[c]).messages@.len() == old[c].messages@.len(),
        forall|c: int, m: int|
            0 <= c < old.len() && 0 <= m < old[c].messages@.len() ==> {
                let (o, n) = (old[c].messages@[m], #[trigger] new[c].messages@[m]);
                &&& n.id == o.id
                &&& n.content == o.content
                &&& n.channel == o.channel
                &&& n.sender_id == o.sender_id
                &&& (n.status != o.status ==> o.status == from && n.status == to)
            },
{
    if exists|c: int, m: int| #[trigger] is_hit(old, c, m, id, from) {
        let (c0, m0) = choose|c: int, m: int| #[trigger] first_hit(old, c, m, id, from) && stamped_at(old, new, c, m, to);
        assert forall|c: int| 0 <= c < old.len() implies (#[trigger] new[c]).messages@.len() == old[c].messages@.len() by {
            if c != c0 {
                assert(new[c] == old[c]);
            }
        }
        assert forall|c: int, m: int| 0 <= c < old.len() && 0 <= m < old[c].messages@.len() implies {
            let (o, n) = (old[c].messages@[m], #[trigger] new[c].messages@[m]);
            &&& n.id == o.id
            &&& n.content == o.content
            &&& n.channel == o.channel
            &&& n.sender_id == o.sender_id
            &&& (n.status != o.status ==> o.status == from && n.status == to)
        } by {
            if c != c0 {
                assert(new[c] == old[c]);
            } else if m == m0 {
                assert(is_hit(old, c0, m0, id, from));
            }
        }
    }
}

/// `without` leaves no text equal to `x`, and keeps every other text.
pub proof fn lemma_without(s: Seq<String>, x: Seq<char>)
    ensures
        !seq_has_text(without(s, x), x),
        forall|i: int| 0 <= i < s.len() && s[i]@ != x ==> #[trigger] without(s, x).contains(s[i]),
    decreases s.len(),
{
    if s.len() > 0 {
        let init = s.drop_last();
        lemma_without(init, x);
        let r = without(init, x);
        assert forall|i: int| 0 <= i < s.len() && s[i]@ != x implies #[trigger] without(s, x).contains(s[i]) by {
            if i < s.len() - 1 {
                assert(init[i] == s[i]);
                assert(without(init, x).contains(init[i]));
                let k = choose|k: int| 0 <= k < r.len() && r[k] == init[i];
                if s.last()@ != x {
                    assert(r.push(s.last())[k] == s[i]);
                    assert(without(s, x) == r.push(s.last()));
                } else {
                    assert(without(s, x) == r);
                }
            } else {
                assert(r.push(s.last())[r.len() as int] == s[i]);
            }
        }
        if s.last()@ != x {
            assert(!seq_has_text(r.push(s.last()), x)) by {
                if seq_has_text(r.push(s.last()), x) {
                    let k = choose|k: int| 0 <= k < r.push(s.last()).len() && #[trigger] r.push(s.last())[k]@ == x;
                    if k < r.len() {
                        assert(r.push(s.last())[k] == r[k]);
                    }
                }
            }
        }
    }
}

/// Once a requester is approved into a private group it is a member and no
/// request of it is pending; the creator is unchanged.
pub proof fn law_approved_is_member(o: ChannelKind, n: ChannelKind, member: String)
    requires
        approved(o, n, member),
        o is Group,
    ensures
        n matches ChannelKind::Group { creator_id, members, pending } && seq_has_text(members@, member@)
            && !seq_has_text(pending@, member@) && creator_id == o->creator_id,
{
    match (o, n) {
        (
            ChannelKind::Group { creator_id: c1, members: m1, pending: p1 },
            ChannelKind::Group { creator_id: c2, members: m2, pending: p2 },
        ) => {
            lemma_without(p1@, member@);
            if !seq_has_text(m1@, member@) {
                assert(m2@[m1@.len() as int] == member);
            }
        },
        _ => {},
    }
}

/// Recording the same join request twice holds it once.
pub proof fn law_pending_idempotent(a: ChannelKind, b: ChannelKind, c: ChannelKind, requester: String)
    requires
        with_pending(a, b, requester),
        with_pending(b, c, requester),
    ensures
        same_kind(c, b),
{
    match (a, b, c) {
        (
            ChannelKind::Group { pending: p1, .. },
            ChannelKind::Group { pending: p2, .. },
            ChannelKind::Group { pending: p3, .. },
        ) => {
            if !seq_has_text(p1@, requester@) {
                assert(p2@[p1@.len() as int] == requester);
                assert(seq_has_text(p2@, requester@));
            }
        },
        _ => {},
    }
}

} // verus!
