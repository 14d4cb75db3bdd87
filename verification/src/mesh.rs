//! The decisions of the mesh: what a command from the interface does to the
//! state and what it sends; what a message from a peer does and reports;
//! how a discovery greeting is taken in.

use vstd::prelude::*;
use vstd::string::*;
use crate::events::{NetEvent, UiCommand};
use crate::state::{
    group_pending_added, group_approved, group_denied, group_owned_by, channel_added, drop_text, has_peer, has_request,
    message_pushed, restamped, transfer_updated, without, without_request, AppState,
};
use crate::text::{hashed, text_eq, with_hash};
use crate::transfer::FileReceiver;
use crate::types::{
    clone_texts, Channel, AppMessage, FileTransfer, GroupInfo, Message, MessageContent, MessageStatus, NodeId, Peer,
    PeerAddr, TransferDirection, TransferStatus, is_fresh_group, subnet_text, ip_text, ip_to_text,
};

verus! {

/// What the mesh must do on the network once a command is taken in.
#[derive(Debug)]
pub enum MeshAction {
    /// Encrypt `0` and send it to every connected peer with a session.
    Broadcast(AppMessage),
    /// Encrypt `msg` and send it to `peer_id`, if connected with a session.
    SendTo { peer_id: NodeId, msg: AppMessage },
    /// Offer the file at `path` to `peer_id`, then stream it once accepted.
    OfferFile { peer_id: NodeId, path: String },
    /// Open a receiver that writes the chunks of `transfer_id` to `filename`.
    OpenReceiver { transfer_id: String, filename: String },
    /// Connect to a node of another subnet to bridge to it.
    ConnectGateway(PeerAddr),
    /// Stop the mesh.
    Shutdown,
}

/// Outgoing messages still waiting for delivery acknowledgements: each
/// message id with the peers that were sent the message and have not
/// acknowledged it yet.
#[derive(Debug)]
pub struct AckBook {
    pub awaiting: Vec<(String, Vec<NodeId>)>,
}

/// Entry `i` is the first of `w` for message `id`.
pub open spec fn first_wait(w: Seq<(String, Vec<NodeId>)>, id: Seq<char>, i: int) -> bool {
    &&& 0 <= i < w.len()
    &&& w[i].0@ == id
    &&& forall|k: int| 0 <= k < i ==> (#[trigger] w[k]).0@ != id
}

/// `new` is `old` with the message `id` waiting for `peers` at the end.
pub open spec fn awaits(old: Seq<(String, Vec<NodeId>)>, new: Seq<(String, Vec<NodeId>)>, id: Seq<char>, peers: Seq<NodeId>) -> bool {
    &&& new.len() == old.len() + 1
    &&& new.drop_last() == old
    &&& new.last().0@ == id
    &&& new.last().1@ == peers
}

/// `new` is `old` once `peer` acknowledges message `id`: the first entry of
/// that message drops `peer`; when no peer is left to wait for, the entry
/// goes and `done` holds.  Without such an entry nothing changes.
pub open spec fn acked(old: Seq<(String, Vec<NodeId>)>, new: Seq<(String, Vec<NodeId>)>, id: Seq<char>, peer: Seq<char>, done: bool) -> bool {
    if exists|i: int| 0 <= i < old.len() && #[trigger] old[i].0@ == id {
        exists|i: int| #[trigger] first_wait(old, id, i) && {
            let rest = without(old[i].1@, peer);
            if rest.len() == 0 {
                done && new == old.remove(i)
            } else {
                &&& !done
                &&& new.len() == old.len()
                &&& new[i].0 == old[i].0
                &&& new[i].1@ == rest
                &&& forall|j: int| 0 <= j < old.len() && j != i ==> #[trigger] new[j] == old[j]
            }
        }
    } else {
        !done && new == old
    }
}

/// Dropping `x` leaves nothing exactly when every text is `x`.
proof fn lemma_without_empty(s: Seq<String>, x: Seq<char>)
    ensures
        without(s, x).len() == 0 <==> forall|k: int| 0 <= k < s.len() ==> (#[trigger] s[k])@ == x,
    decreases s.len(),
{
    crate::state::lemma_without(s, x);
    if s.len() > 0 {
        lemma_without_empty(s.drop_last(), x);
        if without(s, x).len() == 0 {
            assert forall|k: int| 0 <= k < s.len() implies (#[trigger] s[k])@ == x by {
                if s[k]@ != x {
                    assert(without(s, x).contains(s[k]));
                }
            }
        }
        if forall|k: int| 0 <= k < s.len() ==> (#[trigger] s[k])@ == x {
            assert forall|k: int| 0 <= k < s.drop_last().len() implies (#[trigger] s.drop_last()[k])@ == x by {
                assert(s.drop_last()[k] == s[k]);
            }
            assert(s.last()@ == x);
        }
    }
}

/// A message is reported delivered by an acknowledgement exactly when the
/// acknowledging peer is the only peer still awaited for it; otherwise every
/// other awaited peer stays awaited.  So a message sent to several peers is
/// delivered only once each of them has acknowledged it.
pub proof fn law_delivered_after_every_ack(
    old: Seq<(String, Vec<NodeId>)>,
    new: Seq<(String, Vec<NodeId>)>,
    id: Seq<char>,
    peer: Seq<char>,
    done: bool,
)
    requires
        acked(old, new, id, peer, done),
    ensures
        done <==> exists|i: int|
            #[trigger] first_wait(old, id, i) && forall|k: int| 0 <= k < old[i].1@.len() ==> (#[trigger] old[i].1@[k])@ == peer,
        forall|i: int, k: int|
            #[trigger] first_wait(old, id, i) && !done && 0 <= k < old[i].1@.len() && (#[trigger] old[i].1@[k])@ != peer
                ==> new[i].1@.contains(old[i].1@[k]),
{
    if exists|i: int| 0 <= i < old.len() && #[trigger] old[i].0@ == id {
        let i = choose|i: int| #[trigger] first_wait(old, id, i) && {
            let rest = without(old[i].1@, peer);
            if rest.len() == 0 {
                done && new == old.remove(i)
            } else {
                &&& !done
                &&& new.len() == old.len()
                &&& new[i].0 == old[i].0
                &&& new[i].1@ == rest
                &&& forall|j: int| 0 <= j < old.len() && j != i ==> #[trigger] new[j] == old[j]
            }
        };
        lemma_without_empty(old[i].1@, peer);
        crate::state::lemma_without(old[i].1@, peer);
        assert forall|i2: int| #[trigger] first_wait(old, id, i2) implies i2 == i by {
            if i2 < i {
                assert(old[i2].0@ != id);
            } else if i < i2 {
                assert(old[i].0@ != id);
            }
        }
    } else {
        assert forall|i: int| !#[trigger] first_wait(old, id, i) by {
            if first_wait(old, id, i) {
                assert(old[i].0@ == id);
            }
        }
    }
}

/// A message sent to two peers `pa` and `pb` (the book awaiting exactly
/// them for it, and nothing earlier for it) is not delivered by the first
/// acknowledgement, `pa`'s, and is delivered by the second, `pb`'s.
pub proof fn law_two_peer_delivery(
    b0: Seq<(String, Vec<NodeId>)>,
    b1: Seq<(String, Vec<NodeId>)>,
    b2: Seq<(String, Vec<NodeId>)>,
    b3: Seq<(String, Vec<NodeId>)>,
    id: Seq<char>,
    sessions: Seq<NodeId>,
    d1: bool,
    d2: bool,
)
    requires
        forall|i: int| 0 <= i < b0.len() ==> (#[trigger] b0[i]).0@ != id,
        awaits(b0, b1, id, sessions),
        sessions.len() == 2,
        sessions[0]@ != sessions[1]@,
        acked(b1, b2, id, sessions[0]@, d1),
        acked(b2, b3, id, sessions[1]@, d2),
    ensures
        !d1,
        d2,
{
    let n = b0.len() as int;
    let (pa, pb) = (sessions[0]@, sessions[1]@);
    assert(b1[n].0@ == id);
    assert(forall|k: int| 0 <= k < n ==> b1[k] == b0[k]);
    assert(first_wait(b1, id, n));
    assert forall|i: int| #[trigger] first_wait(b1, id, i) implies i == n by {
        if i < n {
            assert(b1[i] == b0[i]);
        }
    }
    reveal_with_fuel(without, 3);
    assert(sessions.drop_last().drop_last() =~= Seq::<NodeId>::empty());
    assert(without(sessions, pa) =~= seq![sessions[1]]);
    assert(!d1);
    assert(b2[n].0 == b1[n].0);
    assert(b2[n].1@ == seq![sessions[1]]);
    assert(first_wait(b2, id, n)) by {
        assert forall|k: int| 0 <= k < n implies (#[trigger] b2[k]).0@ != id by {
            assert(b2[k] == b1[k]);
        }
    }
    assert forall|i: int| #[trigger] first_wait(b2, id, i) implies i == n by {
        if i < n {
            assert(b2[i] == b1[i]);
        }
    }
    let one = seq![sessions[1]];
    assert(one.drop_last() =~= Seq::<NodeId>::empty());
    assert(without(one, pb) =~= Seq::<NodeId>::empty());
}

/// The entries of a book by value: message ids and the peers awaited.
pub open spec fn book_view(w: Seq<(String, Vec<NodeId>)>) -> Seq<(Seq<char>, Seq<String>)> {
    w.map_values(|e: (String, Vec<NodeId>)| (e.0@, e.1@))
}

/// The book `w` once `peer` has left, and the messages that leaving
/// completes: every entry stops waiting for `peer`; an entry left waiting
/// for nobody goes, its message being acknowledged by every peer still
/// connected.
pub open spec fn forgotten(w: Seq<(String, Vec<NodeId>)>, peer: Seq<char>) -> (Seq<(Seq<char>, Seq<String>)>, Seq<Seq<char>>)
    decreases w.len(),
{
    if w.len() == 0 {
        (Seq::empty(), Seq::empty())
    } else {
        let prev = forgotten(w.drop_last(), peer);
        let rest = without(w.last().1@, peer);
        if rest.len() == 0 {
            (prev.0, prev.1.push(w.last().0@))
        } else {
            (prev.0.push((w.last().0@, rest)), prev.1)
        }
    }
}

/// `chain` steps from `old` to `new` marking the messages of `ids`
/// delivered, one per step, in order.
pub open spec fn delivery_chain(chain: Seq<Seq<Channel>>, old: Seq<Channel>, new: Seq<Channel>, ids: Seq<Seq<char>>) -> bool {
    &&& chain.len() == ids.len() + 1
    &&& chain[0] == old
    &&& chain[ids.len() as int] == new
    &&& forall|i: int|
        0 <= i < ids.len() ==> restamped(chain[i], chain[i + 1], #[trigger] ids[i], MessageStatus::Sent, MessageStatus::Delivered)
}

/// `new` is `old` once each message of `ids`, in turn, is marked delivered.
pub open spec fn all_delivered(old: Seq<Channel>, new: Seq<Channel>, ids: Seq<Seq<char>>) -> bool {
    exists|chain: Seq<Seq<Channel>>| #[trigger] delivery_chain(chain, old, new, ids)
}

impl AckBook {
    /// A book waiting for nothing.
    pub fn new() -> (r: AckBook)
        ensures
            r.awaiting@.len() == 0,
    {
        AckBook { awaiting: Vec::new() }
    }

    /// Records that message `msg_id` was sent to `peers`, who are to
    /// acknowledge it.
    pub fn expect(&mut self, msg_id: String, peers: Vec<NodeId>)
        ensures
            awaits(old(self).awaiting@, final(self).awaiting@, msg_id@, peers@),
    {
        self.awaiting.push((msg_id, peers));
        assert(self.awaiting@.drop_last() =~= old(self).awaiting@);
    }

    /// Stops waiting for `peer`, who left; returns the messages that every
    /// peer still awaited for has now acknowledged, in the book's order.
    pub fn forget(&mut self, peer: &str) -> (done: Vec<String>)
        ensures
            book_view(final(self).awaiting@) == forgotten(old(self).awaiting@, peer@).0,
            done@.map_values(|x: String| x@) == forgotten(old(self).awaiting@, peer@).1,
    {
        let mut entries: Vec<(String, Vec<NodeId>)> = Vec::new();
        std::mem::swap(&mut entries, &mut self.awaiting);
        let mut kept: Vec<(String, Vec<NodeId>)> = Vec::new();
        let mut done: Vec<String> = Vec::new();
        let mut i: usize = 0;
        proof {
            assert(entries@.take(0) =~= Seq::<(String, Vec<NodeId>)>::empty());
            assert(book_view(kept@) =~= Seq::<(Seq<char>, Seq<String>)>::empty());
            assert(done@.map_values(|x: String| x@) =~= Seq::<Seq<char>>::empty());
        }
        while i < entries.len()
            invariant
                i <= entries@.len(),
                entries@ == old(self).awaiting@,
                book_view(kept@) == forgotten(entries@.take(i as int), peer@).0,
                done@.map_values(|x: String| x@) == forgotten(entries@.take(i as int), peer@).1,
            decreases entries@.len() - i,
        {
            assert(entries@.take(i as int + 1).drop_last() =~= entries@.take(i as int));
            assert(entries@.take(i as int + 1).last() == entries@[i as int]);
            let rest = drop_text(&entries[i].1, peer);
            let name = entries[i].0.clone();
            let ghost k0 = kept@;
            let ghost d0 = done@;
            if rest.len() == 0 {
                done.push(name);
                assert(done@.map_values(|x: String| x@) =~= d0.map_values(|x: String| x@).push(entries@[i as int].0@));
            } else {
                kept.push((name, rest));
                assert(book_view(kept@) =~= book_view(k0).push((entries@[i as int].0@, without(entries@[i as int].1@, peer@))));
            }
            i = i + 1;
        }
        assert(entries@.take(entries@.len() as int) =~= entries@);
        self.awaiting = kept;
        done
    }

    /// Takes in the acknowledgement of message `msg_id` by `peer`; tells
    /// whether every peer it was sent to has now acknowledged it.
    pub fn acknowledge(&mut self, msg_id: &str, peer: &str) -> (r: bool)
        ensures
            acked(old(self).awaiting@, final(self).awaiting@, msg_id@, peer@, r),
    {
        let mut i: usize = 0;
        while i < self.awaiting.len()
            invariant
                i <= self.awaiting@.len(),
                self.awaiting@ == old(self).awaiting@,
                forall|k: int| 0 <= k < i ==> (#[trigger] self.awaiting@[k]).0@ != msg_id@,
            decreases self.awaiting@.len() - i,
        {
            if text_eq(self.awaiting[i].0.as_str(), msg_id) {
                assert(first_wait(old(self).awaiting@, msg_id@, i as int));
                let (id, waiting) = self.awaiting.remove(i);
                let rest = drop_text(&waiting, peer);
                if rest.len() == 0 {
                    return true;
                } else {
                    self.awaiting.insert(i, (id, rest));
                    assert forall|j: int| 0 <= j < old(self).awaiting@.len() && j != i implies
                        #[trigger] self.awaiting@[j] == old(self).awaiting@[j] by {
                        if j < i {
                            assert(self.awaiting@[j] == old(self).awaiting@[j]);
                        } else {
                            assert(self.awaiting@[j] == old(self).awaiting@[j]);
                        }
                    }
                    return false;
                }
            }
            i = i + 1;
        }
        false
    }
}

/// `m` is a fresh outgoing message of this node (id `sid`, nickname `nick`)
/// in `channel`, carrying `content`.
pub open spec fn outgoing(m: Message, sid: Seq<char>, nick: Seq<char>, channel: Seq<char>, content: MessageContent) -> bool {
    &&& m.sender_id@ == sid
    &&& m.sender_nick@ == nick
    &&& m.channel@ == channel
    &&& m.content == content
    &&& m.status == MessageStatus::Sending
}

/// Once message `m` is stored (giving channels `mid`): when `sessions`
/// holds some peer, `m` is marked sent, broadcast, and awaited from
/// `sessions`; otherwise it stays as stored and nothing is sent.
pub open spec fn sent_to_sessions(
    mid: Seq<Channel>,
    new: Seq<Channel>,
    m: Message,
    sessions: Seq<NodeId>,
    old_book: Seq<(String, Vec<NodeId>)>,
    new_book: Seq<(String, Vec<NodeId>)>,
    r: Seq<MeshAction>,
) -> bool {
    if sessions.len() > 0 {
        &&& restamped(mid, new, m.id@, MessageStatus::Sending, MessageStatus::Sent)
        &&& r == seq![MeshAction::Broadcast(AppMessage::Chat(m))]
        &&& awaits(old_book, new_book, m.id@, sessions)
    } else {
        &&& new == mid
        &&& r.len() == 0
        &&& new_book == old_book
    }
}

/// `info` announces a group named `name` whose creator and only member is `creator`.
pub open spec fn announces(info: GroupInfo, name: Seq<char>, creator: Seq<char>) -> bool {
    &&& info.name@ == name
    &&& info.creator_id@ == creator
    &&& info.members@.len() == 1
    &&& info.members@[0]@ == creator
}

/// Takes in a command of the interface: changes the state as the command
/// asks and returns what must be sent.  `sessions` are the peers this node
/// is connected to with a session key: a broadcast reaches exactly them.
///
/// A chat or command line is stored; when some peer has a session it is
/// broadcast, marked sent, and awaited from those peers in `book`.  A new
/// private group (name with `#` in front) is announced when no channel had
/// its name.  Approving a join request, for a group this node owns, admits
/// the requester, drops its request and broadcasts the approval; otherwise
/// nothing happens.  Denying drops the request and the group's pending
/// entry and tells the requester.
pub fn handle_command(state: &mut AppState, cmd: UiCommand, sessions: &Vec<NodeId>, book: &mut AckBook) -> (r: Vec<MeshAction>)
    requires
        old(state).wf(),
    ensures
        final(state).wf(),
        !(cmd is SendMessage) && !(cmd is SendCommand) ==> final(book).awaiting@ == old(book).awaiting@,
        final(state).id_view() == old(state).id_view(),
        final(state).nick_view() == old(state).nick_view(),
        final(state).peer_seq() == old(state).peer_seq(),
        final(state).active() == old(state).active(),
        final(state).transfer_seq() == old(state).transfer_seq(),
        final(state).gateway() == old(state).gateway(),
        match cmd {
            UiCommand::SendMessage { channel, content } => exists|m: Message, mid: Seq<Channel>|
                #![trigger message_pushed(old(state).channel_seq(), mid, old(state).active() as int, m)]
                {
                    &&& outgoing(m, old(state).id_view(), old(state).nick_view(), channel@, MessageContent::Chat(content))
                    &&& message_pushed(old(state).channel_seq(), mid, old(state).active() as int, m)
                    &&& final(state).request_seq() == old(state).request_seq()
                    &&& sent_to_sessions(mid, final(state).channel_seq(), m, sessions@, old(book).awaiting@, final(book).awaiting@, r@)
                },
            UiCommand::SendCommand { channel, cmd } => exists|m: Message, mid: Seq<Channel>|
                #![trigger message_pushed(old(state).channel_seq(), mid, old(state).active() as int, m)]
                {
                    &&& outgoing(m, old(state).id_view(), old(state).nick_view(), channel@, MessageContent::Command(cmd))
                    &&& message_pushed(old(state).channel_seq(), mid, old(state).active() as int, m)
                    &&& final(state).request_seq() == old(state).request_seq()
                    &&& sent_to_sessions(mid, final(state).channel_seq(), m, sessions@, old(book).awaiting@, final(book).awaiting@, r@)
                },
            UiCommand::SendFile { peer_id, path } => {
                &&& final(state).channel_seq() == old(state).channel_seq()
                &&& final(state).request_seq() == old(state).request_seq()
                &&& r@ == seq![MeshAction::OfferFile { peer_id, path }]
            },
            UiCommand::AcceptFile { transfer_id } => {
                &&& final(state).channel_seq() == old(state).channel_seq()
                &&& final(state).request_seq() == old(state).request_seq()
                &&& r@.len() >= 1
                &&& r@.last() == MeshAction::Broadcast(AppMessage::FileAccept { transfer_id })
                &&& (exists|i: int| 0 <= i < old(state).transfer_seq().len() && #[trigger] old(state).transfer_seq()[i].id@ == transfer_id@)
                    == (r@.len() == 2)
                &&& r@.len() == 2 ==> exists|i: int|
                    0 <= i < old(state).transfer_seq().len() && #[trigger] old(state).transfer_seq()[i].id@ == transfer_id@
                    && (forall|k: int| 0 <= k < i ==> (#[trigger] old(state).transfer_seq()[k]).id@ != transfer_id@)
                    && (r@[0] matches MeshAction::OpenReceiver { transfer_id: t, filename: f }
                    && t@ == transfer_id@ && f == old(state).transfer_seq()[i].filename)
            },
            UiCommand::RejectFile { transfer_id } => {
                &&& final(state).channel_seq() == old(state).channel_seq()
                &&& final(state).request_seq() == old(state).request_seq()
                &&& r@ == seq![MeshAction::Broadcast(AppMessage::FileReject { transfer_id })]
            },
            UiCommand::CreateGroup { name } => {
                &&& final(state).request_seq() == old(state).request_seq()
                &&& crate::state::has_channel(old(state).channel_seq(), hashed(name@)) ==> {
                    &&& final(state).channel_seq() == old(state).channel_seq()
                    &&& r@.len() == 0
                }
                &&& !crate::state::has_channel(old(state).channel_seq(), hashed(name@)) ==> {
                    &&& final(state).channel_seq().drop_last() == old(state).channel_seq()
                    &&& final(state).channel_seq().len() == old(state).channel_seq().len() + 1
                    &&& is_fresh_group(final(state).channel_seq().last(), hashed(name@), old(state).id_view())
                    &&& r@.len() == 1
                    &&& (r@[0] matches MeshAction::Broadcast(AppMessage::GroupAnnounce { info })
                        && announces(info, hashed(name@), old(state).id_view()))
                }
            },
            UiCommand::RequestJoinGroup { group_name, owner_id } => {
                &&& final(state).channel_seq() == old(state).channel_seq()
                &&& final(state).request_seq() == old(state).request_seq()
                &&& r@.len() == 1
                &&& (r@[0] matches MeshAction::SendTo {
                    peer_id,
                    msg: AppMessage::GroupJoinReq { group_name: g, requester_id, requester_nick },
                } && peer_id == owner_id && g == group_name && requester_id@ == old(state).id_view()
                    && requester_nick@ == old(state).nick_view())
            },
            UiCommand::ApproveJoin { group_name, requester_id } => if group_owned_by(
                old(state).channel_seq(),
                group_name@,
                old(state).id_view(),
            ) {
                &&& group_approved(old(state).channel_seq(), final(state).channel_seq(), group_name@, requester_id)
                &&& final(state).request_seq() == without_request(old(state).request_seq(), group_name@, requester_id@)
                &&& r@ == seq![MeshAction::Broadcast(AppMessage::GroupJoinApprove { group_name, approved_id: requester_id })]
            } else {
                &&& final(state).channel_seq() == old(state).channel_seq()
                &&& final(state).request_seq() == old(state).request_seq()
                &&& r@.len() == 0
            },
            UiCommand::DenyJoin { group_name, requester_id } => {
                &&& group_denied(old(state).channel_seq(), final(state).channel_seq(), group_name@, requester_id@)
                &&& final(state).request_seq() == without_request(old(state).request_seq(), group_name@, requester_id@)
                &&& r@.len() == 1
                &&& (r@[0] matches MeshAction::SendTo { peer_id, msg: AppMessage::GroupJoinDeny { group_name: g, denied_id } }
                    && peer_id@ == requester_id@ && g == group_name && denied_id == requester_id)
            },
            UiCommand::EnableGateway { target_addr } => {
                &&& final(state).channel_seq() == old(state).channel_seq()
                &&& final(state).request_seq() == old(state).request_seq()
                &&& r@ == seq![MeshAction::ConnectGateway(target_addr)]
            },
            UiCommand::Shutdown => {
                &&& final(state).channel_seq() == old(state).channel_seq()
                &&& final(state).request_seq() == old(state).request_seq()
                &&& r@ == seq![MeshAction::Shutdown]
            },
        },
{
    let self_id = state.self_id().to_owned();
    let nickname = state.nickname().to_owned();
    let mut out: Vec<MeshAction> = Vec::new();
    match cmd {
        UiCommand::SendMessage { channel, content } => {
            let msg = Message::chat(self_id.as_str(), nickname.as_str(), channel.as_str(), content);
            let msg_id = msg.id.clone();
            state.push_message(msg.clone());
            let ghost mid = state.channel_seq();
            let ghost m = msg;
            if sessions.len() > 0 {
                out.push(MeshAction::Broadcast(AppMessage::Chat(msg)));
                state.mark_sent(msg_id.as_str());
                book.expect(msg_id, clone_texts(sessions));
            }
            assert(message_pushed(old(state).channel_seq(), mid, old(state).active() as int, m));
        },
        UiCommand::SendCommand { channel, cmd } => {
            let msg = Message::command(self_id.as_str(), nickname.as_str(), channel.as_str(), cmd);
            let msg_id = msg.id.clone();
            state.push_message(msg.clone());
            let ghost mid = state.channel_seq();
            let ghost m = msg;
            if sessions.len() > 0 {
                out.push(MeshAction::Broadcast(AppMessage::Chat(msg)));
                state.mark_sent(msg_id.as_str());
                book.expect(msg_id, clone_texts(sessions));
            }
            assert(message_pushed(old(state).channel_seq(), mid, old(state).active() as int, m));
        },
        UiCommand::SendFile { peer_id, path } => {
            out.push(MeshAction::OfferFile { peer_id, path });
        },
        UiCommand::AcceptFile { transfer_id } => {
            match state.transfer_index(transfer_id.as_str()) {
                Some(i) => {
                    let t = state.transfer_at(i);
                    out.push(MeshAction::OpenReceiver { transfer_id: transfer_id.clone(), filename: t.filename.clone() });
                },
                None => {},
            }
            out.push(MeshAction::Broadcast(AppMessage::FileAccept { transfer_id }));
        },
        UiCommand::RejectFile { transfer_id } => {
            out.push(MeshAction::Broadcast(AppMessage::FileReject { transfer_id }));
        },
        UiCommand::CreateGroup { name } => {
            let group_name = with_hash(name.as_str());
            let added = state.add_group_channel(group_name.clone(), self_id.clone());
            if added {
                let mut members: Vec<NodeId> = Vec::new();
                members.push(self_id.clone());
                let info = GroupInfo { name: group_name, creator_id: self_id, members };
                out.push(MeshAction::Broadcast(AppMessage::GroupAnnounce { info }));
            }
        },
        UiCommand::RequestJoinGroup { group_name, owner_id } => {
            let msg = AppMessage::GroupJoinReq { group_name, requester_id: self_id, requester_nick: nickname };
            out.push(MeshAction::SendTo { peer_id: owner_id, msg });
        },
        UiCommand::ApproveJoin { group_name, requester_id } => {
            if state.owns_group(group_name.as_str()) {
                state.group_approve(group_name.as_str(), requester_id.clone());
                state.remove_pending_request(group_name.as_str(), requester_id.as_str());
                out.push(MeshAction::Broadcast(AppMessage::GroupJoinApprove { group_name, approved_id: requester_id }));
            }
        },
        UiCommand::DenyJoin { group_name, requester_id } => {
            state.group_deny(group_name.as_str(), requester_id.as_str());
            state.remove_pending_request(group_name.as_str(), requester_id.as_str());
            let peer_id = requester_id.clone();
            out.push(MeshAction::SendTo {
                peer_id,
                msg: AppMessage::GroupJoinDeny { group_name, denied_id: requester_id },
            });
        },
        UiCommand::EnableGateway { target_addr } => {
            out.push(MeshAction::ConnectGateway(target_addr));
        },
        UiCommand::Shutdown => {
            out.push(MeshAction::Shutdown);
        },
    }
    out
}

/// Takes in a message that peer `their_id` (nickname `their_nick`) sent:
/// changes the state as the message asks and returns what to report to the
/// interface and what to send back, if anything.
///
/// A chat message is stored and acknowledged to its sender.  An
/// acknowledgement counts in `book`; once every peer a message was sent to
/// has acknowledged it, it is marked delivered and reported.  A join
/// request is recorded only for a group this node owns.
pub fn handle_app_msg(state: &mut AppState, msg: AppMessage, their_id: &str, their_nick: &str, book: &mut AckBook) -> (r: (Option<NetEvent>, Option<MeshAction>))
    requires
        old(state).wf(),
    ensures
        final(state).wf(),
        !(msg is Delivered) ==> final(book).awaiting@ == old(book).awaiting@,
        !(msg is Chat) ==> r.1 is None,
        final(state).id_view() == old(state).id_view(),
        final(state).nick_view() == old(state).nick_view(),
        final(state).active() == old(state).active(),
        final(state).gateway() == old(state).gateway(),
        match msg {
            AppMessage::Chat(m) => {
                &&& final(state).same_but_channels(old(state))
                &&& message_pushed(old(state).channel_seq(), final(state).channel_seq(), old(state).active() as int, m)
                &&& r.0 == Some(NetEvent::MessageReceived(m))
                &&& (r.1 matches Some(MeshAction::SendTo { peer_id, msg: AppMessage::Delivered { msg_id } })
                    && peer_id@ == their_id@ && msg_id@ == m.id@)
            },
            AppMessage::Delivered { msg_id } => {
                &&& final(state).same_but_channels(old(state))
                &&& acked(old(book).awaiting@, final(book).awaiting@, msg_id@, their_id@, r.0 is Some)
                &&& r.0 is Some ==> restamped(old(state).channel_seq(), final(state).channel_seq(), msg_id@, MessageStatus::Sent, MessageStatus::Delivered)
                    && r.0 == Some(NetEvent::MessageDelivered { msg_id })
                &&& r.0 is None ==> final(state).channel_seq() == old(state).channel_seq()
            },
            AppMessage::FileOffer { name, size, transfer_id, from_id } => {
                &&& final(state).same_but_transfers(old(state))
                &&& final(state).transfer_seq().len() == old(state).transfer_seq().len() + 1
                &&& final(state).transfer_seq().drop_last() == old(state).transfer_seq()
                &&& final(state).transfer_seq().last().id == transfer_id
                &&& final(state).transfer_seq().last().filename == name
                &&& final(state).transfer_seq().last().size == size
                &&& final(state).transfer_seq().last().transferred == 0
                &&& final(state).transfer_seq().last().direction == TransferDirection::Receiving
                &&& final(state).transfer_seq().last().peer_nick@ == their_nick@
                &&& final(state).transfer_seq().last().status == TransferStatus::Pending
                &&& (r.0 matches Some(NetEvent::FileOfferReceived { from_id: f, from_nick, filename, size: z, transfer_id: t })
                    && f == from_id && from_nick@ == their_nick@ && filename == name && z == size && t == transfer_id)
            },
            AppMessage::FileAccept { transfer_id } => {
                &&& final(state).same_but_transfers(old(state))
                &&& transfer_updated(old(state).transfer_seq(), final(state).transfer_seq(), transfer_id@, Some(0u64), TransferStatus::Active)
                &&& r.0 is None
            },
            AppMessage::FileReject { transfer_id } => {
                &&& final(state).same_but_transfers(old(state))
                &&& exists|e: String|
                    e@ == "rejected"@ && #[trigger] transfer_updated(old(state).transfer_seq(), final(state).transfer_seq(), transfer_id@, None, TransferStatus::Failed(e))
                &&& r.0 is None
            },
            AppMessage::GroupAnnounce { info } => {
                &&& final(state).same_but_channels(old(state))
                &&& crate::state::has_channel(old(state).channel_seq(), info.name@) ==> final(state).channel_seq() == old(state).channel_seq()
                &&& !crate::state::has_channel(old(state).channel_seq(), info.name@) ==> {
                    &&& final(state).channel_seq().drop_last() == old(state).channel_seq()
                    &&& final(state).channel_seq().len() == old(state).channel_seq().len() + 1
                    &&& is_fresh_group(final(state).channel_seq().last(), info.name@, info.creator_id@)
                }
                &&& r.0 == Some(NetEvent::GroupAnnounced { info })
            },
            AppMessage::GroupJoinReq { group_name, requester_id, requester_nick } => {
                &&& final(state).peer_seq() == old(state).peer_seq()
                &&& final(state).transfer_seq() == old(state).transfer_seq()
                &&& if group_owned_by(old(state).channel_seq(), group_name@, old(state).id_view()) {
                    &&& group_pending_added(old(state).channel_seq(), final(state).channel_seq(), group_name@, requester_id)
                    &&& has_request(old(state).request_seq(), group_name@, requester_id@) ==> final(state).request_seq() == old(state).request_seq()
                    &&& !has_request(old(state).request_seq(), group_name@, requester_id@) ==> final(state).request_seq()
                        == old(state).request_seq().push((group_name, requester_id, requester_nick))
                    &&& r.0 == Some(NetEvent::GroupJoinRequest { group_name, requester_id, requester_nick })
                } else {
                    &&& final(state).channel_seq() == old(state).channel_seq()
                    &&& final(state).request_seq() == old(state).request_seq()
                    &&& r.0 is None
                }
            },
            AppMessage::GroupJoinApprove { group_name, approved_id } => {
                &&& final(state).same_but_channels(old(state))
                &&& approved_id@ == old(state).id_view() ==> {
                    &&& channel_added(old(state).channel_seq(), final(state).channel_seq(), group_name@)
                    &&& r.0 == Some(NetEvent::GroupJoinApproved { group_name })
                }
                &&& approved_id@ != old(state).id_view() ==> {
                    &&& group_approved(old(state).channel_seq(), final(state).channel_seq(), group_name@, approved_id)
                    &&& r.0 is None
                }
            },
            AppMessage::GroupJoinDeny { group_name, .. } => {
                &&& final(state).same_but_channels(old(state))
                &&& final(state).channel_seq() == old(state).channel_seq()
                &&& r.0 == Some(NetEvent::GroupJoinDenied { group_name })
            },
            AppMessage::Ping => {
                &&& final(state).same_but_peers(old(state))
                &&& final(state).peer_seq().len() == old(state).peer_seq().len()
                &&& forall|i: int| 0 <= i < old(state).peer_seq().len() ==> {
                    let (o, n) = (old(state).peer_seq()[i], #[trigger] final(state).peer_seq()[i]);
                    &&& n.id == o.id
                    &&& n.nickname == o.nickname
                    &&& n.addr == o.addr
                    &&& n.subnet == o.subnet
                    &&& n.is_gateway == o.is_gateway
                    &&& o.id@ != their_id@ ==> n == o
                }
                &&& r.0 is None
            },
        },
{
    match msg {
        AppMessage::Chat(m) => {
            state.push_message(m.clone());
            let ack = MeshAction::SendTo { peer_id: their_id.to_owned(), msg: AppMessage::Delivered { msg_id: m.id.clone() } };
            (Some(NetEvent::MessageReceived(m)), Some(ack))
        },
        AppMessage::Delivered { msg_id } => {
            if book.acknowledge(msg_id.as_str(), their_id) {
                state.mark_delivered(msg_id.as_str());
                (Some(NetEvent::MessageDelivered { msg_id }), None)
            } else {
                (None, None)
            }
        },
        AppMessage::FileOffer { name, size, transfer_id, from_id } => {
            state.add_transfer(FileTransfer {
                id: transfer_id.clone(),
                filename: name.clone(),
                size,
                transferred: 0,
                direction: TransferDirection::Receiving,
                peer_nick: their_nick.to_owned(),
                status: TransferStatus::Pending,
            });
            (Some(NetEvent::FileOfferReceived {
                from_id,
                from_nick: their_nick.to_owned(),
                filename: name,
                size,
                transfer_id,
            }), None)
        },
        AppMessage::FileAccept { transfer_id } => {
            state.update_transfer_progress(transfer_id.as_str(), 0);
            (None, None)
        },
        AppMessage::FileReject { transfer_id } => {
            let reason = "rejected".to_owned();
            let ghost e = reason;
            state.complete_transfer(transfer_id.as_str(), false, Some(reason));
            (None, None)
        },
        AppMessage::GroupAnnounce { info } => {
            let name = info.name.clone();
            state.add_group_channel(name, info.creator_id.clone());
            (Some(NetEvent::GroupAnnounced { info }), None)
        },
        AppMessage::GroupJoinReq { group_name, requester_id, requester_nick } => {
            if state.owns_group(group_name.as_str()) {
                state.group_add_pending(group_name.as_str(), requester_id.clone());
                state.add_pending_request(group_name.clone(), requester_id.clone(), requester_nick.clone());
                (Some(NetEvent::GroupJoinRequest { group_name, requester_id, requester_nick }), None)
            } else {
                (None, None)
            }
        },
        AppMessage::GroupJoinApprove { group_name, approved_id } => {
            if text_eq(approved_id.as_str(), state.self_id()) {
                state.add_channel(group_name.clone());
                (Some(NetEvent::GroupJoinApproved { group_name }), None)
            } else {
                state.group_approve(group_name.as_str(), approved_id);
                (None, None)
            }
        },
        AppMessage::GroupJoinDeny { group_name, .. } => {
            (Some(NetEvent::GroupJoinDenied { group_name }), None)
        },
        AppMessage::Ping => {
            state.update_peer_seen(their_id);
            (None, None)
        },
    }
}

/// Where to open a session with a node that greeted from `from` and
/// listens on `tcp_port`: the sender's IPv4 address with that port; an IPv6
/// sender is reached at the address it sent from.
pub open spec fn session_target(from: PeerAddr, tcp_port: u16) -> PeerAddr {
    match from {
        PeerAddr::V4 { octets, .. } => PeerAddr::V4 { octets, port: tcp_port },
        PeerAddr::V6 { .. } => from,
    }
}

/// Takes in a discovery greeting of node `node_id` (nickname `nickname`,
/// listening on `tcp_port`) that came from `from`.  Its own greeting is
/// ignored; a known node is marked seen; an unknown node becomes a peer,
/// and the address to open a session with is returned.
pub fn handle_hello(state: &mut AppState, node_id: NodeId, nickname: String, tcp_port: u16, from: &PeerAddr) -> (r: Option<PeerAddr>)
    requires
        old(state).wf(),
    ensures
        final(state).wf(),
        final(state).same_but_peers(old(state)),
        node_id@ == old(state).id_view() ==> r is None && final(state).peer_seq() == old(state).peer_seq(),
        node_id@ != old(state).id_view() && has_peer(old(state).peer_seq(), node_id@) ==> {
            &&& r is None
            &&& final(state).peer_seq().len() == old(state).peer_seq().len()
            &&& forall|i: int| 0 <= i < old(state).peer_seq().len() ==> {
                let (o, n) = (old(state).peer_seq()[i], #[trigger] final(state).peer_seq()[i]);
                &&& n.id == o.id
                &&& n.nickname == o.nickname
                &&& n.addr == o.addr
                &&& n.subnet == o.subnet
                &&& n.is_gateway == o.is_gateway
                &&& o.id@ != node_id@ ==> n == o
            }
        },
        node_id@ != old(state).id_view() && !has_peer(old(state).peer_seq(), node_id@) ==> {
            &&& r == Some(session_target(*from, tcp_port))
            &&& final(state).peer_seq().len() == old(state).peer_seq().len() + 1
            &&& final(state).peer_seq().drop_last() == old(state).peer_seq()
            &&& final(state).peer_seq().last().id == node_id
            &&& final(state).peer_seq().last().nickname == nickname
            &&& final(state).peer_seq().last().addr == session_target(*from, tcp_port)
            &&& final(state).peer_seq().last().subnet@ == subnet_text(session_target(*from, tcp_port))
            &&& !final(state).peer_seq().last().is_gateway
        },
{
    if text_eq(node_id.as_str(), state.self_id()) {
        return None;
    }
    match state.peer_index(node_id.as_str()) {
        Some(_) => {
            state.update_peer_seen(node_id.as_str());
            None
        },
        None => {
            let target = match from {
                PeerAddr::V4 { octets, .. } => PeerAddr::V4 { octets: *octets, port: tcp_port },
                PeerAddr::V6 { .. } => from.clone(),
            };
            let peer = Peer::new(node_id, nickname, target.clone());
            state.add_peer(peer);
            assert(final(state).peer_seq().drop_last() =~= old(state).peer_seq());
            Some(target)
        },
    }
}

/// Records that the gateway link to `target` is up and returns the report
/// for the interface, which names the target's IP address.
pub fn gateway_linked(state: &mut AppState, target: &PeerAddr) -> (r: NetEvent)
    requires
        old(state).wf(),
    ensures
        final(state).wf(),
        final(state).gateway(),
        final(state).id_view() == old(state).id_view(),
        final(state).nick_view() == old(state).nick_view(),
        final(state).peer_seq() == old(state).peer_seq(),
        final(state).channel_seq() == old(state).channel_seq(),
        final(state).active() == old(state).active(),
        final(state).transfer_seq() == old(state).transfer_seq(),
        final(state).request_seq() == old(state).request_seq(),
        r matches NetEvent::GatewayLinked(t) && t@ == ip_text(*target),
{
    state.set_gateway(true);
    NetEvent::GatewayLinked(ip_to_text(target))
}

/// Forgets the peer `id`, whose session ended, and returns the report for
/// the interface.
pub fn peer_gone(state: &mut AppState, id: NodeId) -> (r: NetEvent)
    requires
        old(state).wf(),
    ensures
        final(state).wf(),
        final(state).same_but_peers(old(state)),
        !has_peer(final(state).peer_seq(), id@),
        has_peer(old(state).peer_seq(), id@) ==> exists|i: int|
            0 <= i < old(state).peer_seq().len() && old(state).peer_seq()[i].id@ == id@
                && final(state).peer_seq() == old(state).peer_seq().remove(i),
        !has_peer(old(state).peer_seq(), id@) ==> final(state).peer_seq() == old(state).peer_seq(),
        r == NetEvent::PeerLeft(id),
{
    state.remove_peer(id.as_str());
    NetEvent::PeerLeft(id)
}

/// Records the progress of the incoming transfer `r` after it took in a
/// chunk, and returns the report for the interface: the bytes received so
/// far, the transfer active.
pub fn chunk_progress(state: &mut AppState, r: &FileReceiver) -> (ev: NetEvent)
    requires
        old(state).wf(),
    ensures
        final(state).wf(),
        final(state).same_but_transfers(old(state)),
        transfer_updated(old(state).transfer_seq(), final(state).transfer_seq(), r.transfer_id@, Some(r.received_bytes), TransferStatus::Active),
        ev matches NetEvent::TransferProgress { transfer_id, bytes_done }
            && transfer_id@ == r.transfer_id@ && bytes_done == r.received_bytes,
{
    state.update_transfer_progress(r.transfer_id.as_str(), r.received_bytes);
    NetEvent::TransferProgress { transfer_id: r.transfer_id.clone(), bytes_done: r.received_bytes }
}

/// Records that the incoming transfer `r` is complete, its file written to
/// its place, and returns the report for the interface naming that place.
pub fn transfer_done(state: &mut AppState, r: FileReceiver) -> (ev: NetEvent)
    requires
        old(state).wf(),
    ensures
        final(state).wf(),
        final(state).same_but_transfers(old(state)),
        transfer_updated(old(state).transfer_seq(), final(state).transfer_seq(), r.transfer_id@, None, TransferStatus::Complete),
        ev matches NetEvent::FileTransferComplete { transfer_id, dest_path }
            && transfer_id == r.transfer_id && dest_path == r.dest_path,
{
    state.complete_transfer(r.transfer_id.as_str(), true, None);
    NetEvent::FileTransferComplete { transfer_id: r.transfer_id, dest_path: r.dest_path }
}

/// Takes in that peer `id` left as far as delivery goes: the book stops
/// waiting for it, and each message that every peer still awaited for has
/// now acknowledged is marked delivered and reported, in the book's order.
pub fn acks_after_leave(state: &mut AppState, book: &mut AckBook, id: &str) -> (r: Vec<NetEvent>)
    requires
        old(state).wf(),
    ensures
        final(state).wf(),
        final(state).same_but_channels(old(state)),
        final(state).active() == old(state).active(),
        book_view(final(book).awaiting@) == forgotten(old(book).awaiting@, id@).0,
        all_delivered(old(state).channel_seq(), final(state).channel_seq(), forgotten(old(book).awaiting@, id@).1),
        r@.len() == forgotten(old(book).awaiting@, id@).1.len(),
        forall|k: int| 0 <= k < r@.len() ==> (#[trigger] r@[k] matches NetEvent::MessageDelivered { msg_id }
            && msg_id@ == forgotten(old(book).awaiting@, id@).1[k]),
{
    let done = book.forget(id);
    let ghost ids = done@.map_values(|x: String| x@);
    let ghost mut chain: Seq<Seq<Channel>> = seq![state.channel_seq()];
    let mut out: Vec<NetEvent> = Vec::new();
    let mut k: usize = 0;
    while k < done.len()
        invariant
            k <= done@.len(),
            ids == done@.map_values(|x: String| x@),
            state.wf(),
            state.same_but_channels(old(state)),
            state.active() == old(state).active(),
            delivery_chain(chain, old(state).channel_seq(), state.channel_seq(), ids.take(k as int)),
            out@.len() == k,
            forall|j: int| 0 <= j < k ==> (#[trigger] out@[j] matches NetEvent::MessageDelivered { msg_id } && msg_id@ == ids[j]),
        decreases done@.len() - k,
    {
        let ghost prev = state.channel_seq();
        state.mark_delivered(done[k].as_str());
        proof {
            let t0 = ids.take(k as int);
            let t1 = ids.take(k as int + 1);
            let c1 = chain.push(state.channel_seq());
            assert forall|i: int| 0 <= i < t1.len() implies restamped(c1[i], c1[i + 1], #[trigger] t1[i], MessageStatus::Sent, MessageStatus::Delivered) by {
                if i < k {
                    assert(t1[i] == t0[i]);
                    assert(restamped(chain[i], chain[i + 1], t0[i], MessageStatus::Sent, MessageStatus::Delivered));
                } else {
                    assert(t1[i] == done@[k as int]@);
                }
            }
            chain = c1;
        }
        out.push(NetEvent::MessageDelivered { msg_id: done[k].clone() });
        k = k + 1;
    }
    assert(ids.take(done@.len() as int) =~= ids);
    out
}

/// The last component of a path, as `Path::file_name` gives it.
pub uninterp spec fn path_file_name(path: Seq<char>) -> Option<Seq<char>>;

/// Calls `std::path::Path::file_name` on `path` and reads the name back as
/// text.  Claimed: the result is the named last component.
#[verifier::external_body]
fn file_name_of(path: &str) -> (r: Option<String>)
    ensures
        match r {
            Some(n) => path_file_name(path@) == Some(n@),
            None => path_file_name(path@) is None,
        },
{
    match std::path::Path::new(path).file_name() {
        Some(n) => match n.to_str() {
            Some(t) => Some(t.to_string()),
            None => None,
        },
        None => None,
    }
}

/// The name a file is offered under: the last component of its path, or
/// `file` when the path has none.
pub open spec fn offered_name(path: Seq<char>) -> Seq<char> {
    match path_file_name(path) {
        Some(n) => n,
        None => "file"@,
    }
}

/// Records an outgoing offer of the file at `path` (`size` bytes) to
/// `peer_id` under a fresh transfer id; returns the id and the offer to
/// send.
pub fn register_offer(state: &mut AppState, peer_id: NodeId, path: &str, size: u64) -> (r: (String, AppMessage))
    requires
        old(state).wf(),
    ensures
        final(state).wf(),
        final(state).same_but_transfers(old(state)),
        final(state).transfer_seq().len() == old(state).transfer_seq().len() + 1,
        final(state).transfer_seq().drop_last() == old(state).transfer_seq(),
        final(state).transfer_seq().last().id == r.0,
        final(state).transfer_seq().last().filename@ == offered_name(path@),
        final(state).transfer_seq().last().size == size,
        final(state).transfer_seq().last().transferred == 0,
        final(state).transfer_seq().last().direction == TransferDirection::Sending,
        final(state).transfer_seq().last().peer_nick == peer_id,
        final(state).transfer_seq().last().status == TransferStatus::Pending,
        r.0@.len() == 36,
        r.1 matches AppMessage::FileOffer { name, size: z, transfer_id, from_id }
            && name@ == offered_name(path@) && z == size && transfer_id == r.0 && from_id@ == old(state).id_view(),
{
    let tid = crate::types::new_id();
    let fname = match file_name_of(path) {
        Some(n) => n,
        None => "file".to_owned(),
    };
    state.add_transfer(FileTransfer {
        id: tid.clone(),
        filename: fname.clone(),
        size,
        transferred: 0,
        direction: TransferDirection::Sending,
        peer_nick: peer_id,
        status: TransferStatus::Pending,
    });
    assert(final(state).transfer_seq().drop_last() =~= old(state).transfer_seq());
    let offer = AppMessage::FileOffer { name: fname, size, transfer_id: tid.clone(), from_id: state.self_id().to_owned() };
    (tid, offer)
}

/// Whether the peer accepted the transfer `transfer_id`: some transfer with
/// that id is active.
pub fn offer_accepted(state: &AppState, transfer_id: &str) -> (r: bool)
    ensures
        r == exists|i: int|
            0 <= i < state.transfer_seq().len() && #[trigger] state.transfer_seq()[i].id@ == transfer_id@
                && state.transfer_seq()[i].status is Active,
{
    let ts = state.transfers();
    let mut i: usize = 0;
    while i < ts.len()
        invariant
            ts@ == state.transfer_seq(),
            i <= ts@.len(),
            forall|k: int| 0 <= k < i ==> !((#[trigger] ts@[k]).id@ == transfer_id@ && ts@[k].status is Active),
        decreases ts@.len() - i,
    {
        let active = match ts[i].status {
            TransferStatus::Active => true,
            _ => false,
        };
        if active && text_eq(ts[i].id.as_str(), transfer_id) {
            return true;
        }
        i = i + 1;
    }
    false
}

} // verus!
