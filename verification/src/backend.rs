//! The coordinator: user directory, session registry and the single-slot
//! matchmaking queue, kept jointly consistent.
//!
//! A connection joins, waits in the slot if it is empty, and is otherwise
//! paired with the waiting connection into a fresh session. Either
//! participant's leave removes the session and both participants' records.
//! All operations work on one composite state, so every call is one atomic
//! transaction; the network layer serializes calls with a single lock.

use std::collections::HashMap;

use vstd::prelude::*;

use crate::game::Game;
use crate::packet::{Event, Packet};
use crate::user::User;

verus! {

/// One running game and the two connections bound to it.
pub struct Session {
    pub game: Game,
    pub participant_a: u64,
    pub participant_b: u64,
}

/// Session identifiers carry a per-backend counter in their high 64 bits,
/// so an identifier is never reused; the low 64 bits come from a freshly
/// drawn random identifier.
pub const SESSION_STRIDE: u128 = 0x1_0000_0000_0000_0000;

/// Relies on uuid::Uuid::new_v4 (through Uuid::as_u128): a freshly drawn
/// random identifier. Nothing is assumed about the value; identifier
/// freshness rests on the verified counter, not on the draw. The draw
/// panics only if the operating system's random source fails, an
/// environmental failure of the same kind as running out of memory.
#[verifier::external_body]
fn random_session_tag() -> (r: u128) {
    uuid::Uuid::new_v4().as_u128()
}

pub struct Backend {
    /// Single slot waiting room.
    pub queue: Option<u64>,
    /// User store.
    pub users: HashMap<u64, User>,
    /// Game state store.
    pub games: HashMap<u128, Session>,
    /// High 64 bits of the next session identifier.
    pub next_session: u64,
}

impl Backend {
    /// Every user bound to a session is a participant of an existing
    /// session.
    pub open spec fn users_wf(self) -> bool {
        forall|c: u64|
            #[trigger] self.users@.contains_key(c) ==> (self.users@[c].game matches Some(g)
                ==> self.games@.contains_key(g) && (self.games@[g].participant_a == c
                || self.games@[g].participant_b == c))
    }

    /// Every session has two distinct participants, both registered and
    /// both bound to it.
    pub open spec fn sessions_wf(self) -> bool {
        forall|g: u128|
            #[trigger] self.games@.contains_key(g) ==> {
                let s = self.games@[g];
                &&& s.participant_a != s.participant_b
                &&& self.users@.contains_key(s.participant_a)
                &&& self.users@[s.participant_a].game == Some(g)
                &&& self.users@.contains_key(s.participant_b)
                &&& self.users@[s.participant_b].game == Some(g)
            }
    }

    /// The waiting slot holds only a registered connection that is in no
    /// session.
    pub open spec fn queue_wf(self) -> bool {
        self.queue matches Some(c) ==> self.users@.contains_key(c) && self.users@[c].game is None
    }

    /// Every issued session identifier lies below the next counter block,
    /// so a fresh identifier never collides with a live one.
    pub open spec fn ids_wf(self) -> bool {
        forall|g: u128|
            #[trigger] self.games@.contains_key(g) ==> g < (self.next_session as u128)
                * SESSION_STRIDE
    }

    /// The joint consistency of the three collections.
    pub open spec fn wf(self) -> bool {
        &&& self.users_wf()
        &&& self.sessions_wf()
        &&& self.queue_wf()
        &&& self.ids_wf()
    }

    /// `post` is `pre` with connection `id` registered and waiting.
    pub open spec fn join_waits(pre: Backend, post: Backend, id: u64) -> bool {
        &&& post.queue == Some(id)
        &&& post.users@.dom() == pre.users@.dom().insert(id)
        &&& post.users@[id].game is None
        &&& post.users@[id].username@ == Seq::<char>::empty()
        &&& forall|c: u64|
            #[trigger] pre.users@.contains_key(c) && c != id ==> post.users@[c] == pre.users@[c]
        &&& post.games@ == pre.games@
        &&& post.next_session == pre.next_session
    }

    /// `post` is `pre` with the waiting connection `waiting` and the newly
    /// joined connection `id` paired into the fresh session `gid`.
    pub open spec fn join_pairs(
        pre: Backend,
        post: Backend,
        waiting: u64,
        id: u64,
        gid: u128,
    ) -> bool {
        &&& post.queue is None
        &&& !pre.games@.contains_key(gid)
        &&& post.games@.contains_key(gid)
        &&& post.games@ == pre.games@.insert(gid, post.games@[gid])
        &&& post.games@[gid].participant_a == waiting
        &&& post.games@[gid].participant_b == id
        &&& post.games@[gid].game.is_initial()
        &&& post.users@.dom() == pre.users@.dom().insert(id)
        &&& post.users@[id].game == Some(gid)
        &&& post.users@[id].username@ == Seq::<char>::empty()
        &&& post.users@[waiting].game == Some(gid)
        &&& post.users@[waiting].username == pre.users@[waiting].username
        &&& forall|c: u64|
            #[trigger] pre.users@.contains_key(c) && c != id && c != waiting ==> post.users@[c]
                == pre.users@[c]
        &&& post.next_session == pre.next_session + 1
    }

    /// `post` is `pre` without `id`'s registration; a waiting `id` leaves
    /// the slot empty, and an unregistered `id` changes nothing.
    pub open spec fn leave_solo(pre: Backend, post: Backend, id: u64) -> bool {
        &&& post.queue == if pre.queue == Some(id) {
            None::<u64>
        } else {
            pre.queue
        }
        &&& post.users@ == pre.users@.remove(id)
        &&& post.games@ == pre.games@
        &&& post.next_session == pre.next_session
    }

    /// The other participant of a session `id` takes part in.
    pub open spec fn partner_of(s: Session, id: u64) -> u64 {
        if s.participant_a == id {
            s.participant_b
        } else {
            s.participant_a
        }
    }

    /// `post` is `pre` with the session `gid` removed together with both
    /// of its participants' records.
    pub open spec fn leave_cascades(pre: Backend, post: Backend, id: u64, gid: u128) -> bool {
        &&& post.queue == pre.queue
        &&& post.games@ == pre.games@.remove(gid)
        &&& post.users@ == pre.users@.remove(id).remove(Backend::partner_of(pre.games@[gid], id))
        &&& post.next_session == pre.next_session
    }

    /// `post` is `pre` with `a` and `b` paired into the fresh session
    /// `gid` and nothing else changed.
    pub open spec fn paired(pre: Backend, post: Backend, a: u64, b: u64, gid: u128) -> bool {
        &&& !pre.games@.contains_key(gid)
        &&& post.games@.contains_key(gid)
        &&& post.games@ == pre.games@.insert(gid, post.games@[gid])
        &&& post.games@[gid].participant_a == a
        &&& post.games@[gid].participant_b == b
        &&& post.games@[gid].game.is_initial()
        &&& post.users@.dom() == pre.users@.dom()
        &&& post.users@[a].game == Some(gid)
        &&& post.users@[a].username == pre.users@[a].username
        &&& post.users@[b].game == Some(gid)
        &&& post.users@[b].username == pre.users@[b].username
        &&& forall|c: u64|
            #[trigger] pre.users@.contains_key(c) && c != a && c != b ==> post.users@[c]
                == pre.users@[c]
        &&& post.queue == pre.queue
        &&& post.next_session == pre.next_session + 1
    }

    pub fn new() -> (b: Backend)
        ensures
            b.wf(),
            b.queue is None,
            b.users@ == Map::<u64, User>::empty(),
            b.games@ == Map::<u128, Session>::empty(),
            b.next_session == 0,
    {
        Backend { queue: None, users: HashMap::new(), games: HashMap::new(), next_session: 0 }
    }

    /// Register a newly connected `new_user_id` and drive matchmaking: an
    /// empty waiting slot takes the connection, an occupied one is cleared
    /// and a fresh session pairs the waiting connection with this one.
    pub fn user_join(&mut self, new_user_id: u64)
        requires
            old(self).wf(),
            !old(self).users@.contains_key(new_user_id),
            old(self).next_session < u64::MAX,
        ensures
            final(self).wf(),
            old(self).queue is None ==> Backend::join_waits(*old(self), *final(self), new_user_id),
            old(self).queue matches Some(waiting) ==> exists|gid: u128|
                Backend::join_pairs(*old(self), *final(self), waiting, new_user_id, gid),
    {
        let new_user = User::new();
        self.users.insert(new_user_id, new_user);

        match self.queue {
            Some(queue_user_id) => {
                self.queue = None;
                proof {
                    Backend::lemma_register_wf(*old(self), *self, new_user_id);
                }
                let ghost mid = *self;
                self.start_game(queue_user_id, new_user_id);
                proof {
                    let pre = *old(self);
                    let post = *self;
                    let gid = choose|gid: u128|
                        Backend::paired(mid, post, queue_user_id, new_user_id, gid);
                    assert(Backend::paired(mid, post, queue_user_id, new_user_id, gid));
                    assert(pre.users@.contains_key(queue_user_id));
                    assert(post.users@.dom() == pre.users@.dom().insert(new_user_id));
                    assert(post.users@[queue_user_id].username == pre.users@[
                        queue_user_id].username);
                    assert forall|c: u64|
                        #[trigger] pre.users@.contains_key(c) && c != new_user_id && c
                            != queue_user_id implies post.users@[c] == pre.users@[c] by {
                        assert(mid.users@.contains_key(c));
                        assert(mid.users@[c] == pre.users@[c]);
                    }
                    assert(Backend::join_pairs(pre, post, queue_user_id, new_user_id, gid));
                }
            },
            None => {
                self.queue = Some(new_user_id);
                proof {
                    assert(self.users@.dom() =~= old(self).users@.dom().insert(new_user_id));
                    Backend::lemma_register_wf(*old(self), *self, new_user_id);
                }
            },
        }
    }

    /// Deregister `user_id`: clear the waiting slot if it holds the
    /// connection, and when the connection is in a session, remove the
    /// session together with the other participant's record. A leave for
    /// an unknown connection changes nothing.
    pub fn user_leave(&mut self, user_id: u64)
        requires
            old(self).wf(),
        ensures
            final(self).wf(),
            old(self).users@.contains_key(user_id) ==> (old(self).users@[user_id].game matches Some(
                gid,
            ) ==> Backend::leave_cascades(*old(self), *final(self), user_id, gid)),
            !(old(self).users@.contains_key(user_id) && old(self).users@[user_id].game is Some)
                ==> Backend::leave_solo(*old(self), *final(self), user_id),
    {
        if let Some(queued) = self.queue {
            if queued == user_id {
                self.queue = None;
            }
        }
        match self.users.remove(&user_id) {
            Some(user) => {
                match user.game {
                    Some(game_id) => {
                        match self.games.remove(&game_id) {
                            Some(session) => {
                                let other_player = if session.participant_a == user_id {
                                    session.participant_b
                                } else {
                                    session.participant_a
                                };
                                self.users.remove(&other_player);
                                proof {
                                    Backend::lemma_leave_cascades_wf(
                                        *old(self),
                                        *self,
                                        user_id,
                                        game_id,
                                    );
                                }
                            },
                            None => {},
                        }
                    },
                    None => {
                        proof {
                            Backend::lemma_leave_solo_wf(*old(self), *self, user_id);
                        }
                    },
                }
            },
            None => {
                proof {
                    Backend::lemma_leave_solo_wf(*old(self), *self, user_id);
                }
            },
        }
    }

    /// Look up the user the event arrives for and apply the event; a
    /// nickname event stores the display name. The caller owes a
    /// registered connection: a dispatch for an unknown one is a lifecycle
    /// bug upstream.
    pub fn dispatch_event(&mut self, event: Event, user_id: u64) -> (r: Option<Packet>)
        requires
            old(self).wf(),
            old(self).users@.contains_key(user_id),
        ensures
            final(self).wf(),
            r is None,
            final(self).queue == old(self).queue,
            final(self).games@ == old(self).games@,
            final(self).next_session == old(self).next_session,
            final(self).users@.dom() == old(self).users@.dom(),
            final(self).users@[user_id].game == old(self).users@[user_id].game,
            event matches Event::Nickname(name) ==> final(self).users@[user_id].username@ == name@,
            forall|c: u64|
                #[trigger] old(self).users@.contains_key(c) && c != user_id
                    ==> final(self).users@[c] == old(self).users@[c],
    {
        match event {
            Event::Nickname(username) => {
                let user = self.users.remove(&user_id).unwrap();
                let game = user.game;
                self.users.insert(user_id, User { game, username });
                proof {
                    assert(self.users@.dom() =~= old(self).users@.dom());
                }
            },
        }
        None
    }

    /// Pair `user_id1` and `user_id2`, both registered and unbound, into a
    /// fresh session.
    fn start_game(&mut self, user_id1: u64, user_id2: u64)
        requires
            old(self).wf(),
            old(self).queue is None,
            user_id1 != user_id2,
            old(self).users@.contains_key(user_id1),
            old(self).users@[user_id1].game is None,
            old(self).users@.contains_key(user_id2),
            old(self).users@[user_id2].game is None,
            old(self).next_session < u64::MAX,
        ensures
            final(self).wf(),
            exists|gid: u128| Backend::paired(*old(self), *final(self), user_id1, user_id2, gid),
    {
        let game = Game::new();
        let tag = random_session_tag();
        let game_id: u128 = (self.next_session as u128) * SESSION_STRIDE + (tag % SESSION_STRIDE);
        proof {
            assert(!self.games@.contains_key(game_id));
        }
        self.next_session = self.next_session + 1;
        self.games.insert(
            game_id,
            Session { game, participant_a: user_id1, participant_b: user_id2 },
        );

        // Assign users to the game
        let user1 = self.users.remove(&user_id1).unwrap();
        self.users.insert(user_id1, User { game: Some(game_id), username: user1.username });
        let user2 = self.users.remove(&user_id2).unwrap();
        self.users.insert(user_id2, User { game: Some(game_id), username: user2.username });

        proof {
            assert(self.users@.dom() =~= old(self).users@.dom());
            assert(self.games@ == old(self).games@.insert(game_id, self.games@[game_id]));
            assert(Backend::paired(*old(self), *self, user_id1, user_id2, game_id));
            Backend::lemma_paired_wf(*old(self), *self, user_id1, user_id2, game_id);
        }
    }

    /// Registering a fresh, unbound connection preserves well-formedness,
    /// as long as the waiting slot still holds a registered, unbound
    /// connection or nothing.
    proof fn lemma_register_wf(pre: Backend, post: Backend, id: u64)
        requires
            pre.wf(),
            !pre.users@.contains_key(id),
            post.users@ == pre.users@.insert(id, post.users@[id]),
            post.users@[id].game is None,
            post.games@ == pre.games@,
            post.next_session == pre.next_session,
            post.queue_wf(),
        ensures
            post.wf(),
    {
        assert forall|c: u64| #[trigger] post.users@.contains_key(c) implies (
        post.users@[c].game matches Some(g) ==> post.games@.contains_key(g) && (
        post.games@[g].participant_a == c || post.games@[g].participant_b == c)) by {
            if c != id {
                assert(pre.users@.contains_key(c));
                assert(post.users@[c] == pre.users@[c]);
            }
        }
        assert forall|g: u128| #[trigger] post.games@.contains_key(g) implies {
            let s = post.games@[g];
            &&& s.participant_a != s.participant_b
            &&& post.users@.contains_key(s.participant_a)
            &&& post.users@[s.participant_a].game == Some(g)
            &&& post.users@.contains_key(s.participant_b)
            &&& post.users@[s.participant_b].game == Some(g)
        } by {
            assert(pre.games@.contains_key(g));
            let s = pre.games@[g];
            assert(s.participant_a != id && s.participant_b != id);
            assert(post.users@[s.participant_a] == pre.users@[s.participant_a]);
            assert(post.users@[s.participant_b] == pre.users@[s.participant_b]);
        }
    }

    /// Pairing two registered, unbound connections into a fresh session
    /// with the counter advanced by one block preserves well-formedness.
    proof fn lemma_paired_wf(pre: Backend, post: Backend, a: u64, b: u64, gid: u128)
        requires
            pre.wf(),
            pre.queue is None,
            a != b,
            pre.users@.contains_key(a),
            pre.users@[a].game is None,
            pre.users@.contains_key(b),
            pre.users@[b].game is None,
            Backend::paired(pre, post, a, b, gid),
            gid < (post.next_session as u128) * SESSION_STRIDE,
        ensures
            post.wf(),
    {
        assert forall|c: u64| #[trigger] post.users@.contains_key(c) implies (
        post.users@[c].game matches Some(g) ==> post.games@.contains_key(g) && (
        post.games@[g].participant_a == c || post.games@[g].participant_b == c)) by {
            if c != a && c != b {
                assert(pre.users@.contains_key(c));
                assert(post.users@[c] == pre.users@[c]);
                match post.users@[c].game {
                    Some(g) => {
                        assert(pre.games@.contains_key(g));
                        assert(g != gid);
                        assert(post.games@[g] == pre.games@[g]);
                    },
                    None => {},
                }
            }
        }
        assert forall|g: u128| #[trigger] post.games@.contains_key(g) implies {
            let s = post.games@[g];
            &&& s.participant_a != s.participant_b
            &&& post.users@.contains_key(s.participant_a)
            &&& post.users@[s.participant_a].game == Some(g)
            &&& post.users@.contains_key(s.participant_b)
            &&& post.users@[s.participant_b].game == Some(g)
        } by {
            if g != gid {
                assert(pre.games@.contains_key(g));
                let s = pre.games@[g];
                assert(post.games@[g] == s);
                assert(s.participant_a != a && s.participant_a != b);
                assert(s.participant_b != a && s.participant_b != b);
                assert(post.users@[s.participant_a] == pre.users@[s.participant_a]);
                assert(post.users@[s.participant_b] == pre.users@[s.participant_b]);
            }
        }
        assert forall|g: u128| #[trigger] post.games@.contains_key(g) implies g < (
        post.next_session as u128) * SESSION_STRIDE by {
            if g != gid {
                assert(pre.games@.contains_key(g));
                assert(g < (pre.next_session as u128) * SESSION_STRIDE);
                assert((pre.next_session as u128) * SESSION_STRIDE <= (post.next_session as u128)
                    * SESSION_STRIDE);
            }
        }
    }

    /// Removing a connection that is in no session preserves
    /// well-formedness.
    proof fn lemma_leave_solo_wf(pre: Backend, post: Backend, id: u64)
        requires
            pre.wf(),
            pre.users@.contains_key(id) ==> pre.users@[id].game is None,
            Backend::leave_solo(pre, post, id),
        ensures
            post.wf(),
    {
        assert forall|c: u64| #[trigger] post.users@.contains_key(c) implies (
        post.users@[c].game matches Some(g) ==> post.games@.contains_key(g) && (
        post.games@[g].participant_a == c || post.games@[g].participant_b == c)) by {
            assert(pre.users@.contains_key(c) && c != id);
            assert(post.users@[c] == pre.users@[c]);
        }
        assert forall|g: u128| #[trigger] post.games@.contains_key(g) implies {
            let s = post.games@[g];
            &&& s.participant_a != s.participant_b
            &&& post.users@.contains_key(s.participant_a)
            &&& post.users@[s.participant_a].game == Some(g)
            &&& post.users@.contains_key(s.participant_b)
            &&& post.users@[s.participant_b].game == Some(g)
        } by {
            assert(pre.games@.contains_key(g));
            let s = pre.games@[g];
            assert(s.participant_a != id && s.participant_b != id);
            assert(post.users@[s.participant_a] == pre.users@[s.participant_a]);
            assert(post.users@[s.participant_b] == pre.users@[s.participant_b]);
        }
        match post.queue {
            Some(c) => {
                assert(pre.queue == Some(c));
                assert(c != id);
                assert(post.users@.contains_key(c) && post.users@[c].game is None);
            },
            None => {},
        }
    }

    /// Removing a session together with both of its participants' records
    /// preserves well-formedness.
    proof fn lemma_leave_cascades_wf(pre: Backend, post: Backend, id: u64, gid: u128)
        requires
            pre.wf(),
            pre.users@.contains_key(id),
            pre.users@[id].game == Some(gid),
            Backend::leave_cascades(pre, post, id, gid),
        ensures
            post.wf(),
    {
        let other = Backend::partner_of(pre.games@[gid], id);
        assert(pre.games@.contains_key(gid));
        assert forall|c: u64| #[trigger] post.users@.contains_key(c) implies (
        post.users@[c].game matches Some(g) ==> post.games@.contains_key(g) && (
        post.games@[g].participant_a == c || post.games@[g].participant_b == c)) by {
            assert(pre.users@.contains_key(c) && c != id && c != other);
            match post.users@[c].game {
                Some(g) => {
                    assert(pre.games@.contains_key(g));
                    if g == gid {
                        assert(pre.games@[gid].participant_a == c || pre.games@[gid].participant_b
                            == c);
                        assert(false);
                    }
                },
                None => {},
            }
        }
        assert forall|g: u128| #[trigger] post.games@.contains_key(g) implies {
            let s = post.games@[g];
            &&& s.participant_a != s.participant_b
            &&& post.users@.contains_key(s.participant_a)
            &&& post.users@[s.participant_a].game == Some(g)
            &&& post.users@.contains_key(s.participant_b)
            &&& post.users@[s.participant_b].game == Some(g)
        } by {
            assert(pre.games@.contains_key(g) && g != gid);
            let s = pre.games@[g];
            if s.participant_a == id || s.participant_b == id {
                assert(pre.users@[id].game == Some(g));
                assert(false);
            }
            if s.participant_a == other || s.participant_b == other {
                assert(pre.users@[other].game == Some(g));
                assert(pre.users@[other].game == Some(gid));
                assert(false);
            }
        }
        match post.queue {
            Some(c) => {
                assert(pre.users@.contains_key(c) && pre.users@[c].game is None);
                assert(c != id && c != other);
            },
            None => {},
        }
    }
}

/// No two distinct sessions ever share a participant, in any well-formed
/// backend state.
pub proof fn lemma_sessions_never_share_participant(b: Backend, g1: u128, g2: u128, c: u64)
    requires
        b.wf(),
        b.games@.contains_key(g1),
        b.games@.contains_key(g2),
        g1 != g2,
        b.games@[g1].participant_a == c || b.games@[g1].participant_b == c,
    ensures
        b.games@[g2].participant_a != c,
        b.games@[g2].participant_b != c,
{
    assert(b.users@[c].game == Some(g1));
    if b.games@[g2].participant_a == c || b.games@[g2].participant_b == c {
        assert(b.users@[c].game == Some(g2));
    }
}

/// The waiting connection takes part in no session, in any well-formed
/// backend state: a connection id is in at most one of the waiting slot
/// and a session.
pub proof fn lemma_waiting_not_in_session(b: Backend, c: u64, g: u128)
    requires
        b.wf(),
        b.queue == Some(c),
        b.games@.contains_key(g),
    ensures
        b.games@[g].participant_a != c,
        b.games@[g].participant_b != c,
{
    if b.games@[g].participant_a == c || b.games@[g].participant_b == c {
        assert(b.users@[c].game == Some(g));
    }
}

} // verus!
