//! Who is in which voice channel, as the main gateway's voice-state updates
//! tell it: the channel each user's voice state names, and per channel the
//! participants to show.

use vstd::prelude::*;

use std::collections::HashMap;

use crate::types::{Identifier, User};

verus! {

broadcast use vstd::std_specs::hash::group_hash_axioms;

/// What a voice-state update tells the interface.
#[derive(Debug)]
pub enum RosterEvent {
    /// The user left voice.
    ParticipantLeft { user_id: u64 },
    /// The user is in the channel.
    ParticipantJoined { channel_id: u64, user: Identifier<User> },
}

/// The ids of a roster, in order.
pub open spec fn roster_ids(r: Seq<Identifier<User>>) -> Seq<u64> {
    r.map_values(|u: Identifier<User>| u.id_spec())
}

/// A roster without the entries whose id is `user`.
pub open spec fn without_user(r: Seq<Identifier<User>>, user: u64) -> Seq<Identifier<User>> {
    r.filter(|u: Identifier<User>| u.id_spec() != user)
}

/// The rosters after evicting `user` from `channel`'s: a roster left empty
/// is dropped.
pub open spec fn evicted(rosters: Map<u64, Seq<Identifier<User>>>, channel: u64, user: u64) -> Map<u64, Seq<Identifier<User>>> {
    if !rosters.contains_key(channel) {
        rosters
    } else if without_user(rosters[channel], user).len() == 0 {
        rosters.remove(channel)
    } else {
        rosters.insert(channel, without_user(rosters[channel], user))
    }
}

/// The voice states after an update for `user_id`.
pub open spec fn states_after(s0: Map<u64, u64>, user_id: u64, channel_id: Option<u64>) -> Map<u64, u64> {
    match channel_id {
        None => s0.remove(user_id),
        Some(c) => s0.insert(user_id, c),
    }
}

/// The rosters after an update for `user_id` (see [`VoiceRoster::update`]).
pub open spec fn rosters_after(
    s0: Map<u64, u64>,
    r0: Map<u64, Seq<Identifier<User>>>,
    user_id: u64,
    channel_id: Option<u64>,
    user: Option<Identifier<User>>,
) -> Map<u64, Seq<Identifier<User>>> {
    match channel_id {
        None => if s0.contains_key(user_id) {
            evicted(r0, s0[user_id], user_id)
        } else {
            r0
        },
        Some(c) => {
            let r1 = if s0.contains_key(user_id) && s0[user_id] != c {
                evicted(r0, s0[user_id], user_id)
            } else {
                r0
            };
            match user {
                None => r1,
                Some(u) => {
                    let prior = if r1.contains_key(c) {
                        r1[c]
                    } else {
                        Seq::empty()
                    };
                    r1.insert(c, without_user(prior, user_id).push(u))
                },
            }
        },
    }
}

/// The rosters agree with the voice states: no roster is empty, everyone
/// listed in a channel's roster has a voice state naming that channel, and
/// nobody is listed twice in one roster.
pub open spec fn rosters_consistent(states: Map<u64, u64>, rosters: Map<u64, Seq<Identifier<User>>>) -> bool {
    &&& forall|c: u64| #[trigger] rosters.contains_key(c) ==> rosters[c].len() > 0
    &&& forall|c: u64, i: int|
        rosters.contains_key(c) && 0 <= i < rosters[c].len() ==> states.contains_key(
            (#[trigger] rosters[c][i]).id_spec(),
        ) && states[rosters[c][i].id_spec()] == c
    &&& forall|c: u64, i: int, j: int|
        rosters.contains_key(c) && 0 <= i < j < rosters[c].len() ==> (#[trigger] rosters[c][i]).id_spec()
            != (#[trigger] rosters[c][j]).id_spec()
}

/// Voice states and participant rosters.
#[derive(Debug)]
pub struct VoiceRoster {
    states: HashMap<u64, u64>,
    participants: HashMap<u64, Vec<Identifier<User>>>,
}

/// A copy of a user identifier.
pub fn duplicate_user(u: &Identifier<User>) -> (r: Identifier<User>)
    ensures
        r == *u,
{
    let data = u.data();
    let icon = match &data.icon {
        Some(p) => Some(p.clone()),
        None => None,
    };
    let r = Identifier::new(*u.id(), User { name: data.name.clone(), icon });
    proof {
        Identifier::lemma_same(r, *u);
    }
    r
}

/// A copy of a roster.
pub fn duplicate_roster(v: &Vec<Identifier<User>>) -> (r: Vec<Identifier<User>>)
    ensures
        r@ == v@,
{
    let mut r: Vec<Identifier<User>> = Vec::new();
    let mut i: usize = 0;
    while i < v.len()
        invariant
            i <= v@.len(),
            r@ == v@.take(i as int),
        decreases v@.len() - i,
    {
        r.push(duplicate_user(&v[i]));
        proof {
            assert(r@ =~= v@.take(i + 1));
        }
        i = i + 1;
    }
    proof {
        assert(v@.take(v@.len() as int) =~= v@);
    }
    r
}

impl VoiceRoster {
    /// The channel of each user in voice.
    pub closed spec fn states_spec(&self) -> Map<u64, u64> {
        self.states@
    }

    /// The participants of each channel with any.
    pub closed spec fn rosters_spec(&self) -> Map<u64, Seq<Identifier<User>>> {
        self.participants@.map_values(|v: Vec<Identifier<User>>| v@)
    }

    /// Nobody in voice.
    pub fn new() -> (r: Self)
        ensures
            r.states_spec() == Map::<u64, u64>::empty(),
            r.rosters_spec() == Map::<u64, Seq<Identifier<User>>>::empty(),
    {
        let r = VoiceRoster { states: HashMap::new(), participants: HashMap::new() };
        proof {
            assert(r.rosters_spec() =~= Map::<u64, Seq<Identifier<User>>>::empty());
        }
        r
    }

    /// Forgets every voice state and roster (a fresh Ready rebuilds them).
    pub fn clear(&mut self)
        ensures
            final(self).states_spec() == Map::<u64, u64>::empty(),
            final(self).rosters_spec() == Map::<u64, Seq<Identifier<User>>>::empty(),
    {
        self.states.clear();
        self.participants.clear();
        proof {
            assert(self.rosters_spec() =~= Map::<u64, Seq<Identifier<User>>>::empty());
        }
    }

    /// The participants of `channel_id`, if it has any.
    pub fn participants(&self, channel_id: u64) -> (r: Option<&Vec<Identifier<User>>>)
        ensures
            match r {
                Some(v) => self.rosters_spec().contains_key(channel_id) && self.rosters_spec()[channel_id] == v@,
                None => !self.rosters_spec().contains_key(channel_id),
            },
    {
        self.participants.get(&channel_id)
    }

    /// Removes `user` from `channel`'s roster, dropping the roster if it
    /// becomes empty.
    fn evict(&mut self, channel: u64, user: u64)
        ensures
            final(self).states_spec() == old(self).states_spec(),
            final(self).rosters_spec() == evicted(old(self).rosters_spec(), channel, user),
    {
        let ghost before = self.rosters_spec();
        match self.participants.remove(&channel) {
            None => {
                proof {
                    assert(self.rosters_spec() =~= before);
                }
            },
            Some(v) => {
                let kept = retain_other_users(v, user);
                if kept.len() == 0 {
                    proof {
                        assert(self.rosters_spec() =~= before.remove(channel));
                    }
                } else {
                    self.participants.insert(channel, kept);
                    proof {
                        assert(self.rosters_spec() =~= before.insert(channel, without_user(before[channel], user)));
                    }
                }
            },
        }
    }

    /// Applies a voice-state update for `user_id`. Without a channel the
    /// user left: their state is dropped, they are evicted from the roster
    /// of the channel it named, and their leaving is reported. With a
    /// channel their state names it, they are evicted from a different
    /// channel's roster it named before, and, when the user's data is known,
    /// they replace any entry of theirs at the end of the channel's roster
    /// and their joining is reported.
    pub fn update(&mut self, user_id: u64, channel_id: Option<u64>, user: Option<Identifier<User>>) -> (r: Option<RosterEvent>)
        ensures
            final(self).states_spec() == states_after(old(self).states_spec(), user_id, channel_id),
            final(self).rosters_spec() == rosters_after(
                old(self).states_spec(),
                old(self).rosters_spec(),
                user_id,
                channel_id,
                user,
            ),
            ({
                let s0 = old(self).states_spec();
                let r0 = old(self).rosters_spec();
                match channel_id {
                    None => {
                        &&& final(self).states_spec() == s0.remove(user_id)
                        &&& final(self).rosters_spec() == (if s0.contains_key(user_id) {
                            evicted(r0, s0[user_id], user_id)
                        } else {
                            r0
                        })
                        &&& r matches Some(RosterEvent::ParticipantLeft { user_id: u }) && u == user_id
                    },
                    Some(c) => {
                        let r1 = if s0.contains_key(user_id) && s0[user_id] != c {
                            evicted(r0, s0[user_id], user_id)
                        } else {
                            r0
                        };
                        &&& final(self).states_spec() == s0.insert(user_id, c)
                        &&& user is None ==> r is None && final(self).rosters_spec() == r1
                        &&& user matches Some(u) ==> {
                            let prior = if r1.contains_key(c) {
                                r1[c]
                            } else {
                                Seq::empty()
                            };
                            &&& final(self).rosters_spec() == r1.insert(c, without_user(prior, user_id).push(u))
                            &&& r matches Some(RosterEvent::ParticipantJoined { channel_id: cc, user: uu })
                            &&& cc == c
                            &&& uu == u
                        }
                    },
                }
            }),
    {
        match channel_id {
            None => {
                match self.states.remove(&user_id) {
                    Some(old_channel) => {
                        self.evict(old_channel, user_id);
                    },
                    None => {},
                }
                Some(RosterEvent::ParticipantLeft { user_id })
            },
            Some(c) => {
                match self.states.insert(user_id, c) {
                    Some(prev) => {
                        if prev != c {
                            self.evict(prev, user_id);
                        }
                    },
                    None => {},
                }
                match user {
                    None => None,
                    Some(u) => {
                        let ghost r1 = self.rosters_spec();
                        let shown = duplicate_user(&u);
                        let entry = match self.participants.remove(&c) {
                            Some(v) => v,
                            None => Vec::new(),
                        };
                        let mut kept = retain_other_users(entry, user_id);
                        kept.push(u);
                        self.participants.insert(c, kept);
                        proof {
                            let prior = if r1.contains_key(c) {
                                r1[c]
                            } else {
                                Seq::empty()
                            };
                            assert(self.rosters_spec() =~= r1.insert(c, without_user(prior, user_id).push(u)));
                        }
                        Some(RosterEvent::ParticipantJoined { channel_id: c, user: shown })
                    },
                }
            },
        }
    }
}

/// The entries of a roster whose id is not `user`, in order.
fn retain_other_users(v: Vec<Identifier<User>>, user: u64) -> (r: Vec<Identifier<User>>)
    ensures
        r@ == without_user(v@, user),
{
    let mut v = v;
    let ghost orig = v@;
    let mut out: Vec<Identifier<User>> = Vec::new();
    let mut i: usize = 0;
    let n = v.len();
    proof {
        assert(orig.take(0).filter(|u: Identifier<User>| u.id_spec() != user) =~= Seq::<Identifier<User>>::empty());
    }
    while v.len() > 0
        invariant
            v@.len() + i == n,
            n == orig.len(),
            v@ == orig.subrange(i as int, n as int),
            out@ == orig.take(i as int).filter(|u: Identifier<User>| u.id_spec() != user),
        decreases v@.len(),
    {
        let item = v.remove(0);
        proof {
            assert(orig.take(i + 1).drop_last() =~= orig.take(i as int));
            assert(orig.take(i + 1).last() == item);
            reveal_with_fuel(Seq::filter, 1);
        }
        if *item.id() != user {
            out.push(item);
        }
        proof {
            assert(v@ =~= orig.subrange(i + 1, n as int));
        }
        i = i + 1;
    }
    proof {
        assert(orig.take(n as int) =~= orig);
    }
    out
}

/// After a user joins a channel with their data, the channel's roster
/// holds exactly one entry of theirs, the last.
pub proof fn law_joined_user_listed_once(prior: Seq<Identifier<User>>, u: Identifier<User>)
    ensures
        ({
            let roster = without_user(prior, u.id_spec()).push(u);
            &&& roster.last() == u
            &&& forall|i: int| 0 <= i < roster.len() - 1 ==> (#[trigger] roster[i]).id_spec() != u.id_spec()
        }),
{
    let kept = without_user(prior, u.id_spec());
    let pred = |x: Identifier<User>| x.id_spec() != u.id_spec();
    assert forall|i: int| 0 <= i < kept.len() implies (#[trigger] kept[i]).id_spec() != u.id_spec() by {
        prior.lemma_filter_pred(pred, i);
    }
    assert(kept.push(u).drop_last() =~= kept);
}

/// Evicting a user leaves no entry of theirs in that channel's roster and
/// keeps no empty roster.
pub proof fn law_evicted_user_gone(rosters: Map<u64, Seq<Identifier<User>>>, channel: u64, user: u64)
    ensures
        ({
            let after = evicted(rosters, channel, user);
            after.contains_key(channel) ==> {
                &&& after[channel].len() > 0
                &&& forall|i: int| 0 <= i < after[channel].len() ==> (#[trigger] after[channel][i]).id_spec() != user
            }
        }),
{
    if rosters.contains_key(channel) {
        let kept = without_user(rosters[channel], user);
        let pred = |x: Identifier<User>| x.id_spec() != user;
        assert forall|i: int| 0 <= i < kept.len() implies (#[trigger] kept[i]).id_spec() != user by {
            rosters[channel].lemma_filter_pred(pred, i);
        }
    }
}

/// Dropping a user's entries keeps only entries of the roster, none of them
/// the user's, and keeps the entries' ids distinct when they were.
proof fn lemma_without_user(r: Seq<Identifier<User>>, user: u64)
    ensures
        forall|k: int|
            0 <= k < without_user(r, user).len() ==> (#[trigger] without_user(r, user)[k]).id_spec() != user
                && r.contains(without_user(r, user)[k]),
        (forall|i: int, j: int| 0 <= i < j < r.len() ==> (#[trigger] r[i]).id_spec() != (#[trigger] r[j]).id_spec())
            ==> (forall|i: int, j: int|
            0 <= i < j < without_user(r, user).len() ==> (#[trigger] without_user(r, user)[i]).id_spec()
                != (#[trigger] without_user(r, user)[j]).id_spec()),
    decreases r.len(),
{
    reveal_with_fuel(Seq::filter, 1);
    if r.len() > 0 {
        let init = r.drop_last();
        lemma_without_user(init, user);
        let fi = without_user(init, user);
        let f = without_user(r, user);
        assert(r.filter(|u: Identifier<User>| u.id_spec() != user) == if r.last().id_spec() != user {
            init.filter(|u: Identifier<User>| u.id_spec() != user).push(r.last())
        } else {
            init.filter(|u: Identifier<User>| u.id_spec() != user)
        });
        assert forall|k: int| 0 <= k < f.len() implies (#[trigger] f[k]).id_spec() != user && r.contains(f[k]) by {
            if k < fi.len() {
                assert(f[k] == fi[k]);
                assert(init.contains(fi[k]));
                let m = choose|m: int| 0 <= m < init.len() && init[m] == fi[k];
                assert(r[m] == init[m]);
            } else {
                assert(f[k] == r.last());
                assert(r[r.len() - 1] == r.last());
            }
        }
        if forall|i: int, j: int| 0 <= i < j < r.len() ==> (#[trigger] r[i]).id_spec() != (#[trigger] r[j]).id_spec() {
            assert forall|i: int, j: int| 0 <= i < j < init.len() implies (#[trigger] init[i]).id_spec()
                != (#[trigger] init[j]).id_spec() by {
                assert(init[i] == r[i] && init[j] == r[j]);
            }
            assert forall|i: int, j: int| 0 <= i < j < f.len() implies (#[trigger] f[i]).id_spec()
                != (#[trigger] f[j]).id_spec() by {
                if j < fi.len() {
                    assert(f[i] == fi[i] && f[j] == fi[j]);
                } else {
                    assert(f[j] == r.last());
                    assert(f[i] == fi[i]);
                    assert(init.contains(fi[i]));
                    let m = choose|m: int| 0 <= m < init.len() && init[m] == fi[i];
                    assert(r[m] == init[m]);
                    assert(r[r.len() - 1] == r.last());
                }
            }
        }
    }
}

/// Voice-state updates keep the rosters consistent with the voice states:
/// no empty roster, everyone listed where their state says, nobody listed
/// twice in a roster. The user data of a join is the updated user's.
pub proof fn law_update_keeps_rosters_consistent(
    s0: Map<u64, u64>,
    r0: Map<u64, Seq<Identifier<User>>>,
    user_id: u64,
    channel_id: Option<u64>,
    user: Option<Identifier<User>>,
)
    requires
        rosters_consistent(s0, r0),
        user matches Some(u) ==> u.id_spec() == user_id,
    ensures
        rosters_consistent(
            states_after(s0, user_id, channel_id),
            rosters_after(s0, r0, user_id, channel_id, user),
        ),
{
    let s1 = states_after(s0, user_id, channel_id);
    let r2 = rosters_after(s0, r0, user_id, channel_id, user);
    // The roster the user leaves, if any.
    let left: Option<u64> = match channel_id {
        None => if s0.contains_key(user_id) {
            Some(s0[user_id])
        } else {
            None
        },
        Some(c) => if s0.contains_key(user_id) && s0[user_id] != c {
            Some(s0[user_id])
        } else {
            None
        },
    };
    let r1 = match left {
        Some(ch) => evicted(r0, ch, user_id),
        None => r0,
    };
    // After leaving: r1 is consistent with s1, apart from the joined
    // channel's entries of the user.
    assert forall|d: u64| r1.contains_key(d) implies r0.contains_key(d) && (left == Some(d) ==> r1[d] == without_user(
        r0[d],
        user_id,
    )) && (left != Some(d) ==> r1[d] == r0[d]) by {}
    assert forall|d: u64| #[trigger] r1.contains_key(d) implies r1[d].len() > 0
        && (forall|i: int, j: int|
        0 <= i < j < r1[d].len() ==> (#[trigger] r1[d][i]).id_spec() != (#[trigger] r1[d][j]).id_spec())
        && (forall|k: int|
        0 <= k < r1[d].len() ==> r0[d].contains(#[trigger] r1[d][k]) && (left == Some(d) ==> r1[d][k].id_spec()
            != user_id)) by {
        lemma_without_user(r0[d], user_id);
        assert forall|i: int, j: int| 0 <= i < j < r0[d].len() implies (#[trigger] r0[d][i]).id_spec()
            != (#[trigger] r0[d][j]).id_spec() by {}
        if left != Some(d) {
            assert forall|k: int| 0 <= k < r1[d].len() implies r0[d].contains(#[trigger] r1[d][k]) by {
                assert(r0[d][k] == r1[d][k]);
            }
        }
    }
    assert(rosters_consistent(s1, r2)) by {
        assert forall|c: u64| #[trigger] r2.contains_key(c) implies r2[c].len() > 0 by {
            if r1.contains_key(c) {
                assert(r1[c].len() > 0);
            }
        }
        assert forall|c: u64, i: int| r2.contains_key(c) && 0 <= i < r2[c].len() implies s1.contains_key(
            (#[trigger] r2[c][i]).id_spec(),
        ) && s1[r2[c][i].id_spec()] == c by {
            let e = r2[c][i];
            let joined = channel_id matches Some(cc) && user is Some && cc == c;
            if joined {
                let prior = if r1.contains_key(c) {
                    r1[c]
                } else {
                    Seq::empty()
                };
                lemma_without_user(prior, user_id);
                if i == without_user(prior, user_id).len() {
                } else {
                    let x = without_user(prior, user_id)[i];
                    assert(e == x);
                    assert(prior.contains(x));
                    let m = choose|m: int| 0 <= m < prior.len() && prior[m] == x;
                    assert(r1[c].len() > 0);
                    assert(r0[c].contains(r1[c][m]));
                    let m0 = choose|m0: int| 0 <= m0 < r0[c].len() && r0[c][m0] == r1[c][m];
                    assert(s0.contains_key(r0[c][m0].id_spec()) && s0[r0[c][m0].id_spec()] == c);
                }
            } else {
                assert(r2[c] == r1[c]);
                assert(r0[c].contains(r1[c][i]));
                let m0 = choose|m0: int| 0 <= m0 < r0[c].len() && r0[c][m0] == r1[c][i];
                assert(s0.contains_key(r0[c][m0].id_spec()) && s0[r0[c][m0].id_spec()] == c);
                if e.id_spec() == user_id {
                    assert(left != Some(c));
                }
            }
        }
        assert forall|c: u64, i: int, j: int| r2.contains_key(c) && 0 <= i < j < r2[c].len() implies (
        #[trigger] r2[c][i]).id_spec() != (#[trigger] r2[c][j]).id_spec() by {
            let joined = channel_id matches Some(cc) && user is Some && cc == c;
            if joined {
                let prior = if r1.contains_key(c) {
                    r1[c]
                } else {
                    Seq::empty()
                };
                lemma_without_user(prior, user_id);
                let w = without_user(prior, user_id);
                if j == w.len() {
                    assert(r2[c][i] == w[i]);
                } else {
                    assert(r2[c][i] == w[i] && r2[c][j] == w[j]);
                }
            } else {
                assert(r2[c] == r1[c]);
            }
        }
    }
}

} // verus!
