//! Automatic next-match selection: rotate the least-used players, reconcile
//! seats against the previous match, and record the result. The coin that
//! orders the two candidates is the only non-deterministic input; everything
//! else is a pure function of the playthrough state.

use vstd::prelude::*;

use crate::playthrough::{TtError, TtMatch, TtPlaythrough};
use crate::rules;

verus! {

/// A roster member is eligible for automatic selection while its windowed
/// appearance count is strictly under the fatigue window.
pub open spec fn eligible(s: TtPlaythrough, p: usize) -> bool {
    rules::window_count(s.matches@, s.window(), p) < s.window()
}

/// Number of eligible players among the first `k` roster entries.
pub open spec fn eligible_count_to(s: TtPlaythrough, k: int) -> nat
    decreases k,
{
    if k <= 0 {
        0
    } else {
        eligible_count_to(s, k - 1) + if eligible(s, s.players@[k - 1]) {
            1nat
        } else {
            0nat
        }
    }
}

/// Number of eligible players on the whole roster.
pub open spec fn eligible_count(s: TtPlaythrough) -> nat {
    eligible_count_to(s, s.players@.len() as int)
}

/// The windowed appearance count of the roster entry at index `i`.
pub open spec fn count_at(s: TtPlaythrough, i: int) -> nat {
    rules::window_count(s.matches@, s.window(), s.players@[i])
}

/// The `(count, roster index)` lexicographic order that a stable sort of
/// the roster by ascending count realises.
pub open spec fn lex_before(s: TtPlaythrough, i: int, j: int) -> bool {
    count_at(s, i) < count_at(s, j) || (count_at(s, i) == count_at(s, j) && i < j)
}

/// `i1` and `i2` are the first two positions of a stable sort of the
/// roster by ascending windowed count.
pub open spec fn lowest_two(s: TtPlaythrough, i1: int, i2: int) -> bool {
    &&& 0 <= i1 < s.players@.len()
    &&& 0 <= i2 < s.players@.len()
    &&& i1 != i2
    &&& forall|j: int| 0 <= j < s.players@.len() && j != i1 ==> lex_before(s, i1, j)
    &&& forall|j: int| 0 <= j < s.players@.len() && j != i1 && j != i2 ==> lex_before(s, i2, j)
}

/// With exactly two eligible players, `i1` and `i2` locate them, in roster
/// order.
pub open spec fn the_two_eligible(s: TtPlaythrough, i1: int, i2: int) -> bool {
    &&& 0 <= i1 < i2 < s.players@.len()
    &&& eligible(s, s.players@[i1])
    &&& eligible(s, s.players@[i2])
    &&& forall|j: int|
        0 <= j < s.players@.len() && j != i1 && j != i2 ==> !eligible(s, #[trigger] s.players@[j])
}

/// The ordered candidate pair that selection proposes before seat
/// reconciliation: with exactly two eligible players, those two in roster
/// order and no coin involved; with more, the two lowest-count players of
/// the stable sort, the coin choosing which is presented first.
pub open spec fn candidate_pair(s: TtPlaythrough, coin: bool, x: usize, y: usize) -> bool {
    if eligible_count(s) == 2 {
        exists|i1: int, i2: int|
            #[trigger] the_two_eligible(s, i1, i2) && x == s.players@[i1] && y == s.players@[i2]
    } else {
        exists|i1: int, i2: int|
            #[trigger] lowest_two(s, i1, i2) && if coin {
                x == s.players@[i1] && y == s.players@[i2]
            } else {
                x == s.players@[i2] && y == s.players@[i1]
            }
    }
}

/// Seat reconciliation against the previous match: a candidate who held
/// the left seat last time is moved to the right; otherwise the candidate
/// order stands.
pub open spec fn reconcile(prev: TtMatch, x: usize, y: usize) -> (usize, usize) {
    if prev.left == x {
        (y, x)
    } else {
        (x, y)
    }
}

/// Everything one automatic-selection step does, given the state before
/// the call and the coin outcome: which record is returned and appended,
/// or which error is reported with the history left unchanged.
pub open spec fn select_post(
    pre: TtPlaythrough,
    post: TtPlaythrough,
    r: Result<TtMatch, TtError>,
    coin: bool,
) -> bool {
    &&& post.players@ == pre.players@
    &&& post.max_repeting_games_per_player == pre.max_repeting_games_per_player
    &&& if pre.matches@.len() == 0 {
        let m = TtMatch { left: pre.players@[0], right: pre.players@[1] };
        &&& r == Ok::<TtMatch, TtError>(m)
        &&& post.matches@ == pre.matches@.push(m)
    } else {
        let prev = pre.matches@.last();
        match r {
            Ok(m) => {
                &&& eligible_count(pre) >= 2
                &&& exists|x: usize, y: usize|
                    #[trigger] candidate_pair(pre, coin, x, y) && (m.left, m.right) == reconcile(
                        prev,
                        x,
                        y,
                    )
                &&& !rules::shares_players(prev, m.left, m.right)
                &&& m.left != m.right
                &&& post.matches@ == pre.matches@.push(m)
            },
            Err(TtError::NoEligiblePlayers(counts)) => {
                &&& eligible_count(pre) < 2
                &&& counts@ == pre.roster_counts()
                &&& post.matches@ == pre.matches@
            },
            Err(TtError::InvalidMatch) => {
                &&& eligible_count(pre) >= 2
                &&& exists|x: usize, y: usize|
                    #[trigger] candidate_pair(pre, coin, x, y) && rules::shares_players(
                        prev,
                        reconcile(prev, x, y).0,
                        reconcile(prev, x, y).1,
                    )
                &&& post.matches@ == pre.matches@
            },
        }
    }
}

/// Prefix counts of eligible players never decrease as the prefix grows.
proof fn lemma_eligible_count_monotone(s: TtPlaythrough, a: int, b: int)
    requires
        a <= b,
    ensures
        eligible_count_to(s, a) <= eligible_count_to(s, b),
    decreases b - a,
{
    if a < b {
        lemma_eligible_count_monotone(s, a, b - 1);
    }
}

impl TtPlaythrough {
    /// How many roster players are eligible for automatic selection.
    fn eligible_players_count(&self) -> (r: usize)
        ensures
            r as nat == eligible_count(*self),
    {
        let mut count: usize = 0;
        let mut i: usize = 0;
        while i < self.players.len()
            invariant
                i <= self.players@.len(),
                count <= i,
                count as nat == eligible_count_to(*self, i as int),
            decreases self.players@.len() - i,
        {
            let c = self.count_in_window(self.players[i]);
            if c < self.max_repeting_games_per_player {
                count = count + 1;
            }
            i = i + 1;
        }
        count
    }

    /// Locates the two eligible players when exactly two remain; they are
    /// returned as roster indices, in roster order.
    fn two_eligible_idx(&self) -> (r: (usize, usize))
        requires
            eligible_count(*self) == 2,
        ensures
            the_two_eligible(*self, r.0 as int, r.1 as int),
    {
        let mut first: usize = 0;
        let mut second: usize = 0;
        let mut found: usize = 0;
        let mut i: usize = 0;
        while i < self.players.len()
            invariant
                i <= self.players@.len(),
                eligible_count(*self) == 2,
                found as nat == eligible_count_to(*self, i as int),
                found <= 2,
                found >= 1 ==> first < i && eligible(*self, self.players@[first as int]),
                found >= 2 ==> first < second && second < i && eligible(
                    *self,
                    self.players@[second as int],
                ),
                forall|j: int|
                    0 <= j < i && eligible(*self, #[trigger] self.players@[j]) ==> (found >= 1 && j
                        == first) || (found >= 2 && j == second),
            decreases self.players@.len() - i,
        {
            let c = self.count_in_window(self.players[i]);
            if c < self.max_repeting_games_per_player {
                if found == 0 {
                    first = i;
                } else if found == 1 {
                    second = i;
                } else {
                    proof {
                        lemma_eligible_count_monotone(
                            *self,
                            i as int + 1,
                            self.players@.len() as int,
                        );
                        assert(false);
                    }
                }
                found = found + 1;
            }
            i = i + 1;
        }
        proof {
            assert(found == 2);
        }
        (first, second)
    }

    /// The first two positions of a stable sort of the roster by ascending
    /// windowed appearance count, found without sorting: the lexicographic
    /// minimum of `(count, index)`, then the minimum among the rest.
    fn lowest_two_idx(&self) -> (r: (usize, usize))
        requires
            self.players@.len() >= 2,
        ensures
            lowest_two(*self, r.0 as int, r.1 as int),
    {
        let mut best: usize = 0;
        let mut best_c: usize = self.count_in_window(self.players[0]);
        let mut i: usize = 1;
        while i < self.players.len()
            invariant
                1 <= i <= self.players@.len(),
                best < i,
                best_c as nat == count_at(*self, best as int),
                forall|j: int| 0 <= j < i && j != best ==> lex_before(*self, best as int, j),
            decreases self.players@.len() - i,
        {
            let c = self.count_in_window(self.players[i]);
            if c < best_c {
                proof {
                    assert forall|j: int| 0 <= j < i + 1 && j != i implies lex_before(
                        *self,
                        i as int,
                        j,
                    ) by {
                        if j != best {
                            assert(lex_before(*self, best as int, j));
                        }
                    }
                }
                best = i;
                best_c = c;
            }
            i = i + 1;
        }
        let mut second: usize = if best == 0 {
            1
        } else {
            0
        };
        let mut second_c: usize = self.count_in_window(self.players[second]);
        let mut k: usize = second + 1;
        while k < self.players.len()
            invariant
                second < k <= self.players@.len(),
                second != best,
                best < self.players@.len(),
                second_c as nat == count_at(*self, second as int),
                forall|j: int| 0 <= j < self.players@.len() && j != best ==> lex_before(*self, best as int, j),
                forall|j: int|
                    0 <= j < k && j != best && j != second ==> lex_before(*self, second as int, j),
            decreases self.players@.len() - k,
        {
            if k != best {
                let c = self.count_in_window(self.players[k]);
                if c < second_c {
                    proof {
                        assert forall|j: int|
                            0 <= j < k + 1 && j != best && j != k implies lex_before(
                            *self,
                            k as int,
                            j,
                        ) by {
                            if j != second {
                                assert(lex_before(*self, second as int, j));
                            }
                        }
                    }
                    second = k;
                    second_c = c;
                }
            }
            k = k + 1;
        }
        (best, second)
    }

    /// One automatic-selection step with the coin outcome supplied by the
    /// caller, so that selection is reproducible: deterministic given its
    /// arguments. On an empty history it seeds with the first two roster
    /// players; otherwise it proposes the least-used candidates, reconciles
    /// their seats against the previous match, and records the result.
    pub fn select_next_with_coin(&mut self, coin: bool) -> (r: Result<TtMatch, TtError>)
        requires
            old(self).wf(),
        ensures
            final (self).wf(),
            select_post(*old(self), *final (self), r, coin),
    {
        if self.matches.len() == 0 {
            let m = TtMatch { left: self.players[0], right: self.players[1] };
            self.matches.push(m);
            return Ok(m);
        }
        let prev = self.matches[self.matches.len() - 1];
        let ec = self.eligible_players_count();
        if ec < 2 {
            return Err(TtError::NoEligiblePlayers(self.get_last_n_games_counts()));
        }
        let (x, y) = if ec == 2 {
            let (i1, i2) = self.two_eligible_idx();
            (self.players[i1], self.players[i2])
        } else {
            let (i1, i2) = self.lowest_two_idx();
            proof {
                assert(self.players@[i1 as int] != self.players@[i2 as int]);
            }
            if coin {
                (self.players[i1], self.players[i2])
            } else {
                (self.players[i2], self.players[i1])
            }
        };
        proof {
            assert(candidate_pair(*self, coin, x, y));
        }
        let (left, right) = if prev.left == x {
            (y, x)
        } else {
            (x, y)
        };
        if (prev.left == left || prev.right == left) && (prev.left == right || prev.right
            == right) {
            return Err(TtError::InvalidMatch);
        }
        let m = TtMatch { left, right };
        self.matches.push(m);
        Ok(m)
    }

    /// One automatic-selection step with a fresh coin flip. The flip only
    /// orders the two candidates when more than two players are eligible;
    /// whichever way it lands, the outcome is that of
    /// `select_next_with_coin` for that side.
    pub fn select_next(&mut self) -> (r: Result<TtMatch, TtError>)
        requires
            old(self).wf(),
        ensures
            final (self).wf(),
            exists|coin: bool| select_post(*old(self), *final (self), r, coin),
    {
        let coin = coin_flip();
        let r = self.select_next_with_coin(coin);
        proof {
            let pre = *old(self);
            assert(select_post(pre, *self, r, coin));
        }
        r
    }
}

/// Relies on rand::random: draws a bool from the thread-local generator.
/// Nothing is assumed of the outcome.
#[verifier::external_body]
fn coin_flip() -> bool {
    rand::random::<bool>()
}

} // verus!

