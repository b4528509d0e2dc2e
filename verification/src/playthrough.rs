//! The match record and the playthrough state that owns the history.

use vstd::prelude::*;

use crate::rules;

verus! {

/// One played matchup. The seat order is significant: `left` and `right`
/// encode which side of the table each player occupies.
#[derive(Clone, Copy, PartialEq, Eq, Structural, Debug)]
pub struct TtMatch {
    pub left: usize,
    pub right: usize,
}

/// The failures that record construction and automatic selection can raise.
/// A rule merely evaluating to "not legal" is an ordinary boolean verdict,
/// not an error.
#[derive(Clone, PartialEq, Eq, Debug)]
pub enum TtError {
    /// A proposed or computed pair seats a player against themselves, or
    /// selection reconciled its candidates into the previous match's pair.
    InvalidMatch,
    /// Automatic selection found fewer than two players under the fatigue
    /// cap; carries the windowed appearance count of every roster player.
    NoEligiblePlayers(Vec<(usize, usize)>),
}

impl TtMatch {
    /// Builds a record; seating a player against themselves is refused.
    pub fn new(left: usize, right: usize) -> (r: Result<Self, TtError>)
        ensures
            left != right ==> r == Ok::<TtMatch, TtError>(TtMatch { left, right }),
            left == right ==> r == Err::<TtMatch, TtError>(TtError::InvalidMatch),
    {
        if left == right {
            Err(TtError::InvalidMatch)
        } else {
            Ok(TtMatch { left, right })
        }
    }

    /// True when the unordered proposal pair is drawn from this record's seats.
    pub fn check_same_players(&self, players: (usize, usize)) -> (r: bool)
        ensures
            r == crate::rules::shares_players(*self, players.0, players.1),
    {
        (self.left == players.0 || self.right == players.0)
            && (self.left == players.1 || self.right == players.1)
    }
}

/// A playthrough: the fixed configuration (roster and fatigue window)
/// together with the growing, append-only match history it owns.
#[derive(Clone, Debug)]
pub struct TtPlaythrough {
    pub max_repeting_games_per_player: usize,
    pub players: Vec<usize>,
    pub matches: Vec<TtMatch>,
}

impl TtPlaythrough {
    /// Configuration well-formedness (positive window, at least two distinct
    /// roster players) together with the history invariant that no record
    /// seats a player against themselves.
    pub open spec fn wf(&self) -> bool {
        &&& self.max_repeting_games_per_player >= 1
        &&& self.players@.len() >= 2
        &&& forall|i: int, j: int|
            0 <= i < j < self.players@.len() ==> self.players@[i] != self.players@[j]
        &&& forall|i: int|
            0 <= i < self.matches@.len() ==> (#[trigger] self.matches@[i]).left
                != self.matches@[i].right
    }

    /// The fatigue window size, as a mathematical integer.
    pub open spec fn window(&self) -> int {
        self.max_repeting_games_per_player as int
    }

    /// A fresh playthrough: the roster (at least two players, pairwise
    /// distinct) and the positive fatigue window are fixed for its lifetime.
    pub fn new(players: Vec<usize>, max_repeting_games_per_player: usize) -> (r: Self)
        requires
            max_repeting_games_per_player >= 1,
            players@.len() >= 2,
            forall|i: int, j: int| 0 <= i < j < players@.len() ==> players@[i] != players@[j],
        ensures
            r.wf(),
            r.players@ == players@,
            r.max_repeting_games_per_player == max_repeting_games_per_player,
            r.matches@.len() == 0,
    {
        Self { max_repeting_games_per_player, players, matches: vec![] }
    }

    /// Resets the history to empty; the configuration is kept.
    pub fn clear_match_history(&mut self)
        ensures
            final (self).matches@.len() == 0,
            final (self).players@ == old(self).players@,
            final (self).max_repeting_games_per_player == old(
                self,
            ).max_repeting_games_per_player,
            old(self).wf() ==> final (self).wf(),
    {
        self.matches = vec![];
    }

    /// Appends a validated record to the history; the only mutator that
    /// grows it, and it never fails.
    pub fn append_game(&mut self, left: usize, right: usize)
        requires
            left != right,
        ensures
            final (self).matches@ == old(self).matches@.push(TtMatch { left, right }),
            final (self).players@ == old(self).players@,
            final (self).max_repeting_games_per_player == old(
                self,
            ).max_repeting_games_per_player,
            old(self).wf() ==> final (self).wf(),
    {
        self.matches.push(TtMatch { left, right });
    }

    /// The most recent record, or `None` on an empty history.
    pub fn last_match(&self) -> (r: Option<TtMatch>)
        ensures
            match r {
                Some(m) => self.matches@.len() > 0 && m == self.matches@.last(),
                None => self.matches@.len() == 0,
            },
    {
        if self.matches.len() > 0 {
            Some(self.matches[self.matches.len() - 1])
        } else {
            None
        }
    }

    /// Read access to the full history, in chronological order.
    pub fn matches_so_far(&self) -> (r: &Vec<TtMatch>)
        ensures
            r@ == self.matches@,
    {
        &self.matches
    }

    /// The last `max_repeting_games_per_player` records (all of them while
    /// the history is shorter than that), in chronological order.
    pub fn get_last_n_matches(&self) -> (r: Vec<TtMatch>)
        ensures
            r@ == rules::last_n(self.matches@, self.window()),
    {
        let len = self.matches.len();
        let n = self.max_repeting_games_per_player;
        let start = if len <= n {
            0
        } else {
            len - n
        };
        let mut r: Vec<TtMatch> = Vec::new();
        let mut i = start;
        while i < len
            invariant
                start <= i <= len,
                len == self.matches@.len(),
                r@ =~= self.matches@.subrange(start as int, i as int),
            decreases len - i,
        {
            r.push(self.matches[i]);
            i = i + 1;
        }
        proof {
            assert(r@ =~= rules::last_n(self.matches@, self.window()));
        }
        r
    }

    /// The whole history in most-recent-first order, used to search
    /// backward for a pair's last meeting.
    pub fn get_matches_reversed(&self) -> (r: Vec<TtMatch>)
        ensures
            r@ == self.matches@.reverse(),
    {
        let len = self.matches.len();
        let mut r: Vec<TtMatch> = Vec::new();
        let mut i = len;
        while i > 0
            invariant
                i <= len,
                len == self.matches@.len(),
                r@.len() == len - i,
                forall|j: int|
                    0 <= j < r@.len() ==> r@[j] == self.matches@[len - 1 - j],
            decreases i,
        {
            i = i - 1;
            r.push(self.matches[i]);
        }
        proof {
            assert(r@ =~= self.matches@.reverse());
        }
        r
    }

    /// One `(player, 0)` entry per roster member, in roster order: a fresh
    /// counting map keyed by player.
    pub fn get_empty_player_map(&self) -> (r: Vec<(usize, usize)>)
        ensures
            r@.len() == self.players@.len(),
            forall|i: int| 0 <= i < r@.len() ==> r@[i] == (self.players@[i], 0usize),
    {
        let mut r: Vec<(usize, usize)> = Vec::new();
        let mut i: usize = 0;
        while i < self.players.len()
            invariant
                i <= self.players@.len(),
                r@.len() == i,
                forall|j: int| 0 <= j < r@.len() ==> r@[j] == (self.players@[j], 0usize),
            decreases self.players@.len() - i,
        {
            r.push((self.players[i], 0));
            i = i + 1;
        }
        r
    }

    /// The per-player appearance counts over the window, one `(player,
    /// count)` entry per roster member, in roster order.
    pub open spec fn roster_counts(&self) -> Seq<(usize, usize)> {
        Seq::new(
            self.players@.len(),
            |i: int|
                (
                    self.players@[i],
                    rules::window_count(self.matches@, self.window(), self.players@[i]) as usize,
                ),
        )
    }

    /// Counts, for every roster member, how often they appear within the
    /// last `max_repeting_games_per_player` records; entries in roster order.
    pub fn get_last_n_games_counts(&self) -> (r: Vec<(usize, usize)>)
        ensures
            r@ == self.roster_counts(),
    {
        let mut r: Vec<(usize, usize)> = Vec::new();
        let mut i: usize = 0;
        while i < self.players.len()
            invariant
                i <= self.players@.len(),
                r@.len() == i,
                forall|j: int| 0 <= j < r@.len() ==> r@[j] == self.roster_counts()[j],
            decreases self.players@.len() - i,
        {
            let p = self.players[i];
            let c = self.count_in_window(p);
            r.push((p, c));
            i = i + 1;
        }
        proof {
            assert(r@ =~= self.roster_counts());
        }
        r
    }

    /// Rule 1 probe: does the proposal repeat the pair of the most recent
    /// match? (True means the rule is violated.)
    pub fn check_same_players_as_before(&self, players: (usize, usize)) -> (r: bool)
        ensures
            r == !rules::rule1_ok(self.matches@, players.0, players.1),
    {
        if self.matches.len() > 0 {
            let last_match = self.matches[self.matches.len() - 1];
            last_match.check_same_players(players)
        } else {
            false
        }
    }

    /// Appearances of `p` within the last `max_repeting_games_per_player`
    /// records of the history.
    pub fn count_in_window(&self, p: usize) -> (r: usize)
        ensures
            r as nat == rules::window_count(self.matches@, self.window(), p),
    {
        let len = self.matches.len();
        let n = self.max_repeting_games_per_player;
        let start = if len <= n {
            0
        } else {
            len - n
        };
        let mut count: usize = 0;
        let mut i = start;
        while i < len
            invariant
                start <= i <= len,
                len == self.matches@.len(),
                start == if len <= n { 0int } else { len - n },
                n == self.max_repeting_games_per_player,
                count <= i - start,
                count as nat == rules::count_involving(
                    self.matches@.subrange(start as int, i as int),
                    p,
                ),
            decreases len - i,
        {
            let m = self.matches[i];
            proof {
                let s = self.matches@;
                assert(s.subrange(start as int, i + 1).drop_last() =~= s.subrange(
                    start as int,
                    i as int,
                ));
                assert(s.subrange(start as int, i + 1).last() == s[i as int]);
            }
            if m.left == p || m.right == p {
                count = count + 1;
            }
            i = i + 1;
        }
        proof {
            assert(self.matches@.subrange(start as int, len as int) =~= rules::last_n(
                self.matches@,
                self.window(),
            ));
        }
        count
    }

    /// Rule 2 probe: both proposed players must still be under the fatigue
    /// cap within the window. (True means the rule is satisfied.)
    pub fn check_not_played_twice_before(&self, players: (usize, usize)) -> (r: bool)
        ensures
            r == rules::rule2_ok(self.matches@, self.window(), players.0, players.1),
    {
        let c0 = self.count_in_window(players.0);
        let c1 = self.count_in_window(players.1);
        c0 < self.max_repeting_games_per_player && c1 < self.max_repeting_games_per_player
    }

    /// Rule 3 probe: versus the immediately preceding match, the left seat
    /// must change or be empty of its previous occupant, and so must the
    /// right seat. (True means the rule is satisfied.)
    pub fn check_not_on_same_side_as_one_game_before(&self, players: (usize, usize)) -> (r: bool)
        ensures
            r == rules::rule3_ok(self.matches@, players.0, players.1),
    {
        if self.matches.len() > 0 {
            let last_match = self.matches[self.matches.len() - 1];
            if last_match.left == players.0 {
                return false;
            }
            if last_match.right == players.1 {
                return false;
            }
        }
        true
    }

    /// Rule 4 probe: scan the history backward for the most recent meeting
    /// of the proposed pair; if there is one, neither player may take the
    /// seat they had then. (True means the rule is satisfied.)
    pub fn check_not_on_same_sides_facing_the_same_opponent_again(
        &self,
        players: (usize, usize),
    ) -> (r: bool)
        ensures
            r == rules::rule4_ok(self.matches@, players.0, players.1),
    {
        let mut i = self.matches.len();
        proof {
            assert(self.matches@.take(i as int) =~= self.matches@);
        }
        while i > 0
            invariant
                i <= self.matches@.len(),
                rules::rule4_ok(self.matches@, players.0, players.1) == rules::rule4_ok(
                    self.matches@.take(i as int),
                    players.0,
                    players.1,
                ),
            decreases i,
        {
            i = i - 1;
            let m = self.matches[i];
            proof {
                assert(self.matches@.take(i + 1).drop_last() =~= self.matches@.take(i as int));
                assert(self.matches@.take(i + 1).last() == self.matches@[i as int]);
            }
            if m.check_same_players(players) {
                return m.left != players.0 && m.right != players.1;
            }
        }
        true
    }

    /// The verdict on a proposal: the conjunction of the active rules, with
    /// rule 4 skipped when `allow_rule_4` is set. Pure: it reads the history
    /// and mutates nothing.
    pub fn check_match_possible(&self, players: (usize, usize), allow_rule_4: bool) -> (r: bool)
        ensures
            r == rules::match_ok(
                self.matches@,
                self.window(),
                players.0,
                players.1,
                allow_rule_4,
            ),
    {
        !self.check_same_players_as_before(players) && self.check_not_played_twice_before(players)
            && self.check_not_on_same_side_as_one_game_before(players) && (allow_rule_4
            || self.check_not_on_same_sides_facing_the_same_opponent_again(players))
    }

    /// Checks the proposal and, exactly when it is legal, records it;
    /// reports whether play occurred. A proposal that is legal but seats a
    /// player against themselves cannot become a record and is refused as
    /// `InvalidMatch`, leaving the history unchanged.
    pub fn play_match_if_possible(&mut self, players: (usize, usize), allow_rule_4: bool) -> (r:
        Result<bool, TtError>)
        ensures
            final (self).players@ == old(self).players@,
            final (self).max_repeting_games_per_player == old(
                self,
            ).max_repeting_games_per_player,
            old(self).wf() ==> final (self).wf(),
            ({
                let legal = rules::match_ok(
                    old(self).matches@,
                    old(self).window(),
                    players.0,
                    players.1,
                    allow_rule_4,
                );
                match r {
                    Ok(played) => if played {
                        &&& legal
                        &&& players.0 != players.1
                        &&& final (self).matches@ == old(self).matches@.push(
                            TtMatch { left: players.0, right: players.1 },
                        )
                    } else {
                        &&& !legal
                        &&& final (self).matches@ == old(self).matches@
                    },
                    Err(e) => {
                        &&& legal
                        &&& players.0 == players.1
                        &&& e == TtError::InvalidMatch
                        &&& final (self).matches@ == old(self).matches@
                    },
                }
            }),
    {
        if self.check_match_possible(players, allow_rule_4) {
            match TtMatch::new(players.0, players.1) {
                Ok(m) => {
                    self.matches.push(m);
                    Ok(true)
                },
                Err(e) => Err(e),
            }
        } else {
            Ok(false)
        }
    }
}

} // verus!
