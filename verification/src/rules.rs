//! The rule engine's mathematical model: windowed appearance counts and the
//! four legality rules, stated over sequences of match records.

use vstd::prelude::*;

use crate::playthrough::TtMatch;

verus! {

/// True when player `p` occupies either seat of `m`.
pub open spec fn involves(m: TtMatch, p: usize) -> bool {
    m.left == p || m.right == p
}

/// True when both proposed players occupy seats of `m`, i.e. the unordered
/// proposal pair equals `m`'s pair of players.
pub open spec fn shares_players(m: TtMatch, a: usize, b: usize) -> bool {
    involves(m, a) && involves(m, b)
}

/// Number of records of `s` in which `p` occupies a seat.
pub open spec fn count_involving(s: Seq<TtMatch>, p: usize) -> nat
    decreases s.len(),
{
    if s.len() == 0 {
        0
    } else {
        count_involving(s.drop_last(), p) + if involves(s.last(), p) {
            1nat
        } else {
            0nat
        }
    }
}

/// The last `min(n, len)` records of `s`, oldest of the window first.
pub open spec fn last_n(s: Seq<TtMatch>, n: int) -> Seq<TtMatch> {
    if s.len() <= n {
        s
    } else {
        s.subrange(s.len() - n, s.len() as int)
    }
}

/// `p`'s appearance count within the fatigue window of size `n`.
pub open spec fn window_count(s: Seq<TtMatch>, n: int, p: usize) -> nat {
    count_involving(last_n(s, n), p)
}

/// Rule 1: the proposal must not repeat the unordered pair of the most
/// recent match. Trivially satisfied on an empty history.
pub open spec fn rule1_ok(s: Seq<TtMatch>, a: usize, b: usize) -> bool {
    s.len() == 0 || !shares_players(s.last(), a, b)
}

/// Rule 2: neither proposed player may already appear `n` or more times
/// within the last `n` matches.
pub open spec fn rule2_ok(s: Seq<TtMatch>, n: int, a: usize, b: usize) -> bool {
    window_count(s, n, a) < n && window_count(s, n, b) < n
}

/// Rule 3: versus the immediately preceding match, the proposal's left
/// player must not keep the left seat and its right player must not keep
/// the right seat.
pub open spec fn rule3_ok(s: Seq<TtMatch>, a: usize, b: usize) -> bool {
    s.len() == 0 || (s.last().left != a && s.last().right != b)
}

/// Rule 4: at the pair's most recent prior meeting, found by scanning the
/// history backward, at least one of the two must have swapped sides.
/// Passes vacuously when the pair never met.
pub open spec fn rule4_ok(s: Seq<TtMatch>, a: usize, b: usize) -> bool
    decreases s.len(),
{
    if s.len() == 0 {
        true
    } else if shares_players(s.last(), a, b) {
        s.last().left != a && s.last().right != b
    } else {
        rule4_ok(s.drop_last(), a, b)
    }
}

/// The conjunction of the active rules; `allow_rule_4` disables rule 4.
pub open spec fn match_ok(s: Seq<TtMatch>, n: int, a: usize, b: usize, allow_rule_4: bool) -> bool {
    rule1_ok(s, a, b) && rule2_ok(s, n, a, b) && rule3_ok(s, a, b) && (allow_rule_4 || rule4_ok(
        s,
        a,
        b,
    ))
}

/// A player cannot appear in more records than a sequence holds.
pub proof fn lemma_count_involving_le_len(s: Seq<TtMatch>, p: usize)
    ensures
        count_involving(s, p) <= s.len(),
    decreases s.len(),
{
    if s.len() > 0 {
        lemma_count_involving_le_len(s.drop_last(), p);
    }
}

/// Law: for every history and every player, the appearance count within
/// the fatigue window never exceeds the window size; in particular it
/// still holds after any accepted match.
pub proof fn lemma_fatigue_bound(s: Seq<TtMatch>, n: int, p: usize)
    requires
        n >= 0,
    ensures
        window_count(s, n, p) <= n,
{
    lemma_count_involving_le_len(last_n(s, n), p);
}

/// Law: a proposal repeating the pair of the most recent match, in either
/// seat order, is never legal, whatever the window size and whether rule 4
/// is enabled.
pub proof fn lemma_rule1_idempotence(s: Seq<TtMatch>, n: int, allow_rule_4: bool)
    requires
        s.len() > 0,
    ensures
        !match_ok(s, n, s.last().left, s.last().right, allow_rule_4),
        !match_ok(s, n, s.last().right, s.last().left, allow_rule_4),
{
}

/// Law: whenever a proposal is legal against a non-empty history, neither
/// the left seat nor the right seat repeats the previous match's, so any
/// two consecutive accepted matches alternate sides; repeating both seats
/// at once is impossible as well.
pub proof fn lemma_side_alternation(s: Seq<TtMatch>, n: int, a: usize, b: usize, allow_rule_4: bool)
    requires
        s.len() > 0,
        match_ok(s, n, a, b, allow_rule_4),
    ensures
        s.last().left != a,
        s.last().right != b,
        !(s.last().left == a && s.last().right == b),
{
}

/// Law: rule evaluation is pure. Two verdicts drawn from the same history,
/// window size, proposal and rule-4 flag are equal.
pub proof fn lemma_check_deterministic(
    r1: bool,
    r2: bool,
    s: Seq<TtMatch>,
    n: int,
    a: usize,
    b: usize,
    allow_rule_4: bool,
)
    requires
        r1 == match_ok(s, n, a, b, allow_rule_4),
        r2 == match_ok(s, n, a, b, allow_rule_4),
    ensures
        r1 == r2,
{
}

/// Law: a window as long as the whole history is the whole history, in order.
pub proof fn lemma_last_n_full(s: Seq<TtMatch>)
    ensures
        last_n(s, s.len() as int) == s,
{
}

/// Law: reversing the most-recent-first view of a history restores the
/// history in chronological order.
pub proof fn lemma_reverse_round_trip(s: Seq<TtMatch>)
    ensures
        s.reverse().reverse() == s,
{
    assert(s.reverse().reverse() =~= s);
}

} // verus!
