//! Search for the smallest starting value whose Collatz chain has a given
//! length.
//!
//! A chain is counted in values, not in arrows: the chain of 1 is `1` and has
//! length 1, the chain of 2 is `2, 1` and has length 2. By convention the value
//! 0 has length 0.

use std::collections::{HashMap, VecDeque};
use vstd::arithmetic::power2::{
    lemma2_to64, lemma_pow2_adds, lemma_pow2_pos, lemma_pow2_strictly_increases, lemma_pow2_unfold,
    pow2,
};
use vstd::prelude::*;

verus! {

broadcast use vstd::std_specs::hash::group_hash_axioms;

/// The Collatz step: halve an even value, triple an odd one and add one.
pub open spec fn next_value(n: nat) -> nat {
    if n % 2 == 0 {
        n / 2
    } else {
        3 * n + 1
    }
}

/// The value reached from `n` after `steps` Collatz steps.
pub open spec fn walk(n: nat, steps: nat) -> nat
    decreases steps,
{
    if steps == 0 {
        n
    } else {
        walk(next_value(n), (steps - 1) as nat)
    }
}

/// `n` has path length `k`: its chain reaches 1 for the first time at its
/// `k`-th value. The value 0 has length 0 and no other.
pub open spec fn has_length(n: nat, k: nat) -> bool
    decreases k,
{
    if k == 0 {
        n == 0
    } else if k == 1 {
        n == 1
    } else {
        n > 1 && has_length(next_value(n), (k - 1) as nat)
    }
}

/// The step from `n` can be taken in 128 bits.
pub open spec fn step_fits(n: nat) -> bool {
    n % 2 == 0 || 3 * n + 1 <= u128::MAX
}

/// `n` has path length `k >= 1`, and every step on the way fits in 128 bits.
pub open spec fn resolves_in(n: nat, k: nat) -> bool
    decreases k,
{
    if k <= 1 {
        k == 1 && n == 1
    } else {
        n > 1 && step_fits(n) && resolves_in(next_value(n), (k - 1) as nat)
    }
}

/// The path length of `n` can be computed: no step overflows 128 bits and the
/// length itself fits in 32 bits.
pub open spec fn resolvable(n: nat) -> bool {
    exists|k: nat| k <= u32::MAX && #[trigger] resolves_in(n, k)
}

/// Two to the power `target`, capped at the largest 128-bit value. No start at
/// or above it is tried.
pub open spec fn search_limit(target: nat) -> nat {
    if pow2(target) <= u128::MAX {
        pow2(target)
    } else {
        u128::MAX as nat
    }
}

/// `v` has path length `target` and nothing below it has.
pub open spec fn is_smallest_with_length(v: nat, target: nat) -> bool {
    has_length(v, target) && forall|t: nat| t < v ==> !#[trigger] has_length(t, target)
}

/// The search comes to `s` with nothing found below it, and can go no
/// further: `s` is the limit, or the length of `s` cannot be computed.
pub open spec fn search_stops_at(target: nat, s: nat) -> bool {
    &&& 2 <= s <= search_limit(target)
    &&& s == search_limit(target) || !resolvable(s)
    &&& forall|t: nat| t < s ==> !#[trigger] has_length(t, target)
}

/// The search for `target` ends without an answer.
pub open spec fn search_fails(target: nat) -> bool {
    exists|s: nat| #[trigger] search_stops_at(target, s)
}

/// How a search ends.
#[derive(Debug, Clone, Copy, PartialEq, Eq)]
pub enum Outcome {
    /// The smallest value of the wanted length.
    Found(u128),
    /// The search came to this start, whose length cannot be computed, with
    /// nothing found below it.
    Unresolved(u128),
    /// The search came to its limit with nothing found.
    Exhausted,
}

/// What a search for `target` ends with. A start that stops the search is
/// the first that does: every start before it has a length that can be
/// computed.
pub open spec fn is_outcome(target: nat, r: Outcome) -> bool {
    match r {
        Outcome::Found(v) => {
            &&& target >= 2 ==> !search_fails(target)
            &&& is_answer(target, v as nat)
        },
        Outcome::Unresolved(s) => {
            &&& target >= 2
            &&& s < search_limit(target)
            &&& !resolvable(s as nat)
            &&& search_stops_at(target, s as nat)
            &&& forall|t: nat| 1 <= t < s ==> #[trigger] resolvable(t)
        },
        Outcome::Exhausted => {
            &&& target >= 2
            &&& search_stops_at(target, search_limit(target))
            &&& forall|t: nat| 1 <= t < search_limit(target) ==> #[trigger] resolvable(t)
        },
    }
}

/// What a query for `target` returns.
pub open spec fn is_answer(target: nat, r: nat) -> bool {
    if target < 2 {
        r == target
    } else if search_fails(target) {
        r == 0
    } else {
        is_smallest_with_length(r, target)
    }
}

/// Every recorded length is the true path length of its value, computed
/// within 128 bits.
spec fn memo_sound(memo: Map<u128, u32>) -> bool {
    forall|v: u128| #[trigger] memo.contains_key(v) ==> resolves_in(v as nat, memo[v] as nat)
}

/// `path` is a run of consecutive chain values, none of them 1, each with a
/// step that fits, and the step from the last leads to `end`.
spec fn is_chain(path: Seq<u128>, end: nat) -> bool {
    forall|i: int|
        0 <= i < path.len() ==> {
            &&& #[trigger] path[i] > 1
            &&& step_fits(path[i] as nat)
            &&& next_value(path[i] as nat) == chain_value(path, end, i + 1)
        }
}

/// The `i`-th value of the chain `path` followed by `end`.
spec fn chain_value(path: Seq<u128>, end: nat, i: int) -> nat {
    if 0 <= i < path.len() {
        path[i] as nat
    } else {
        end
    }
}

/// A value has at most one path length.
pub proof fn lemma_length_unique(n: nat, a: nat, b: nat)
    requires
        has_length(n, a),
        has_length(n, b),
    ensures
        a == b,
    decreases a,
{
    if a >= 2 && b >= 2 {
        lemma_length_unique(next_value(n), (a - 1) as nat, (b - 1) as nat);
    }
}

/// A length computed within 128 bits is the path length.
pub proof fn lemma_resolves_has_length(n: nat, k: nat)
    requires
        resolves_in(n, k),
    ensures
        has_length(n, k),
        k >= 1,
    decreases k,
{
    if k >= 2 {
        lemma_resolves_has_length(next_value(n), (k - 1) as nat);
    }
}

/// Along a walk the lengths count down: if `b` is reached from `a` in `steps`
/// steps, before the walk of `a` has ended, then the length of `a` is the
/// length of `b` plus `steps`.
pub proof fn lemma_length_along_walk(a: nat, b: nat, steps: nat, length_a: nat, length_b: nat)
    requires
        has_length(a, length_a),
        has_length(b, length_b),
        steps < length_a,
        walk(a, steps) == b,
    ensures
        length_a == length_b + steps,
    decreases steps,
{
    if steps == 0 {
        lemma_length_unique(a, length_a, length_b);
    } else {
        lemma_length_along_walk(
            next_value(a),
            b,
            (steps - 1) as nat,
            (length_a - 1) as nat,
            length_b,
        );
    }
}

/// Every value on the walk of `a` has a length: the one reached after
/// `steps` steps, before the walk has ended, has length `length_a - steps`.
pub proof fn lemma_walk_has_length(a: nat, steps: nat, length_a: nat)
    requires
        has_length(a, length_a),
        steps < length_a,
    ensures
        has_length(walk(a, steps), (length_a - steps) as nat),
    decreases steps,
{
    if steps > 0 {
        lemma_walk_has_length(next_value(a), (steps - 1) as nat, (length_a - 1) as nat);
    }
}

/// No value repeats on a walk that ends at 1.
pub proof fn lemma_walk_never_repeats(a: nat, i: nat, j: nat, length_a: nat)
    requires
        has_length(a, length_a),
        i < j < length_a,
    ensures
        walk(a, i) != walk(a, j),
{
    lemma_walk_has_length(a, i, length_a);
    lemma_walk_has_length(a, j, length_a);
    if walk(a, i) == walk(a, j) {
        lemma_length_unique(walk(a, i), (length_a - i) as nat, (length_a - j) as nat);
    }
}

/// The walk of a power of two only halves: two to the `k` has length
/// `k + 1`, and no step of it overflows.
pub proof fn lemma_power_of_two_resolves(k: nat)
    ensures
        resolves_in(pow2(k), k + 1),
        has_length(pow2(k), k + 1),
    decreases k,
{
    lemma2_to64();
    if k > 0 {
        lemma_pow2_unfold(k);
        lemma_pow2_pos((k - 1) as nat);
        lemma_power_of_two_resolves((k - 1) as nat);
        assert(next_value(pow2(k)) == pow2((k - 1) as nat));
        assert(step_fits(pow2(k)));
    }
    lemma_resolves_has_length(pow2(k), k + 1);
}

/// For a target from 2 to 128 the limit of the search lies above a value of
/// the wanted length, two to the `target - 1`. So the search never reaches
/// its limit empty-handed: it fails only at a start whose length cannot be
/// computed.
pub proof fn lemma_limit_is_above_an_answer(target: nat)
    requires
        2 <= target <= 128,
    ensures
        has_length(pow2((target - 1) as nat), target),
        pow2((target - 1) as nat) < search_limit(target),
        !search_stops_at(target, search_limit(target)),
{
    let below = (target - 1) as nat;
    lemma_power_of_two_resolves(below);
    lemma_pow2_strictly_increases(below, target);
    lemma2_to64();
    lemma_pow2_adds(64, 32);
    lemma_pow2_adds(96, 31);
    assert(pow2(96) == 0x1_0000_0000_0000_0000_0000_0000) by {
        assert(0x1_0000_0000_0000_0000 * 0x1_0000_0000 == 0x1_0000_0000_0000_0000_0000_0000)
            by (nonlinear_arith);
    }
    assert(pow2(127) == 0x8000_0000_0000_0000_0000_0000_0000_0000) by {
        assert(0x1_0000_0000_0000_0000_0000_0000 * 0x8000_0000
            == 0x8000_0000_0000_0000_0000_0000_0000_0000) by (nonlinear_arith);
    }
    if below < 127 {
        lemma_pow2_strictly_increases(below, 127);
    }
}

/// A query has one answer: whatever two runs for the same target return, it
/// is the same value.
pub proof fn lemma_answer_unique(target: nat, r1: nat, r2: nat)
    requires
        is_answer(target, r1),
        is_answer(target, r2),
    ensures
        r1 == r2,
{
    if target >= 2 && !search_fails(target) {
        if r1 < r2 {
            assert(!has_length(r1, target));
        }
        if r2 < r1 {
            assert(!has_length(r2, target));
        }
    }
}

/// A search has one outcome: whatever two runs for the same target end
/// with, it is the same, down to the start that stopped them.
pub proof fn lemma_outcome_unique(target: nat, r1: Outcome, r2: Outcome)
    requires
        is_outcome(target, r1),
        is_outcome(target, r2),
    ensures
        r1 == r2,
{
    match (r1, r2) {
        (Outcome::Found(v1), Outcome::Found(v2)) => {
            lemma_answer_unique(target, v1 as nat, v2 as nat);
        },
        (Outcome::Unresolved(s1), Outcome::Unresolved(s2)) => {
            if s1 < s2 {
                assert(resolvable(s1 as nat));
            }
            if s2 < s1 {
                assert(resolvable(s2 as nat));
            }
        },
        (Outcome::Unresolved(s), Outcome::Exhausted) => {
            assert(resolvable(s as nat));
        },
        (Outcome::Exhausted, Outcome::Unresolved(s)) => {
            assert(resolvable(s as nat));
        },
        _ => {},
    }
}

/// A query never returns a wrong number: its result is the smallest value of
/// the wanted length, or it is 0 after a search that failed.
pub proof fn lemma_answer_is_right_or_zero(target: nat, r: nat)
    requires
        is_answer(target, r),
    ensures
        is_smallest_with_length(r, target) || (r == 0 && target >= 2 && search_fails(target)),
{
}

/// An answer lies below the limit of the search, and its own walk is one
/// that can be computed: no step of it overflows 128 bits.
pub proof fn lemma_answer_resolves(target: nat, r: nat)
    requires
        target >= 2,
        is_answer(target, r),
        r != 0,
    ensures
        r < search_limit(target),
        resolves_in(r, target),
{
    lemma2_to64();
    lemma_pow2_strictly_increases(1, target);
    if r >= search_limit(target) {
        assert(search_stops_at(target, search_limit(target)));
    }
    if !resolvable(r) {
        assert(search_stops_at(target, r));
    }
    let k = choose|k: nat| k <= u32::MAX && resolves_in(r, k);
    lemma_resolves_has_length(r, k);
    lemma_length_unique(r, k, target);
}

/// A target beyond the reach of 128 bits gets the failure value: where no
/// 128-bit value has a walk of the wanted length that can be computed
/// without overflow, the result is 0 and no number.
pub proof fn lemma_length_out_of_reach_fails(target: nat, r: nat)
    requires
        target >= 2,
        is_answer(target, r),
        forall|n: nat| n <= u128::MAX ==> !#[trigger] resolves_in(n, target),
    ensures
        r == 0,
{
    if r != 0 {
        lemma_answer_resolves(target, r);
    }
}

/// A start whose length cannot be computed fails the query, unless a value
/// of the wanted length stands below it: the result is then 0, whatever lies
/// beyond that start.
pub proof fn lemma_overflow_fails_the_query(target: nat, s: nat, r: nat)
    requires
        target >= 2,
        2 <= s < search_limit(target),
        !resolvable(s),
        forall|t: nat| t < s ==> !#[trigger] has_length(t, target),
        is_answer(target, r),
    ensures
        r == 0,
{
    assert(search_stops_at(target, s));
}

/// A value `i` places into a chain resolves in `k` exactly when `k` reaches
/// past the rest of the chain and the chain's end resolves in what is left.
proof fn lemma_chain_length(path: Seq<u128>, end: nat, i: int, k: nat)
    requires
        is_chain(path, end),
        0 <= i <= path.len(),
    ensures
        resolves_in(chain_value(path, end, i), k) <==> k > path.len() - i && resolves_in(
            end,
            (k - (path.len() - i)) as nat,
        ),
    decreases path.len() - i,
{
    if i < path.len() {
        assert(path[i] > 1);
        if k >= 2 {
            lemma_chain_length(path, end, i + 1, (k - 1) as nat);
        }
    }
}

/// One Collatz step in 128 bits, or `None` where tripling and adding one
/// would overflow.
pub fn checked_step(n: u128) -> (r: Option<u128>)
    ensures
        r is Some <==> step_fits(n as nat),
        r is Some ==> r.unwrap() == next_value(n as nat),
{
    if n % 2 == 0 {
        Some(n / 2)
    } else {
        match n.checked_mul(3) {
            Some(tripled) => tripled.checked_add(1),
            None => None,
        }
    }
}

/// Two to the power `target`, saturating at the largest 128-bit value.
pub fn search_bound(target: u32) -> (b: u128)
    ensures
        b == search_limit(target as nat),
{
    let mut b: u128 = 1;
    let mut i: u32 = 0;
    proof {
        reveal(vstd::arithmetic::power::pow);
        vstd::arithmetic::power2::lemma_pow2(0);
    }
    while i < target
        invariant
            i <= target,
            b == pow2(i as nat),
        decreases target - i,
    {
        proof {
            lemma_pow2_unfold((i + 1) as nat);
        }
        if b > u128::MAX / 2 {
            proof {
                if i + 1 < target {
                    lemma_pow2_strictly_increases((i + 1) as nat, target as nat);
                }
            }
            return u128::MAX;
        }
        b = b * 2;
        i = i + 1;
    }
    b
}

/// Walks forward from `start`, which has no recorded length, until a value
/// with a recorded length is reached, and leaves the values on the way in
/// `path`, `start` first. Returns the path length of `start`, or `None`
/// where a step overflows 128 bits or the length overflows 32 bits.
fn trace(memo: &HashMap<u128, u32>, start: u128, path: &mut VecDeque<u128>) -> (r: Option<u32>)
    requires
        memo_sound(memo@),
        memo@.contains_key(1),
        !memo@.contains_key(start),
        start >= 2,
    ensures
        r is None ==> !resolvable(start as nat),
        r matches Some(total) ==> {
            &&& 1 <= final(path)@.len() < total
            &&& final(path)@[0] == start
            &&& forall|i: int|
                0 <= i < final(path)@.len() ==> resolves_in(
                    #[trigger] final(path)@[i] as nat,
                    (total - i) as nat,
                )
        },
{
    path.clear();
    let mut len: u32 = 0;
    let mut cur: u128 = start;
    while !memo.contains_key(&cur)
        invariant
            memo_sound(memo@),
            memo@.contains_key(1),
            !memo@.contains_key(start),
            is_chain(path@, cur as nat),
            path@.len() == len,
            cur >= 1,
            chain_value(path@, cur as nat, 0) == start,
        decreases u32::MAX - len,
    {
        if len == u32::MAX {
            proof {
                assert forall|k: nat| k <= u32::MAX implies !#[trigger] resolves_in(
                    start as nat,
                    k,
                ) by {
                    lemma_chain_length(path@, cur as nat, 0, k);
                }
            }
            return None;
        }
        match checked_step(cur) {
            None => {
                proof {
                    assert forall|k: nat| k <= u32::MAX implies !#[trigger] resolves_in(
                        start as nat,
                        k,
                    ) by {
                        lemma_chain_length(path@, cur as nat, 0, k);
                    }
                }
                return None;
            },
            Some(stepped) => {
                proof {
                    let grown = path@.push(cur);
                    assert forall|i: int| 0 <= i < grown.len() implies {
                        &&& #[trigger] grown[i] > 1
                        &&& step_fits(grown[i] as nat)
                        &&& next_value(grown[i] as nat) == chain_value(grown, stepped as nat, i + 1)
                    } by {
                        if i < path@.len() {
                            assert(path@[i] > 1);
                        }
                    }
                }
                path.push_back(cur);
                len = len + 1;
                cur = stepped;
            },
        }
    }
    let known: u32 = *memo.get(&cur).unwrap();
    proof {
        assert(memo@.contains_key(cur));
        lemma_resolves_has_length(cur as nat, known as nat);
    }
    match known.checked_add(len) {
        None => {
            proof {
                assert forall|k: nat| k <= u32::MAX implies !#[trigger] resolves_in(
                    start as nat,
                    k,
                ) by {
                    lemma_chain_length(path@, cur as nat, 0, k);
                    if resolves_in(start as nat, k) {
                        lemma_resolves_has_length(cur as nat, (k - len) as nat);
                        lemma_length_unique(cur as nat, (k - len) as nat, known as nat);
                    }
                }
            }
            None
        },
        Some(total) => {
            proof {
                assert forall|i: int| 0 <= i < path@.len() implies resolves_in(
                    #[trigger] path@[i] as nat,
                    (total - i) as nat,
                ) by {
                    lemma_chain_length(path@, cur as nat, i, (total - i) as nat);
                }
            }
            Some(total)
        },
    }
}

/// Searches for the smallest starting value whose Collatz path has length
/// `input`, and says how the search ended.
///
/// For `input` below 2 the answer is `input` itself. Otherwise starts are
/// tried from 2 upwards, below two to the power `input`, with the lengths
/// found so far kept in a memo that lives for this one query. The search
/// ends at the first start whose length cannot be computed, or at the limit,
/// if nothing of the wanted length lies below; else it finds the smallest
/// value of that length.
pub fn collatz_search(input: u32) -> (r: Outcome)
    ensures
        is_outcome(input as nat, r),
{
    if input < 2 {
        return Outcome::Found(input as u128);
    }
    let limit = search_bound(input);
    proof {
        lemma2_to64();
        lemma_pow2_strictly_increases(1, input as nat);
    }
    let mut start: u128 = 2;
    let mut found = false;
    let mut smallest: u128 = limit;
    let mut memo: HashMap<u128, u32> = HashMap::new();
    memo.insert(1u128, 1u32);
    let mut path: VecDeque<u128> = VecDeque::new();

    while start < smallest
        invariant
            input >= 2,
            limit == search_limit(input as nat),
            start >= 2,
            smallest <= limit,
            memo_sound(memo@),
            memo@.contains_key(1),
            forall|t: u128| 1 <= t < start ==> #[trigger] memo@.contains_key(t),
            forall|v: u128| #[trigger] memo@.contains_key(v) && memo@[v] == input ==> smallest <= v,
            found ==> smallest < limit && resolves_in(smallest as nat, input as nat),
            !found ==> smallest == limit && start <= smallest,
        decreases u128::MAX - start,
    {
        if !memo.contains_key(&start) {
            let total = match trace(&memo, start, &mut path) {
                Some(total) => total,
                None => {
                    proof {
                        lemma_nothing_below(memo@, input as nat, smallest, start);
                        lemma_recorded_resolve(memo@, start);
                        assert(search_stops_at(input as nat, start as nat));
                    }
                    return Outcome::Unresolved(start);
                },
            };
            let mut len: u32 = total;
            let mut i: usize = 0;
            while i < path.len()
                invariant
                    input >= 2,
                    i <= path@.len() < total,
                    len == total - i,
                    path@.len() >= 1,
                    path@[0] == start,
                    forall|j: int|
                        0 <= j < path@.len() ==> resolves_in(
                            #[trigger] path@[j] as nat,
                            (total - j) as nat,
                        ),
                    smallest <= limit,
                    memo_sound(memo@),
                    memo@.contains_key(1),
                    forall|t: u128| 1 <= t < start ==> #[trigger] memo@.contains_key(t),
                    i >= 1 ==> memo@.contains_key(start),
                    forall|v: u128|
                        #[trigger] memo@.contains_key(v) && memo@[v] == input ==> smallest <= v,
                    found ==> smallest < limit && resolves_in(smallest as nat, input as nat),
                    !found ==> smallest == limit && start < smallest,
                decreases path@.len() - i,
            {
                let value: u128 = path[i];
                if len == input {
                    if value < smallest {
                        smallest = value;
                        found = true;
                    }
                }
                memo.insert(value, len);
                len = len - 1;
                i = i + 1;
            }
        }
        start = start + 1;
    }

    proof {
        lemma_nothing_below(memo@, input as nat, smallest, smallest);
    }
    if !found {
        proof {
            lemma_recorded_resolve(memo@, start);
            assert(search_stops_at(input as nat, start as nat));
        }
        Outcome::Exhausted
    } else {
        proof {
            lemma_resolves_has_length(smallest as nat, input as nat);
            assert forall|s: nat| !#[trigger] search_stops_at(input as nat, s) by {
                if search_stops_at(input as nat, s) {
                    if s > smallest {
                        assert(has_length(smallest as nat, input as nat));
                    }
                    if s < smallest {
                        let t = s as u128;
                        assert(memo@.contains_key(t));
                        assert(resolves_in(s, memo@[t] as nat));
                    }
                }
            }
        }
        Outcome::Found(smallest)
    }
}

/// Finds the smallest starting value whose Collatz path has length `input`.
///
/// For `input` below 2 the answer is `input` itself. Otherwise starts are
/// tried from 2 upwards, below two to the power `input`, with the lengths
/// found so far kept in a memo that lives for this one query. The result is 0
/// exactly when the search ends without an answer: a start is reached whose
/// length cannot be computed in 128 bits (or counted in 32), or the limit is
/// reached, with no value of the wanted length below it. Any other result is
/// the smallest value of that length.
pub fn collatz(input: u32) -> (r: u128)
    ensures
        is_answer(input as nat, r as nat),
        input < 2 ==> r == input,
        input >= 2 ==> (r == 0 <==> search_fails(input as nat)),
        input >= 2 && r != 0 ==> is_smallest_with_length(r as nat, input as nat),
{
    match collatz_search(input) {
        Outcome::Found(value) => value,
        Outcome::Unresolved(start) => {
            proof {
                assert(search_stops_at(input as nat, start as nat));
            }
            0
        },
        Outcome::Exhausted => 0,
    }
}

/// Every value below `upto` that is recorded has a length that can be
/// computed.
proof fn lemma_recorded_resolve(memo: Map<u128, u32>, upto: u128)
    requires
        memo_sound(memo),
        forall|t: u128| 1 <= t < upto ==> #[trigger] memo.contains_key(t),
    ensures
        forall|t: nat| 1 <= t < upto ==> #[trigger] resolvable(t),
{
    assert forall|t: nat| 1 <= t < upto implies #[trigger] resolvable(t) by {
        let v = t as u128;
        assert(memo.contains_key(v));
        assert(resolves_in(t, memo[v] as nat));
    }
}

/// With every value below `upto` recorded, and `smallest` no larger than any
/// recorded value of the wanted length, nothing below `upto` and `smallest`
/// has that length.
proof fn lemma_nothing_below(memo: Map<u128, u32>, target: nat, smallest: u128, upto: u128)
    requires
        target >= 2,
        memo_sound(memo),
        forall|t: u128| 1 <= t < upto ==> #[trigger] memo.contains_key(t),
        forall|v: u128| #[trigger] memo.contains_key(v) && memo[v] == target ==> smallest <= v,
        upto <= smallest,
    ensures
        forall|t: nat| t < upto ==> !#[trigger] has_length(t, target),
{
    assert forall|t: nat| t < upto implies !#[trigger] has_length(t, target) by {
        if t >= 1 {
            let v = t as u128;
            assert(memo.contains_key(v));
            lemma_resolves_has_length(t, memo[v] as nat);
            if has_length(t, target) {
                lemma_length_unique(t, target, memo[v] as nat);
            }
        }
    }
}

} // verus!
