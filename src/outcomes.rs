use itertools::Itertools;
use vstd::arithmetic::div_mod::{
    lemma_div_denominator, lemma_fundamental_div_mod, lemma_fundamental_div_mod_converse,
};
use vstd::arithmetic::power::lemma_pow0;
use vstd::arithmetic::power2::{lemma_pow2_pos, lemma_pow2_unfold, pow2};
use vstd::prelude::*;

verus! {

/// Whether bet `i` wins in outcome combination `k`. Combinations are numbered as a
/// binary counter whose digit `i` belongs to bet `i` (bet 0 varies fastest), and a
/// digit 0 means that the bet wins.
pub open spec fn bet_wins(k: nat, i: nat) -> bool {
    (k / pow2(i)) % 2 == 0
}

/// The number of the combination in which each bet `i` wins exactly when `s[i]`
/// holds: bet `i` contributes the counter digit `2^i` when it loses.
pub open spec fn combination_index(s: Seq<bool>) -> nat
    decreases s.len(),
{
    if s.len() == 0 {
        0
    } else {
        (if s[0] {
            0nat
        } else {
            1nat
        }) + 2 * combination_index(s.subrange(1, s.len() as int))
    }
}

/// Bet `i + 1` of combination `k` is bet `i` of combination `k / 2`, and bet 0 wins
/// exactly in the even combinations.
proof fn lemma_bet_wins_shift(k: nat, i: nat)
    ensures
        bet_wins(k, 0) == (k % 2 == 0),
        bet_wins(k, i + 1) == bet_wins(k / 2, i),
{
    lemma_pow0(2);
    assert(pow2(0) == 1);
    assert(k / pow2(0) == k);
    lemma_pow2_unfold(i + 1);
    lemma_pow2_pos(i);
    lemma_div_denominator(k as int, 2, pow2(i) as int);
}

/// The enumeration is exhaustive and without repetition: every win/lose assignment
/// `s` of `s.len()` bets is the combination numbered `combination_index(s)`,
/// below `2^s.len()`, and no other combination `k` below that bound has the same
/// wins and losses.
pub proof fn lemma_each_assignment_once(s: Seq<bool>, k: nat)
    ensures
        combination_index(s) < pow2(s.len()),
        forall|i: int| 0 <= i < s.len() ==> bet_wins(combination_index(s), i as nat) == s[i],
        (k < pow2(s.len()) && forall|i: int| 0 <= i < s.len() ==> bet_wins(k, i as nat) == s[i])
            ==> k == combination_index(s),
    decreases s.len(),
{
    if s.len() == 0 {
        lemma_pow0(2);
    } else {
        let rest = s.subrange(1, s.len() as int);
        let d: nat = if s[0] {
            0
        } else {
            1
        };
        let idx = combination_index(s);
        let m = combination_index(rest);
        lemma_pow2_unfold(s.len());
        lemma_each_assignment_once(rest, k / 2);
        assert(idx == d + 2 * m);
        lemma_fundamental_div_mod_converse(idx as int, 2, m as int, d as int);
        assert forall|i: int| 0 <= i < s.len() implies bet_wins(idx, i as nat) == s[i] by {
            lemma_bet_wins_shift(idx, 0);
            if i > 0 {
                lemma_bet_wins_shift(idx, (i - 1) as nat);
                assert(rest[i - 1] == s[i]);
            }
        }
        if k < pow2(s.len()) && forall|i: int|
            0 <= i < s.len() ==> bet_wins(k, i as nat) == s[i] {
            lemma_fundamental_div_mod(k as int, 2);
            assert forall|i: int| 0 <= i < rest.len() implies bet_wins(k / 2, i as nat)
                == rest[i] by {
                lemma_bet_wins_shift(k, i as nat);
                assert(bet_wins(k, (i + 1) as nat) == s[i + 1]);
            }
            lemma_bet_wins_shift(k, 0);
            assert(bet_wins(k, 0) == s[0]);
            assert(k % 2 == d);
        }
    }
}

/// Digit `p` of the `k`-th vector in the lexicographic enumeration of all binary
/// vectors of length `n` (position `n - 1` varies fastest).
pub open spec fn lex_digit(n: nat, k: nat, p: nat) -> nat {
    (k / pow2((n - 1 - p) as nat)) % 2
}

/// Relies on itertools' `multi_cartesian_product` applied to `n` copies of `0..2`:
/// it yields each of the `2^n` digit vectors once, in lexicographic order with the
/// last position varying fastest, and a single empty vector when `n` is 0.
#[verifier::external_body]
fn binary_product(n: usize) -> (r: Vec<Vec<usize>>)
    requires
        pow2(n as nat) <= usize::MAX,
    ensures
        r@.len() == pow2(n as nat),
        forall|k: int| 0 <= k < r@.len() ==> (#[trigger] r@[k])@.len() == n,
        forall|k: int, p: int|
            0 <= k < r@.len() && 0 <= p < n ==> #[trigger] r@[k]@[p] as nat == lex_digit(
                n as nat,
                k as nat,
                p as nat,
            ),
{
    std::iter::repeat(0usize..2usize).take(n).multi_cartesian_product().collect()
}

/// Every joint win/lose assignment of `n` bets: entry `k` holds, for each bet, whether
/// it wins in combination `k`. There are `2^n` combinations (one, with no bets, when
/// `n` is 0), listed in counter order with bet 0 as the fastest-varying digit.
pub fn outcome_combinations(n: usize) -> (r: Vec<Vec<bool>>)
    requires
        pow2(n as nat) <= usize::MAX,
    ensures
        r@.len() == pow2(n as nat),
        forall|k: int| 0 <= k < r@.len() ==> (#[trigger] r@[k])@.len() == n,
        forall|k: int, i: int|
            0 <= k < r@.len() && 0 <= i < n ==> #[trigger] r@[k]@[i] == bet_wins(
                k as nat,
                i as nat,
            ),
{
    let digits = binary_product(n);
    let mut table: Vec<Vec<bool>> = Vec::new();
    let mut k: usize = 0;
    while k < digits.len()
        invariant
            k <= digits@.len(),
            digits@.len() == pow2(n as nat),
            forall|j: int| 0 <= j < digits@.len() ==> (#[trigger] digits@[j])@.len() == n,
            forall|j: int, p: int|
                0 <= j < digits@.len() && 0 <= p < n ==> #[trigger] digits@[j]@[p] as nat
                    == lex_digit(n as nat, j as nat, p as nat),
            table@.len() == k,
            forall|j: int| 0 <= j < k ==> (#[trigger] table@[j])@.len() == n,
            forall|j: int, i: int|
                0 <= j < k && 0 <= i < n ==> #[trigger] table@[j]@[i] == bet_wins(
                    j as nat,
                    i as nat,
                ),
        decreases digits@.len() - k,
    {
        let row = &digits[k];
        let mut wins: Vec<bool> = Vec::new();
        let mut i: usize = 0;
        while i < n
            invariant
                i <= n,
                k < digits@.len(),
                row@ == digits@[k as int]@,
                row@.len() == n,
                forall|p: int|
                    0 <= p < n ==> #[trigger] row@[p] as nat == lex_digit(
                        n as nat,
                        k as nat,
                        p as nat,
                    ),
                wins@.len() == i,
                forall|b: int| 0 <= b < i ==> #[trigger] wins@[b] == bet_wins(k as nat, b as nat),
            decreases n - i,
        {
            let p: usize = n - 1 - i;
            assert(lex_digit(n as nat, k as nat, p as nat) == (k as nat / pow2(i as nat)) % 2);
            wins.push(row[p] == 0);
            i = i + 1;
        }
        table.push(wins);
        k = k + 1;
    }
    table
}

} // verus!
