//! The naive recursive Fibonacci computation with its accumulator side effect.

use vstd::prelude::*;

verus! {

/// The n-th Fibonacci number, 1-indexed: `fib(1) == fib(2) == 1` and
/// `fib(n) == fib(n - 2) + fib(n - 1)` for `n > 2`.  Every argument at or
/// below 2 counts as a base case, so the function is total over `int`.
pub open spec fn fib(n: int) -> int
    decreases n,
{
    if n <= 2 {
        1
    } else {
        fib(n - 2) + fib(n - 1)
    }
}

/// How many non-base-case calls the naive recursion makes for argument `n`:
/// one for the call itself plus the counts of its two recursive children.
pub open spec fn inner_calls(n: int) -> int
    decreases n,
{
    if n <= 2 {
        0
    } else {
        1 + inner_calls(n - 2) + inner_calls(n - 1)
    }
}

/// The 27-character block appended to the accumulator by each
/// non-base-case call.
pub open spec fn alphabet() -> Seq<char> {
    "abcdefghijklmnopqrstuvwxyz "@
}

/// `k` copies of the alphabet block, concatenated.
pub open spec fn alphabet_repeated(k: nat) -> Seq<char>
    decreases k,
{
    if k == 0 {
        Seq::empty()
    } else {
        alphabet_repeated((k - 1) as nat) + alphabet()
    }
}

/// Every Fibonacci number is at least 1.
pub proof fn lemma_fib_at_least_one(n: int)
    ensures
        fib(n) >= 1,
    decreases n,
{
    if n > 2 {
        lemma_fib_at_least_one(n - 2);
        lemma_fib_at_least_one(n - 1);
    }
}

/// The Fibonacci sequence is monotone: a larger argument never gives a
/// smaller value.
pub proof fn lemma_fib_monotone(a: int, b: int)
    requires
        a <= b,
    ensures
        fib(a) <= fib(b),
    decreases b - a,
{
    if a < b {
        lemma_fib_monotone(a, b - 1);
        if b > 2 {
            lemma_fib_at_least_one(b - 2);
        }
    }
}

/// The largest value the computation accepts: `fib(30) == 832040`.
pub proof fn lemma_fib_30()
    ensures
        fib(30) == 832040,
{
    reveal_with_fuel(fib, 31);
}

/// For every accepted argument the result fits comfortably in `i32`.
pub proof fn lemma_fib_bounded(n: int)
    requires
        n <= 30,
    ensures
        1 <= fib(n) <= 832040,
{
    lemma_fib_at_least_one(n);
    lemma_fib_monotone(n, 30);
    lemma_fib_30();
}

/// The alphabet block has exactly 27 characters.
pub proof fn lemma_alphabet_len()
    ensures
        alphabet().len() == 27,
{
    reveal_strlit("abcdefghijklmnopqrstuvwxyz ");
}

/// `k` copies of the alphabet block hold exactly `27 * k` characters: the
/// accumulator grows by a fixed, deterministic amount per counted call.
pub proof fn lemma_alphabet_repeated_len(k: nat)
    ensures
        alphabet_repeated(k).len() == 27 * k,
    decreases k,
{
    lemma_alphabet_len();
    if k > 0 {
        lemma_alphabet_repeated_len((k - 1) as nat);
    }
}

/// Repetition distributes over addition of the counts.
pub proof fn lemma_alphabet_repeated_add(a: nat, b: nat)
    ensures
        alphabet_repeated(a + b) == alphabet_repeated(a) + alphabet_repeated(b),
    decreases b,
{
    if b == 0 {
        assert(alphabet_repeated(a + 0) =~= alphabet_repeated(a) + alphabet_repeated(0));
    } else {
        lemma_alphabet_repeated_add(a, (b - 1) as nat);
        assert(alphabet_repeated((a + b) as nat)
            == alphabet_repeated((a + b - 1) as nat) + alphabet());
        assert(alphabet_repeated(a + b) =~= alphabet_repeated(a) + alphabet_repeated(b));
    }
}

/// For the two base arguments the result is 1.
pub proof fn lemma_fib_base(n: int)
    requires
        1 <= n <= 2,
    ensures
        fib(n) == 1,
{
}

/// For every argument from 3 through 30 the result obeys the standard
/// recurrence `fib(n) == fib(n - 2) + fib(n - 1)`.
pub proof fn lemma_fib_recurrence(n: int)
    requires
        3 <= n <= 30,
    ensures
        fib(n) == fib(n - 2) + fib(n - 1),
{
}

/// Computes the n-th Fibonacci number by naive double recursion.  Each
/// non-base-case call appends the fixed alphabet block to `words`, so the
/// accumulator ends as its old contents followed by exactly
/// `inner_calls(n)` copies of the block.
pub fn fibo(n: i32, words: &mut String) -> (r: i32)
    requires
        n <= 30,
    ensures
        r as int == fib(n as int),
        final(words)@ == old(words)@ + alphabet_repeated(inner_calls(n as int) as nat),
        final(words)@.len() == old(words)@.len() + 27 * inner_calls(n as int),
    decreases n,
{
    proof {
        lemma_inner_calls_nonneg(n as int);
        lemma_alphabet_repeated_len(inner_calls(n as int) as nat);
    }
    if n <= 2 {
        proof {
            assert(old(words)@ + alphabet_repeated(0) =~= old(words)@);
        }
        return 1;
    }

    words.append("abcdefghijklmnopqrstuvwxyz ");

    let a = fibo(n - 2, words);
    let b = fibo(n - 1, words);

    proof {
        lemma_fib_bounded(n - 2);
        lemma_fib_bounded(n - 1);
        lemma_fib_bounded(n as int);
        let c1 = inner_calls(n - 2) as nat;
        let c2 = inner_calls(n - 1) as nat;
        lemma_inner_calls_nonneg(n - 2);
        lemma_inner_calls_nonneg(n - 1);
        lemma_alphabet_repeated_add(1, c1);
        lemma_alphabet_repeated_add(1 + c1, c2);
        assert(alphabet_repeated(1) =~= alphabet());
        assert(old(words)@ + alphabet_repeated((1 + c1 + c2) as nat)
            =~= ((old(words)@ + alphabet()) + alphabet_repeated(c1)) + alphabet_repeated(c2));
    }
    a + b
}

/// The call count is never negative.
pub proof fn lemma_inner_calls_nonneg(n: int)
    ensures
        inner_calls(n) >= 0,
    decreases n,
{
    if n > 2 {
        lemma_inner_calls_nonneg(n - 2);
        lemma_inner_calls_nonneg(n - 1);
    }
}

/// The guarded entry point: arguments above 30 are rejected before any
/// computation, with the accumulator left untouched; every other argument
/// is handed to `fibo`.
pub fn fibo_checked(n: i32, words: &mut String) -> (r: Option<i32>)
    ensures
        r is Some <==> n <= 30,
        n <= 30 ==> r == Some((fib(n as int) as i32))
            && final(words)@ == old(words)@ + alphabet_repeated(inner_calls(n as int) as nat),
        n > 30 ==> final(words)@ == old(words)@,
{
    if n > 30 {
        None
    } else {
        proof {
            lemma_fib_bounded(n as int);
        }
        Some(fibo(n, words))
    }
}

} // verus!
