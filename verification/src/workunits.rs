//! The synthetic CPU-bound work units.
//!
//! Each work unit is a pure computation on plain inputs; the randomized
//! inputs are drawn by the sampler and passed in, so every function here is
//! deterministic and verified, and every loop carries a `decreases` clause,
//! so each invocation terminates. Only the elapsed time of a run is
//! observable to the rest of the pipeline; the returned values exist so that
//! the computations have checkable contracts.

use vstd::prelude::*;
use vstd::arithmetic::power2::{pow2, lemma2_to64, lemma2_to64_rest, lemma_pow2_strictly_increases};
use vstd::arithmetic::div_mod::lemma_mod_multiples_basic;

verus! {

broadcast use vstd::seq_lib::group_to_multiset_ensures;

/// The distinct work units of the pool, one per toy algorithm.
#[derive(Clone, Copy, PartialEq, Eq, Structural, Debug)]
pub enum WorkUnitKind {
    ArraySort,
    Fibonacci,
    GameOfLife,
    MatrixMultiplication,
    PrimeFactors,
    IsLeapYear,
}

impl WorkUnitKind {
    /// The name under which this work unit's samples are reported.
    pub fn name(self) -> (r: &'static str)
        ensures
            r@ == self.spec_name(),
    {
        match self {
            WorkUnitKind::ArraySort => "array_sort",
            WorkUnitKind::Fibonacci => "fibonacci",
            WorkUnitKind::GameOfLife => "game_of_life",
            WorkUnitKind::MatrixMultiplication => "matrix_multiplication",
            WorkUnitKind::PrimeFactors => "prime_factors",
            WorkUnitKind::IsLeapYear => "is_leap_year",
        }
    }

    pub open spec fn spec_name(self) -> Seq<char> {
        match self {
            WorkUnitKind::ArraySort => "array_sort"@,
            WorkUnitKind::Fibonacci => "fibonacci"@,
            WorkUnitKind::GameOfLife => "game_of_life"@,
            WorkUnitKind::MatrixMultiplication => "matrix_multiplication"@,
            WorkUnitKind::PrimeFactors => "prime_factors"@,
            WorkUnitKind::IsLeapYear => "is_leap_year"@,
        }
    }
}

// ---------------------------------------------------------------------------
// Leap year
// ---------------------------------------------------------------------------

/// The Gregorian leap-year rule: divisible by 4, except centuries,
/// except every fourth century.
pub open spec fn spec_is_leap_year(y: u64) -> bool {
    y % 4 == 0 && (y % 100 != 0 || y % 400 == 0)
}

/// Decide whether `y` is a leap year.
pub fn is_leap_year(y: u64) -> (r: bool)
    ensures
        r == spec_is_leap_year(y),
{
    (y % 4 == 0) && ((y % 100 != 0) || (y % 400 == 0))
}

// ---------------------------------------------------------------------------
// Fibonacci
// ---------------------------------------------------------------------------

/// The Fibonacci sequence.
pub open spec fn fib(n: nat) -> nat
    decreases n,
{
    if n == 0 {
        0
    } else if n == 1 {
        1
    } else {
        fib((n - 2) as nat) + fib((n - 1) as nat)
    }
}

proof fn lemma_fib_below_pow2(n: nat)
    ensures
        fib(n) < pow2(n),
    decreases n,
{
    lemma2_to64();
    if n >= 2 {
        lemma_fib_below_pow2((n - 1) as nat);
        lemma_fib_below_pow2((n - 2) as nat);
        vstd::arithmetic::power2::lemma_pow2_adds((n - 2) as nat, 1);
        vstd::arithmetic::power2::lemma_pow2_adds((n - 1) as nat, 1);
    }
}

/// Iterate the Fibonacci recurrence `k` steps and return `fib(k)`.
/// The bound on `k` keeps every intermediate value within `u64`.
pub fn fibonacci(k: u64) -> (r: u64)
    requires
        k <= 62,
    ensures
        r == fib(k as nat),
{
    let mut a: u64 = 0;
    let mut b: u64 = 1;
    let mut i: u64 = 0;
    while i < k
        invariant
            i <= k <= 62,
            a == fib(i as nat),
            b == fib((i + 1) as nat),
        decreases k - i,
    {
        proof {
            lemma_fib_below_pow2((i + 2) as nat);
            lemma2_to64();
            lemma2_to64_rest();
            if i + 2 < 64 {
                lemma_pow2_strictly_increases((i + 2) as nat, 64);
            }
        }
        let t = a;
        a = b;
        b = t + b;
        i = i + 1;
    }
    a
}

// ---------------------------------------------------------------------------
// Array sort
// ---------------------------------------------------------------------------

/// A sequence is sorted in nondecreasing order.
pub open spec fn sorted(s: Seq<i32>) -> bool {
    forall|p: int, q: int| 0 <= p <= q < s.len() ==> s[p] <= s[q]
}

/// Sort `v` in place (selection sort): the result is a sorted rearrangement
/// of the input.
pub fn array_sort(v: &mut Vec<i32>)
    ensures
        sorted(final(v)@),
        final(v)@.to_multiset() == old(v)@.to_multiset(),
{
    let ghost orig = v@;
    let n = v.len();
    let mut i: usize = 0;
    while i < n
        invariant
            i <= n == v@.len(),
            v@.to_multiset() == orig.to_multiset(),
            sorted(v@.subrange(0, i as int)),
            forall|p: int, q: int| 0 <= p < i <= q < n ==> v@[p] <= v@[q],
        decreases n - i,
    {
        let mut m: usize = i;
        let mut j: usize = i + 1;
        while j < n
            invariant
                i <= m < j <= n == v@.len(),
                forall|q: int| i <= q < j ==> v@[m as int] <= v@[q],
            decreases n - j,
        {
            if v[j] < v[m] {
                m = j;
            }
            j = j + 1;
        }
        if m != i {
            let ghost before = v@;
            let vi = v[i];
            let vm = v[m];
            v.set(i, vm);
            v.set(m, vi);
            proof {
                assert(v@ =~= before.update(i as int, vm).update(m as int, vi));
                assert(v@.to_multiset() =~= before.to_multiset());
                assert(v@.subrange(0, i as int) =~= before.subrange(0, i as int));
            }
        }
        assert forall|p: int, q: int| 0 <= p <= q < i + 1 implies #[trigger] v@.subrange(
            0,
            i + 1,
        )[p] <= #[trigger] v@.subrange(0, i + 1)[q] by {
            assert(v@.subrange(0, i + 1)[p] == v@[p]);
            assert(v@.subrange(0, i + 1)[q] == v@[q]);
        }
        i = i + 1;
    }
    proof {
        assert(v@.subrange(0, n as int) =~= v@);
    }
}

// ---------------------------------------------------------------------------
// Prime factorization
// ---------------------------------------------------------------------------

/// `a` divides `b`.
pub open spec fn spec_divides(a: nat, b: nat) -> bool {
    exists|k: nat| b == #[trigger] (a * k)
}

/// `p` is prime: at least 2 and without a divisor strictly between 1 and `p`.
pub open spec fn is_prime(p: nat) -> bool {
    p >= 2 && forall|e: nat| 2 <= e < p ==> !spec_divides(e, p)
}

/// Product of the elements of a sequence.
pub open spec fn seq_product(s: Seq<u64>) -> nat
    decreases s.len(),
{
    if s.len() == 0 {
        1
    } else {
        seq_product(s.drop_last()) * s.last() as nat
    }
}

/// A sequence of `u64` is sorted in nondecreasing order.
pub open spec fn sorted_u64(s: Seq<u64>) -> bool {
    forall|p: int, q: int| 0 <= p <= q < s.len() ==> s[p] <= s[q]
}

proof fn lemma_divides_intro(a: nat, k: nat, b: nat)
    requires
        b == a * k,
    ensures
        spec_divides(a, b),
{
    assert(b == #[trigger] (a * k));
}

proof fn lemma_mod_zero_divides(d: nat, n: nat)
    requires
        d >= 1,
    ensures
        (n % d == 0) == spec_divides(d, n),
{
    if n % d == 0 {
        vstd::arithmetic::div_mod::lemma_fundamental_div_mod(n as int, d as int);
        assert(n == d * (n / d));
        assert(spec_divides(d, n));
    }
    if spec_divides(d, n) {
        let k = choose|k: nat| n == #[trigger] (d * k);
        lemma_mod_multiples_basic(k as int, d as int);
        assert((k as int * d as int) % (d as int) == 0);
        assert(d * k == k * d) by (nonlinear_arith);
    }
}

proof fn lemma_divides_transitive(a: nat, b: nat, c: nat)
    requires
        spec_divides(a, b),
        spec_divides(b, c),
    ensures
        spec_divides(a, c),
{
    let k1 = choose|k: nat| b == #[trigger] (a * k);
    let k2 = choose|k: nat| c == #[trigger] (b * k);
    assert(c == a * (k1 * k2)) by (nonlinear_arith)
        requires
            b == a * k1,
            c == b * k2,
    ;
}

/// If `n >= 2` has no divisor in `[2, d)` and `d * d > n`, then `n` is prime.
proof fn lemma_no_small_divisor_prime(n: nat, d: nat)
    requires
        n >= 2,
        d >= 2,
        d * d > n,
        forall|e: nat| 2 <= e < d ==> !spec_divides(e, n),
    ensures
        is_prime(n),
{
    assert forall|e: nat| 2 <= e < n implies !spec_divides(e, n) by {
        if spec_divides(e, n) {
            if e >= d {
                let k = choose|k: nat| n == #[trigger] (e * k);
                assert(k >= 1) by (nonlinear_arith)
                    requires
                        n == e * k,
                        n >= 2,
                ;
                assert(k >= 2) by (nonlinear_arith)
                    requires
                        n == e * k,
                        e < n,
                        k >= 1,
                ;
                assert(k < d) by (nonlinear_arith)
                    requires
                        n == e * k,
                        e >= d,
                        d * d > n,
                        k >= 1,
                        d >= 2,
                ;
                assert(n == k * e) by (nonlinear_arith)
                    requires
                        n == e * k,
                ;
                assert(spec_divides(k, n));
            }
        }
    }
}

/// Factor `n0` into primes: the returned factors are prime, nondecreasing,
/// and multiply back to `n0` (trial division).
pub fn prime_factors(n0: u64) -> (fac: Vec<u64>)
    requires
        n0 >= 1,
    ensures
        seq_product(fac@) == n0,
        forall|i: int| 0 <= i < fac@.len() ==> is_prime(#[trigger] fac@[i] as nat),
        sorted_u64(fac@),
{
    let mut n = n0;
    let mut d: u64 = 2;
    let mut fac: Vec<u64> = Vec::new();
    proof {
        assert(seq_product(fac@) == 1);
    }
    while d <= n / d
        invariant
            n >= 1,
            d >= 2,
            seq_product(fac@) * n == n0,
            forall|e: nat| 2 <= e < d ==> !spec_divides(e, n as nat),
            forall|i: int| 0 <= i < fac@.len() ==> is_prime(#[trigger] fac@[i] as nat),
            sorted_u64(fac@),
            forall|i: int| 0 <= i < fac@.len() ==> #[trigger] fac@[i] <= d,
        decreases n - d,
    {
        proof {
            assert(d * d <= n) by (nonlinear_arith)
                requires
                    d <= n / d,
                    d >= 2,
                    n >= 1,
            ;
        }
        if n % d == 0 {
            let ghost fac_old = fac@;
            let ghost n_old = n;
            fac.push(d);
            n = n / d;
            proof {
                lemma_mod_zero_divides(d as nat, n_old as nat);
                vstd::arithmetic::div_mod::lemma_fundamental_div_mod(
                    n_old as int,
                    d as int,
                );
                assert(n_old == d * n);
                // the factor pushed is prime
                assert forall|e: nat| 2 <= e < d implies !spec_divides(e, d as nat) by {
                    if spec_divides(e, d as nat) {
                        lemma_divides_transitive(e, d as nat, n_old as nat);
                    }
                }
                assert(d as nat == d as nat * 1nat) by (nonlinear_arith);
                lemma_divides_intro(d as nat, 1nat, d as nat);
                assert(is_prime(d as nat));
                // the product is preserved
                assert(fac@ =~= fac_old.push(d));
                assert(fac@.drop_last() =~= fac_old);
                assert(seq_product(fac@) == seq_product(fac_old) * d);
                assert(seq_product(fac_old) * d * n == n0) by (nonlinear_arith)
                    requires
                        seq_product(fac_old) * n_old == n0,
                        n_old == d * n,
                ;
                // no small divisor of the new n
                assert forall|e: nat| 2 <= e < d implies !spec_divides(e, n as nat) by {
                    if spec_divides(e, n as nat) {
                        assert(n_old as nat == n as nat * d as nat) by (nonlinear_arith)
                            requires
                                n_old == d * n,
                        ;
                        lemma_divides_intro(n as nat, d as nat, n_old as nat);
                        lemma_divides_transitive(e, n as nat, n_old as nat);
                    }
                }
                // n stays positive and shrinks
                assert(n >= 1 && n < n_old && n >= d) by (nonlinear_arith)
                    requires
                        n_old == d * n,
                        d >= 2,
                        d * d <= n_old,
                ;
            }
        } else {
            proof {
                lemma_mod_zero_divides(d as nat, n as nat);
                assert(2 * d <= n) by (nonlinear_arith)
                    requires
                        d * d <= n,
                        d >= 2,
                ;
            }
            d = d + 1;
        }
    }
    if n > 1 {
        proof {
            assert(d * d > n) by (nonlinear_arith)
                requires
                    d > n / d,
                    d >= 2,
                    n >= 1,
            ;
            lemma_no_small_divisor_prime(n as nat, d as nat);
            // every recorded factor is at most d, and n has no divisor below d,
            // so n is at least d and the push keeps the factors sorted
            if n < d {
                assert(n as nat == n as nat * 1nat) by (nonlinear_arith);
                lemma_divides_intro(n as nat, 1nat, n as nat);
            }
        }
        let ghost fac_old = fac@;
        fac.push(n);
        proof {
            assert(fac@.drop_last() =~= fac_old);
            assert(seq_product(fac@) == seq_product(fac_old) * n);
        }
    } else {
        proof {
            assert(n == 1);
            assert(seq_product(fac@) * 1 == seq_product(fac@)) by (nonlinear_arith);
        }
    }
    fac
}

// ---------------------------------------------------------------------------
// Matrix multiplication
// ---------------------------------------------------------------------------

/// All rows of `m` have length `cols`.
pub open spec fn rect(m: Seq<Seq<i32>>, cols: int) -> bool {
    forall|i: int| 0 <= i < m.len() ==> (#[trigger] m[i]).len() == cols
}

/// Every entry of `m` lies in `[lo, hi]`.
pub open spec fn entries_in(m: Seq<Seq<i32>>, lo: int, hi: int) -> bool {
    forall|i: int, j: int|
        0 <= i < m.len() && 0 <= j < m[i].len() ==> lo <= #[trigger] m[i][j] <= hi
}

/// The first `k` terms of the dot product of row `i` of `a` with column `j`
/// of `b`.
pub open spec fn dot_to(a: Seq<Seq<i32>>, b: Seq<Seq<i32>>, i: int, j: int, k: int) -> int
    decreases k,
{
    if k <= 0 {
        0
    } else {
        dot_to(a, b, i, j, k - 1) + a[i][k - 1] * b[k - 1][j]
    }
}

proof fn lemma_rows_are_views(m: &Vec<Vec<i32>>)
    ensures
        m.deep_view().len() == m@.len(),
        forall|i: int| 0 <= i < m@.len() ==> #[trigger] m.deep_view()[i] =~= m@[i]@,
{
}

/// Multiply two square matrices with entries in `[0, 9]`: entry `(i, j)` of
/// the result is the dot product of row `i` of `a` with column `j` of `b`.
pub fn matrix_multiplication(a: &Vec<Vec<i32>>, b: &Vec<Vec<i32>>) -> (res: Vec<Vec<i32>>)
    requires
        a.deep_view().len() == b.deep_view().len(),
        rect(a.deep_view(), b.deep_view().len() as int),
        rect(b.deep_view(), b.deep_view().len() as int),
        entries_in(a.deep_view(), 0, 9),
        entries_in(b.deep_view(), 0, 9),
        81 * b.deep_view().len() <= i32::MAX,
    ensures
        res.deep_view().len() == a.deep_view().len(),
        rect(res.deep_view(), b.deep_view().len() as int),
        forall|i: int, j: int|
            0 <= i < a.deep_view().len() && 0 <= j < b.deep_view().len()
                ==> #[trigger] res.deep_view()[i][j] == dot_to(
                a.deep_view(),
                b.deep_view(),
                i,
                j,
                b.deep_view().len() as int,
            ),
{
    proof {
        lemma_rows_are_views(a);
        lemma_rows_are_views(b);
    }
    let d = b.len();
    let mut res: Vec<Vec<i32>> = Vec::new();
    let mut i: usize = 0;
    while i < a.len()
        invariant
            a@.len() == d == b@.len(),
            rect(a.deep_view(), d as int),
            rect(b.deep_view(), d as int),
            entries_in(a.deep_view(), 0, 9),
            entries_in(b.deep_view(), 0, 9),
            81 * d <= i32::MAX,
            forall|r: int| 0 <= r < a@.len() ==> #[trigger] a.deep_view()[r] =~= a@[r]@,
            forall|r: int| 0 <= r < b@.len() ==> #[trigger] b.deep_view()[r] =~= b@[r]@,
            i <= a@.len(),
            res.deep_view().len() == i,
            forall|r: int| 0 <= r < i ==> (#[trigger] res.deep_view()[r]).len() == d,
            forall|r: int, c: int|
                0 <= r < i && 0 <= c < d ==> #[trigger] res.deep_view()[r][c] == dot_to(
                    a.deep_view(),
                    b.deep_view(),
                    r,
                    c,
                    d as int,
                ),
        decreases a@.len() - i,
    {
        let mut row: Vec<i32> = Vec::new();
        let mut j: usize = 0;
        while j < d
            invariant
                a@.len() == d == b@.len(),
                rect(a.deep_view(), d as int),
                rect(b.deep_view(), d as int),
                entries_in(a.deep_view(), 0, 9),
                entries_in(b.deep_view(), 0, 9),
                81 * d <= i32::MAX,
                forall|r: int| 0 <= r < a@.len() ==> #[trigger] a.deep_view()[r] =~= a@[r]@,
                forall|r: int| 0 <= r < b@.len() ==> #[trigger] b.deep_view()[r] =~= b@[r]@,
                i < a@.len(),
                j <= d,
                row@.len() == j,
                forall|c: int|
                    0 <= c < j ==> #[trigger] row@[c] == dot_to(
                        a.deep_view(),
                        b.deep_view(),
                        i as int,
                        c,
                        d as int,
                    ),
            decreases d - j,
        {
            let mut acc: i32 = 0;
            let mut k: usize = 0;
            while k < d
                invariant
                    a@.len() == d == b@.len(),
                    rect(a.deep_view(), d as int),
                    rect(b.deep_view(), d as int),
                    entries_in(a.deep_view(), 0, 9),
                    entries_in(b.deep_view(), 0, 9),
                    81 * d <= i32::MAX,
                    forall|r: int| 0 <= r < a@.len() ==> #[trigger] a.deep_view()[r] =~= a@[r]@,
                    forall|r: int| 0 <= r < b@.len() ==> #[trigger] b.deep_view()[r] =~= b@[r]@,
                    i < a@.len(),
                    j < d,
                    k <= d,
                    0 <= acc <= 81 * k,
                    acc == dot_to(a.deep_view(), b.deep_view(), i as int, j as int, k as int),
                decreases d - k,
            {
                let arow = &a[i];
                let brow = &b[k];
                proof {
                    assert(arow@ =~= a.deep_view()[i as int]);
                    assert(brow@ =~= b.deep_view()[k as int]);
                    assert(0 <= a.deep_view()[i as int][k as int] <= 9);
                    assert(0 <= b.deep_view()[k as int][j as int] <= 9);
                    let av = a.deep_view()[i as int][k as int];
                    let bv = b.deep_view()[k as int][j as int];
                    assert(0 <= av * bv <= 81) by (nonlinear_arith)
                        requires
                            0 <= av <= 9,
                            0 <= bv <= 9,
                    ;
                }
                let t = arow[k] * brow[j];
                acc = acc + t;
                k = k + 1;
            }
            row.push(acc);
            j = j + 1;
        }
        let ghost res_old = res.deep_view();
        res.push(row);
        proof {
            assert(res.deep_view() =~~= res_old.push(row@));
        }
        i = i + 1;
    }
    res
}

// ---------------------------------------------------------------------------
// Game of life
// ---------------------------------------------------------------------------

/// A well-formed toroidal grid: `w` rows of `h` cells, each cell 0 or 1.
pub open spec fn wf_grid(g: Seq<Seq<u8>>, w: int, h: int) -> bool {
    &&& g.len() == w
    &&& forall|x: int| 0 <= x < w ==> (#[trigger] g[x]).len() == h
    &&& forall|x: int, y: int| 0 <= x < w && 0 <= y < h ==> #[trigger] g[x][y] <= 1
}

/// The previous index on a ring of size `m`.
pub open spec fn dec_wrap(x: int, m: int) -> int {
    if x == 0 {
        m - 1
    } else {
        x - 1
    }
}

/// The next index on a ring of size `m`.
pub open spec fn inc_wrap(x: int, m: int) -> int {
    if x + 1 == m {
        0
    } else {
        x + 1
    }
}

/// The number of live cells among the eight toroidal neighbours of `(x, y)`.
pub open spec fn live_neighbors(g: Seq<Seq<u8>>, x: int, y: int, w: int, h: int) -> int {
    let xm = dec_wrap(x, w);
    let xp = inc_wrap(x, w);
    let ym = dec_wrap(y, h);
    let yp = inc_wrap(y, h);
    g[xm][ym] + g[xm][y] + g[xm][yp] + g[x][ym] + g[x][yp] + g[xp][ym] + g[xp][y] + g[xp][yp]
}

/// Conway's rule for one cell: a live cell survives with two or three live
/// neighbours; a dead cell becomes live with exactly three.
pub open spec fn next_cell(g: Seq<Seq<u8>>, x: int, y: int, w: int, h: int) -> u8 {
    let ln = live_neighbors(g, x, y, w, h);
    let alive = g[x][y] == 1;
    if (alive && (ln == 2 || ln == 3)) || (!alive && ln == 3) {
        1u8
    } else {
        0u8
    }
}

/// One synchronous generation of the whole grid.
pub open spec fn step_spec(g: Seq<Seq<u8>>, w: int, h: int) -> Seq<Seq<u8>> {
    Seq::new(w as nat, |x: int| Seq::new(h as nat, |y: int| next_cell(g, x, y, w, h)))
}

/// `gens` generations of the grid.
pub open spec fn life_spec(g: Seq<Seq<u8>>, w: int, h: int, gens: nat) -> Seq<Seq<u8>>
    decreases gens,
{
    if gens == 0 {
        g
    } else {
        step_spec(life_spec(g, w, h, (gens - 1) as nat), w, h)
    }
}

proof fn lemma_step_spec_wf(g: Seq<Seq<u8>>, w: int, h: int)
    requires
        wf_grid(g, w, h),
        w >= 1,
        h >= 1,
    ensures
        wf_grid(step_spec(g, w, h), w, h),
{
}

/// Compute one generation: cell `(x, y)` of the result is `next_cell` of the
/// input grid.
pub fn step_grid(g: &Vec<Vec<u8>>, w: usize, h: usize) -> (next: Vec<Vec<u8>>)
    requires
        wf_grid(g.deep_view(), w as int, h as int),
        w >= 1,
        h >= 1,
    ensures
        next.deep_view() =~~= step_spec(g.deep_view(), w as int, h as int),
        wf_grid(next.deep_view(), w as int, h as int),
{
    proof {
        assert(g.deep_view().len() == g@.len());
        assert forall|x: int| 0 <= x < w implies (#[trigger] g@[x])@.len() == h by {
            assert(g.deep_view()[x] =~= g@[x]@);
        }
    }
    let ghost gv = g.deep_view();
    let mut next: Vec<Vec<u8>> = Vec::new();
    let mut x: usize = 0;
    while x < w
        invariant
            wf_grid(gv, w as int, h as int),
            gv == g.deep_view(),
            w >= 1,
            h >= 1,
            g@.len() == w,
            forall|r: int| 0 <= r < w ==> (#[trigger] g@[r])@.len() == h,
            forall|r: int| 0 <= r < w ==> #[trigger] g.deep_view()[r] =~= g@[r]@,
            x <= w,
            next.deep_view().len() == x,
            forall|r: int|
                0 <= r < x ==> #[trigger] next.deep_view()[r] =~= Seq::new(
                    h as nat,
                    |y: int| next_cell(gv, r, y, w as int, h as int),
                ),
        decreases w - x,
    {
        let xm = if x == 0 { w - 1 } else { x - 1 };
        let xp = if x + 1 == w { 0 } else { x + 1 };
        let mut row: Vec<u8> = Vec::new();
        let mut y: usize = 0;
        while y < h
            invariant
                wf_grid(gv, w as int, h as int),
                gv == g.deep_view(),
                w >= 1,
                h >= 1,
                g@.len() == w,
                forall|r: int| 0 <= r < w ==> (#[trigger] g@[r])@.len() == h,
                forall|r: int| 0 <= r < w ==> #[trigger] g.deep_view()[r] =~= g@[r]@,
                x < w,
                xm as int == dec_wrap(x as int, w as int),
                xp as int == inc_wrap(x as int, w as int),
                xm < w,
                xp < w,
                y <= h,
                row@.len() == y,
                forall|c: int|
                    0 <= c < y ==> #[trigger] row@[c] == next_cell(
                        gv,
                        x as int,
                        c,
                        w as int,
                        h as int,
                    ),
            decreases h - y,
        {
            let ym = if y == 0 { h - 1 } else { y - 1 };
            let yp = if y + 1 == h { 0 } else { y + 1 };
            let ln: u32 = g[xm][ym] as u32 + g[xm][y] as u32 + g[xm][yp] as u32 + g[x][ym] as u32
                + g[x][yp] as u32 + g[xp][ym] as u32 + g[xp][y] as u32 + g[xp][yp] as u32;
            let alive = g[x][y] == 1;
            let cell_val: u8 = if (alive && (ln == 2 || ln == 3)) || (!alive && ln == 3) {
                1
            } else {
                0
            };
            proof {
                assert(ln as int == live_neighbors(gv, x as int, y as int, w as int, h as int));
                assert(cell_val == next_cell(gv, x as int, y as int, w as int, h as int));
            }
            row.push(cell_val);
            y = y + 1;
        }
        let ghost next_old = next.deep_view();
        next.push(row);
        proof {
            assert(next.deep_view() =~~= next_old.push(row@));
            assert(next.deep_view()[x as int] =~= Seq::new(
                h as nat,
                |c: int| next_cell(gv, x as int, c, w as int, h as int),
            ));
        }
        x = x + 1;
    }
    proof {
        assert(next.deep_view() =~~= step_spec(gv, w as int, h as int));
        lemma_step_spec_wf(gv, w as int, h as int);
    }
    next
}

/// Run `gens` generations of the game of life on a toroidal `w` by `h` grid.
pub fn game_of_life(grid: Vec<Vec<u8>>, w: usize, h: usize, gens: u64) -> (out: Vec<Vec<u8>>)
    requires
        wf_grid(grid.deep_view(), w as int, h as int),
        w >= 1,
        h >= 1,
    ensures
        out.deep_view() =~~= life_spec(grid.deep_view(), w as int, h as int, gens as nat),
        wf_grid(out.deep_view(), w as int, h as int),
{
    let ghost g0 = grid.deep_view();
    let mut cur = grid;
    let mut t: u64 = 0;
    while t < gens
        invariant
            wf_grid(cur.deep_view(), w as int, h as int),
            w >= 1,
            h >= 1,
            t <= gens,
            cur.deep_view() =~~= life_spec(g0, w as int, h as int, t as nat),
        decreases gens - t,
    {
        cur = step_grid(&cur, w, h);
        t = t + 1;
    }
    cur
}

} // verus!
