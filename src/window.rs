//! Fixed-base windowed exponentiation, generic over any group given by an
//! identity, a combine operation and a doubling (or squaring) operation.
//!
//! A table for a base `g`, a scalar bit length `n` and a window `w` has one
//! row per `w`-bit chunk of the scalar; row `k` holds `j * (2^(k*w) * g)` for
//! every `j` below `2^width`, where `width` is `w` except for a shorter last
//! chunk. Evaluating a scalar then needs one table lookup and one combine per
//! chunk, and no doubling at all.

use vstd::prelude::*;
use vstd::arithmetic::power2::{pow2, lemma_pow2_pos, lemma_pow2_unfold, lemma_pow2_adds};
use vstd::bits::lemma_u64_shl_is_mul;
use vstd::bits::lemma_u64_pow2_no_overflow;

verus! {

/// The capabilities the windowed engine needs of a group: an identity, a
/// combine operation (addition, or multiplication for a multiplicative
/// group) and a doubling (or squaring) operation.
pub trait WindowGroup: Sized + Copy {
    /// The group's combine operation.
    spec fn op(a: Self, b: Self) -> Self;

    /// The group's doubling (or squaring) operation.
    spec fn twice(a: Self) -> Self;

    /// The identity element that `identity` returns.
    spec fn unit() -> Self;

    /// Whether `a` and `b` stand for the same group element (values of one
    /// element may differ in representation).
    spec fn equiv(a: Self, b: Self) -> bool;

    fn identity() -> (r: Self)
        ensures
            r == Self::unit(),
    ;

    fn combine(&self, other: &Self) -> (r: Self)
        ensures
            r == Self::op(*self, *other),
    ;

    fn double(&self) -> (r: Self)
        ensures
            r == Self::twice(*self),
    ;
}

/// The group axioms the windowed evaluation relies on, up to `equiv`:
/// `equiv` is an equivalence that `op` respects, `op` is associative and
/// commutative with `unit` as neutral element, and doubling is the element
/// combined with itself.
#[verifier::opaque]
pub open spec fn group_laws<G: WindowGroup>() -> bool {
    &&& forall|a: G| #[trigger] G::equiv(a, a)
    &&& forall|a: G, b: G| #[trigger] G::equiv(a, b) ==> G::equiv(b, a)
    &&& forall|a: G, b: G, c: G|
        #![trigger G::equiv(a, b), G::equiv(b, c)]
        G::equiv(a, b) && G::equiv(b, c) ==> G::equiv(a, c)
    &&& forall|a: G, a2: G, b: G, b2: G|
        #![trigger G::equiv(a, a2), G::equiv(b, b2)]
        G::equiv(a, a2) && G::equiv(b, b2) ==> G::equiv(G::op(a, b), G::op(a2, b2))
    &&& forall|a: G, b: G, c: G|
        #![trigger G::op(G::op(a, b), c)]
        G::equiv(G::op(G::op(a, b), c), G::op(a, G::op(b, c)))
    &&& forall|a: G, b: G| #[trigger] G::equiv(G::op(a, b), G::op(b, a))
    &&& forall|a: G| #[trigger] G::equiv(G::op(G::unit(), a), a)
    &&& forall|a: G| #[trigger] G::equiv(G::twice(a), G::op(a, a))
}

/// `b` combined `k` times onto the identity: the naive (unwindowed) `k`-fold
/// multiple (or power) of `b`.
pub open spec fn naive<G: WindowGroup>(b: G, k: nat) -> G
    decreases k,
{
    if k == 0 {
        G::unit()
    } else {
        G::op(naive(b, (k - 1) as nat), b)
    }
}

/// `b` doubled (or squared) `n` times.
pub open spec fn doubled<G: WindowGroup>(b: G, n: nat) -> G
    decreases n,
{
    if n == 0 {
        b
    } else {
        G::twice(doubled(b, (n - 1) as nat))
    }
}

/// The number of `w`-bit chunks of an `n`-bit scalar: `ceil(n / w)`.
pub open spec fn outer_count(n: nat, w: nat) -> nat {
    if n == 0 || w == 0 {
        0
    } else {
        ((n - 1) as nat / w + 1) as nat
    }
}

/// The width of chunk `k`: `w`, except for the last chunk, which holds the
/// remaining bits.
pub open spec fn chunk_width(n: nat, w: nat, k: nat) -> nat {
    if k + 1 < outer_count(n, w) {
        w
    } else {
        (n - k * w) as nat
    }
}

/// Bit `i` of a little-endian bit sequence; bits past its end are zero.
pub open spec fn bit_at(s: Seq<bool>, i: int) -> bool {
    0 <= i < s.len() && s[i]
}

/// The value of the `len` bits of `s` that start at `start`, little-endian.
pub open spec fn chunk_value(s: Seq<bool>, start: nat, len: nat) -> nat
    decreases len,
{
    if len == 0 {
        0
    } else {
        chunk_value(s, start, (len - 1) as nat) + if bit_at(s, start + len - 1) {
            pow2((len - 1) as nat)
        } else {
            0
        }
    }
}

/// The value of the low `n` bits of `s`, little-endian.
pub open spec fn bits_value(s: Seq<bool>, n: nat) -> nat {
    chunk_value(s, 0, n)
}

/// Row `k` of the table for `base`: the multiples `j * (2^(k*w) * base)`,
/// built by repeated combine from the identity.
pub open spec fn table_row<G: WindowGroup>(base: G, n: nat, w: nat, k: nat) -> Seq<G> {
    Seq::new(pow2(chunk_width(n, w, k)), |j: int| naive(doubled(base, k * w), j as nat))
}

/// All rows of the table for `base`, an `n`-bit scalar and window `w`.
pub open spec fn table_rows<G: WindowGroup>(base: G, n: nat, w: nat) -> Seq<Seq<G>> {
    Seq::new(outer_count(n, w), |k: int| table_row(base, n, w, k as nat))
}

/// The chunk of `s` that selects the entry of row `k`.
pub open spec fn digit(s: Seq<bool>, n: nat, w: nat, k: nat) -> nat {
    chunk_value(s, k * w, chunk_width(n, w, k))
}

/// The combination, from the identity, of the entries of `rows` that the
/// first `k` chunks of `s` select.
pub open spec fn windowed<G: WindowGroup>(rows: Seq<Seq<G>>, n: nat, w: nat, s: Seq<bool>, k: nat) -> G
    decreases k,
{
    if k == 0 {
        G::unit()
    } else {
        G::op(
            windowed(rows, n, w, s, (k - 1) as nat),
            rows[k - 1][digit(s, n, w, (k - 1) as nat) as int],
        )
    }
}

/// The windowed evaluation of the scalar with bits `s` (taken to `n` bits)
/// against the table for `base` and window `w`.
pub open spec fn fixed_base_eval<G: WindowGroup>(base: G, n: nat, w: nat, s: Seq<bool>) -> G {
    windowed(table_rows(base, n, w), n, w, s, outer_count(n, w))
}

/// A fixed-base table: owned by its caller, built once, read by any number
/// of evaluations.
pub struct WindowTable<G> {
    pub identity: G,
    pub base: G,
    pub scalar_bits: usize,
    pub window: usize,
    pub rows: Vec<Vec<G>>,
}

impl<G: WindowGroup> WindowTable<G> {
    /// The rows, as sequences.
    pub open spec fn rows_view(&self) -> Seq<Seq<G>> {
        self.rows@.map_values(|r: Vec<G>| r@)
    }

    /// The table holds exactly the multiples of its base that its bit length
    /// and window call for.
    pub open spec fn wf(&self) -> bool {
        &&& 1 <= self.window < 64
        &&& 1 <= self.scalar_bits
        &&& self.identity == G::unit()
        &&& self.rows_view() == table_rows(self.base, self.scalar_bits as nat, self.window as nat)
    }

    /// The chunk of `s` that selects the entry of row `k`.
    pub open spec fn digit(&self, s: Seq<bool>, k: nat) -> nat {
        digit(s, self.scalar_bits as nat, self.window as nat, k)
    }

    /// The combination of the entries selected by the first `k` chunks of `s`.
    pub open spec fn eval_prefix(&self, s: Seq<bool>, k: nat) -> G {
        windowed(self.rows_view(), self.scalar_bits as nat, self.window as nat, s, k)
    }

    /// What evaluating the scalar with bits `s` returns.
    pub open spec fn eval(&self, s: Seq<bool>) -> G {
        self.eval_prefix(s, outer_count(self.scalar_bits as nat, self.window as nat))
    }
}

/// `ceil(log2(x))`, with `0` for `x <= 1`.
pub open spec fn ceil_log2(x: nat) -> nat
    decreases x,
{
    if x <= 1 {
        0
    } else {
        ceil_log2(((x + 1) / 2) as nat) + 1
    }
}

/// The window for a batch of `n` scalars: `3` below `32`, else
/// `ceil(log2(n)) * ln(2)`, with `ln(2)` taken as `69 / 100`.
pub open spec fn window_size_spec(n: nat) -> nat {
    if n < 32 {
        3
    } else {
        ceil_log2(n) * 69 / 100
    }
}

proof fn lemma_ceil_log2_bound(x: nat, k: nat)
    requires
        x <= pow2(k),
    ensures
        ceil_log2(x) <= k,
    decreases k,
{
    if x > 1 {
        if k == 0 {
            vstd::arithmetic::power2::lemma2_to64();
        } else {
            lemma_pow2_unfold(k);
            lemma_ceil_log2_bound(((x + 1) / 2) as nat, (k - 1) as nat);
        }
    }
}

proof fn lemma_ceil_log2_32()
    ensures
        ceil_log2(32) == 5,
{
    assert(ceil_log2(1) == 0);
    assert(ceil_log2(2) == 1);
    assert(ceil_log2(4) == 2);
    assert(ceil_log2(8) == 3);
    assert(ceil_log2(16) == 4);
}

proof fn lemma_ceil_log2_monotone(a: nat, b: nat)
    requires
        a <= b,
    ensures
        ceil_log2(a) <= ceil_log2(b),
    decreases b,
{
    if a > 1 {
        lemma_ceil_log2_monotone(((a + 1) / 2) as nat, ((b + 1) / 2) as nat);
    }
}

/// The window size never decreases as the batch grows, and is `3` for every
/// batch of fewer than `32` scalars.
pub proof fn lemma_window_size_monotone(a: nat, b: nat)
    requires
        a <= b,
    ensures
        window_size_spec(a) <= window_size_spec(b),
        a < 32 ==> window_size_spec(a) == 3,
{
    if b >= 32 {
        lemma_ceil_log2_monotone(32, b);
        lemma_ceil_log2_32();
        if a >= 32 {
            lemma_ceil_log2_monotone(a, b);
            assert(ceil_log2(a) * 69 <= ceil_log2(b) * 69) by (nonlinear_arith)
                requires
                    ceil_log2(a) <= ceil_log2(b),
            ;
        }
    }
}

/// The window size for a batch of `n` scalars.
pub fn window_size(n: usize) -> (r: usize)
    ensures
        r == window_size_spec(n as nat),
        3 <= r < 64,
{
    if n < 32 {
        return 3;
    }
    proof {
        vstd::arithmetic::power2::lemma2_to64();
        vstd::arithmetic::power2::lemma2_to64_rest();
        lemma_ceil_log2_bound(n as nat, 64);
    }
    let mut x: usize = n;
    let mut k: usize = 0;
    while x > 1
        invariant
            1 <= x <= n,
            k + ceil_log2(x as nat) == ceil_log2(n as nat),
            k <= 64,
            ceil_log2(n as nat) <= 64,
        decreases x,
    {
        x = x / 2 + x % 2;
        k = k + 1;
    }
    proof {
        lemma_window_size_monotone(31, n as nat);
        lemma_ceil_log2_monotone(32, n as nat);
        lemma_ceil_log2_32();
    }
    k * 69 / 100
}

proof fn lemma_outer_count(n: nat, w: nat)
    requires
        1 <= n,
        1 <= w,
    ensures
        1 <= outer_count(n, w),
        (outer_count(n, w) - 1) * w < n,
        n <= outer_count(n, w) * w,
        1 <= chunk_width(n, w, (outer_count(n, w) - 1) as nat) <= w,
{
    let q = ((n - 1) as nat / w) as nat;
    vstd::arithmetic::div_mod::lemma_fundamental_div_mod((n - 1) as int, w as int);
    vstd::arithmetic::div_mod::lemma_mod_pos_bound((n - 1) as int, w as int);
    assert(q * w == w * q) by (nonlinear_arith);
    assert((q + 1) * w == q * w + w) by (nonlinear_arith);
}

proof fn lemma_chunk_value_bound(s: Seq<bool>, start: nat, len: nat)
    ensures
        chunk_value(s, start, len) < pow2(len),
    decreases len,
{
    lemma_pow2_pos(len);
    if len > 0 {
        lemma_chunk_value_bound(s, start, (len - 1) as nat);
        lemma_pow2_unfold(len);
    }
}

/// Builds the table for `base`, scalars of `scalar_bits` bits and the given
/// window.
pub fn build_table<G: WindowGroup>(base: &G, scalar_bits: usize, window: usize) -> (r:
    WindowTable<G>)
    requires
        1 <= window < 64,
        1 <= scalar_bits,
    ensures
        r.wf(),
        r.base == *base,
        r.scalar_bits == scalar_bits,
        r.window == window,
{
    let outerc: usize = (scalar_bits - 1) / window + 1;
    proof {
        lemma_outer_count(scalar_bits as nat, window as nat);
    }
    let z = G::identity();
    let ghost n = scalar_bits as nat;
    let ghost w = window as nat;
    let mut rows: Vec<Vec<G>> = Vec::new();
    let mut g_outer = *base;
    let mut k: usize = 0;
    while k < outerc
        invariant
            outerc == outer_count(n, w),
            n == scalar_bits,
            w == window,
            1 <= window < 64,
            1 <= scalar_bits,
            (outerc - 1) * w < n,
            0 <= k <= outerc,
            g_outer == doubled(*base, (k * w) as nat),
            rows@.len() == k,
            z == G::unit(),
            forall|i: int| 0 <= i < k ==> #[trigger] rows@[i]@ == table_row(*base, n, w, i as nat),
        decreases outerc - k,
    {
        let width: usize = if k + 1 < outerc {
            window
        } else {
            proof {
                assert(k * w <= (outerc - 1) * w) by (nonlinear_arith)
                    requires k <= outerc - 1;
                assert(k * w + w == (k + 1) * w) by (nonlinear_arith);
                assert(outerc * w >= n) by {
                    lemma_outer_count(n, w);
                }
            }
            scalar_bits - k * window
        };
        assert(width == chunk_width(n, w, k as nat));
        assert(1 <= width <= w) by {
            lemma_outer_count(n, w);
            if k + 1 >= outerc {
                assert(k == outerc - 1);
            }
        }
        proof {
            lemma_u64_pow2_no_overflow(width as nat);
            lemma_u64_shl_is_mul(1, width as u64);
        }
        let count: u64 = 1u64 << (width as u64);
        let mut row: Vec<G> = Vec::new();
        let mut g_inner = z;
        let mut j: u64 = 0;
        while j < count
            invariant
                count == pow2(width as nat),
                0 <= j <= count,
                z == G::unit(),
                g_inner == naive(g_outer, j as nat),
                row@.len() == j,
                forall|i: int| 0 <= i < j ==> #[trigger] row@[i] == naive(g_outer, i as nat),
            decreases count - j,
        {
            row.push(g_inner);
            g_inner = g_inner.combine(&g_outer);
            j = j + 1;
        }
        assert(row@ =~= table_row(*base, n, w, k as nat));
        rows.push(row);
        let mut t: usize = 0;
        while t < window
            invariant
                0 <= t <= window,
                g_outer == doubled(*base, (k * w + t) as nat),
            decreases window - t,
        {
            g_outer = g_outer.double();
            t = t + 1;
        }
        proof {
            assert((k + 1) * w == k * w + w) by (nonlinear_arith);
        }
        k = k + 1;
    }
    let r = WindowTable { identity: z, base: *base, scalar_bits, window, rows };
    assert(r.rows_view() =~= table_rows(*base, n, w));
    r
}

/// The scalar with little-endian bits `scalar`, taken to the table's bit
/// length, applied to the table's base: one lookup and one combine per chunk.
pub fn evaluate<G: WindowGroup>(table: &WindowTable<G>, scalar: &Vec<bool>) -> (r: G)
    requires
        table.wf(),
    ensures
        r == table.eval(scalar@),
        r == fixed_base_eval(table.base, table.scalar_bits as nat, table.window as nat, scalar@),
{
    let ghost n = table.scalar_bits as nat;
    let ghost w = table.window as nat;
    let window = table.window;
    let scalar_bits = table.scalar_bits;
    let outerc: usize = table.rows.len();
    proof {
        lemma_outer_count(n, w);
        assert(table.rows_view().len() == table.rows@.len());
    }
    let mut acc = table.identity;
    let mut k: usize = 0;
    while k < outerc
        invariant
            table.wf(),
            n == scalar_bits,
            w == window,
            window == table.window,
            scalar_bits == table.scalar_bits,
            outerc == table.rows@.len(),
            outerc == outer_count(n, w),
            (outerc - 1) * w < n,
            0 <= k <= outerc,
            acc == table.eval_prefix(scalar@, k as nat),
        decreases outerc - k,
    {
        proof {
            assert(k * w <= (outerc - 1) * w) by (nonlinear_arith)
                requires k <= outerc - 1;
        }
        let start: usize = k * window;
        let width: usize = if k + 1 < outerc {
            window
        } else {
            scalar_bits - start
        };
        assert(width == chunk_width(n, w, k as nat));
        assert(width <= w && start + width <= n) by {
            lemma_outer_count(n, w);
            if k + 1 >= outerc {
                assert(k == outerc - 1);
            } else {
                assert((k + 1) * w <= (outerc - 1) * w) by (nonlinear_arith)
                    requires k + 1 <= outerc - 1;
                assert((k + 1) * w == k * w + w) by (nonlinear_arith);
            }
        }
        let mut inner: u64 = 0;
        let mut i: usize = 0;
        while i < width
            invariant
                width < 64,
                start + width <= n,
                n == scalar_bits,
                start == k * w,
                start <= n,
                0 <= i <= width,
                inner == chunk_value(scalar@, start as nat, i as nat),
            decreases width - i,
        {
            proof {
                lemma_chunk_value_bound(scalar@, start as nat, i as nat);
                lemma_u64_pow2_no_overflow(i as nat);
                lemma_u64_shl_is_mul(1, i as u64);
                lemma_pow2_unfold((i + 1) as nat);
                lemma_u64_pow2_no_overflow((i + 1) as nat);
            }
            if start + i < scalar.len() && scalar[start + i] {
                inner = inner + (1u64 << (i as u64));
            }
            i = i + 1;
        }
        proof {
            lemma_chunk_value_bound(scalar@, start as nat, width as nat);
            assert(table.rows_view()[k as int] == table_row(table.base, n, w, k as nat));
            assert(table.rows_view()[k as int] == table.rows@[k as int]@);
            assert(table.digit(scalar@, k as nat) == inner);
        }
        let row_len: usize = table.rows[k].len();
        assert(inner < row_len);
        acc = acc.combine(&table.rows[k][inner as usize]);
        k = k + 1;
    }
    acc
}

/// Evaluates each scalar independently against one shared table.
pub fn batch_evaluate<G: WindowGroup>(table: &WindowTable<G>, scalars: &Vec<Vec<bool>>) -> (r: Vec<G>)
    requires
        table.wf(),
    ensures
        r@.len() == scalars@.len(),
        forall|i: int| 0 <= i < r@.len() ==> #[trigger] r@[i] == table.eval(scalars@[i]@),
        forall|i: int|
            0 <= i < r@.len() ==> #[trigger] r@[i] == fixed_base_eval(
                table.base,
                table.scalar_bits as nat,
                table.window as nat,
                scalars@[i]@,
            ),
{
    let mut out: Vec<G> = Vec::new();
    let mut i: usize = 0;
    while i < scalars.len()
        invariant
            table.wf(),
            0 <= i <= scalars@.len(),
            out@.len() == i,
            forall|j: int| 0 <= j < i ==> #[trigger] out@[j] == table.eval(scalars@[j]@),
            forall|j: int|
                0 <= j < i ==> #[trigger] out@[j] == fixed_base_eval(
                    table.base,
                    table.scalar_bits as nat,
                    table.window as nat,
                    scalars@[j]@,
                ),
        decreases scalars@.len() - i,
    {
        let e = evaluate(table, &scalars[i]);
        out.push(e);
        i = i + 1;
    }
    out
}

proof fn law_refl<G: WindowGroup>(a: G)
    requires
        group_laws::<G>(),
    ensures
        G::equiv(a, a),
{
    reveal(group_laws);
}

proof fn law_symm<G: WindowGroup>(a: G, b: G)
    requires
        group_laws::<G>(),
        G::equiv(a, b),
    ensures
        G::equiv(b, a),
{
    reveal(group_laws);
}

proof fn law_trans<G: WindowGroup>(a: G, b: G, c: G)
    requires
        group_laws::<G>(),
        G::equiv(a, b),
        G::equiv(b, c),
    ensures
        G::equiv(a, c),
{
    reveal(group_laws);
}

proof fn law_cong<G: WindowGroup>(a: G, a2: G, b: G, b2: G)
    requires
        group_laws::<G>(),
        G::equiv(a, a2),
        G::equiv(b, b2),
    ensures
        G::equiv(G::op(a, b), G::op(a2, b2)),
{
    reveal(group_laws);
}

proof fn law_assoc<G: WindowGroup>(a: G, b: G, c: G)
    requires
        group_laws::<G>(),
    ensures
        G::equiv(G::op(G::op(a, b), c), G::op(a, G::op(b, c))),
{
    reveal(group_laws);
}

proof fn law_comm<G: WindowGroup>(a: G, b: G)
    requires
        group_laws::<G>(),
    ensures
        G::equiv(G::op(a, b), G::op(b, a)),
{
    reveal(group_laws);
}

proof fn law_unit<G: WindowGroup>(a: G)
    requires
        group_laws::<G>(),
    ensures
        G::equiv(G::op(G::unit(), a), a),
{
    reveal(group_laws);
}

proof fn law_twice<G: WindowGroup>(a: G)
    requires
        group_laws::<G>(),
    ensures
        G::equiv(G::twice(a), G::op(a, a)),
{
    reveal(group_laws);
}

proof fn lemma_naive_adds<G: WindowGroup>(b: G, m: nat, n: nat)
    requires
        group_laws::<G>(),
    ensures
        G::equiv(naive(b, m + n), G::op(naive(b, m), naive(b, n))),
    decreases n,
{
    let x = naive(b, m);
    if n == 0 {
        law_comm(x, G::unit());
        law_unit(x);
        law_trans(G::op(x, G::unit()), G::op(G::unit(), x), x);
        law_symm(G::op(x, G::unit()), x);
        assert(naive(b, m + n) == x);
    } else {
        let y = naive(b, (n - 1) as nat);
        let prev = naive(b, (m + n - 1) as nat);
        lemma_naive_adds(b, m, (n - 1) as nat);
        assert(m + (n - 1) as nat == (m + n - 1) as nat);
        law_refl(b);
        law_cong(prev, G::op(x, y), b, b);
        law_assoc(x, y, b);
        law_trans(G::op(prev, b), G::op(G::op(x, y), b), G::op(x, G::op(y, b)));
        assert(naive(b, m + n) == G::op(prev, b));
    }
}

proof fn lemma_naive_cong<G: WindowGroup>(b: G, b2: G, j: nat)
    requires
        group_laws::<G>(),
        G::equiv(b, b2),
    ensures
        G::equiv(naive(b, j), naive(b2, j)),
    decreases j,
{
    if j == 0 {
        law_refl(G::unit());
    } else {
        lemma_naive_cong(b, b2, (j - 1) as nat);
        law_cong(naive(b, (j - 1) as nat), naive(b2, (j - 1) as nat), b, b2);
    }
}

proof fn lemma_doubled_is_naive<G: WindowGroup>(b: G, n: nat)
    requires
        group_laws::<G>(),
    ensures
        G::equiv(doubled(b, n), naive(b, pow2(n))),
    decreases n,
{
    if n == 0 {
        vstd::arithmetic::power2::lemma2_to64();
        assert(naive(b, 1) == G::op(naive(b, 0), b));
        law_unit(b);
        law_symm(G::op(G::unit(), b), b);
    } else {
        let d = doubled(b, (n - 1) as nat);
        let p = pow2((n - 1) as nat);
        let np = naive(b, p);
        lemma_doubled_is_naive(b, (n - 1) as nat);
        lemma_pow2_unfold(n);
        law_twice(d);
        law_cong(d, np, d, np);
        law_trans(G::twice(d), G::op(d, d), G::op(np, np));
        lemma_naive_adds(b, p, p);
        law_symm(naive(b, p + p), G::op(np, np));
        law_trans(G::twice(d), G::op(np, np), naive(b, p + p));
        assert(p + p == pow2(n));
    }
}

proof fn lemma_naive_of_naive<G: WindowGroup>(b: G, p: nat, j: nat)
    requires
        group_laws::<G>(),
    ensures
        G::equiv(naive(naive(b, p), j), naive(b, p * j)),
    decreases j,
{
    let x = naive(b, p);
    if j == 0 {
        assert(p * 0 == 0);
        law_refl(G::unit());
    } else {
        let j1 = (j - 1) as nat;
        lemma_naive_of_naive(b, p, j1);
        law_refl(x);
        law_cong(naive(x, j1), naive(b, p * j1), x, x);
        lemma_naive_adds(b, p * j1, p);
        law_symm(naive(b, p * j1 + p), G::op(naive(b, p * j1), x));
        law_trans(
            G::op(naive(x, j1), x),
            G::op(naive(b, p * j1), x),
            naive(b, p * j1 + p),
        );
        assert(p * j1 + p == p * j) by (nonlinear_arith)
            requires
                j1 + 1 == j,
        ;
    }
}

proof fn lemma_chunk_split(s: Seq<bool>, a: nat, l: nat)
    ensures
        chunk_value(s, 0, a + l) == chunk_value(s, 0, a) + pow2(a) * chunk_value(s, a, l),
    decreases l,
{
    if l > 0 {
        let l1 = (l - 1) as nat;
        lemma_chunk_split(s, a, l1);
        lemma_pow2_adds(a, l1);
        let c = chunk_value(s, a, l1);
        let bit = bit_at(s, (a + l1) as int);
        let t: nat = if bit { pow2(l1) } else { 0 };
        let tt: nat = if bit { pow2(a + l1) } else { 0 };
        assert(chunk_value(s, a, l) == c + t);
        assert(chunk_value(s, 0, a + l) == chunk_value(s, 0, a + l1) + tt);
        assert(tt == pow2(a) * t);
        assert(pow2(a) * (c + t) == pow2(a) * c + pow2(a) * t) by (nonlinear_arith);
        assert(chunk_value(s, 0, a + l1) == chunk_value(s, 0, a) + pow2(a) * c);
    } else {
        assert(chunk_value(s, a, 0) == 0);
        assert(pow2(a) * 0 == 0) by (nonlinear_arith);
        assert(a + l == a);
    }
}

#[verifier::rlimit(50)]
proof fn lemma_windowed<G: WindowGroup>(b: G, n: nat, w: nat, s: Seq<bool>, k: nat)
    requires
        group_laws::<G>(),
        1 <= w,
        1 <= n,
        k <= outer_count(n, w),
    ensures
        G::equiv(
            windowed(table_rows(b, n, w), n, w, s, k),
            naive(b, bits_value(s, if k < outer_count(n, w) { k * w } else { n })),
        ),
    decreases k,
{
    let rows = table_rows(b, n, w);
    lemma_outer_count(n, w);
    if k == 0 {
        assert(bits_value(s, 0) == 0);
        law_refl(G::unit());
    } else {
        let k1 = (k - 1) as nat;
        lemma_windowed(b, n, w, s, k1);
        let d = digit(s, n, w, k1);
        let cw = chunk_width(n, w, k1);
        lemma_chunk_value_bound(s, k1 * w, cw);
        assert(rows[k1 as int] == table_row(b, n, w, k1));
        let entry = rows[k1 as int][d as int];
        let p = pow2(k1 * w);
        assert(entry == naive(doubled(b, k1 * w), d));
        lemma_doubled_is_naive(b, k1 * w);
        lemma_naive_cong(doubled(b, k1 * w), naive(b, p), d);
        lemma_naive_of_naive(b, p, d);
        law_trans(entry, naive(naive(b, p), d), naive(b, p * d));
        let lo = bits_value(s, k1 * w);
        let prev = windowed(rows, n, w, s, k1);
        assert(windowed(rows, n, w, s, k) == G::op(prev, entry));
        law_cong(prev, naive(b, lo), entry, naive(b, p * d));
        lemma_naive_adds(b, lo, p * d);
        law_symm(naive(b, lo + p * d), G::op(naive(b, lo), naive(b, p * d)));
        law_trans(G::op(prev, entry), G::op(naive(b, lo), naive(b, p * d)), naive(b, lo + p * d));
        lemma_chunk_split(s, k1 * w, cw);
        if k < outer_count(n, w) {
            assert(k1 * w + w == k * w) by (nonlinear_arith)
                requires
                    k1 + 1 == k,
            ;
        } else {
            assert(k1 * w + cw == n);
        }
    }
}

/// Windowed evaluation agrees with the naive method: in any group whose
/// operations meet the group laws (up to `equiv`, equal representation of
/// one element), the windowed evaluation of a scalar against the table for
/// `base` stands for the same element as `base` combined with itself as many
/// times as the scalar's value, taken to `n` bits (the identity for zero).
pub proof fn lemma_evaluate_matches_naive<G: WindowGroup>(base: G, n: nat, w: nat, s: Seq<bool>)
    requires
        group_laws::<G>(),
        1 <= w,
        1 <= n,
    ensures
        G::equiv(fixed_base_eval(base, n, w, s), naive(base, bits_value(s, n))),
{
    lemma_windowed(base, n, w, s, outer_count(n, w));
}

} // verus!
