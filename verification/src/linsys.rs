//! Structure of the COSMO KKT system
//!
//! ```text
//! K = [ P + sigma I    A'      ]
//!     [ A             -I / rho ]
//! ```
//!
//! of which the upper triangle is assembled as triplets. This module decides
//! the triplet order and where each value comes from; the values themselves
//! (sigma, the entries of P and A, -1/rho) are filled in by the numerical
//! factorisation layer.

use vstd::prelude::*;
use crate::algebra::CscPattern;

verus! {

/// Where the value of one KKT triplet comes from.
#[derive(Clone, Copy, Debug, PartialEq, Eq, Structural)]
pub enum KktSource {
    /// The proximal term sigma on diagonal entry `c` of the P block.
    Sigma(usize),
    /// The stored entry of P at position `p`.
    P(usize),
    /// The stored entry of A at position `p` (placed transposed, in the A' block).
    A(usize),
    /// The entry -1/rho[i] on diagonal `n + i`.
    RhoDiag(usize),
}

/// One triplet (row, column, source) of the upper triangle of K.
#[derive(Clone, Copy, Debug, PartialEq, Eq, Structural)]
pub struct KktEntry {
    pub row: usize,
    pub col: usize,
    pub src: KktSource,
}

/// The P-block triplets of column `c` for positions `colptr[c] .. p` of P,
/// keeping only upper-triangular entries.
pub open spec fn p_col_upto(pp: CscPattern, c: int, p: int) -> Seq<KktEntry>
    decreases p,
{
    if p <= pp.colptr@[c] || p <= 0 {
        Seq::empty()
    } else {
        let prev = p_col_upto(pp, c, p - 1);
        let r = pp.rowval@[p - 1];
        if r <= c {
            prev.push(KktEntry { row: r, col: c as usize, src: KktSource::P((p - 1) as usize) })
        } else {
            prev
        }
    }
}

/// The P-block triplets of the first `c` columns: for each column the sigma
/// diagonal, then the upper-triangular entries of P in storage order.
pub open spec fn kkt_p_part(pp: CscPattern, c: int) -> Seq<KktEntry>
    decreases c,
{
    if c <= 0 {
        Seq::empty()
    } else {
        kkt_p_part(pp, c - 1).push(
            KktEntry { row: (c - 1) as usize, col: (c - 1) as usize, src: KktSource::Sigma((c - 1) as usize) },
        ) + p_col_upto(pp, c - 1, pp.colptr@[c] as int)
    }
}

/// The A'-block triplets of column `c` of A for positions `colptr[c] .. p`:
/// entry (r, c) of A lands at (c, n + r) of K.
pub open spec fn a_col_upto(aa: CscPattern, n: int, c: int, p: int) -> Seq<KktEntry>
    decreases p,
{
    if p <= aa.colptr@[c] || p <= 0 {
        Seq::empty()
    } else {
        a_col_upto(aa, n, c, p - 1).push(
            KktEntry { row: c as usize, col: (n + aa.rowval@[p - 1]) as usize, src: KktSource::A((p - 1) as usize) },
        )
    }
}

/// The A'-block triplets of the first `c` columns of A.
pub open spec fn kkt_a_part(aa: CscPattern, n: int, c: int) -> Seq<KktEntry>
    decreases c,
{
    if c <= 0 {
        Seq::empty()
    } else {
        kkt_a_part(aa, n, c - 1) + a_col_upto(aa, n, c - 1, aa.colptr@[c] as int)
    }
}

/// The first `i` diagonal triplets of the -I/rho block.
pub open spec fn kkt_rho_part(n: int, i: int) -> Seq<KktEntry>
    decreases i,
{
    if i <= 0 {
        Seq::empty()
    } else {
        kkt_rho_part(n, i - 1).push(
            KktEntry { row: (n + i - 1) as usize, col: (n + i - 1) as usize, src: KktSource::RhoDiag((i - 1) as usize) },
        )
    }
}

/// All triplets of the upper triangle of K, in assembly order.
pub open spec fn kkt_pattern(pp: CscPattern, aa: CscPattern) -> Seq<KktEntry> {
    kkt_p_part(pp, pp.n as int) + kkt_a_part(aa, pp.n as int, aa.n as int) + kkt_rho_part(pp.n as int, aa.m as int)
}

/// The triplets (row, column, source) of the upper triangle of
/// `K = [P + sigma I, A'; A, -I/rho]`, for `P` stored as its upper triangle
/// (entries below the diagonal are skipped) and `A` of size `m`-by-`n`.
pub fn assemble_kkt_upper(pp: &CscPattern, aa: &CscPattern) -> (t: Vec<KktEntry>)
    requires
        pp.wf(),
        aa.wf(),
        pp.m == pp.n,
        aa.n == pp.n,
        pp.n + aa.m <= usize::MAX,
    ensures
        t@ == kkt_pattern(*pp, *aa),
        forall|c: int, p: int|
            #![trigger aa.colptr@[c], aa.rowval@[p]]
            0 <= c < aa.n && aa.colptr@[c] <= p < aa.colptr@[c + 1] ==> t@.contains(
                KktEntry { row: c as usize, col: (pp.n + aa.rowval@[p]) as usize, src: KktSource::A(p as usize) },
            ),
        forall|k: int|
            0 <= k < t@.len() ==> ((#[trigger] t@[k]).src matches KktSource::A(p) ==> {
                &&& p < aa.nnz()
                &&& t@[k].row < aa.n
                &&& aa.colptr@[t@[k].row as int] <= p < aa.colptr@[t@[k].row + 1]
                &&& t@[k].col == pp.n + aa.rowval@[p as int]
            }),
        forall|c: int|
            0 <= c < pp.n ==> #[trigger] t@.contains(
                KktEntry { row: c as usize, col: c as usize, src: KktSource::Sigma(c as usize) },
            ),
        forall|c: int, q: int|
            #![trigger pp.colptr@[c], pp.rowval@[q]]
            0 <= c < pp.n && pp.colptr@[c] <= q < pp.colptr@[c + 1] && pp.rowval@[q] <= c ==> t@.contains(
                KktEntry { row: pp.rowval@[q], col: c as usize, src: KktSource::P(q as usize) },
            ),
{
    let n = pp.n;
    let m = aa.m;
    let mut t: Vec<KktEntry> = Vec::new();
    let mut col: usize = 0;
    while col < n
        invariant
            pp.wf(),
            n == pp.n,
            col <= n,
            t@ == kkt_p_part(*pp, col as int),
        decreases n - col,
    {
        t.push(KktEntry { row: col, col: col, src: KktSource::Sigma(col) });
        let ghost base = t@;
        let mut p = pp.colptr[col];
        let end = pp.colptr[col + 1];
        while p < end
            invariant
                pp.wf(),
                n == pp.n,
                col < n,
                end == pp.colptr@[col + 1],
                pp.colptr@[col as int] <= p <= end,
                t@ == base + p_col_upto(*pp, col as int, p as int),
            decreases end - p,
        {
            let r = pp.rowval[p];
            if r <= col {
                t.push(KktEntry { row: r, col: col, src: KktSource::P(p) });
            }
            assert(t@ =~= base + p_col_upto(*pp, col as int, p + 1));
            p = p + 1;
        }
        col = col + 1;
    }
    let ghost part1 = t@;
    let mut col: usize = 0;
    while col < n
        invariant
            aa.wf(),
            n == aa.n,
            n + aa.m <= usize::MAX,
            col <= n,
            t@ == part1 + kkt_a_part(*aa, n as int, col as int),
        decreases n - col,
    {
        let ghost base = t@;
        let mut p = aa.colptr[col];
        let end = aa.colptr[col + 1];
        while p < end
            invariant
                aa.wf(),
                n == aa.n,
                n + aa.m <= usize::MAX,
                col < n,
                end == aa.colptr@[col + 1],
                aa.colptr@[col as int] <= p <= end,
                t@ == base + a_col_upto(*aa, n as int, col as int, p as int),
            decreases end - p,
        {
            let r = aa.rowval[p];
            t.push(KktEntry { row: col, col: n + r, src: KktSource::A(p) });
            assert(t@ =~= base + a_col_upto(*aa, n as int, col as int, p + 1));
            p = p + 1;
        }
        assert(t@ =~= part1 + kkt_a_part(*aa, n as int, col + 1));
        col = col + 1;
    }
    let ghost part2 = t@;
    let mut i: usize = 0;
    while i < m
        invariant
            n + m <= usize::MAX,
            i <= m,
            t@ == part2 + kkt_rho_part(n as int, i as int),
        decreases m - i,
    {
        t.push(KktEntry { row: n + i, col: n + i, src: KktSource::RhoDiag(i) });
        assert(t@ =~= part2 + kkt_rho_part(n as int, i + 1));
        i = i + 1;
    }
    proof {
        lemma_kkt_a_entries_placed(*pp, *aa);
        assert forall|c: int| 0 <= c < pp.n implies #[trigger] t@.contains(
            KktEntry { row: c as usize, col: c as usize, src: KktSource::Sigma(c as usize) },
        ) by {
            lemma_kkt_p_block_complete(*pp, *aa, c);
        }
        assert forall|c: int, q: int|
            #![trigger pp.colptr@[c], pp.rowval@[q]]
            0 <= c < pp.n && pp.colptr@[c] <= q < pp.colptr@[c + 1] && pp.rowval@[q] <= c implies t@.contains(
                KktEntry { row: pp.rowval@[q], col: c as usize, src: KktSource::P(q as usize) },
            ) by {
            lemma_kkt_p_block_complete(*pp, *aa, c);
        }
    }
    t
}

/// Triplet `e` lies in the upper triangle of an `(n + m)`-square matrix and
/// names a stored entry that exists: a P position below `nnz_p`, an A
/// position below `nnz_a`, a sigma diagonal below `n`, a rho row below `m`.
pub open spec fn entry_ok(e: KktEntry, n: int, m: int, nnz_p: int, nnz_a: int) -> bool {
    &&& e.row <= e.col < n + m
    &&& match e.src {
        KktSource::Sigma(c) => c < n && e.row == c && e.col == c,
        KktSource::P(p) => p < nnz_p && e.col < n,
        KktSource::A(p) => p < nnz_a && e.row < n && n <= e.col,
        KktSource::RhoDiag(i) => i < m && e.row == n + i && e.col == n + i,
    }
}

proof fn lemma_p_col_ok(pp: CscPattern, c: int, p: int, m: int)
    requires
        pp.wf(),
        0 <= c < pp.n,
        p <= pp.colptr@[c + 1],
        m >= 0,
    ensures
        forall|k: int| 0 <= k < p_col_upto(pp, c, p).len() ==> entry_ok(
            #[trigger] p_col_upto(pp, c, p)[k], pp.n as int, m, pp.nnz() as int, 0),
    decreases p,
{
    if !(p <= pp.colptr@[c] || p <= 0) {
        lemma_p_col_ok(pp, c, p - 1, m);
        assert(pp.colptr@[c + 1] <= pp.colptr@[pp.n as int]);
        let prev = p_col_upto(pp, c, p - 1);
        assert forall|k: int| 0 <= k < p_col_upto(pp, c, p).len() implies entry_ok(
            #[trigger] p_col_upto(pp, c, p)[k], pp.n as int, m, pp.nnz() as int, 0) by {
            if k < prev.len() {
                assert(p_col_upto(pp, c, p)[k] == prev[k]);
            }
        }
    }
}

proof fn lemma_p_part_ok(pp: CscPattern, c: int, m: int, nnz_a: int)
    requires
        pp.wf(),
        0 <= c <= pp.n,
        m >= 0,
        nnz_a >= 0,
    ensures
        forall|k: int| 0 <= k < kkt_p_part(pp, c).len() ==> entry_ok(
            #[trigger] kkt_p_part(pp, c)[k], pp.n as int, m, pp.nnz() as int, nnz_a),
    decreases c,
{
    if c > 0 {
        lemma_p_part_ok(pp, c - 1, m, nnz_a);
        lemma_p_col_ok(pp, c - 1, pp.colptr@[c] as int, m);
        let head = kkt_p_part(pp, c - 1).push(
            KktEntry { row: (c - 1) as usize, col: (c - 1) as usize, src: KktSource::Sigma((c - 1) as usize) },
        );
        let tail = p_col_upto(pp, c - 1, pp.colptr@[c] as int);
        assert forall|k: int| 0 <= k < kkt_p_part(pp, c).len() implies entry_ok(
            #[trigger] kkt_p_part(pp, c)[k], pp.n as int, m, pp.nnz() as int, nnz_a) by {
            if k < head.len() {
                assert(kkt_p_part(pp, c)[k] == head[k]);
                if k < head.len() - 1 {
                    assert(head[k] == kkt_p_part(pp, c - 1)[k]);
                }
            } else {
                assert(kkt_p_part(pp, c)[k] == tail[k - head.len()]);
                assert(entry_ok(tail[k - head.len()], pp.n as int, m, pp.nnz() as int, 0));
            }
        }
    }
}

proof fn lemma_a_col_ok(aa: CscPattern, n: int, c: int, p: int, nnz_p: int)
    requires
        aa.wf(),
        n + aa.m <= usize::MAX,
        n == aa.n,
        0 <= c < aa.n,
        p <= aa.colptr@[c + 1],
        nnz_p >= 0,
    ensures
        forall|k: int| 0 <= k < a_col_upto(aa, n, c, p).len() ==> entry_ok(
            #[trigger] a_col_upto(aa, n, c, p)[k], n, aa.m as int, nnz_p, aa.nnz() as int),
    decreases p,
{
    if !(p <= aa.colptr@[c] || p <= 0) {
        lemma_a_col_ok(aa, n, c, p - 1, nnz_p);
        assert(aa.colptr@[c + 1] <= aa.colptr@[aa.n as int]);
        assert(aa.rowval@[p - 1] < aa.m);
        let prev = a_col_upto(aa, n, c, p - 1);
        assert forall|k: int| 0 <= k < a_col_upto(aa, n, c, p).len() implies entry_ok(
            #[trigger] a_col_upto(aa, n, c, p)[k], n, aa.m as int, nnz_p, aa.nnz() as int) by {
            if k < prev.len() {
                assert(a_col_upto(aa, n, c, p)[k] == prev[k]);
            }
        }
    }
}

proof fn lemma_a_part_ok(aa: CscPattern, n: int, c: int, nnz_p: int)
    requires
        aa.wf(),
        n + aa.m <= usize::MAX,
        n == aa.n,
        0 <= c <= aa.n,
        nnz_p >= 0,
    ensures
        forall|k: int| 0 <= k < kkt_a_part(aa, n, c).len() ==> entry_ok(
            #[trigger] kkt_a_part(aa, n, c)[k], n, aa.m as int, nnz_p, aa.nnz() as int),
    decreases c,
{
    if c > 0 {
        lemma_a_part_ok(aa, n, c - 1, nnz_p);
        lemma_a_col_ok(aa, n, c - 1, aa.colptr@[c] as int, nnz_p);
        let head = kkt_a_part(aa, n, c - 1);
        let tail = a_col_upto(aa, n, c - 1, aa.colptr@[c] as int);
        assert forall|k: int| 0 <= k < kkt_a_part(aa, n, c).len() implies entry_ok(
            #[trigger] kkt_a_part(aa, n, c)[k], n, aa.m as int, nnz_p, aa.nnz() as int) by {
            if k < head.len() {
                assert(kkt_a_part(aa, n, c)[k] == head[k]);
            } else {
                assert(kkt_a_part(aa, n, c)[k] == tail[k - head.len()]);
            }
        }
    }
}

proof fn lemma_rho_part(n: int, i: int)
    requires
        n >= 0,
        n + i <= usize::MAX,
        i >= 0,
    ensures
        kkt_rho_part(n, i).len() == i,
        forall|k: int| 0 <= k < i ==> #[trigger] kkt_rho_part(n, i)[k] == (KktEntry {
            row: (n + k) as usize, col: (n + k) as usize, src: KktSource::RhoDiag(k as usize),
        }),
    decreases i,
{
    if i > 0 {
        lemma_rho_part(n, i - 1);
        assert forall|k: int| 0 <= k < i implies #[trigger] kkt_rho_part(n, i)[k] == (KktEntry {
            row: (n + k) as usize, col: (n + k) as usize, src: KktSource::RhoDiag(k as usize),
        }) by {
            if k < i - 1 {
                assert(kkt_rho_part(n, i)[k] == kkt_rho_part(n, i - 1)[k]);
            }
        }
    }
}

/// The assembled KKT triplets all lie in the upper triangle of the
/// `(n + m)`-square matrix and each names an existing stored entry; the last
/// `m` triplets are the diagonal `-1/rho` entries `(n + i, n + i)`, in order.
pub proof fn lemma_kkt_upper_triangular(pp: CscPattern, aa: CscPattern)
    requires
        pp.wf(),
        aa.wf(),
        pp.m == pp.n,
        aa.n == pp.n,
        pp.n + aa.m <= usize::MAX,
    ensures
        forall|k: int| 0 <= k < kkt_pattern(pp, aa).len() ==> entry_ok(
            #[trigger] kkt_pattern(pp, aa)[k], pp.n as int, aa.m as int, pp.nnz() as int, aa.nnz() as int),
        kkt_pattern(pp, aa).len() >= aa.m,
        forall|i: int| 0 <= i < aa.m ==> #[trigger] kkt_pattern(pp, aa)[kkt_pattern(pp, aa).len() - aa.m + i]
            == (KktEntry { row: (pp.n + i) as usize, col: (pp.n + i) as usize, src: KktSource::RhoDiag(i as usize) }),
{
    let n = pp.n as int;
    let m = aa.m as int;
    lemma_p_part_ok(pp, n, m, aa.nnz() as int);
    lemma_a_part_ok(aa, n, n, pp.nnz() as int);
    lemma_rho_part(n, m);
    let x = kkt_p_part(pp, n);
    let y = kkt_a_part(aa, n, n);
    let z = kkt_rho_part(n, m);
    let all = kkt_pattern(pp, aa);
    assert(all == x + y + z);
    assert forall|k: int| 0 <= k < all.len() implies entry_ok(
        #[trigger] all[k], n, m, pp.nnz() as int, aa.nnz() as int) by {
        if k < x.len() {
            assert(all[k] == x[k]);
        } else if k < x.len() + y.len() {
            assert(all[k] == y[k - x.len()]);
        } else {
            assert(all[k] == z[k - x.len() - y.len()]);
        }
    }
    assert forall|i: int| 0 <= i < m implies #[trigger] all[all.len() - m + i]
        == (KktEntry { row: (n + i) as usize, col: (n + i) as usize, src: KktSource::RhoDiag(i as usize) }) by {
        assert(all[all.len() - m + i] == z[i]);
    }
}

/// Column `c` of `k` stores only entries on or above the diagonal, with
/// strictly increasing row indices, and among them the diagonal entry.
pub open spec fn column_upper_sorted_with_diag(k: CscPattern, c: int) -> bool {
    &&& forall|p: int| k.colptr@[c] <= p < k.colptr@[c + 1] ==> #[trigger] k.rowval@[p] <= c
    &&& forall|p: int, q: int|
        k.colptr@[c] <= p < q < k.colptr@[c + 1] ==> #[trigger] k.rowval@[p] < #[trigger] k.rowval@[q]
    &&& exists|p: int| k.colptr@[c] <= p < k.colptr@[c + 1] && #[trigger] k.rowval@[p] == c
}

/// In such a column the last stored entry is the diagonal one.
pub proof fn lemma_last_entry_is_diagonal(k: CscPattern, c: int)
    requires
        k.wf(),
        0 <= c < k.n,
        column_upper_sorted_with_diag(k, c),
    ensures
        k.colptr@[c] < k.colptr@[c + 1],
        k.rowval@[k.colptr@[c + 1] - 1] == c,
{
    let p = choose|p: int| k.colptr@[c] <= p < k.colptr@[c + 1] && #[trigger] k.rowval@[p] == c;
    let q = k.colptr@[c + 1] - 1;
    if p < q {
        assert(k.rowval@[p] < k.rowval@[q]);
        assert(k.rowval@[q] <= c);
    }
}

/// Positions, in the stored entries of the assembled K, of the `-1/rho`
/// diagonal entries: the last entry of each column `n + i`.
pub fn rho_diag_indices(k: &CscPattern, n: usize, m: usize) -> (idx: Vec<usize>)
    requires
        k.wf(),
        n + m <= k.n,
        forall|i: int| 0 <= i < m ==> #[trigger] k.colptr@[n + i + 1] >= 1,
    ensures
        idx@.len() == m,
        forall|i: int| 0 <= i < m ==> #[trigger] idx@[i] == k.colptr@[n + i + 1] - 1,
        forall|i: int|
            0 <= i < m && column_upper_sorted_with_diag(*k, n + i) ==> #[trigger] k.rowval@[idx@[i] as int]
                == n + i,
{
    let mut idx: Vec<usize> = Vec::with_capacity(m);
    let mut i: usize = 0;
    while i < m
        invariant
            k.wf(),
            n + m <= k.n,
            forall|i: int| 0 <= i < m ==> #[trigger] k.colptr@[n + i + 1] >= 1,
            i <= m,
            idx@.len() == i,
            forall|j: int| 0 <= j < i ==> #[trigger] idx@[j] == k.colptr@[n + j + 1] - 1,
        decreases m - i,
    {
        let col = n + i;
        assert(k.colptr@[n + i + 1] >= 1);
        idx.push(k.colptr[col + 1] - 1);
        i = i + 1;
    }
    proof {
        assert forall|i: int|
            0 <= i < m && column_upper_sorted_with_diag(*k, n + i) implies #[trigger] k.rowval@[idx@[i] as int]
                == n + i by {
            lemma_last_entry_is_diagonal(*k, n + i);
        }
    }
    idx
}

/// Whether P (`p_m`-by-`p_n`), A (`a_m`-by-`a_n`) and rho (length
/// `rho_len`) fit one KKT system: P square of size `n = p_n`, A with `n`
/// columns, one rho per row of A.
pub fn kkt_dims_ok(p_m: usize, p_n: usize, a_m: usize, a_n: usize, rho_len: usize) -> (r: bool)
    ensures
        r <==> (p_m == p_n && a_n == p_n && rho_len == a_m),
{
    p_m == p_n && a_n == p_n && rho_len == a_m
}

/// Expected signs of the pivots of the quasi-definite K: `+1` for the `n`
/// primal rows, `-1` for the `m` constraint rows.
pub fn kkt_dsigns(n: usize, m: usize) -> (d: Vec<i8>)
    requires
        n + m <= usize::MAX,
    ensures
        d@.len() == n + m,
        forall|i: int| 0 <= i < n ==> d@[i] == 1,
        forall|i: int| n <= i < n + m ==> d@[i] == -1,
{
    let mut d: Vec<i8> = Vec::with_capacity(n + m);
    let mut i: usize = 0;
    while i < n + m
        invariant
            n + m <= usize::MAX,
            i <= n + m,
            d@.len() == i,
            forall|j: int| 0 <= j < i && j < n ==> d@[j] == 1,
            forall|j: int| n <= j < i ==> d@[j] == -1,
        decreases n + m - i,
    {
        if i < n {
            d.push(1);
        } else {
            d.push(-1);
        }
        i = i + 1;
    }
    d
}

proof fn lemma_a_col_exact(aa: CscPattern, n: int, c: int, p: int)
    requires
        aa.wf(),
        0 <= c < aa.n,
        aa.colptr@[c] <= p <= aa.colptr@[c + 1],
    ensures
        a_col_upto(aa, n, c, p).len() == p - aa.colptr@[c],
        forall|k: int| 0 <= k < p - aa.colptr@[c] ==> #[trigger] a_col_upto(aa, n, c, p)[k] == (KktEntry {
            row: c as usize,
            col: (n + aa.rowval@[aa.colptr@[c] + k]) as usize,
            src: KktSource::A((aa.colptr@[c] + k) as usize),
        }),
    decreases p,
{
    if !(p <= aa.colptr@[c] || p <= 0) {
        lemma_a_col_exact(aa, n, c, p - 1);
        let prev = a_col_upto(aa, n, c, p - 1);
        assert forall|k: int| 0 <= k < p - aa.colptr@[c] implies #[trigger] a_col_upto(aa, n, c, p)[k] == (KktEntry {
            row: c as usize,
            col: (n + aa.rowval@[aa.colptr@[c] + k]) as usize,
            src: KktSource::A((aa.colptr@[c] + k) as usize),
        }) by {
            if k < prev.len() {
                assert(a_col_upto(aa, n, c, p)[k] == prev[k]);
            }
        }
    }
}

/// Every stored entry of A is placed exactly once, in storage order, at the
/// transposed place: the A' block of K consists of `nnz(A)` triplets, and
/// the `q`-th names position `q` of A, lies in the row of the column `c`
/// that stores position `q` (`colptr[c] <= q < colptr[c + 1]`) and in
/// column `n + rowval[q]`.
pub proof fn lemma_kkt_a_block_complete(aa: CscPattern, n: int, c: int)
    requires
        aa.wf(),
        0 <= c <= aa.n,
    ensures
        kkt_a_part(aa, n, c).len() == aa.colptr@[c],
        forall|q: int| 0 <= q < aa.colptr@[c] ==> (#[trigger] kkt_a_part(aa, n, c)[q]).src == KktSource::A(q as usize),
        forall|q: int|
            0 <= q < aa.colptr@[c] ==> {
                let e = #[trigger] kkt_a_part(aa, n, c)[q];
                &&& e.col == (n + aa.rowval@[q]) as usize
                &&& e.row < c
                &&& aa.colptr@[e.row as int] <= q < aa.colptr@[e.row + 1]
            },
    decreases c,
{
    if c > 0 {
        lemma_kkt_a_block_complete(aa, n, c - 1);
        assert(aa.colptr@[c - 1] <= aa.colptr@[c]);
        lemma_a_col_exact(aa, n, c - 1, aa.colptr@[c] as int);
        let head = kkt_a_part(aa, n, c - 1);
        let tail = a_col_upto(aa, n, c - 1, aa.colptr@[c] as int);
        assert forall|q: int| 0 <= q < aa.colptr@[c] implies {
            let e = #[trigger] kkt_a_part(aa, n, c)[q];
            &&& e.src == KktSource::A(q as usize)
            &&& e.col == (n + aa.rowval@[q]) as usize
            &&& e.row < c
            &&& aa.colptr@[e.row as int] <= q < aa.colptr@[e.row + 1]
        } by {
            if q < head.len() {
                assert(kkt_a_part(aa, n, c)[q] == head[q]);
            } else {
                assert(kkt_a_part(aa, n, c)[q] == tail[q - head.len()]);
            }
        }
    } else {
        assert(aa.colptr@[0] == 0);
    }
}

/// Entry `(r, c)` of A, stored at position `p`, is placed at row `c`, column
/// `n + r` of K; and every triplet of K that names an entry of A names a
/// stored position `p`, lies in the row of the column that stores `p` and in
/// column `n + rowval[p]`.
pub proof fn lemma_kkt_a_entries_placed(pp: CscPattern, aa: CscPattern)
    requires
        pp.wf(),
        aa.wf(),
        pp.m == pp.n,
        aa.n == pp.n,
        pp.n + aa.m <= usize::MAX,
    ensures
        forall|c: int, p: int|
            #![trigger aa.colptr@[c], aa.rowval@[p]]
            0 <= c < aa.n && aa.colptr@[c] <= p < aa.colptr@[c + 1] ==> kkt_pattern(pp, aa).contains(
                KktEntry { row: c as usize, col: (pp.n + aa.rowval@[p]) as usize, src: KktSource::A(p as usize) },
            ),
        forall|k: int|
            0 <= k < kkt_pattern(pp, aa).len() ==> ((#[trigger] kkt_pattern(pp, aa)[k]).src matches KktSource::A(p) ==> {
                let e = kkt_pattern(pp, aa)[k];
                &&& p < aa.nnz()
                &&& e.row < aa.n
                &&& aa.colptr@[e.row as int] <= p < aa.colptr@[e.row + 1]
                &&& e.col == pp.n + aa.rowval@[p as int]
            }),
{
    let n = pp.n as int;
    let m = aa.m as int;
    let x = kkt_p_part(pp, n);
    let y = kkt_a_part(aa, n, n);
    let z = kkt_rho_part(n, m);
    let all = kkt_pattern(pp, aa);
    assert(all == x + y + z);
    lemma_p_part_ok(pp, n, m, 0);
    lemma_rho_part(n, m);
    lemma_kkt_a_block_complete(aa, n, n);
    assert(aa.colptr@[aa.n as int] == aa.rowval@.len());
    assert forall|c: int, p: int|
        #![trigger aa.colptr@[c], aa.rowval@[p]]
        0 <= c < aa.n && aa.colptr@[c] <= p < aa.colptr@[c + 1] implies all.contains(
            KktEntry { row: c as usize, col: (pp.n + aa.rowval@[p]) as usize, src: KktSource::A(p as usize) },
        ) by {
        assert(aa.colptr@[c + 1] <= aa.colptr@[aa.n as int]);
        let e = y[p];
        let r = e.row as int;
        if r < c {
            assert(aa.colptr@[r + 1] <= aa.colptr@[c]);
        } else if r > c {
            assert(aa.colptr@[c + 1] <= aa.colptr@[r]);
        }
        assert(all[x.len() + p] == e);
    }
    assert forall|k: int|
        0 <= k < all.len() implies ((#[trigger] all[k]).src matches KktSource::A(p) ==> {
            let e = all[k];
            &&& p < aa.nnz()
            &&& e.row < aa.n
            &&& aa.colptr@[e.row as int] <= p < aa.colptr@[e.row + 1]
            &&& e.col == pp.n + aa.rowval@[p as int]
        }) by {
        if k < x.len() {
            assert(all[k] == x[k]);
            assert(entry_ok(x[k], n, m, pp.nnz() as int, 0));
        } else if k < x.len() + y.len() {
            assert(all[k] == y[k - x.len()]);
            let q = k - x.len();
            assert(y[q].src == KktSource::A(q as usize));
            assert(aa.rowval@[q] < aa.m);
        } else {
            assert(all[k] == z[k - x.len() - y.len()]);
        }
    }
}

proof fn lemma_p_col_contains(pp: CscPattern, c: int, p: int, q: int)
    requires
        pp.wf(),
        0 <= c < pp.n,
        pp.colptr@[c] <= q < p,
        pp.rowval@[q] <= c,
    ensures
        p_col_upto(pp, c, p).contains(KktEntry { row: pp.rowval@[q], col: c as usize, src: KktSource::P(q as usize) }),
    decreases p,
{
    let e = KktEntry { row: pp.rowval@[q], col: c as usize, src: KktSource::P(q as usize) };
    let prev = p_col_upto(pp, c, p - 1);
    if q < p - 1 {
        lemma_p_col_contains(pp, c, p - 1, q);
        let k = choose|k: int| 0 <= k < prev.len() && #[trigger] prev[k] == e;
        assert(p_col_upto(pp, c, p)[k] == e);
    } else {
        assert(p_col_upto(pp, c, p) == prev.push(e));
        assert(p_col_upto(pp, c, p)[prev.len() as int] == e);
    }
}

proof fn lemma_p_part_contains_sigma(pp: CscPattern, c: int, c2: int)
    requires
        pp.wf(),
        0 <= c2 < c <= pp.n,
    ensures
        kkt_p_part(pp, c).contains(KktEntry { row: c2 as usize, col: c2 as usize, src: KktSource::Sigma(c2 as usize) }),
    decreases c,
{
    let head = kkt_p_part(pp, c - 1).push(
        KktEntry { row: (c - 1) as usize, col: (c - 1) as usize, src: KktSource::Sigma((c - 1) as usize) },
    );
    let tail = p_col_upto(pp, c - 1, pp.colptr@[c] as int);
    assert(kkt_p_part(pp, c) == head + tail);
    let sig = KktEntry { row: c2 as usize, col: c2 as usize, src: KktSource::Sigma(c2 as usize) };
    if c2 < c - 1 {
        lemma_p_part_contains_sigma(pp, c - 1, c2);
        let k = choose|k: int| 0 <= k < kkt_p_part(pp, c - 1).len() && #[trigger] kkt_p_part(pp, c - 1)[k] == sig;
        assert(kkt_p_part(pp, c)[k] == sig);
    } else {
        assert(kkt_p_part(pp, c)[head.len() - 1] == sig);
    }
}

proof fn lemma_p_part_contains_entry(pp: CscPattern, c: int, c2: int, q: int)
    requires
        pp.wf(),
        0 <= c2 < c <= pp.n,
        pp.colptr@[c2] <= q < pp.colptr@[c2 + 1],
        pp.rowval@[q] <= c2,
    ensures
        kkt_p_part(pp, c).contains(KktEntry { row: pp.rowval@[q], col: c2 as usize, src: KktSource::P(q as usize) }),
    decreases c,
{
    let head = kkt_p_part(pp, c - 1).push(
        KktEntry { row: (c - 1) as usize, col: (c - 1) as usize, src: KktSource::Sigma((c - 1) as usize) },
    );
    let tail = p_col_upto(pp, c - 1, pp.colptr@[c] as int);
    assert(kkt_p_part(pp, c) == head + tail);
    let e = KktEntry { row: pp.rowval@[q], col: c2 as usize, src: KktSource::P(q as usize) };
    if c2 < c - 1 {
        lemma_p_part_contains_entry(pp, c - 1, c2, q);
        let k = choose|k: int| 0 <= k < kkt_p_part(pp, c - 1).len() && #[trigger] kkt_p_part(pp, c - 1)[k] == e;
        assert(kkt_p_part(pp, c)[k] == e);
    } else {
        lemma_p_col_contains(pp, c2, pp.colptr@[c] as int, q);
        let k = choose|k: int| 0 <= k < tail.len() && #[trigger] tail[k] == e;
        assert(kkt_p_part(pp, c)[head.len() + k] == e);
    }
}

/// Every column `c` of P contributes its sigma diagonal, and every stored
/// entry of column `c` on or above the diagonal is placed in K at the same
/// row and column.
pub proof fn lemma_kkt_p_block_complete(pp: CscPattern, aa: CscPattern, c: int)
    requires
        pp.wf(),
        0 <= c < pp.n,
    ensures
        kkt_pattern(pp, aa).contains(KktEntry { row: c as usize, col: c as usize, src: KktSource::Sigma(c as usize) }),
        forall|q: int|
            pp.colptr@[c] <= q < pp.colptr@[c + 1] && pp.rowval@[q] <= c ==> #[trigger] kkt_pattern(pp, aa).contains(
                KktEntry { row: pp.rowval@[q], col: c as usize, src: KktSource::P(q as usize) },
            ),
{
    let x = kkt_p_part(pp, pp.n as int);
    let all = kkt_pattern(pp, aa);
    assert(all == x + kkt_a_part(aa, pp.n as int, aa.n as int) + kkt_rho_part(pp.n as int, aa.m as int));
    lemma_p_part_contains_sigma(pp, pp.n as int, c);
    let sig = KktEntry { row: c as usize, col: c as usize, src: KktSource::Sigma(c as usize) };
    let k = choose|k: int| 0 <= k < x.len() && #[trigger] x[k] == sig;
    assert(all[k] == sig);
    assert forall|q: int|
        pp.colptr@[c] <= q < pp.colptr@[c + 1] && pp.rowval@[q] <= c implies #[trigger] all.contains(
            KktEntry { row: pp.rowval@[q], col: c as usize, src: KktSource::P(q as usize) },
        ) by {
        lemma_p_part_contains_entry(pp, pp.n as int, c, q);
        let e = KktEntry { row: pp.rowval@[q], col: c as usize, src: KktSource::P(q as usize) };
        let k2 = choose|k: int| 0 <= k < x.len() && #[trigger] x[k] == e;
        assert(all[k2] == e);
    }
}

} // verus!
