//! Natural cubic-spline fitting over fixed-point samples.
//!
//! One curve interpolates one instance's ordered sample sequence
//! `a[0..=n]` (`n = len - 1`, `n >= 1`). The coefficients solve the
//! standard tridiagonal system for a natural spline (second derivative
//! zero at both endpoints), carried out in milli-unit fixed point with
//! truncating division.

use vstd::prelude::*;

verus! {

use crate::fixed::{
    all_bounded, div_i128, div_trunc, lemma_div_trunc_bound, lemma_div_trunc_denominator, mul_i128,
    seq_int,
};

/// Largest sample magnitude (in milli-units) the fitter accepts; keeps all
/// intermediate coefficient arithmetic inside `i64`/`i128` ranges.
pub const MAX_SAMPLE: i64 = 1_000_000_000_000_000;

/// Magnitude bound on the forward-sweep `z` terms.
pub const Z_BOUND: i64 = 5_000_000_000_000_000;

/// Magnitude bound on the `c` coefficients.
pub const C_BOUND: i64 = 7_000_000_000_000_000;

/// Magnitude bound on the `b` coefficients.
pub const B_BOUND: i64 = 9_000_000_000_000_000;

/// Magnitude bound on the `d` coefficients.
pub const D_BOUND: i64 = 5_000_000_000_000_000;

/// Forward-sweep `u` term of the tridiagonal elimination, in milli-units:
/// `u[0] = 0`, `u[i] = 1 / l[i]` with `l[i] = 4 - u[i-1]`.
pub open spec fn ucoef(i: nat) -> int
    decreases i,
{
    if i == 0 {
        0
    } else {
        div_trunc(1_000_000, 4000 - ucoef((i - 1) as nat))
    }
}

/// Forward-sweep `z` term over samples `s`, in milli-units: `z[0] = 0`,
/// `z[i] = (3*(s[i+1] - s[i]) - 3*(s[i] - s[i-1]) - z[i-1]) / l[i]`.
pub open spec fn zcoef(s: Seq<int>, i: nat) -> int
    decreases i,
{
    if i == 0 {
        0
    } else {
        div_trunc(
            (3 * (s[i as int + 1] - s[i as int]) - 3 * (s[i as int] - s[i as int - 1]) - zcoef(
                s,
                (i - 1) as nat,
            )) * 1000,
            4000 - ucoef((i - 1) as nat),
        )
    }
}

/// Back-substituted second-derivative coefficient: `c[n] = 0`,
/// `c[j] = z[j] - u[j] * c[j+1]`.
pub open spec fn ccoef(s: Seq<int>, n: nat, j: nat) -> int
    decreases n - j,
{
    if j >= n {
        0
    } else {
        zcoef(s, j) - div_trunc(ucoef(j) * ccoef(s, n, (j + 1) as nat), 1000)
    }
}

/// First-derivative coefficient: `b[j] = (s[j+1] - s[j]) - (c[j+1] + 2*c[j]) / 3`.
pub open spec fn bcoef(s: Seq<int>, n: nat, j: nat) -> int {
    s[j as int + 1] - s[j as int] - div_trunc(ccoef(s, n, (j + 1) as nat) + 2 * ccoef(s, n, j), 3)
}

/// Third-derivative coefficient: `d[j] = (c[j+1] - c[j]) / 3`.
pub open spec fn dcoef(s: Seq<int>, n: nat, j: nat) -> int {
    div_trunc(ccoef(s, n, (j + 1) as nat) - ccoef(s, n, j), 3)
}

/// The `u` terms stay within `[0, 270]` milli-units.
pub proof fn lemma_ucoef_bound(i: nat)
    ensures
        0 <= ucoef(i) <= 270,
    decreases i,
{
    if i > 0 {
        lemma_ucoef_bound((i - 1) as nat);
        lemma_div_trunc_bound(1_000_000, 4000 - ucoef((i - 1) as nat), 1_000_000);
        vstd::arithmetic::div_mod::lemma_div_is_ordered_by_denominator(
            1_000_000,
            3730,
            4000 - ucoef((i - 1) as nat),
        );
        vstd::arithmetic::div_mod::lemma_div_pos_is_pos(1_000_000, 4000 - ucoef((i - 1) as nat));
    }
}

/// The `z` terms of a bounded sample sequence stay within `Z_BOUND`.
pub proof fn lemma_zcoef_bound(s: Seq<int>, i: nat)
    requires
        all_bounded(s, MAX_SAMPLE as int),
        i == 0 || i + 1 < s.len(),
    ensures
        -Z_BOUND <= zcoef(s, i) <= Z_BOUND,
    decreases i,
{
    if i > 0 {
        lemma_zcoef_bound(s, (i - 1) as nat);
        lemma_ucoef_bound((i - 1) as nat);
        let num = (3 * (s[i as int + 1] - s[i as int]) - 3 * (s[i as int] - s[i as int - 1])
            - zcoef(s, (i - 1) as nat)) * 1000;
        assert(-17_000_000_000_000_000_000 <= num <= 17_000_000_000_000_000_000);
        lemma_div_trunc_denominator(
            num,
            3730,
            4000 - ucoef((i - 1) as nat),
            17_000_000_000_000_000_000,
        );
    }
}

/// The `c` coefficients of a bounded sample sequence stay within `C_BOUND`.
pub proof fn lemma_ccoef_bound(s: Seq<int>, n: nat, j: nat)
    requires
        all_bounded(s, MAX_SAMPLE as int),
        n + 1 == s.len(),
    ensures
        -C_BOUND <= ccoef(s, n, j) <= C_BOUND,
    decreases n - j,
{
    if j < n {
        lemma_ccoef_bound(s, n, (j + 1) as nat);
        lemma_zcoef_bound(s, j);
        lemma_ucoef_bound(j);
        let u = ucoef(j);
        let cnext = ccoef(s, n, (j + 1) as nat);
        assert(-270 * C_BOUND <= u * cnext <= 270 * C_BOUND) by (nonlinear_arith)
            requires
                0 <= u <= 270,
                -C_BOUND <= cnext <= C_BOUND,
        ;
        lemma_div_trunc_bound(u * cnext, 1000, 270 * (C_BOUND as int));
    }
}

/// The `b` and `d` coefficients of a bounded sample sequence stay within
/// their bounds.
pub proof fn lemma_bd_bound(s: Seq<int>, n: nat, j: nat)
    requires
        all_bounded(s, MAX_SAMPLE as int),
        n + 1 == s.len(),
        j < n,
    ensures
        -B_BOUND <= bcoef(s, n, j) <= B_BOUND,
        -D_BOUND <= dcoef(s, n, j) <= D_BOUND,
{
    lemma_ccoef_bound(s, n, j);
    lemma_ccoef_bound(s, n, (j + 1) as nat);
    lemma_div_trunc_bound(
        ccoef(s, n, (j + 1) as nat) + 2 * ccoef(s, n, j),
        3,
        3 * (C_BOUND as int),
    );
    lemma_div_trunc_bound(ccoef(s, n, (j + 1) as nat) - ccoef(s, n, j), 3, 2 * (C_BOUND as int));
}

/// Fixed-point evaluation of segment `j` at abscissa `x` (milli-units of
/// segment index): `a + b*dx + c*dx^2 + d*dx^3` with `dx = x - j`.
pub open spec fn spec_interpolate(s: Seq<int>, n: nat, j: nat, x: int) -> int {
    let dx = x - j * 1000;
    let dx2 = div_trunc(dx * dx, 1000);
    let dx3 = div_trunc(dx2 * dx, 1000);
    s[j as int] + div_trunc(bcoef(s, n, j) * dx, 1000) + div_trunc(ccoef(s, n, j) * dx2, 1000)
        + div_trunc(dcoef(s, n, j) * dx3, 1000)
}

/// The spline passes exactly through every sampled knot: evaluating
/// segment `j` at abscissa `j` returns `s[j]` unchanged.
pub proof fn lemma_spline_through_knots(s: Seq<int>, n: nat, j: nat)
    requires
        j < n,
    ensures
        spec_interpolate(s, n, j, j as int * 1000) == s[j as int],
{
    assert(spec_interpolate(s, n, j, j as int * 1000) == s[j as int]) by {
        let dx: int = j as int * 1000 - j as int * 1000;
        assert(dx == 0);
        assert(div_trunc(0, 1000) == 0);
        assert(bcoef(s, n, j) * 0 == 0);
        assert(ccoef(s, n, j) * 0 == 0);
        assert(dcoef(s, n, j) * 0 == 0);
    }
}

/// A fitted natural cubic spline for one instance, as segment coefficient
/// arrays over the sampled knots.
pub struct InterpolatedCurve {
    n: usize,
    a: Vec<i64>,
    b: Vec<i64>,
    c: Vec<i64>,
    d: Vec<i64>,
}

impl InterpolatedCurve {
    /// The sample sequence the curve was fitted through, in milli-units.
    pub closed spec fn samples(&self) -> Seq<int> {
        seq_int(self.a@)
    }

    /// Number of cubic segments (`sample count - 1`).
    pub closed spec fn segments(&self) -> nat {
        self.n as nat
    }

    /// Number of cubic segments (`sample count - 1`).
    pub fn seg_count(&self) -> (r: usize)
        ensures
            r as nat == self.segments(),
    {
        self.n
    }

    /// The curve's arrays have consistent lengths, bounded samples, and
    /// coefficients equal to the tridiagonal solution for its samples.
    pub closed spec fn wf(&self) -> bool {
        let s = seq_int(self.a@);
        &&& self.a.len() >= 2
        &&& self.n + 1 == self.a.len()
        &&& all_bounded(s, MAX_SAMPLE as int)
        &&& self.b.len() == self.n
        &&& self.c.len() == self.n + 1
        &&& self.d.len() == self.n
        &&& forall|j: int|
            0 <= j <= self.n ==> #[trigger] self.c@[j] == ccoef(s, self.n as nat, j as nat)
        &&& forall|j: int|
            0 <= j < self.n ==> #[trigger] self.b@[j] == bcoef(s, self.n as nat, j as nat)
        &&& forall|j: int|
            0 <= j < self.n ==> #[trigger] self.d@[j] == dcoef(s, self.n as nat, j as nat)
    }

    /// Fits a natural cubic spline through `data` by the standard
    /// tridiagonal elimination: a forward sweep computing `l`, `u`, `z`
    /// (`l[0] = 1`, `z[0] = 0`), then a backward sweep computing `c`, `b`
    /// and `d` for each segment.
    pub fn new(data: Vec<i64>) -> (r: InterpolatedCurve)
        requires
            data.len() >= 2,
            all_bounded(seq_int(data@), MAX_SAMPLE as int),
        ensures
            r.wf(),
            r.samples() == seq_int(data@),
            r.segments() + 1 == data@.len(),
    {
        let ghost s = seq_int(data@);
        let n: usize = data.len() - 1;

        let mut u: Vec<i64> = Vec::new();
        let mut z: Vec<i64> = Vec::new();
        u.push(0);
        z.push(0);

        let mut i: usize = 1;
        while i < n
            invariant
                1 <= i <= n,
                n + 1 == data.len(),
                s == seq_int(data@),
                all_bounded(s, MAX_SAMPLE as int),
                u.len() == i,
                z.len() == i,
                forall|k: int| 0 <= k < i ==> #[trigger] u@[k] == ucoef(k as nat),
                forall|k: int| 0 <= k < i ==> #[trigger] z@[k] == zcoef(s, k as nat),
            decreases n - i,
        {
            proof {
                lemma_ucoef_bound((i - 1) as nat);
                lemma_zcoef_bound(s, (i - 1) as nat);
                assert(s[i + 1] == data@[i + 1] as int);
                assert(s[i as int] == data@[i as int] as int);
                assert(s[i - 1] == data@[i - 1] as int);
            }
            let lk: i128 = 4000 - (u[i - 1] as i128);
            let uk: i128 = div_i128(1_000_000, lk);
            let num: i128 = (3 * ((data[i + 1] as i128) - (data[i] as i128)) - 3 * ((data[i]
                as i128) - (data[i - 1] as i128))) - (z[i - 1] as i128);
            let zk: i128 = div_i128(mul_i128(num, 1000), lk);
            proof {
                lemma_ucoef_bound(i as nat);
                lemma_zcoef_bound(s, i as nat);
            }
            u.push(uk as i64);
            z.push(zk as i64);
            i = i + 1;
        }

        let mut c: Vec<i64> = vec![0; n + 1];
        let mut b: Vec<i64> = vec![0; n];
        let mut d: Vec<i64> = vec![0; n];

        let mut j: usize = n;
        while j > 0
            invariant
                0 <= j <= n,
                n + 1 == data.len(),
                data.len() >= 2,
                s == seq_int(data@),
                all_bounded(s, MAX_SAMPLE as int),
                u.len() == if n > 1 { n } else { 1 },
                z.len() == u.len(),
                forall|k: int| 0 <= k < u.len() ==> #[trigger] u@[k] == ucoef(k as nat),
                forall|k: int| 0 <= k < z.len() ==> #[trigger] z@[k] == zcoef(s, k as nat),
                c.len() == n + 1,
                b.len() == n,
                d.len() == n,
                forall|k: int| j <= k <= n ==> #[trigger] c@[k] == ccoef(s, n as nat, k as nat),
                forall|k: int| j <= k < n ==> #[trigger] b@[k] == bcoef(s, n as nat, k as nat),
                forall|k: int| j <= k < n ==> #[trigger] d@[k] == dcoef(s, n as nat, k as nat),
            decreases j,
        {
            let jj: usize = j - 1;
            proof {
                lemma_ucoef_bound(jj as nat);
                lemma_zcoef_bound(s, jj as nat);
                lemma_ccoef_bound(s, n as nat, jj as nat);
                lemma_ccoef_bound(s, n as nat, (jj + 1) as nat);
                lemma_bd_bound(s, n as nat, jj as nat);
                assert(s[jj + 1] == data@[jj + 1] as int);
                assert(s[jj as int] == data@[jj as int] as int);
            }
            let cnext: i128 = c[jj + 1] as i128;
            let zj: i128 = z[jj] as i128;
            let uj: i128 = u[jj] as i128;
            let cj: i128 = zj - div_i128(mul_i128(uj, cnext), 1000);
            proof {
                let up = ucoef(jj as nat);
                let cp = ccoef(s, n as nat, (jj + 1) as nat);
                assert(-270 * (C_BOUND as int) <= up * cp <= 270 * (C_BOUND as int))
                    by (nonlinear_arith)
                    requires
                        0 <= up <= 270,
                        -C_BOUND <= cp <= C_BOUND,
                ;
                lemma_div_trunc_bound(up * cp, 1000, 270 * (C_BOUND as int));
            }
            c[jj] = cj as i64;
            let bj: i128 = ((data[jj + 1] as i128) - (data[jj] as i128)) - div_i128(
                cnext + 2 * cj,
                3,
            );
            proof {
                lemma_div_trunc_bound(
                    ccoef(s, n as nat, (jj + 1) as nat) + 2 * ccoef(s, n as nat, jj as nat),
                    3,
                    3 * (C_BOUND as int),
                );
            }
            b[jj] = bj as i64;
            let dj: i128 = div_i128(cnext - cj, 3);
            proof {
                lemma_div_trunc_bound(
                    ccoef(s, n as nat, (jj + 1) as nat) - ccoef(s, n as nat, jj as nat),
                    3,
                    2 * (C_BOUND as int),
                );
            }
            d[jj] = dj as i64;
            j = jj;
        }

        InterpolatedCurve { n, a: data, b, c, d }
    }

    /// Evaluates segment `j` at abscissa `x` (milli-units of segment
    /// index): `a[j] + b[j]*dx + c[j]*dx^2 + d[j]*dx^3` with
    /// `dx = x - j`, in truncating fixed point. The caller keeps `x`
    /// within one segment of `j`.
    pub fn interpolate(&self, x: i64, j: usize) -> (r: i64)
        requires
            self.wf(),
            j < self.segments(),
            (j as int) * 1000 - 1000 <= x as int <= (j as int) * 1000 + 2000,
        ensures
            r as int == spec_interpolate(self.samples(), self.segments(), j as nat, x as int),
            -100_000_000_000_000_000 <= r <= 100_000_000_000_000_000,
    {
        let ghost s = seq_int(self.a@);
        proof {
            lemma_ccoef_bound(s, self.n as nat, j as nat);
            lemma_bd_bound(s, self.n as nat, j as nat);
            assert(s[j as int] == self.a@[j as int] as int);
        }
        let dx: i128 = (x as i128) - (j as i128) * 1000;
        proof {
            assert(-4_000_000 <= dx * dx <= 4_000_000) by (nonlinear_arith)
                requires
                    -1000 <= dx <= 2000,
            ;
            lemma_div_trunc_bound(dx * dx, 1000, 4_000_000);
        }
        let dx2: i128 = div_i128(mul_i128(dx, dx), 1000);
        proof {
            assert(-8_000_000 <= dx2 * dx <= 8_000_000) by (nonlinear_arith)
                requires
                    -4000 <= dx2 <= 4000,
                    -1000 <= dx <= 2000,
            ;
            lemma_div_trunc_bound((dx2 as int) * dx, 1000, 8_000_000);
        }
        let dx3: i128 = div_i128(mul_i128(dx2, dx), 1000);
        let bj: i128 = self.b[j] as i128;
        let cj: i128 = self.c[j] as i128;
        let dj: i128 = self.d[j] as i128;
        proof {
            assert(-2000 * (B_BOUND as int) <= bj * dx <= 2000 * (B_BOUND as int))
                by (nonlinear_arith)
                requires
                    -1000 <= dx <= 2000,
                    -B_BOUND <= bj <= B_BOUND,
            ;
            lemma_div_trunc_bound((bj as int) * dx, 1000, 2000 * (B_BOUND as int));
            assert(-4000 * (C_BOUND as int) <= cj * dx2 <= 4000 * (C_BOUND as int))
                by (nonlinear_arith)
                requires
                    -4000 <= dx2 <= 4000,
                    -C_BOUND <= cj <= C_BOUND,
            ;
            lemma_div_trunc_bound((cj as int) * dx2, 1000, 4000 * (C_BOUND as int));
            assert(-8000 * (D_BOUND as int) <= dj * dx3 <= 8000 * (D_BOUND as int))
                by (nonlinear_arith)
                requires
                    -8000 <= dx3 <= 8000,
                    -D_BOUND <= dj <= D_BOUND,
            ;
            lemma_div_trunc_bound((dj as int) * dx3, 1000, 8000 * (D_BOUND as int));
        }
        let t1: i128 = div_i128(mul_i128(bj, dx), 1000);
        let t2: i128 = div_i128(mul_i128(cj, dx2), 1000);
        let t3: i128 = div_i128(mul_i128(dj, dx3), 1000);
        ((self.a[j] as i128) + t1 + t2 + t3) as i64
    }

    /// The fitted coefficients `(a, b, c, d)` of segment `j`.
    pub fn coefficients(&self, j: usize) -> (r: (i64, i64, i64, i64))
        requires
            self.wf(),
            j < self.segments(),
        ensures
            r.0 as int == self.samples()[j as int],
            r.1 as int == bcoef(self.samples(), self.segments(), j as nat),
            r.2 as int == ccoef(self.samples(), self.segments(), j as nat),
            r.3 as int == dcoef(self.samples(), self.segments(), j as nat),
    {
        proof {
            assert(seq_int(self.a@)[j as int] == self.a@[j as int] as int);
        }
        (self.a[j], self.b[j], self.c[j], self.d[j])
    }
}

} // verus!
