//! The degree at which the algebraic attack on binary LPN succeeds: the
//! first of 2, 3, 4 whose condition on the Hilbert series holds, computed
//! exactly over integers.

use vstd::prelude::*;

verus! {

/// The value fits in a `u128`.
pub open spec fn fits(v: int) -> bool {
    v <= u128::MAX
}

/// The terms `x m`, `x^2 m (m-1) / 2`, `x^3 m (m-1) (m-2) / 6` and
/// `x^4 m (m-1) (m-2) (m-3) / 24`, all zero when `m < 3`.
pub open spec fn agb_terms(x: int, m: int) -> (int, int, int, int) {
    if m >= 3 {
        (
            x * m,
            x * x * m * (m - 1) / 2,
            x * x * x * m * (m - 1) * (m - 2) / 6,
            x * x * x * x * m * (m - 1) * (m - 2) * (m - 3) / 24,
        )
    } else {
        (0, 0, 0, 0)
    }
}

/// Every product made in computing `agb_terms(x, m)` fits in a `u128`.
pub open spec fn agb_terms_fit(x: int, m: int) -> bool {
    m >= 3 ==> {
        &&& fits(x * m)
        &&& fits(x * x)
        &&& fits(x * x * m)
        &&& fits(x * x * m * (m - 1))
        &&& fits(x * x * x)
        &&& fits(x * x * x * m)
        &&& fits(x * x * x * m * (m - 1))
        &&& fits(x * x * x * m * (m - 1) * (m - 2))
        &&& fits(x * x * x * x)
        &&& fits(x * x * x * x * m)
        &&& fits(x * x * x * x * m * (m - 1))
        &&& fits(x * x * x * x * m * (m - 1) * (m - 2))
        &&& fits(x * x * x * x * m * (m - 1) * (m - 2) * (m - 3))
    }
}

/// The terms on the side of the error positions: `beta - mu - 1` per block,
/// over `f` blocks, with `beta = n / t`.
pub open spec fn agb_a(n: int, t: int, f: int, mu: int) -> (int, int, int, int) {
    agb_terms(n / t - mu - 1, f)
}

/// The terms on the side of the other blocks: `beta - 1` per block, over
/// `t - f` blocks.
pub open spec fn agb_b(n: int, t: int, f: int) -> (int, int, int, int) {
    agb_terms(n / t - 1, t - f)
}

/// `c1` (negated), `c2`, `c3` (negated) and `c4`, from `r = n - k`.
pub open spec fn agb_c(r: int) -> (int, int, int, int) {
    (r - 1, r * (r - 1) / 2, (r + 1) * r * (r - 1) / 6, (r + 2) * (r + 1) * r * (r - 1) / 24)
}

/// The two sides of the conditions for degrees 2, 3 and 4.
pub open spec fn agb_sides(n: int, k: int, t: int, f: int, mu: int) -> (int, int, int, int, int, int) {
    let (a1, a2, a3, a4) = agb_a(n, t, f, mu);
    let (b1, b2, b3, b4) = agb_b(n, t, f);
    let (m, c2, m3, c4) = agb_c(n - k);
    (
        a1 + b1 + a1 * b1 + a2 + b2 + c2,
        (a1 + b1) * m + m,
        b1 * c2 + b3 + a1 * (b2 + c2) + a2 * b1 + a3,
        m3 + b2 * m + a1 * b1 * m + a2 * m,
        c4 + b2 * c2 + b4 + a1 * (b1 * c2 + b2 + b3) + a2 * (b2 + c2 + b1) + a3 * b1 + a4,
        b1 * m3 + b3 * m + a3 * m + a1 * b2 * m + a2 * b1 * m + a1 * m3,
    )
}

/// The degree of the attack: 2, 3 or 4, the first whose left side is at
/// most its right side, or 0 if none is.
pub open spec fn agb_degree_spec(n: int, k: int, t: int, f: int, mu: int) -> u8 {
    let (l2, r2, l3, r3, l4, r4) = agb_sides(n, k, t, f, mu);
    if l2 <= r2 {
        2
    } else if l3 <= r3 {
        3
    } else if l4 <= r4 {
        4
    } else {
        0
    }
}

/// Whether the condition of degree `d` holds: its left side is at most its
/// right side. Only 2, 3 and 4 have a condition.
pub open spec fn agb_condition(n: int, k: int, t: int, f: int, mu: int, d: int) -> bool {
    let s = agb_sides(n, k, t, f, mu);
    if d == 2 {
        s.0 <= s.1
    } else if d == 3 {
        s.2 <= s.3
    } else if d == 4 {
        s.4 <= s.5
    } else {
        false
    }
}

/// `d` is the smallest of 2, 3, 4 whose condition holds, or 0 when none
/// does.
pub open spec fn is_first_degree(n: int, k: int, t: int, f: int, mu: int, d: int) -> bool {
    ||| (2 <= d <= 4 && agb_condition(n, k, t, f, mu, d) && forall|e: int|
        2 <= e < d ==> !#[trigger] agb_condition(n, k, t, f, mu, e))
    ||| (d == 0 && forall|e: int| 2 <= e <= 4 ==> !#[trigger] agb_condition(n, k, t, f, mu, e))
}

/// The degree of the attack is the smallest of 2, 3, 4 whose condition
/// holds, whatever order the conditions are tried in, and 0 when none holds.
pub proof fn lemma_agb_degree_is_first(n: int, k: int, t: int, f: int, mu: int)
    ensures
        is_first_degree(n, k, t, f, mu, agb_degree_spec(n, k, t, f, mu) as int),
{
    let d = agb_degree_spec(n, k, t, f, mu) as int;
    assert(agb_condition(n, k, t, f, mu, 2) == (agb_sides(n, k, t, f, mu).0 <= agb_sides(n, k, t, f, mu).1));
    assert(agb_condition(n, k, t, f, mu, 3) == (agb_sides(n, k, t, f, mu).2 <= agb_sides(n, k, t, f, mu).3));
    assert(agb_condition(n, k, t, f, mu, 4) == (agb_sides(n, k, t, f, mu).4 <= agb_sides(n, k, t, f, mu).5));
    assert forall|e: int| 2 <= e < d implies !#[trigger] agb_condition(n, k, t, f, mu, e) by {
        assert(e == 2 || e == 3);
    }
    assert forall|e: int| d == 0 && 2 <= e <= 4 implies !#[trigger] agb_condition(n, k, t, f, mu, e) by {
        assert(e == 2 || e == 3 || e == 4);
    }
}

/// Every product and sum made in computing the degree fits in a `u128`.
pub open spec fn agb_fits(n: int, k: int, t: int, f: int, mu: int) -> bool {
    let (a1, a2, a3, a4) = agb_a(n, t, f, mu);
    let (b1, b2, b3, b4) = agb_b(n, t, f);
    let r = n - k;
    let (m, c2, m3, c4) = agb_c(r);
    let (l2, r2, l3, r3, l4, r4) = agb_sides(n, k, t, f, mu);
    &&& agb_terms_fit(n / t - mu - 1, f)
    &&& agb_terms_fit(n / t - 1, t - f)
    &&& fits(r * (r - 1))
    &&& fits((r + 1) * r)
    &&& fits((r + 1) * r * (r - 1))
    &&& fits((r + 2) * (r + 1))
    &&& fits((r + 2) * (r + 1) * r)
    &&& fits((r + 2) * (r + 1) * r * (r - 1))
    &&& fits(a1 * b1)
    &&& fits((a1 + b1) * m)
    &&& fits(b1 * c2)
    &&& fits(b2 + c2)
    &&& fits(a1 * (b2 + c2))
    &&& fits(a2 * b1)
    &&& fits(b2 * m)
    &&& fits(a1 * b1 * m)
    &&& fits(a2 * m)
    &&& fits(b2 * c2)
    &&& fits(b1 * c2 + b2 + b3)
    &&& fits(a1 * (b1 * c2 + b2 + b3))
    &&& fits(b2 + c2 + b1)
    &&& fits(a2 * (b2 + c2 + b1))
    &&& fits(a3 * b1)
    &&& fits(b1 * m3)
    &&& fits(b3 * m)
    &&& fits(a3 * m)
    &&& fits(a1 * b2)
    &&& fits(a1 * b2 * m)
    &&& fits(a2 * b1 * m)
    &&& fits(a1 * m3)
    &&& fits(l2) &&& fits(r2) &&& fits(l3) &&& fits(r3) &&& fits(l4) &&& fits(r4)
}

/// Computes `agb_terms(x, m)`.
fn agb_terms_exec(x: u128, m: u128) -> (r: (u128, u128, u128, u128))
    requires
        agb_terms_fit(x as int, m as int),
    ensures
        (r.0 as int, r.1 as int, r.2 as int, r.3 as int) == agb_terms(x as int, m as int),
{
    if m >= 3 {
        let t1 = x * m;
        let x2 = x * x;
        let t2 = x2 * m * (m - 1) / 2;
        let x3 = x2 * x;
        let t3 = x3 * m * (m - 1) * (m - 2) / 6;
        let x4 = x3 * x;
        let t4 = x4 * m * (m - 1) * (m - 2) * (m - 3) / 24;
        (t1, t2, t3, t4)
    } else {
        (0, 0, 0, 0)
    }
}

/// The degree at which the algebraic attack on binary LPN (noise of `t`
/// blocks, `f` of them guessed, `mu` positions per guessed block ruled out)
/// succeeds on `n` samples of dimension `k`: 2, 3 or 4, the first whose
/// condition holds, or 0 if none does.
///
/// Every quantity is computed exactly; the inputs are such that none of
/// them overflows 128 bits.
pub fn agb_degree(n: u64, k: u64, t: u64, f: u64, mu: u64) -> (d: u8)
    requires
        t > 0,
        mu + 1 <= n / t,
        f <= t,
        k + 1 <= n,
        agb_fits(n as int, k as int, t as int, f as int, mu as int),
    ensures
        d == agb_degree_spec(n as int, k as int, t as int, f as int, mu as int),
        is_first_degree(n as int, k as int, t as int, f as int, mu as int, d as int),
{
    proof {
        lemma_agb_degree_is_first(n as int, k as int, t as int, f as int, mu as int);
    }
    let n = n as u128;
    let k = k as u128;
    let t = t as u128;
    let f = f as u128;
    let mu = mu as u128;
    let beta = n / t;
    let (a1, a2, a3, a4) = agb_terms_exec(beta - mu - 1, f);
    let (b1, b2, b3, b4) = agb_terms_exec(beta - 1, t - f);
    let r = n - k;
    let m = r - 1;
    let c2 = r * (r - 1) / 2;
    let m3 = (r + 1) * r * (r - 1) / 6;
    let c4 = (r + 2) * (r + 1) * r * (r - 1) / 24;
    let l2 = a1 + b1 + a1 * b1 + a2 + b2 + c2;
    let r2 = (a1 + b1) * m + m;
    let l3 = b1 * c2 + b3 + a1 * (b2 + c2) + a2 * b1 + a3;
    let r3 = m3 + b2 * m + a1 * b1 * m + a2 * m;
    let l4 = c4 + b2 * c2 + b4 + a1 * (b1 * c2 + b2 + b3) + a2 * (b2 + c2 + b1) + a3 * b1 + a4;
    let r4 = b1 * m3 + b3 * m + a3 * m + a1 * b2 * m + a2 * b1 * m + a1 * m3;
    if l2 <= r2 {
        2
    } else if l3 <= r3 {
        3
    } else if l4 <= r4 {
        4
    } else {
        0
    }
}

} // verus!
