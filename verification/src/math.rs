use vstd::prelude::*;

verus! {

/// The value an amount takes when a result leaves the range of `u128`:
/// the nearest end of the range.
pub open spec fn sat(x: int) -> int {
    if x > u128::MAX as int {
        u128::MAX as int
    } else if x < 0 {
        0
    } else {
        x
    }
}

pub proof fn lemma_quotient_at_least(x: int, d: int, k: int)
    by (nonlinear_arith)
    requires
        d > 0,
        x >= k * d,
    ensures
        x / d >= k,
{
}

proof fn lemma_quotient_exact(x: int, d: int, q: int, r: int)
    by (nonlinear_arith)
    requires
        d > 0,
        0 <= r < d,
        x == q * d + r,
    ensures
        x / d == q,
{
}

proof fn lemma_acc_add(q: int, r: int, cq: int, cr: int, d: int, rest: int, half: int, carry: int, r2: int)
    by (nonlinear_arith)
    requires
        rest == 2 * half + 1,
        r2 == r + cr - carry * d,
    ensures
        (q * d + r) + (cq * d + cr) * rest == ((q + cq + carry) * d + r2) + (cq * d + cr) * (2 * half),
{
}

proof fn lemma_cur_double(cq: int, cr: int, d: int, half: int, carry: int, r2: int)
    by (nonlinear_arith)
    requires
        r2 == cr + cr - carry * d,
    ensures
        (cq * d + cr) * (2 * half) == ((2 * cq + carry) * d + r2) * half,
{
}

proof fn lemma_product_lower(acc: int, cur: int, rest: int, total: int)
    by (nonlinear_arith)
    requires
        acc >= 0,
        cur >= 0,
        rest >= 1,
        acc + cur * rest == total,
    ensures
        total >= cur,
        total >= acc,
{
}

proof fn lemma_scaled_lower(k: int, d: int, r: int, bound: int)
    by (nonlinear_arith)
    requires
        d > 0,
        r >= 0,
        k >= bound,
        bound >= 0,
    ensures
        k * d + r >= bound * d,
{
}

/// `a * b / d`, computed without losing the high bits of the product,
/// and held to the range of `u128`.
pub fn mul_div(a: u128, b: u128, d: u128) -> (out: u128)
    requires
        d > 0,
    ensures
        out as int == sat((a as int * b as int) / (d as int)),
{
    let ghost total: int = a as int * b as int;
    let ghost top: int = u128::MAX as int + 1;
    let mut q: u128 = 0;
    let mut r: u128 = 0;
    let mut cq: u128 = a / d;
    let mut cr: u128 = a % d;
    let mut rest: u128 = b;
    proof {
        assert(a as int == (a as int / d as int) * d as int + (a as int % d as int)) by (nonlinear_arith)
            requires d > 0;
        assert((0 * d as int + 0) + (cq as int * d as int + cr as int) * rest as int == total);
    }
    while rest > 0
        invariant
            d > 0,
            r < d,
            cr < d,
            total == a as int * b as int,
            top == u128::MAX as int + 1,
            (q as int * d as int + r as int) + (cq as int * d as int + cr as int) * rest as int == total,
        decreases rest,
    {
        let half: u128 = rest / 2;
        let ghost cur: int = cq as int * d as int + cr as int;
        proof {
            assert(cq as int * d as int >= 0) by (nonlinear_arith)
                requires cq >= 0, d > 0;
            assert(q as int * d as int >= 0) by (nonlinear_arith)
                requires q >= 0, d > 0;
            assert(cur * (2 * half as int) >= 0) by (nonlinear_arith)
                requires cur >= 0, half >= 0;
        }
        if rest % 2 == 1 {
            let carry: u128 = if r >= d - cr { 1 } else { 0 };
            let r2: u128 = if r >= d - cr { r - (d - cr) } else { r + cr };
            proof {
                lemma_acc_add(q as int, r as int, cq as int, cr as int, d as int, rest as int, half as int, carry as int, r2 as int);
            }
            let sum: Option<u128> = match q.checked_add(cq) {
                Some(s) => s.checked_add(carry),
                None => None,
            };
            match sum {
                Some(s) => {
                    q = s;
                    r = r2;
                },
                None => {
                    proof {
                        let k: int = q as int + cq as int + carry as int;
                        lemma_scaled_lower(k, d as int, r2 as int, top);
                        lemma_quotient_at_least(total, d as int, top);
                    }
                    return u128::MAX;
                },
            }
        }
        rest = half;
        if rest > 0 {
            let carry: u128 = if cr >= d - cr { 1 } else { 0 };
            let r2: u128 = if cr >= d - cr { cr - (d - cr) } else { cr + cr };
            proof {
                lemma_cur_double(cq as int, cr as int, d as int, half as int, carry as int, r2 as int);
            }
            let dbl: Option<u128> = match cq.checked_add(cq) {
                Some(s) => s.checked_add(carry),
                None => None,
            };
            match dbl {
                Some(s) => {
                    cq = s;
                    cr = r2;
                },
                None => {
                    proof {
                        let k: int = 2 * cq as int + carry as int;
                        let cur2: int = k * d as int + r2 as int;
                        lemma_scaled_lower(k, d as int, r2 as int, top);
                        lemma_product_lower(q as int * d as int + r as int, cur2, half as int, total);
                        lemma_quotient_at_least(total, d as int, top);
                    }
                    return u128::MAX;
                },
            }
        }
    }
    proof {
        assert((cq as int * d as int + cr as int) * 0 == 0) by (nonlinear_arith);
        lemma_quotient_exact(total, d as int, q as int, r as int);
    }
    q
}

/// A quotient times its divisor does not exceed what was divided.
pub proof fn lemma_quotient_below(x: int, d: int)
    by (nonlinear_arith)
    requires
        d > 0,
        x >= 0,
    ensures
        0 <= (x / d) * d <= x,
        x < (x / d) * d + d,
{
}

proof fn lemma_square_order(a: int, b: int)
    by (nonlinear_arith)
    requires
        0 <= a <= b,
    ensures
        a * a <= b * b,
{
}

proof fn lemma_product_below_square(x: int, y: int, m: int)
    by (nonlinear_arith)
    requires
        0 <= x <= m,
        0 <= y <= m,
    ensures
        x * y <= m * m,
        m * m < (m + 1) * (m + 1),
{
}

proof fn lemma_quotient_vs_square(n: int, m: int)
    requires
        n >= 0,
        m > 0,
    ensures
        (n / m >= m) <==> (n >= m * m),
{
    lemma_quotient_below(n, m);
    if n >= m * m {
        lemma_quotient_at_least(n, m, m);
    }
    if n / m >= m {
        assert((n / m) * m >= m * m) by (nonlinear_arith)
            requires
                n / m >= m,
                m > 0,
        ;
    }
}

/// `r` is the integer square root of `n`.
pub open spec fn is_root(r: int, n: int) -> bool {
    0 <= r && r * r <= n < (r + 1) * (r + 1)
}

/// The integer square root is unique.
pub proof fn lemma_root_unique(a: int, b: int, n: int)
    requires
        is_root(a, n),
        is_root(b, n),
    ensures
        a == b,
{
    if a < b {
        lemma_square_order(a + 1, b);
    }
    if b < a {
        lemma_square_order(b + 1, a);
    }
}

/// The integer square root of `n`.
pub open spec fn root_of(n: int) -> int {
    choose|r: int| is_root(r, n)
}

/// The integer square root of `x * y`: the geometric mean of the two,
/// rounded down.
pub fn geometric_mean(x: u128, y: u128) -> (r: u128)
    ensures
        is_root(r as int, x as int * y as int),
        r == root_of(x as int * y as int),
{
    let ghost n: int = x as int * y as int;
    let mut lo: u128 = 0;
    let mut hi: u128 = if x < y {
        y
    } else {
        x
    };
    proof {
        lemma_product_below_square(x as int, y as int, hi as int);
        assert(n >= 0) by (nonlinear_arith)
            requires
                n == x as int * y as int,
                x >= 0,
                y >= 0,
        ;
    }
    while lo < hi
        invariant
            lo <= hi,
            n == x as int * y as int,
            n >= 0,
            lo as int * lo as int <= n,
            n < (hi as int + 1) * (hi as int + 1),
        decreases hi - lo,
    {
        let mid: u128 = hi - (hi - lo) / 2;
        let q = mul_div(x, y, mid);
        proof {
            lemma_quotient_vs_square(n, mid as int);
        }
        if q >= mid {
            lo = mid;
        } else {
            hi = mid - 1;
        }
    }
    proof {
        lemma_root_unique(lo as int, root_of(n), n);
    }
    lo
}

} // verus!
