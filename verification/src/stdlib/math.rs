//! Integer mathematics: absolute value, powers, min/max/clamp, gcd, lcm, factorial.

use vstd::prelude::*;

verus! {

/// Absolute value of a mathematical integer.
pub open spec fn abs(x: int) -> int {
    if x < 0 {
        -x
    } else {
        x
    }
}

/// Absolute value. (`i64::MIN` has no `i64` absolute value; `abs` panics on it.)
pub fn abs_int(x: i64) -> (r: i64)
    requires
        x != i64::MIN,
    ensures
        r == abs(x as int),
{
    if x < 0 {
        -x
    } else {
        x
    }
}

/// `b` raised to the power `e`.
pub open spec fn int_pow(b: int, e: nat) -> int
    decreases e,
{
    if e == 0 {
        1
    } else {
        b * int_pow(b, (e - 1) as nat)
    }
}

/// Powers of a base of absolute value at least one grow in absolute value with the exponent.
pub proof fn lemma_abs_pow_mono(b: int, k: nat, e: nat)
    requires
        abs(b) >= 1,
        k <= e,
    ensures
        abs(int_pow(b, k)) <= abs(int_pow(b, e)),
    decreases e,
{
    if k < e {
        lemma_abs_pow_mono(b, k, (e - 1) as nat);
        let p = int_pow(b, (e - 1) as nat);
        assert(abs(b * p) == abs(b) * abs(p)) by (nonlinear_arith);
        assert(abs(b) * abs(p) >= abs(p)) by (nonlinear_arith)
            requires
                abs(b) >= 1,
                abs(p) >= 0,
        ;
    }
}

/// For a base of absolute value at least two, a strictly larger exponent at least
/// doubles the absolute value of the power.
pub proof fn lemma_abs_pow_strict(b: int, k: nat, e: nat)
    requires
        abs(b) >= 2,
        k < e,
    ensures
        2 * abs(int_pow(b, k)) <= abs(int_pow(b, e)),
{
    let e1 = (e - 1) as nat;
    lemma_abs_pow_mono(b, k, e1);
    let p = int_pow(b, e1);
    assert(abs(b * p) == abs(b) * abs(p)) by (nonlinear_arith);
    assert(abs(b) * abs(p) >= 2 * abs(p)) by (nonlinear_arith)
        requires
            abs(b) >= 2,
            abs(p) >= 0,
    ;
}

/// Powers of 0, 1 and -1.
proof fn lemma_small_base_pow(b: int, e: nat)
    requires
        -1 <= b <= 1,
    ensures
        b == 0 ==> int_pow(b, e) == if e == 0 { 1int } else { 0int },
        b == 1 ==> int_pow(b, e) == 1,
        b == -1 ==> int_pow(b, e) == if e % 2 == 0 { 1int } else { -1int },
    decreases e,
{
    if e > 0 {
        lemma_small_base_pow(b, (e - 1) as nat);
    }
}

/// Integer power. (The power must fit in an `i64`; `pow` panics on overflow.)
pub fn ipow(base: i64, exp: u32) -> (r: i64)
    requires
        i64::MIN <= int_pow(base as int, exp as nat) <= i64::MAX,
    ensures
        r == int_pow(base as int, exp as nat),
{
    if -1 <= base && base <= 1 {
        proof {
            lemma_small_base_pow(base as int, exp as nat);
        }
    }
    if base == 0 {
        return if exp == 0 {
            1
        } else {
            0
        };
    }
    if base == 1 {
        return 1;
    }
    if base == -1 {
        return if exp % 2 == 0 {
            1
        } else {
            -1
        };
    }
    let mut acc: i64 = 1;
    let mut k: u32 = 0;
    while k < exp
        invariant
            k <= exp,
            abs(base as int) >= 2,
            i64::MIN <= int_pow(base as int, exp as nat) <= i64::MAX,
            acc == int_pow(base as int, k as nat),
        decreases exp - k,
    {
        proof {
            assert(int_pow(base as int, (k + 1) as nat) == base * int_pow(base as int, k as nat));
            assert(acc * base == base * acc) by (nonlinear_arith);
            let next = int_pow(base as int, (k + 1) as nat);
            if k + 1 < exp {
                lemma_abs_pow_strict(base as int, (k + 1) as nat, exp as nat);
                assert(i64::MIN <= next <= i64::MAX);
            }
        }
        acc = acc * base;
        k += 1;
    }
    acc
}

/// The smaller of two integers.
pub fn min_i64(a: i64, b: i64) -> (r: i64)
    ensures
        r == if a <= b { a } else { b },
{
    if a <= b {
        a
    } else {
        b
    }
}

/// The larger of two integers (the second one when they are equal).
pub fn max_i64(a: i64, b: i64) -> (r: i64)
    ensures
        r == if b >= a { b } else { a },
{
    if b >= a {
        b
    } else {
        a
    }
}

/// Clamp `x` into `[lo, hi]`. (`clamp` panics when `lo > hi`.)
pub fn clamp_i64(x: i64, lo: i64, hi: i64) -> (r: i64)
    requires
        lo <= hi,
    ensures
        r == if x < lo { lo } else if x > hi { hi } else { x },
{
    if x < lo {
        lo
    } else if x > hi {
        hi
    } else {
        x
    }
}

/// Euclid's greatest common divisor of two natural numbers.
pub open spec fn gcd_spec(a: nat, b: nat) -> nat
    decreases b,
{
    if b == 0 {
        a
    } else {
        gcd_spec(b, a % b)
    }
}

/// `d` divides `x`.
pub open spec fn divides(d: int, x: int) -> bool {
    exists|k: int| x == #[trigger] (k * d)
}

/// Greatest common divisor (always non-negative; 0 only for `gcd(0, 0)`).
/// (`i64::MIN` has no `i64` absolute value; `abs` panics on it.)
pub fn gcd(a: i64, b: i64) -> (r: i64)
    requires
        a != i64::MIN,
        b != i64::MIN,
    ensures
        r == gcd_spec(abs(a as int) as nat, abs(b as int) as nat),
{
    let mut x: i64 = if a < 0 {
        -a
    } else {
        a
    };
    let mut y: i64 = if b < 0 {
        -b
    } else {
        b
    };
    while y != 0
        invariant
            x >= 0,
            y >= 0,
            gcd_spec(x as nat, y as nat) == gcd_spec(abs(a as int) as nat, abs(b as int) as nat),
        decreases y,
    {
        let t = y;
        y = x % y;
        x = t;
    }
    x
}

/// The gcd divides both arguments, every common divisor divides it, and it is zero
/// only when both arguments are.
pub proof fn lemma_gcd_is_greatest_common_divisor(a: nat, b: nat)
    ensures
        divides(gcd_spec(a, b) as int, a as int),
        divides(gcd_spec(a, b) as int, b as int),
        forall|d: int| divides(d, a as int) && divides(d, b as int) ==> divides(d, gcd_spec(a, b) as int),
        gcd_spec(a, b) == 0 <==> (a == 0 && b == 0),
    decreases b,
{
    let g = gcd_spec(a, b) as int;
    if b == 0 {
        assert(a as int == 1 * g);
        assert(0int == 0 * g);
        assert forall|d: int| divides(d, a as int) && divides(d, b as int) implies divides(d, g) by {
        }
    } else {
        let r = a % b;
        lemma_gcd_is_greatest_common_divisor(b, r);
        let q = (a / b) as int;
        vstd::arithmetic::div_mod::lemma_fundamental_div_mod(a as int, b as int);
        assert(a as int == b * q + r);
        let kb = choose|k: int| b as int == #[trigger] (k * g);
        let kr = choose|k: int| r as int == #[trigger] (k * g);
        assert(a as int == (kb * q + kr) * g) by (nonlinear_arith)
            requires
                a as int == b * q + r,
                b as int == kb * g,
                r as int == kr * g,
        ;
        assert forall|d: int| divides(d, a as int) && divides(d, b as int) implies divides(d, g) by {
            let ka = choose|k: int| a as int == #[trigger] (k * d);
            let kb2 = choose|k: int| b as int == #[trigger] (k * d);
            assert(r as int == (ka - kb2 * q) * d) by (nonlinear_arith)
                requires
                    a as int == b * q + r,
                    a as int == ka * d,
                    b as int == kb2 * d,
            ;
        }
        if g == 0 {
            assert(b as int == kb * g);
            assert(kb * g == 0) by (nonlinear_arith)
                requires
                    g == 0,
            ;
        }
    }
}

/// The least common multiple of `a` and `b`: `|a| / gcd(|a|, |b|) * |b|`, never
/// negative, and 0 when either argument is 0.
pub open spec fn lcm_spec(a: int, b: int) -> int {
    if a == 0 || b == 0 {
        0
    } else {
        (abs(a) / gcd_spec(abs(a) as nat, abs(b) as nat) as int) * abs(b)
    }
}

/// Least common multiple (0 when either argument is 0). (For nonzero arguments,
/// neither may be `i64::MIN`, whose absolute value overflows, and the result
/// must fit in an `i64`.)
pub fn lcm(a: i64, b: i64) -> (r: i64)
    requires
        a != 0 && b != 0 ==> a != i64::MIN && b != i64::MIN,
        lcm_spec(a as int, b as int) <= i64::MAX,
    ensures
        r == lcm_spec(a as int, b as int),
{
    if a == 0 || b == 0 {
        return 0;
    }
    let g = gcd(a, b);
    let ghost gs = gcd_spec(abs(a as int) as nat, abs(b as int) as nat) as int;
    let abs_a: i64 = if a < 0 {
        -a
    } else {
        a
    };
    let abs_b: i64 = if b < 0 {
        -b
    } else {
        b
    };
    proof {
        lemma_gcd_is_greatest_common_divisor(abs(a as int) as nat, abs(b as int) as nat);
        assert(g > 0);
        let ka = choose|k: int| abs(a as int) == #[trigger] (k * gs);
        vstd::arithmetic::div_mod::lemma_div_multiples_vanish(ka, gs);
        assert(gs * ka == ka * gs) by (nonlinear_arith);
        assert(abs_a as int / gs == ka);
        assert(ka >= 0) by (nonlinear_arith)
            requires
                abs(a as int) == ka * gs,
                gs > 0,
                abs(a as int) > 0,
        ;
        assert(ka * (abs_b as int) >= 0) by (nonlinear_arith)
            requires
                ka >= 0,
                abs_b >= 0,
        ;
    }
    let q = abs_a / g;
    q * abs_b
}

/// Bezout's identity: the gcd is an integer combination of the arguments.
proof fn lemma_bezout(a: nat, b: nat) -> (uv: (int, int))
    ensures
        uv.0 * a + uv.1 * b == gcd_spec(a, b),
    decreases b,
{
    if b == 0 {
        (1, 0)
    } else {
        let r = a % b;
        let (u, v) = lemma_bezout(b, r);
        let q = (a / b) as int;
        vstd::arithmetic::div_mod::lemma_fundamental_div_mod(a as int, b as int);
        assert(v * a + (u - v * q) * b == u * b + v * r) by (nonlinear_arith)
            requires
                a as int == b * q + r,
        ;
        (v, u - v * q)
    }
}

/// `lcm` gives the least common multiple: for nonzero arguments it is positive,
/// a multiple of both, and no greater than any positive common multiple; times
/// the gcd it is `|a * b|`; and it is 0 when either argument is 0.
pub proof fn lemma_lcm_is_least_common_multiple(a: int, b: int)
    ensures
        lcm_spec(a, b) >= 0,
        a == 0 || b == 0 ==> lcm_spec(a, b) == 0,
        a != 0 && b != 0 ==> {
            &&& lcm_spec(a, b) > 0
            &&& divides(a, lcm_spec(a, b))
            &&& divides(b, lcm_spec(a, b))
            &&& lcm_spec(a, b) * gcd_spec(abs(a) as nat, abs(b) as nat) == abs(a * b)
            &&& forall|m: int| m > 0 && divides(a, m) && divides(b, m) ==> lcm_spec(a, b) <= m
        },
{
    if a != 0 && b != 0 {
        let aa = abs(a);
        let bb = abs(b);
        let g = gcd_spec(aa as nat, bb as nat) as int;
        lemma_gcd_is_greatest_common_divisor(aa as nat, bb as nat);
        let ka = choose|k: int| aa == #[trigger] (k * g);
        let kb = choose|k: int| bb == #[trigger] (k * g);
        vstd::arithmetic::div_mod::lemma_div_multiples_vanish(ka, g);
        assert(g * ka == ka * g) by (nonlinear_arith);
        assert(aa / g == ka);
        let l = ka * bb;
        assert(lcm_spec(a, b) == l);
        assert(ka > 0 && kb > 0 && l > 0) by (nonlinear_arith)
            requires
                aa == ka * g,
                bb == kb * g,
                g > 0,
                aa > 0,
                bb > 0,
                l == ka * bb,
        ;
        // A multiple of both.
        let sb: int = if b < 0 { -ka } else { ka };
        assert(l == sb * b) by (nonlinear_arith)
            requires
                l == ka * bb,
                bb == (if b < 0 { -b } else { b }),
                sb == (if b < 0 { -ka } else { ka }),
        ;
        let sa: int = if a < 0 { -kb } else { kb };
        assert(l == sa * a) by (nonlinear_arith)
            requires
                l == ka * bb,
                aa == ka * g,
                bb == kb * g,
                aa == (if a < 0 { -a } else { a }),
                sa == (if a < 0 { -kb } else { kb }),
        ;
        // Times the gcd it is |a * b|.
        assert(l * g == abs(a * b)) by (nonlinear_arith)
            requires
                l == ka * bb,
                aa == ka * g,
                aa == (if a < 0 { -a } else { a }),
                bb == (if b < 0 { -b } else { b }),
        ;
        // No greater than any positive common multiple.
        let (u, v) = lemma_bezout(aa as nat, bb as nat);
        assert forall|m: int| m > 0 && divides(a, m) && divides(b, m) implies l <= m by {
            let x = choose|k: int| m == #[trigger] (k * a);
            let y = choose|k: int| m == #[trigger] (k * b);
            let xs: int = if a < 0 { -x } else { x };
            let ys: int = if b < 0 { -y } else { y };
            assert(m == xs * aa && m == ys * bb) by (nonlinear_arith)
                requires
                    m == x * a,
                    m == y * b,
                    aa == (if a < 0 { -a } else { a }),
                    bb == (if b < 0 { -b } else { b }),
                    xs == (if a < 0 { -x } else { x }),
                    ys == (if b < 0 { -y } else { y }),
            ;
            let c = u * ys + v * xs;
            let p = aa * bb;
            assert(m * g == u * (aa * m) + v * (bb * m)) by (nonlinear_arith)
                requires
                    u * aa + v * bb == g,
            ;
            assert(aa * m == p * ys) by (nonlinear_arith)
                requires
                    m == ys * bb,
                    p == aa * bb,
            ;
            assert(bb * m == p * xs) by (nonlinear_arith)
                requires
                    m == xs * aa,
                    p == aa * bb,
            ;
            assert(m * g == p * c) by (nonlinear_arith)
                requires
                    m * g == u * (aa * m) + v * (bb * m),
                    aa * m == p * ys,
                    bb * m == p * xs,
                    c == u * ys + v * xs,
            ;
            assert(p == l * g) by (nonlinear_arith)
                requires
                    p == aa * bb,
                    l == ka * bb,
                    aa == ka * g,
            ;
            assert(m * g == l * g * c) by (nonlinear_arith)
                requires
                    m * g == p * c,
                    p == l * g,
            ;
            assert(m == l * c) by (nonlinear_arith)
                requires
                    m * g == l * g * c,
                    g > 0,
            ;
            assert(l <= m) by (nonlinear_arith)
                requires
                    m == l * c,
                    m > 0,
                    l > 0,
            ;
        }
    }
}

/// `n!`, the product `1 * 2 * ... * n`.
pub open spec fn fact(n: nat) -> nat
    decreases n,
{
    if n == 0 {
        1
    } else {
        n * fact((n - 1) as nat)
    }
}

/// Factorials grow with their argument.
pub proof fn lemma_fact_mono(k: nat, n: nat)
    requires
        k <= n,
    ensures
        1 <= fact(k) <= fact(n),
    decreases n,
{
    if n > 0 && k < n {
        lemma_fact_mono(k, (n - 1) as nat);
        assert(n * fact((n - 1) as nat) >= fact((n - 1) as nat)) by (nonlinear_arith)
            requires
                n >= 1,
        ;
    } else if n > 0 {
        lemma_fact_mono((n - 1) as nat, (n - 1) as nat);
        assert(n * fact((n - 1) as nat) >= 1) by (nonlinear_arith)
            requires
                n >= 1,
                fact((n - 1) as nat) >= 1,
        ;
    }
}

/// Factorial. (`n!` must fit in a `u64`; the product panics on overflow.)
pub fn factorial(n: u64) -> (r: u64)
    requires
        fact(n as nat) <= u64::MAX,
    ensures
        r == fact(n as nat),
{
    let mut acc: u64 = 1;
    let mut i: u64 = 0;
    while i < n
        invariant
            i <= n,
            fact(n as nat) <= u64::MAX,
            acc == fact(i as nat),
        decreases n - i,
    {
        i += 1;
        proof {
            lemma_fact_mono(i as nat, n as nat);
            assert(fact(i as nat) == i * fact((i - 1) as nat));
            assert(acc * i == i * acc) by (nonlinear_arith);
        }
        acc = acc * i;
    }
    acc
}

} // verus!
