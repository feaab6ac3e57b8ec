use vstd::prelude::*;

verus! {

/// Coefficients and points are residues modulo a prime `p` below 2^63; the
/// prime itself is the caller's to choose.
pub open spec fn valid_modulus(p: u64) -> bool {
    2 <= p < 0x8000_0000_0000_0000
}

pub open spec fn reduced(s: Seq<u64>, p: u64) -> bool {
    forall|i: int| 0 <= i < s.len() ==> #[trigger] s[i] < p
}

/// `first * base^i` in the field.
pub open spec fn power_at(first: u64, base: u64, p: u64, i: nat) -> nat
    decreases i,
{
    if i == 0 {
        (first % p) as nat
    } else {
        (power_at(first, base, p, (i - 1) as nat) * base % (p as int)) as nat
    }
}

/// `sum of s[j] * first * base^j` over `j < i`, in the field.
pub open spec fn eval_prefix(s: Seq<u64>, first: u64, base: u64, p: u64, i: nat) -> nat
    decreases i,
{
    if i == 0 {
        0
    } else {
        ((eval_prefix(s, first, base, p, (i - 1) as nat) + s[i - 1] * power_at(
            first,
            base,
            p,
            (i - 1) as nat,
        )) % (p as int)) as nat
    }
}

/// The quotient of dividing the polynomial `a` (coefficient `i` at `x^i`)
/// by `x - b`, coefficient `j`: `a[j+1] + b * q[j+1]`, the last being
/// the leading coefficient of `a`.
pub open spec fn quotient_at(a: Seq<u64>, b: u64, p: u64, j: int) -> nat
    decreases a.len() - j,
{
    if j >= a.len() - 2 {
        (a[a.len() - 1] % p) as nat
    } else {
        ((a[j + 1] + b * quotient_at(a, b, p, j + 1)) % (p as int)) as nat
    }
}

fn mul_mod(a: u64, b: u64, p: u64) -> (r: u64)
    requires
        valid_modulus(p),
    ensures
        r == (a as int * b as int) % (p as int),
        r < p,
{
    proof {
        assert(a as int * b as int <= 0xffff_ffff_ffff_ffff * 0xffff_ffff_ffff_ffff) by (nonlinear_arith)
            requires
                a <= 0xffff_ffff_ffff_ffff,
                b <= 0xffff_ffff_ffff_ffff,
        ;
    }
    let x = (a as u128) * (b as u128);
    proof {
        assert(x == a as int * b as int) by (nonlinear_arith)
            requires
                x == (a as u128) * (b as u128),
        ;
    }
    (x % (p as u128)) as u64
}

fn add_mod(a: u64, b: u64, p: u64) -> (r: u64)
    requires
        valid_modulus(p),
        a < p,
        b < p,
    ensures
        r == (a + b) % (p as int),
        r < p,
{
    (a + b) % p
}

/// Adds `b` to `a`, coefficient by coefficient.
pub fn add_polynomials(a: &mut Vec<u64>, b: &[u64], p: u64)
    requires
        valid_modulus(p),
        old(a)@.len() == b@.len(),
        reduced(old(a)@, p),
        reduced(b@, p),
    ensures
        final(a)@.len() == old(a)@.len(),
        forall|i: int| 0 <= i < final(a)@.len() ==> #[trigger] final(a)@[i] == (old(a)@[i] + b@[i]) % (p as int),
{
    let n = a.len();
    let mut i: usize = 0;
    while i < n
        invariant
            valid_modulus(p),
            n == a@.len(),
            n == b@.len(),
            n == old(a)@.len(),
            i <= n,
            forall|j: int| 0 <= j < i ==> #[trigger] a@[j] == (old(a)@[j] + b@[j]) % (p as int),
            forall|j: int| i <= j < n ==> #[trigger] a@[j] == old(a)@[j],
            reduced(old(a)@, p),
            reduced(b@, p),
        decreases n - i,
    {
        assert(old(a)@[i as int] < p && b@[i as int] < p) by {
            assert(reduced(old(a)@, p));
            assert(reduced(b@, p));
            assert(0 <= i < old(a)@.len());
        }
        let v = add_mod(a[i], b[i], p);
        a.set(i, v);
        i = i + 1;
    }
}

/// Multiplies every coefficient of `a` by `b`.
pub fn mul_polynomial_by_scalar(a: &mut Vec<u64>, b: u64, p: u64)
    requires
        valid_modulus(p),
    ensures
        final(a)@.len() == old(a)@.len(),
        forall|i: int| 0 <= i < final(a)@.len() ==> #[trigger] final(a)@[i] == (old(a)@[i] * b) % (p as int),
{
    let n = a.len();
    let mut i: usize = 0;
    while i < n
        invariant
            valid_modulus(p),
            n == a@.len(),
            i <= n,
            forall|j: int| 0 <= j < i ==> #[trigger] a@[j] == (old(a)@[j] * b) % (p as int),
            forall|j: int| i <= j < n ==> #[trigger] a@[j] == old(a)@[j],
        decreases n - i,
    {
        let v = mul_mod(a[i], b, p);
        a.set(i, v);
        i = i + 1;
    }
}

/// Adds `c` times `b` to `a`, coefficient by coefficient.
pub fn mul_add_polynomials(a: &mut Vec<u64>, b: &[u64], c: u64, p: u64)
    requires
        valid_modulus(p),
        old(a)@.len() == b@.len(),
        reduced(old(a)@, p),
    ensures
        final(a)@.len() == old(a)@.len(),
        forall|i: int| 0 <= i < final(a)@.len() ==> #[trigger] final(a)@[i] == (old(a)@[i] + (b@[i] * c)
            % (p as int)) % (p as int),
{
    let n = a.len();
    let mut i: usize = 0;
    while i < n
        invariant
            valid_modulus(p),
            n == a@.len(),
            n == b@.len(),
            n == old(a)@.len(),
            i <= n,
            forall|j: int| 0 <= j < i ==> #[trigger] a@[j] == (old(a)@[j] + (b@[j] * c) % (p as int)) % (
            p as int),
            forall|j: int| i <= j < n ==> #[trigger] a@[j] == old(a)@[j],
            reduced(old(a)@, p),
        decreases n - i,
    {
        let r = mul_mod(b[i], c, p);
        assert(old(a)@[i as int] < p) by {
            assert(reduced(old(a)@, p));
            assert(0 <= i < old(a)@.len());
        }
        let v = add_mod(a[i], r, p);
        a.set(i, v);
        i = i + 1;
    }
}

/// `sum of coeffs[i] * first_power * base^i`, in the field.
pub fn evaluate_at_consequitive_powers(coeffs: &[u64], first_power: u64, base: u64, p: u64) -> (r: u64)
    requires
        valid_modulus(p),
    ensures
        r == eval_prefix(coeffs@, first_power, base, p, coeffs@.len()),
{
    let n = coeffs.len();
    let mut acc: u64 = 0;
    let mut current: u64 = first_power % p;
    let mut i: usize = 0;
    while i < n
        invariant
            valid_modulus(p),
            n == coeffs@.len(),
            i <= n,
            acc == eval_prefix(coeffs@, first_power, base, p, i as nat),
            current == power_at(first_power, base, p, i as nat),
            acc < p,
            current < p,
        decreases n - i,
    {
        let t = mul_mod(coeffs[i], current, p);
        acc = add_mod(acc, t, p);
        proof {
            lemma_add_mul_mod(
                eval_prefix(coeffs@, first_power, base, p, i as nat) as int,
                coeffs@[i as int] as int,
                current as int,
                p as int,
            );
        }
        current = mul_mod(current, base, p);
        i = i + 1;
    }
    acc
}

/// `(x + (y * z) % p) % p == (x + y * z) % p`
proof fn lemma_add_mul_mod(x: int, y: int, z: int, p: int)
    requires
        p > 0,
    ensures
        (x + (y * z) % p) % p == (x + y * z) % p,
{
    vstd::arithmetic::div_mod::lemma_add_mod_noop(x, y * z, p);
    vstd::arithmetic::div_mod::lemma_add_mod_noop(x, (y * z) % p, p);
    vstd::arithmetic::div_mod::lemma_mod_twice(y * z, p);
}

/// Multiplies every coefficient by its power `first_power * base^i` and
/// returns the sum of the products, in the field.
pub fn mut_evaluate_at_consequitive_powers(coeffs: &mut Vec<u64>, first_power: u64, base: u64, p: u64) -> (r: u64)
    requires
        valid_modulus(p),
    ensures
        final(coeffs)@.len() == old(coeffs)@.len(),
        forall|i: int| 0 <= i < final(coeffs)@.len() ==> #[trigger] final(coeffs)@[i] == (old(coeffs)@[i]
            * power_at(first_power, base, p, i as nat)) % (p as int),
        r == eval_prefix(old(coeffs)@, first_power, base, p, old(coeffs)@.len()),
{
    let n = coeffs.len();
    let mut acc: u64 = 0;
    let mut current: u64 = first_power % p;
    let mut i: usize = 0;
    while i < n
        invariant
            valid_modulus(p),
            n == coeffs@.len(),
            n == old(coeffs)@.len(),
            i <= n,
            acc == eval_prefix(old(coeffs)@, first_power, base, p, i as nat),
            current == power_at(first_power, base, p, i as nat),
            acc < p,
            current < p,
            forall|j: int| 0 <= j < i ==> #[trigger] coeffs@[j] == (old(coeffs)@[j] * power_at(
                first_power,
                base,
                p,
                j as nat,
            )) % (p as int),
            forall|j: int| i <= j < n ==> #[trigger] coeffs@[j] == old(coeffs)@[j],
        decreases n - i,
    {
        let t = mul_mod(coeffs[i], current, p);
        coeffs.set(i, t);
        acc = add_mod(acc, t, p);
        proof {
            lemma_add_mul_mod(
                eval_prefix(old(coeffs)@, first_power, base, p, i as nat) as int,
                old(coeffs)@[i as int] as int,
                current as int,
                p as int,
            );
        }
        current = mul_mod(current, base, p);
        i = i + 1;
    }
    acc
}

/// Multiplies every coefficient by its power `first_power * base^i`.
pub fn mut_distribute_consequitive_powers(coeffs: &mut Vec<u64>, first_power: u64, base: u64, p: u64)
    requires
        valid_modulus(p),
    ensures
        final(coeffs)@.len() == old(coeffs)@.len(),
        forall|i: int| 0 <= i < final(coeffs)@.len() ==> #[trigger] final(coeffs)@[i] == (old(coeffs)@[i]
            * power_at(first_power, base, p, i as nat)) % (p as int),
{
    let n = coeffs.len();
    let mut current: u64 = first_power % p;
    let mut i: usize = 0;
    while i < n
        invariant
            valid_modulus(p),
            n == coeffs@.len(),
            i <= n,
            current == power_at(first_power, base, p, i as nat),
            current < p,
            forall|j: int| 0 <= j < i ==> #[trigger] coeffs@[j] == (old(coeffs)@[j] * power_at(
                first_power,
                base,
                p,
                j as nat,
            )) % (p as int),
            forall|j: int| i <= j < n ==> #[trigger] coeffs@[j] == old(coeffs)@[j],
        decreases n - i,
    {
        let t = mul_mod(coeffs[i], current, p);
        coeffs.set(i, t);
        current = mul_mod(current, base, p);
        i = i + 1;
    }
}

/// Divides the polynomial `a` by `x - b`, dropping the remainder.
pub fn kate_divison(a: &[u64], b: u64, p: u64) -> (q: Vec<u64>)
    requires
        valid_modulus(p),
        a@.len() >= 1,
    ensures
        q@.len() == a@.len() - 1,
        forall|j: int| 0 <= j < q@.len() ==> #[trigger] q@[j] == quotient_at(a@, b, p, j),
{
    let n = a.len();
    let mut q: Vec<u64> = Vec::new();
    let mut k: usize = 0;
    while k < n - 1
        invariant
            valid_modulus(p),
            n == a@.len(),
            n >= 1,
            k <= n - 1,
            q@.len() == k,
        decreases n - 1 - k,
    {
        q.push(0);
        k = k + 1;
    }
    let mut tmp: u64 = 0;
    let mut j: usize = n - 1;
    while j > 0
        invariant
            valid_modulus(p),
            n == a@.len(),
            n >= 1,
            q@.len() == n - 1,
            j <= n - 1,
            tmp < p,
            j < n - 1 ==> tmp == quotient_at(a@, b, p, j as int),
            forall|i: int| j <= i < n - 1 ==> #[trigger] q@[i] == quotient_at(a@, b, p, i),
        decreases j,
    {
        let v = if j == n - 1 {
            a[n - 1] % p
        } else {
            add_mod(a[j] % p, mul_mod(b, tmp, p), p)
        };
        proof {
            if j < n - 1 {
                lemma_add_mul_mod_left(a@[j as int] as int, b as int, tmp as int, p as int);
            }
        }
        q.set(j - 1, v);
        tmp = v;
        j = j - 1;
    }
    q
}

/// `(x % p + (y * z) % p) % p == (x + y * z) % p`
proof fn lemma_add_mul_mod_left(x: int, y: int, z: int, p: int)
    requires
        p > 0,
    ensures
        (x % p + (y * z) % p) % p == (x + y * z) % p,
{
    vstd::arithmetic::div_mod::lemma_add_mod_noop(x, y * z, p);
}

/// The terms `a[t] * b[k - t]` for `t < i`, summed in the field.
pub open spec fn product_prefix(a: Seq<u64>, b: Seq<u64>, p: u64, k: int, i: int) -> nat
    decreases i,
{
    if i <= 0 {
        0
    } else {
        let t = i - 1;
        let term: int = if t < a.len() && 0 <= k - t < b.len() {
            a[t] * b[k - t]
        } else {
            0
        };
        ((product_prefix(a, b, p, k, t) + term) % (p as int)) as nat
    }
}

/// Coefficient `k` of the product of `a` and `b`.
pub open spec fn product_at(a: Seq<u64>, b: Seq<u64>, p: u64, k: int) -> nat {
    product_prefix(a, b, p, k, k + 1)
}

/// The product of two polynomials, coefficient by coefficient.
pub fn multiply_polynomials_serial(a: Vec<u64>, b: Vec<u64>, p: u64) -> (r: Vec<u64>)
    requires
        valid_modulus(p),
        a@.len() >= 1,
        b@.len() >= 1,
        a@.len() + b@.len() <= usize::MAX,
    ensures
        r@.len() == a@.len() + b@.len() - 1,
        forall|k: int| 0 <= k < r@.len() ==> #[trigger] r@[k] == product_at(a@, b@, p, k),
{
    let n = a.len() + b.len() - 1;
    let mut r: Vec<u64> = Vec::new();
    let mut k: usize = 0;
    while k < n
        invariant
            valid_modulus(p),
            n == a@.len() + b@.len() - 1,
            k <= n,
            r@.len() == k,
            forall|j: int| 0 <= j < k ==> #[trigger] r@[j] == product_at(a@, b@, p, j),
        decreases n - k,
    {
        let mut acc: u64 = 0;
        let mut i: usize = 0;
        while i <= k
            invariant
                valid_modulus(p),
                k < n,
                n == a@.len() + b@.len() - 1,
                i <= k + 1,
                acc == product_prefix(a@, b@, p, k as int, i as int),
                acc < p,
            decreases k + 1 - i,
        {
            if i < a.len() && k - i < b.len() {
                let t = mul_mod(a[i], b[k - i], p);
                proof {
                    lemma_add_mul_mod(
                        acc as int,
                        a@[i as int] as int,
                        b@[k - i] as int,
                        p as int,
                    );
                    vstd::arithmetic::div_mod::lemma_small_mod(acc as nat, p as nat);
                }
                acc = add_mod(acc, t, p);
            } else {
                proof {
                    vstd::arithmetic::div_mod::lemma_small_mod(acc as nat, p as nat);
                }
            }
            i = i + 1;
        }
        r.push(acc);
        k = k + 1;
    }
    r
}

} // verus!
