use phase1_coordinator::polynomial::{
    add_polynomials, evaluate_at_consequitive_powers, kate_divison, mul_add_polynomials,
    mul_polynomial_by_scalar, multiply_polynomials_serial, mut_distribute_consequitive_powers,
    mut_evaluate_at_consequitive_powers,
};

/// The Mersenne prime 2^61 - 1.
const P: u64 = (1 << 61) - 1;

fn mul(a: u64, b: u64) -> u64 {
    ((a as u128 * b as u128) % P as u128) as u64
}

fn add(a: u64, b: u64) -> u64 {
    (a + b) % P
}

fn sub(a: u64, b: u64) -> u64 {
    (a + P - b) % P
}

fn pow(mut base: u64, mut e: u64) -> u64 {
    let mut acc = 1;
    while e > 0 {
        if e & 1 == 1 {
            acc = mul(acc, base);
        }
        base = mul(base, base);
        e >>= 1;
    }
    acc
}

fn inverse(a: u64) -> u64 {
    pow(a, P - 2)
}

/// A reproducible stream of field elements.
fn samples(n: usize, seed: u64) -> Vec<u64> {
    let mut state = seed;
    (0..n)
        .map(|_| {
            state = state.wrapping_mul(6364136223846793005).wrapping_add(1442695040888963407);
            (state >> 3) % P
        })
        .collect()
}

#[test]
fn laurent_division() {
    let mut poly = vec![328947234, 3545623451111, 112, 55555, 1235685];

    fn eval(poly: &[u64], point: u64) -> u64 {
        let point_inv = inverse(point);
        let mut acc = 0;
        let mut tmp = 1;
        for p in &poly[2..] {
            acc = add(acc, mul(*p, tmp));
            tmp = mul(tmp, point);
        }
        let mut tmp = point_inv;
        for p in poly[0..2].iter().rev() {
            acc = add(acc, mul(*p, tmp));
            tmp = mul(tmp, point_inv);
        }
        acc
    }

    let x = 23;
    let z = 2000;

    let p_at_x = eval(&poly, x);
    let p_at_z = eval(&poly, z);

    // poly = poly(X) - poly(z)
    poly[2] = sub(poly[2], p_at_z);

    let quotient_poly = kate_divison(&poly, z, P);
    let quotient = eval(&quotient_poly, x);

    // quotient * (x - z) = p_at_x - p_at_z
    let lhs = mul(sub(x, z), quotient);
    let rhs = sub(p_at_x, p_at_z);
    assert_eq!(lhs, rhs);
}

#[test]
fn test_eval_at_powers() {
    const SAMPLES: usize = 100000;
    let a = samples(SAMPLES, 1);
    let x = samples(1, 2)[0];
    let n: u64 = 123456789;

    let mut acc = 0;
    let mut tmp = pow(x, n);
    for coeff in a.iter() {
        acc = add(acc, mul(*coeff, tmp));
        tmp = mul(tmp, x);
    }

    let first_power = pow(x, n);
    assert_eq!(evaluate_at_consequitive_powers(&a, first_power, x, P), acc);
}

#[test]
fn test_mut_eval_at_powers() {
    const SAMPLES: usize = 100000;
    let mut a = samples(SAMPLES, 3);
    let mut b = a.clone();
    let x = samples(1, 4)[0];
    let n: u64 = 987654321;

    let mut acc = 0;
    let mut tmp = pow(x, n);
    for coeff in a.iter_mut() {
        *coeff = mul(*coeff, tmp);
        acc = add(acc, *coeff);
        tmp = mul(tmp, x);
    }

    let first_power = pow(x, n);
    let acc_serial = mut_evaluate_at_consequitive_powers(&mut b, first_power, x, P);
    assert_eq!(acc_serial, acc);
    assert!(a == b);
}

#[test]
fn test_mut_distribute_powers() {
    const SAMPLES: usize = 100000;
    let mut a = samples(SAMPLES, 5);
    let mut b = a.clone();
    let x = samples(1, 6)[0];
    let n: u64 = 42;

    let mut tmp = pow(x, n);
    for coeff in a.iter_mut() {
        *coeff = mul(*coeff, tmp);
        tmp = mul(tmp, x);
    }

    let first_power = pow(x, n);
    mut_distribute_consequitive_powers(&mut b, first_power, x, P);
    assert!(a == b);
}

#[test]
fn coefficient_wise_operations() {
    let mut a = vec![1, P - 1, 5];
    add_polynomials(&mut a, &[2, 3, 0], P);
    assert_eq!(a, vec![3, 2, 5]);
    mul_polynomial_by_scalar(&mut a, 2, P);
    assert_eq!(a, vec![6, 4, 10]);
    mul_add_polynomials(&mut a, &[1, 1, P - 1], 3, P);
    assert_eq!(a, vec![9, 7, 7]);
}

#[test]
fn division_by_a_linear_factor() {
    // x^2 - 1 = (x - 1)(x + 1)
    assert_eq!(kate_divison(&[P - 1, 0, 1], 1, P), vec![1, 1]);
    assert_eq!(kate_divison(&[7], 3, P), Vec::<u64>::new());
}

#[test]
fn products_of_polynomials() {
    // (1 + 2x)(3 + x + x^2) = 3 + 7x + 3x^2 + 2x^3
    assert_eq!(multiply_polynomials_serial(vec![1, 2], vec![3, 1, 1], P), vec![3, 7, 3, 2]);
    // (x - 1)(x + 1) = x^2 - 1
    assert_eq!(multiply_polynomials_serial(vec![P - 1, 1], vec![1, 1], P), vec![P - 1, 0, 1]);
    let a = samples(100, 7);
    let b = samples(100, 8);
    let product = multiply_polynomials_serial(a.clone(), b.clone(), P);
    assert_eq!(product.len(), 199);
    // The product evaluated anywhere is the product of the evaluations.
    let x = 1234567;
    let at = |poly: &[u64]| evaluate_at_consequitive_powers(poly, 1, x, P);
    assert_eq!(at(&product), mul(at(&a), at(&b)));
}
