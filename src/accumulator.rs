//! Byte-level work on accumulator files. Contributing to an accumulator and
//! verifying a contribution are scalar multiplications and pairing checks on
//! curve points, which belong to the curve library of a deployment and are
//! not part of this crate; a coordinator learns their outcome and records it
//! with `Coordinator::verify_contribution` or
//! `Coordinator::reject_contribution`.

use vstd::prelude::*;

use crate::settings::{
    lemma_layout_covers_elements, vector_at, vector_index, Environment, ElementType, HASH_SIZE,
};

verus! {

/// `s` written `n` times in a row.
pub open spec fn repeat(s: Seq<u8>, n: nat) -> Seq<u8>
    decreases n,
{
    if n == 0 {
        Seq::empty()
    } else {
        repeat(s, (n - 1) as nat) + s
    }
}

/// The encoding of the generator that vector `e` is filled with.
pub open spec fn generator_for(e: ElementType, one_g1: Seq<u8>, one_g2: Seq<u8>) -> Seq<u8> {
    if e is TauG2 || e is BetaG2 {
        one_g2
    } else {
        one_g1
    }
}

/// The first `k` vectors of an empty accumulator for chunk `c`, after a
/// blank hash: every element is the generator of its group.
pub open spec fn initial_vectors(
    env: Environment,
    c: nat,
    one_g1: Seq<u8>,
    one_g2: Seq<u8>,
    k: nat,
) -> Seq<u8>
    decreases k,
{
    if k == 0 {
        Seq::new(HASH_SIZE as nat, |i: int| 0u8)
    } else {
        let e = vector_at((k - 1) as nat);
        initial_vectors(env, c, one_g1, one_g2, (k - 1) as nat) + repeat(
            generator_for(e, one_g1, one_g2),
            env.element_count(c, e),
        )
    }
}

proof fn lemma_repeat_len(s: Seq<u8>, n: nat)
    ensures
        repeat(s, n).len() == n * s.len(),
    decreases n,
{
    if n > 0 {
        let m = (n - 1) as nat;
        lemma_repeat_len(s, m);
        assert(repeat(s, n) == repeat(s, m) + s);
        assert(n * s.len() == m * s.len() + s.len()) by (nonlinear_arith)
            requires
                n == m + 1,
        ;
    } else {
        assert(n * s.len() == 0) by (nonlinear_arith)
            requires
                n == 0,
        ;
    }
}

proof fn lemma_initial_len(env: Environment, c: nat, compressed: bool, one_g1: Seq<u8>, one_g2: Seq<u8>, k: nat)
    requires
        one_g1.len() == env.element_width(compressed, ElementType::TauG1),
        one_g2.len() == env.element_width(compressed, ElementType::TauG2),
        k <= 5,
    ensures
        initial_vectors(env, c, one_g1, one_g2, k).len() == env.vectors_end(c, compressed, k),
    decreases k,
{
    if k > 0 {
        lemma_initial_len(env, c, compressed, one_g1, one_g2, (k - 1) as nat);
        let e = vector_at((k - 1) as nat);
        lemma_repeat_len(generator_for(e, one_g1, one_g2), env.element_count(c, e));
    }
}

fn append_bytes(out: &mut Vec<u8>, b: &[u8])
    ensures
        final(out)@ == old(out)@ + b@,
{
    let mut i: usize = 0;
    while i < b.len()
        invariant
            i <= b@.len(),
            out@ == old(out)@ + b@.subrange(0, i as int),
        decreases b@.len() - i,
    {
        out.push(b[i]);
        i = i + 1;
        assert(out@ =~= old(out)@ + b@.subrange(0, i as int));
    }
    assert(b@.subrange(0, b@.len() as int) =~= b@);
}

/// Appends `n` copies of `s`.
fn append_repeated(out: &mut Vec<u8>, s: &[u8], n: u64)
    ensures
        final(out)@ == old(out)@ + repeat(s@, n as nat),
{
    let mut j: u64 = 0;
    while j < n
        invariant
            j <= n,
            out@ == old(out)@ + repeat(s@, j as nat),
        decreases n - j,
    {
        append_bytes(out, s);
        j = j + 1;
        assert(out@ =~= old(out)@ + repeat(s@, j as nat));
    }
}

/// Writes the empty accumulator of chunk `c`: a blank hash, then every
/// element of every vector set to the generator of its group, given as
/// its encoding in the chosen compression.
pub fn initialization(
    environment: &Environment,
    c: u64,
    compressed: bool,
    one_g1: &[u8],
    one_g2: &[u8],
) -> (r: Vec<u8>)
    requires
        environment.wf(),
        one_g1@.len() == environment.element_width(compressed, ElementType::TauG1),
        one_g2@.len() == environment.element_width(compressed, ElementType::TauG2),
    ensures
        r@ == initial_vectors(*environment, c as nat, one_g1@, one_g2@, 5),
        r@.len() == HASH_SIZE + environment.elements_size(c as nat, compressed),
{
    let mut out: Vec<u8> = Vec::new();
    let mut i: u64 = 0;
    while i < HASH_SIZE
        invariant
            i <= HASH_SIZE,
            out@ == Seq::new(i as nat, |j: int| 0u8),
        decreases HASH_SIZE - i,
    {
        out.push(0);
        i = i + 1;
        assert(out@ =~= Seq::new(i as nat, |j: int| 0u8));
    }
    let order = [
        ElementType::TauG1,
        ElementType::TauG2,
        ElementType::AlphaG1,
        ElementType::BetaG1,
        ElementType::BetaG2,
    ];
    let mut k: usize = 0;
    while k < 5
        invariant
            environment.wf(),
            one_g1@.len() == environment.element_width(compressed, ElementType::TauG1),
            one_g2@.len() == environment.element_width(compressed, ElementType::TauG2),
            k <= 5,
            forall|j: int| 0 <= j < 5 ==> #[trigger] order@[j] == vector_at(j as nat),
            out@ == initial_vectors(*environment, c as nat, one_g1@, one_g2@, k as nat),
        decreases 5 - k,
    {
        let e = order[k];
        let (start, end) = environment.element_range(c, compressed, e);
        let s: &[u8] = match e {
            ElementType::TauG2 | ElementType::BetaG2 => one_g2,
            _ => one_g1,
        };
        proof {
            assert(vector_index(e) == k);
            assert(environment.element_width(compressed, e) == if e is TauG2 || e is BetaG2 {
                environment.element_width(compressed, ElementType::TauG2)
            } else {
                environment.element_width(compressed, ElementType::TauG1)
            });
            assert(s@ == generator_for(e, one_g1@, one_g2@));
            assert(environment.element_width(compressed, e) > 0);
        }
        let count = (end - start) / (s.len() as u64);
        proof {
            let w = environment.element_width(compressed, e);
            let n = environment.element_count(c as nat, e);
            assert(s@.len() == w);
            assert(w > 0);
            assert(end - start == n * w);
            assert((n * w) / w == n) by (nonlinear_arith)
                requires
                    w > 0,
            ;
        }
        append_repeated(&mut out, s, count);
        k = k + 1;
    }
    proof {
        lemma_initial_len(*environment, c as nat, compressed, one_g1@, one_g2@, 5);
        lemma_layout_covers_elements(*environment, c as nat, compressed);
    }
    out
}

} // verus!
