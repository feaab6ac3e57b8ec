use vstd::prelude::*;

use crate::locator::str_equals;
use crate::round::Participant;

verus! {

/// The pairing-friendly curve of a ceremony.
#[derive(Clone, Copy, Debug, PartialEq, Eq, Structural)]
pub enum CurveKind {
    Bls12_377,
    BW6,
}

/// Determines if point compression should be used.
#[derive(Clone, Copy, Debug, PartialEq, Eq, Structural)]
pub enum UseCompression {
    Yes,
    No,
}

/// Determines which checks are made on points that are read.
#[derive(Clone, Copy, Debug, PartialEq, Eq, Structural)]
pub enum CheckForCorrectness {
    Full,
    OnlyNonZero,
    OnlyInGroup,
    No,
}

/// The five element vectors of an accumulator.
#[derive(Clone, Copy, Debug, PartialEq, Eq, Structural)]
pub enum ElementType {
    TauG1,
    TauG2,
    AlphaG1,
    BetaG1,
    BetaG2,
}

#[derive(Clone, Copy, Debug, PartialEq, Eq, Structural)]
pub enum ProvingSystem {
    Groth16,
    Marlin,
}

/// Whether participants contribute to one chunk at a time or to the
/// whole accumulator.
#[derive(Clone, Copy, Debug, PartialEq, Eq, Structural)]
pub enum ContributionMode {
    Chunked,
    Full,
}

/// Where the coordinator runs; only a test deployment may reset its
/// round directories.
#[derive(Clone, Copy, Debug, PartialEq, Eq, Structural)]
pub enum Deployment {
    Test,
    Development,
    Production,
}

impl UseCompression {
    pub fn as_str(&self) -> (r: &'static str)
        ensures
            r@ == (match self {
                UseCompression::Yes => "Yes"@,
                UseCompression::No => "No"@,
            }),
    {
        match self {
            UseCompression::Yes => "Yes",
            UseCompression::No => "No",
        }
    }
}

impl CheckForCorrectness {
    pub fn as_str(&self) -> (r: &'static str)
        ensures
            r@ == (match self {
                CheckForCorrectness::Full => "Full"@,
                CheckForCorrectness::OnlyNonZero => "OnlyNonZero"@,
                CheckForCorrectness::OnlyInGroup => "OnlyInGroup"@,
                CheckForCorrectness::No => "No"@,
            }),
    {
        match self {
            CheckForCorrectness::Full => "Full",
            CheckForCorrectness::OnlyNonZero => "OnlyNonZero",
            CheckForCorrectness::OnlyInGroup => "OnlyInGroup",
            CheckForCorrectness::No => "No",
        }
    }
}

impl ElementType {
    pub fn as_str(&self) -> (r: &'static str)
        ensures
            r@ == (match self {
                ElementType::TauG1 => "TauG1"@,
                ElementType::TauG2 => "TauG2"@,
                ElementType::AlphaG1 => "AlphaG1"@,
                ElementType::BetaG1 => "BetaG1"@,
                ElementType::BetaG2 => "BetaG2"@,
            }),
    {
        match self {
            ElementType::TauG1 => "TauG1",
            ElementType::TauG2 => "TauG2",
            ElementType::AlphaG1 => "AlphaG1",
            ElementType::BetaG1 => "BetaG1",
            ElementType::BetaG2 => "BetaG2",
        }
    }
}

/// What `str::to_lowercase` makes of a string.
pub uninterp spec fn lower_of(s: Seq<char>) -> Seq<char>;

/// Relies on `str::to_lowercase`: its result depends on the characters alone.
#[verifier::external_body]
pub(crate) fn lowercase(s: &str) -> (r: String)
    ensures
        r@ == lower_of(s@),
{
    s.to_lowercase()
}

/// The curve that a name already in lower case stands for.
pub open spec fn curve_named(s: Seq<char>) -> Option<CurveKind> {
    if s == "bls12_377"@ {
        Some(CurveKind::Bls12_377)
    } else if s == "bw6"@ {
        Some(CurveKind::BW6)
    } else {
        None
    }
}

/// Reads a curve name that is already in lower case.
pub fn curve_from_lowercase(s: &str) -> (r: Result<CurveKind, String>)
    ensures
        curve_named(s@) is Some ==> r == Ok::<CurveKind, String>(curve_named(s@)->0),
        curve_named(s@) is None ==> r is Err && r->Err_0@ == "unsupported curve."@,
{
    if str_equals(s, "bls12_377") {
        Ok(CurveKind::Bls12_377)
    } else if str_equals(s, "bw6") {
        Ok(CurveKind::BW6)
    } else {
        Err(String::from_str("unsupported curve."))
    }
}

/// Reads a curve name, in any case.
pub fn curve_from_str(src: &str) -> (r: Result<CurveKind, String>)
    ensures
        curve_named(lower_of(src@)) is Some ==> r == Ok::<CurveKind, String>(
            curve_named(lower_of(src@))->0,
        ),
        curve_named(lower_of(src@)) is None ==> r is Err && r->Err_0@ == "unsupported curve."@,
{
    let lower = lowercase(src);
    curve_from_lowercase(lower.as_str())
}

/// Options for creating phase 2 parameters from phase 1.
#[derive(Clone, Debug)]
pub struct NewOpts {
    pub help: bool,
    /// The path to the phase 1 parameters.
    pub phase1: String,
    /// The total number of coefficients, in powers of 2, made by phase 1.
    pub phase1_size: u32,
    /// The name of the challenge file to create.
    pub output: String,
    /// The elliptic curve to use.
    pub curve_type: CurveKind,
    /// Whether to set up the inner circuit rather than the outer one.
    pub is_inner: bool,
}

impl NewOpts {
    pub fn new(phase1: String, phase1_size: u32, output: String, curve_type: CurveKind, is_inner: bool) -> (r: NewOpts)
        ensures
            !r.help,
            r.phase1 == phase1,
            r.phase1_size == phase1_size,
            r.output == output,
            r.curve_type == curve_type,
            r.is_inner == is_inner,
    {
        NewOpts { help: false, phase1, phase1_size, output, curve_type, is_inner }
    }
}

/// The largest power of two that a ceremony may use: the largest for which
/// the size of every file, up to five vectors of 2^(power + 1) elements of
/// 192 bytes, still fits in a `u64`.
pub const MAX_POWER: u64 = 50;

/// The settings of a ceremony.
#[derive(Clone, Debug)]
pub struct Environment {
    pub deployment: Deployment,
    pub curve: CurveKind,
    pub proving_system: ProvingSystem,
    pub contribution_mode: ContributionMode,
    pub power: u64,
    pub batch_size: u64,
    pub chunk_size: u64,
    pub number_of_chunks: u64,
    pub compressed_inputs: bool,
    pub compressed_outputs: bool,
    pub base_directory: String,
    pub coordinator_contributor: Participant,
    pub coordinator_verifier: Participant,
}

pub open spec fn pow2(n: nat) -> nat
    decreases n,
{
    if n == 0 {
        1
    } else {
        2 * pow2((n - 1) as nat)
    }
}

/// Byte widths of an encoded G1 and G2 element.
pub open spec fn element_sizes(curve: CurveKind, compressed: bool) -> (nat, nat) {
    match (curve, compressed) {
        (CurveKind::Bls12_377, true) => (48, 96),
        (CurveKind::Bls12_377, false) => (96, 192),
        (CurveKind::BW6, true) => (96, 96),
        (CurveKind::BW6, false) => (192, 192),
    }
}

/// The leading hash of the previous state in every accumulator file.
pub const HASH_SIZE: u64 = 64;

/// Lengths of the five vectors: tau G1, tau G2, alpha G1, beta G1, beta G2.
pub open spec fn vector_lengths(ps: ProvingSystem, power: nat) -> (nat, nat, nat, nat, nat) {
    let n = pow2(power);
    match ps {
        ProvingSystem::Groth16 => ((2 * n - 1) as nat, n, n, n, 1),
        ProvingSystem::Marlin => (n, power + 2, 3 + 3 * power, 0, 0),
    }
}

/// How many elements of a vector of length `len` chunk `c` covers.
pub open spec fn chunk_share(len: nat, c: nat, chunk_size: nat) -> nat {
    if c * chunk_size >= len {
        0
    } else if len - c * chunk_size < chunk_size {
        (len - c * chunk_size) as nat
    } else {
        chunk_size
    }
}

impl Environment {
    pub open spec fn wf(&self) -> bool {
        &&& 1 <= self.power <= MAX_POWER
        &&& 1 <= self.chunk_size <= pow2((MAX_POWER + 1) as nat)
        &&& 1 <= self.number_of_chunks
        &&& self.contribution_mode is Full ==> self.number_of_chunks == 1
    }

    /// Whether the settings are well formed, checked at run time.
    pub fn is_well_formed(&self) -> (r: bool)
        ensures
            r == self.wf(),
    {
        proof {
            lemma_pow2_bound(0);
        }
        1 <= self.power && self.power <= MAX_POWER && 1 <= self.chunk_size && self.chunk_size
            <= 0x8_0000_0000_0000 && 1 <= self.number_of_chunks && (self.contribution_mode
            == ContributionMode::Chunked || self.number_of_chunks == 1)
    }

    /// The elements of chunk `c` of vector length `len`.
    pub open spec fn share(&self, len: nat, c: nat) -> nat {
        if self.contribution_mode is Full {
            len
        } else {
            chunk_share(len, c, self.chunk_size as nat)
        }
    }

    /// Bytes of the elements of chunk `c`, in the given encoding.
    pub open spec fn elements_size(&self, c: nat, compressed: bool) -> nat {
        let (t1, t2, a1, b1, b2) = vector_lengths(self.proving_system, self.power as nat);
        let (g1, g2) = element_sizes(self.curve, compressed);
        (self.share(t1, c) + self.share(a1, c) + self.share(b1, c)) * g1 + (self.share(t2, c)
            + self.share(b2, c)) * g2
    }

    /// Bytes of a participant's public key: three pairs of G1 elements and
    /// three G2 elements, uncompressed.
    pub open spec fn public_key_size(&self) -> nat {
        let (g1, g2) = element_sizes(self.curve, false);
        6 * g1 + 3 * g2
    }

    /// The size of a contribution file of chunk `c`; a compressed file
    /// carries the public key, but for the initial one.
    pub open spec fn contribution_file_size(&self, c: nat, is_initial: bool) -> nat {
        if self.compressed_outputs {
            (HASH_SIZE as nat + self.elements_size(c, true) + if is_initial {
                0
            } else {
                self.public_key_size()
            }) as nat
        } else {
            (HASH_SIZE as nat + self.elements_size(c, false)) as nat
        }
    }

    /// The size of the aggregated file of a round.
    pub open spec fn round_file_size(&self, is_initial: bool) -> nat {
        let (t1, t2, a1, b1, b2) = vector_lengths(self.proving_system, self.power as nat);
        let (g1, g2) = element_sizes(self.curve, self.compressed_inputs);
        let elements = (t1 + a1 + b1) * g1 + (t2 + b2) * g2;
        if self.compressed_inputs {
            (HASH_SIZE as nat + elements + if is_initial {
                0
            } else {
                self.public_key_size()
            }) as nat
        } else {
            (HASH_SIZE as nat + elements) as nat
        }
    }
}

proof fn lemma_pow2_bound(n: nat)
    requires
        n <= MAX_POWER + 1,
    ensures
        1 <= pow2(n) <= pow2((MAX_POWER + 1) as nat),
        pow2((MAX_POWER + 1) as nat) == 0x8_0000_0000_0000,
    decreases MAX_POWER + 1 - n,
{
    reveal_with_fuel(pow2, 52);
    if n < MAX_POWER + 1 {
        lemma_pow2_bound(n + 1);
        assert(pow2(n + 1) == 2 * pow2(n));
    }
}

fn pow2_of(n: u64) -> (r: u64)
    requires
        n <= MAX_POWER + 1,
    ensures
        r == pow2(n as nat),
{
    let mut r: u64 = 1;
    let mut i: u64 = 0;
    while i < n
        invariant
            i <= n <= MAX_POWER + 1,
            r == pow2(i as nat),
        decreases n - i,
    {
        proof {
            lemma_pow2_bound((i + 1) as nat);
            assert(pow2((i + 1) as nat) == 2 * pow2(i as nat));
        }
        r = r * 2;
        i = i + 1;
    }
    r
}

/// A bound on every vector length, in elements.
pub const MAX_VECTOR: u64 = 0x10_0000_0000_0000;

impl Environment {
    fn vector_lengths_of(&self) -> (r: (u64, u64, u64, u64, u64))
        requires
            self.wf(),
        ensures
            r.0 == vector_lengths(self.proving_system, self.power as nat).0,
            r.1 == vector_lengths(self.proving_system, self.power as nat).1,
            r.2 == vector_lengths(self.proving_system, self.power as nat).2,
            r.3 == vector_lengths(self.proving_system, self.power as nat).3,
            r.4 == vector_lengths(self.proving_system, self.power as nat).4,
            r.0 <= MAX_VECTOR && r.1 <= MAX_VECTOR && r.2 <= MAX_VECTOR && r.3 <= MAX_VECTOR
                && r.4 <= MAX_VECTOR,
    {
        proof {
            lemma_pow2_bound(self.power as nat);
        }
        let n = pow2_of(self.power);
        match self.proving_system {
            ProvingSystem::Groth16 => (2 * n - 1, n, n, n, 1),
            ProvingSystem::Marlin => (n, self.power + 2, 3 + 3 * self.power, 0, 0),
        }
    }

    fn share_of(&self, len: u64, c: u64) -> (r: u64)
        requires
            self.wf(),
        ensures
            r == self.share(len as nat, c as nat),
            r <= len,
    {
        if self.contribution_mode == ContributionMode::Full {
            return len;
        }
        let cs = self.chunk_size;
        if c > len / cs {
            proof {
                assert(c * cs >= len) by (nonlinear_arith)
                    requires
                        c >= len / cs + 1,
                        cs >= 1,
                ;
            }
            return 0;
        }
        proof {
            assert(c * cs <= len) by (nonlinear_arith)
                requires
                    c <= len / cs,
                    cs >= 1,
            ;
        }
        let offset = c * cs;
        if offset >= len {
            0
        } else if len - offset < cs {
            len - offset
        } else {
            cs
        }
    }

    fn elements_size_of(&self, c: u64, compressed: bool) -> (r: u64)
        requires
            self.wf(),
        ensures
            r == self.elements_size(c as nat, compressed),
            r <= 1000 * MAX_VECTOR,
    {
        let (t1, t2, a1, b1, b2) = self.vector_lengths_of();
        let (g1, g2): (u64, u64) = match (self.curve, compressed) {
            (CurveKind::Bls12_377, true) => (48, 96),
            (CurveKind::Bls12_377, false) => (96, 192),
            (CurveKind::BW6, true) => (96, 96),
            (CurveKind::BW6, false) => (192, 192),
        };
        let ones = self.share_of(t1, c) + self.share_of(a1, c) + self.share_of(b1, c);
        let twos = self.share_of(t2, c) + self.share_of(b2, c);
        proof {
            assert(ones * g1 <= 3 * MAX_VECTOR * 192) by (nonlinear_arith)
                requires
                    ones <= 3 * MAX_VECTOR,
                    g1 <= 192,
            ;
            assert(twos * g2 <= 2 * MAX_VECTOR * 192) by (nonlinear_arith)
                requires
                    twos <= 2 * MAX_VECTOR,
                    g2 <= 192,
            ;
        }
        ones * g1 + twos * g2
    }

    fn public_key_size_of(&self) -> (r: u64)
        ensures
            r == self.public_key_size(),
    {
        match self.curve {
            CurveKind::Bls12_377 => 6 * 96 + 3 * 192,
            CurveKind::BW6 => 6 * 192 + 3 * 192,
        }
    }

    /// The size in bytes of a contribution file of chunk `c`.
    pub fn contribution_size(&self, c: u64, is_initial: bool) -> (r: u64)
        requires
            self.wf(),
        ensures
            r == self.contribution_file_size(c as nat, is_initial),
    {
        if self.compressed_outputs {
            let pk = if is_initial {
                0
            } else {
                self.public_key_size_of()
            };
            HASH_SIZE + self.elements_size_of(c, true) + pk
        } else {
            HASH_SIZE + self.elements_size_of(c, false)
        }
    }

    /// The size in bytes of the aggregated file of a round.
    pub fn round_size(&self, is_initial: bool) -> (r: u64)
        requires
            self.wf(),
        ensures
            r == self.round_file_size(is_initial),
    {
        let (t1, t2, a1, b1, b2) = self.vector_lengths_of();
        let (g1, g2): (u64, u64) = match (self.curve, self.compressed_inputs) {
            (CurveKind::Bls12_377, true) => (48, 96),
            (CurveKind::Bls12_377, false) => (96, 192),
            (CurveKind::BW6, true) => (96, 96),
            (CurveKind::BW6, false) => (192, 192),
        };
        let ones = t1 + a1 + b1;
        let twos = t2 + b2;
        proof {
            assert(ones * g1 <= 3 * MAX_VECTOR * 192) by (nonlinear_arith)
                requires
                    ones <= 3 * MAX_VECTOR,
                    g1 <= 192,
            ;
            assert(twos * g2 <= 2 * MAX_VECTOR * 192) by (nonlinear_arith)
                requires
                    twos <= 2 * MAX_VECTOR,
                    g2 <= 192,
            ;
        }
        let elements = ones * g1 + twos * g2;
        if self.compressed_inputs {
            let pk = if is_initial {
                0
            } else {
                self.public_key_size_of()
            };
            HASH_SIZE + elements + pk
        } else {
            HASH_SIZE + elements
        }
    }
}

/// The position of a vector in an accumulator file.
pub open spec fn vector_index(e: ElementType) -> nat {
    match e {
        ElementType::TauG1 => 0,
        ElementType::TauG2 => 1,
        ElementType::AlphaG1 => 2,
        ElementType::BetaG1 => 3,
        ElementType::BetaG2 => 4,
    }
}

pub open spec fn vector_at(k: nat) -> ElementType {
    if k == 0 {
        ElementType::TauG1
    } else if k == 1 {
        ElementType::TauG2
    } else if k == 2 {
        ElementType::AlphaG1
    } else if k == 3 {
        ElementType::BetaG1
    } else {
        ElementType::BetaG2
    }
}

impl Environment {
    /// Elements of vector `e` in chunk `c`.
    pub open spec fn element_count(&self, c: nat, e: ElementType) -> nat {
        let (t1, t2, a1, b1, b2) = vector_lengths(self.proving_system, self.power as nat);
        match e {
            ElementType::TauG1 => self.share(t1, c),
            ElementType::TauG2 => self.share(t2, c),
            ElementType::AlphaG1 => self.share(a1, c),
            ElementType::BetaG1 => self.share(b1, c),
            ElementType::BetaG2 => self.share(b2, c),
        }
    }

    /// Bytes of one element of vector `e`.
    pub open spec fn element_width(&self, compressed: bool, e: ElementType) -> nat {
        let (g1, g2) = element_sizes(self.curve, compressed);
        if e is TauG2 || e is BetaG2 {
            g2
        } else {
            g1
        }
    }

    /// Where the first `k` vectors of chunk `c` end: they follow the hash,
    /// in the order tau G1, tau G2, alpha G1, beta G1, beta G2.
    pub open spec fn vectors_end(&self, c: nat, compressed: bool, k: nat) -> nat
        decreases k,
    {
        if k == 0 {
            HASH_SIZE as nat
        } else {
            self.vectors_end(c, compressed, (k - 1) as nat) + self.element_count(
                c,
                vector_at((k - 1) as nat),
            ) * self.element_width(compressed, vector_at((k - 1) as nat))
        }
    }

    /// The byte range of vector `e` in a file of chunk `c`.
    pub fn element_range(&self, c: u64, compressed: bool, e: ElementType) -> (r: (u64, u64))
        requires
            self.wf(),
        ensures
            r.0 == self.vectors_end(c as nat, compressed, vector_index(e)),
            r.1 == self.vectors_end(c as nat, compressed, vector_index(e) + 1),
            r.1 == r.0 + self.element_count(c as nat, e) * self.element_width(compressed, e),
    {
        let (t1, t2, a1, b1, b2) = self.vector_lengths_of();
        let (g1, g2): (u64, u64) = match (self.curve, compressed) {
            (CurveKind::Bls12_377, true) => (48, 96),
            (CurveKind::Bls12_377, false) => (96, 192),
            (CurveKind::BW6, true) => (96, 96),
            (CurveKind::BW6, false) => (192, 192),
        };
        let counts = [
            self.share_of(t1, c),
            self.share_of(t2, c),
            self.share_of(a1, c),
            self.share_of(b1, c),
            self.share_of(b2, c),
        ];
        let widths = [g1, g2, g1, g1, g2];
        let target: usize = match e {
            ElementType::TauG1 => 0,
            ElementType::TauG2 => 1,
            ElementType::AlphaG1 => 2,
            ElementType::BetaG1 => 3,
            ElementType::BetaG2 => 4,
        };
        let mut start: u64 = HASH_SIZE;
        let mut k: usize = 0;
        while k < target
            invariant
                self.wf(),
                k <= target < 5,
                target == vector_index(e),
                start == self.vectors_end(c as nat, compressed, k as nat),
                start <= 64 + k * 0xC00_0000_0000_0000,
                forall|j: int| 0 <= j < 5 ==> #[trigger] counts@[j] == self.element_count(c as nat, vector_at(j as nat)),
                forall|j: int| 0 <= j < 5 ==> #[trigger] widths@[j] == self.element_width(compressed, vector_at(j as nat)),
                forall|j: int| 0 <= j < 5 ==> #[trigger] counts@[j] <= MAX_VECTOR && widths@[j] <= 192,
            decreases target - k,
        {
            proof {
                assert(counts@[k as int] * widths@[k as int] <= 0xC00_0000_0000_0000) by (nonlinear_arith)
                    requires
                        counts@[k as int] <= MAX_VECTOR,
                        widths@[k as int] <= 192,
                ;
            }
            start = start + counts[k] * widths[k];
            k = k + 1;
        }
        proof {
            assert(counts@[k as int] * widths@[k as int] <= 0xC00_0000_0000_0000) by (nonlinear_arith)
                requires
                    counts@[k as int] <= MAX_VECTOR,
                    widths@[k as int] <= 192,
            ;
            assert(vector_at(vector_index(e)) == e);
        }
        (start, start + counts[target] * widths[target])
    }
}

/// The five vectors of a chunk's file, laid end to end after the hash, take
/// exactly the bytes of the chunk's elements.
pub proof fn lemma_layout_covers_elements(env: Environment, c: nat, compressed: bool)
    ensures
        env.vectors_end(c, compressed, 5) == HASH_SIZE + env.elements_size(c, compressed),
{
    reveal_with_fuel(Environment::vectors_end, 6);
    let (t1, t2, a1, b1, b2) = vector_lengths(env.proving_system, env.power as nat);
    let (g1, g2) = element_sizes(env.curve, compressed);
    let (s1, s2, s3, s4, s5) = (env.share(t1, c), env.share(t2, c), env.share(a1, c), env.share(b1, c), env.share(b2, c));
    assert(s1 * g1 + s2 * g2 + s3 * g1 + s4 * g1 + s5 * g2 == (s1 + s3 + s4) * g1 + (s2 + s5) * g2) by (nonlinear_arith);
}

/// A development ceremony: 64 chunks over powers up to 2^16, in batches of
/// 512 elements.
pub fn development(base_directory: String, coordinator_contributor: Participant, coordinator_verifier: Participant) -> (r: Environment)
    ensures
        r.wf(),
        r.deployment == Deployment::Development,
        r.number_of_chunks == 64,
        r.power == 16,
        r.batch_size == 512,
        r.base_directory == base_directory,
        r.coordinator_contributor == coordinator_contributor,
        r.coordinator_verifier == coordinator_verifier,
{
    proof {
        lemma_pow2_bound(17);
        reveal_with_fuel(pow2, 18);
    }
    Environment {
        deployment: Deployment::Development,
        curve: CurveKind::Bls12_377,
        proving_system: ProvingSystem::Groth16,
        contribution_mode: ContributionMode::Chunked,
        power: 16,
        batch_size: 512,
        chunk_size: 2048,
        number_of_chunks: 64,
        compressed_inputs: false,
        compressed_outputs: true,
        base_directory,
        coordinator_contributor,
        coordinator_verifier,
    }
}

} // verus!
