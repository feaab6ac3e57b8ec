use vstd::prelude::*;

use crate::errors::CoordinatorError;

verus! {

/// A stored artifact of the ceremony.
#[derive(Clone, Copy, Debug, PartialEq, Eq, Structural)]
pub enum Locator {
    /// The current round height.
    RoundHeight,
    /// The serialized state of the round at the given height.
    RoundState(u64),
    /// The aggregated transcript of the round at the given height.
    RoundFile(u64),
    /// A contribution file: round height, chunk id, contribution id, verified.
    ContributionFile(u64, u64, u64, bool),
}

/// Contribution 0 continues the previous round and is always stored as
/// verified, so a locator that names it unverified has no file of its own.
pub open spec fn well_formed(l: Locator) -> bool {
    match l {
        Locator::ContributionFile(_, _, id, verified) => id == 0 ==> verified,
        _ => true,
    }
}

pub open spec fn is_digit(c: char) -> bool {
    '0' <= c && c <= '9'
}

pub open spec fn digit_char(d: nat) -> char {
    if d == 0 {
        '0'
    } else if d == 1 {
        '1'
    } else if d == 2 {
        '2'
    } else if d == 3 {
        '3'
    } else if d == 4 {
        '4'
    } else if d == 5 {
        '5'
    } else if d == 6 {
        '6'
    } else if d == 7 {
        '7'
    } else if d == 8 {
        '8'
    } else {
        '9'
    }
}

pub open spec fn digit_value(c: char) -> nat {
    if c == '0' {
        0
    } else if c == '1' {
        1
    } else if c == '2' {
        2
    } else if c == '3' {
        3
    } else if c == '4' {
        4
    } else if c == '5' {
        5
    } else if c == '6' {
        6
    } else if c == '7' {
        7
    } else if c == '8' {
        8
    } else {
        9
    }
}

/// The decimal notation of `n`, without leading zeros.
pub open spec fn decimal(n: nat) -> Seq<char>
    decreases n,
{
    if n < 10 {
        seq![digit_char(n)]
    } else {
        decimal(n / 10).push(digit_char(n % 10))
    }
}

/// The number that a string of digits denotes.
pub open spec fn digits_value(s: Seq<char>) -> nat
    decreases s.len(),
{
    if s.len() == 0 {
        0
    } else {
        digits_value(s.drop_last()) * 10 + digit_value(s.last())
    }
}

pub open spec fn round_directory_key(h: u64) -> Seq<char> {
    "round_"@ + decimal(h as nat)
}

pub open spec fn chunk_directory_key(h: u64, c: u64) -> Seq<char> {
    round_directory_key(h) + "/chunk_"@ + decimal(c as nat)
}

pub open spec fn contribution_extension(id: u64, verified: bool) -> Seq<char> {
    if verified || id == 0 {
        ".verified"@
    } else {
        ".unverified"@
    }
}

/// The storage key of a locator, relative to the base directory.
pub open spec fn key_of(l: Locator) -> Seq<char> {
    match l {
        Locator::RoundHeight => "round_height"@,
        Locator::RoundState(h) => round_directory_key(h) + "/state.json"@,
        Locator::RoundFile(h) => round_directory_key(h) + "/round_"@ + decimal(h as nat)
            + ".verified"@,
        Locator::ContributionFile(h, c, id, v) => chunk_directory_key(h, c) + "/contribution_"@
            + decimal(id as nat) + contribution_extension(id, v),
    }
}

/// The full path of a locator under a base directory.
pub open spec fn path_of(base: Seq<char>, l: Locator) -> Seq<char> {
    base + "/"@ + key_of(l)
}

/// What parsing a key promises: a locator comes back exactly when some
/// well-formed locator has that key, and it is one whose key it is.
pub open spec fn parses_key(key: Seq<char>, r: Result<Locator, CoordinatorError>) -> bool {
    &&& r is Ok ==> well_formed(r->Ok_0) && key_of(r->Ok_0) == key
    &&& r is Err ==> r == Err::<Locator, CoordinatorError>(CoordinatorError::LocatorFormatIncorrect)
    &&& (exists|l: Locator| well_formed(l) && key_of(l) == key) ==> r is Ok
}

proof fn lemma_decimal_digits(n: nat)
    ensures
        decimal(n).len() >= 1,
        forall|i: int| 0 <= i < decimal(n).len() ==> is_digit(#[trigger] decimal(n)[i]),
        n >= 10 ==> decimal(n).len() >= 2,
    decreases n,
{
    if n >= 10 {
        lemma_decimal_digits(n / 10);
    }
}

proof fn lemma_decimal_injective(n: nat, m: nat)
    requires
        decimal(n) == decimal(m),
    ensures
        n == m,
    decreases n,
{
    lemma_decimal_digits(n);
    lemma_decimal_digits(m);
    if n >= 10 && m >= 10 {
        assert(decimal(n).drop_last() == decimal(n / 10));
        assert(decimal(m).drop_last() == decimal(m / 10));
        lemma_decimal_injective(n / 10, m / 10);
        assert(decimal(n).last() == digit_char(n % 10));
        assert(decimal(m).last() == digit_char(m % 10));
    } else if n < 10 && m < 10 {
        assert(decimal(n)[0] == digit_char(n));
    }
}

proof fn lemma_decimal_value(n: nat)
    ensures
        digits_value(decimal(n)) == n,
    decreases n,
{
    let d = n % 10;
    assert(digit_value(digit_char(d)) == d);
    assert(n == (n / 10) * 10 + d);
    assert(digits_value(decimal(n)) == digits_value(decimal(n).drop_last()) * 10 + digit_value(
        decimal(n).last(),
    ));
    if n >= 10 {
        lemma_decimal_value(n / 10);
        assert(decimal(n).drop_last() == decimal(n / 10));
        assert(decimal(n).last() == digit_char(d));
    } else {
        assert(decimal(n).drop_last() =~= Seq::<char>::empty());
        assert(decimal(n).last() == digit_char(d));
    }
}

proof fn lemma_prefix_value_le(s: Seq<char>, j: int)
    requires
        0 <= j <= s.len(),
    ensures
        digits_value(s.take(j)) <= digits_value(s),
    decreases s.len(),
{
    if j < s.len() {
        assert(s.drop_last().take(j) == s.take(j));
        lemma_prefix_value_le(s.drop_last(), j);
    } else {
        assert(s.take(j) == s);
    }
}

/// A number followed by a non-digit splits in one way only.
proof fn lemma_split_number(n1: nat, x1: Seq<char>, n2: nat, x2: Seq<char>)
    requires
        decimal(n1) + x1 == decimal(n2) + x2,
        x1.len() > 0 && !is_digit(x1[0]),
        x2.len() > 0 && !is_digit(x2[0]),
    ensures
        n1 == n2,
        x1 == x2,
{
    lemma_decimal_digits(n1);
    lemma_decimal_digits(n2);
    let a = decimal(n1) + x1;
    let b = decimal(n2) + x2;
    let l1 = decimal(n1).len();
    let l2 = decimal(n2).len();
    if l1 < l2 {
        assert(a[l1 as int] == x1[0]);
        assert(b[l1 as int] == decimal(n2)[l1 as int]);
    } else if l2 < l1 {
        assert(b[l2 as int] == x2[0]);
        assert(a[l2 as int] == decimal(n1)[l2 as int]);
    } else {
        assert(decimal(n1) == a.take(l1 as int));
        assert(decimal(n2) == b.take(l2 as int));
        lemma_decimal_injective(n1, n2);
        assert(x1 == a.skip(l1 as int));
        assert(x2 == b.skip(l2 as int));
    }
}

/// Two well-formed locators with the same key are the same locator.
pub proof fn lemma_key_injective(l1: Locator, l2: Locator)
    requires
        well_formed(l1),
        well_formed(l2),
        key_of(l1) == key_of(l2),
    ensures
        l1 == l2,
{
    reveal_strlit("round_height");
    let k = key_of(l1);
    if l1 is RoundHeight && l2 is RoundHeight {
    } else if l1 is RoundHeight || l2 is RoundHeight {
        let l = if l1 is RoundHeight { l2 } else { l1 };
        lemma_shape(l);
        lemma_decimal_digits(round_height_of(l) as nat);
        assert(k.subrange(6, k.len() as int)[0] == k[6]);
        assert("round_height"@[6] == 'h');
    } else {
        lemma_shape(l1);
        lemma_shape(l2);
        let h1 = round_height_of(l1);
        let h2 = round_height_of(l2);
        lemma_split_number(h1 as nat, after_round_number(l1), h2 as nat, after_round_number(l2));
        lemma_same_tail(l1, l2);
    }
}

/// Parsing the key of a well-formed locator gives that locator back.
pub proof fn lemma_locator_round_trip(l: Locator, r: Result<Locator, CoordinatorError>)
    requires
        well_formed(l),
        parses_key(key_of(l), r),
    ensures
        r == Ok::<Locator, CoordinatorError>(l),
{
    assert(well_formed(l) && key_of(l) == key_of(l));
    lemma_key_injective(r->Ok_0, l);
}

spec fn round_height_of(l: Locator) -> u64 {
    match l {
        Locator::RoundHeight => 0,
        Locator::RoundState(h) => h,
        Locator::RoundFile(h) => h,
        Locator::ContributionFile(h, _, _, _) => h,
    }
}

/// What follows the round number in a key.
spec fn after_round_number(l: Locator) -> Seq<char> {
    match l {
        Locator::RoundHeight => Seq::empty(),
        Locator::RoundState(h) => "/state.json"@,
        Locator::RoundFile(h) => "/round_"@ + decimal(h as nat) + ".verified"@,
        Locator::ContributionFile(h, c, id, v) => "/chunk_"@ + decimal(c as nat) + "/contribution_"@
            + decimal(id as nat) + contribution_extension(id, v),
    }
}

proof fn lemma_same_tail(l1: Locator, l2: Locator)
    requires
        !(l1 is RoundHeight),
        !(l2 is RoundHeight),
        well_formed(l1),
        well_formed(l2),
        round_height_of(l1) == round_height_of(l2),
        after_round_number(l1) == after_round_number(l2),
    ensures
        l1 == l2,
{
    lemma_shape(l1);
    lemma_shape(l2);
    if l1 is ContributionFile && l2 is ContributionFile {
        lemma_contribution_tail(l1, l2);
    }
}

spec fn contribution_suffix(id: u64, v: bool) -> Seq<char> {
    "/contribution_"@ + decimal(id as nat) + contribution_extension(id, v)
}

proof fn lemma_contribution_tail(l1: Locator, l2: Locator)
    requires
        l1 is ContributionFile,
        l2 is ContributionFile,
        well_formed(l1),
        well_formed(l2),
        round_height_of(l1) == round_height_of(l2),
        after_round_number(l1) == after_round_number(l2),
    ensures
        l1 == l2,
{
    reveal_strlit("/chunk_");
    let x = after_round_number(l1);
    let y = after_round_number(l2);
    let (c, id, v) = (l1->ContributionFile_1, l1->ContributionFile_2, l1->ContributionFile_3);
    let (c2, id2, v2) = (l2->ContributionFile_1, l2->ContributionFile_2, l2->ContributionFile_3);
    let t1 = contribution_suffix(id, v);
    let t2 = contribution_suffix(id2, v2);
    assert(x =~= "/chunk_"@ + (decimal(c as nat) + t1));
    assert(y =~= "/chunk_"@ + (decimal(c2 as nat) + t2));
    assert(decimal(c as nat) + t1 =~= x.skip(7));
    assert(decimal(c2 as nat) + t2 =~= y.skip(7));
    lemma_contribution_suffix(id, v, id2, v2);
    lemma_split_number(c as nat, t1, c2 as nat, t2);
    lemma_contribution_suffix(id, v, id2, v2);
}

proof fn lemma_contribution_suffix(id: u64, v: bool, id2: u64, v2: bool)
    requires
        id == 0 ==> v,
        id2 == 0 ==> v2,
    ensures
        contribution_suffix(id, v)[0] == '/',
        contribution_suffix(id2, v2)[0] == '/',
        contribution_suffix(id, v) == contribution_suffix(id2, v2) ==> id == id2 && v == v2,
{
    reveal_strlit("/contribution_");
    let e1 = contribution_extension(id, v);
    let e2 = contribution_extension(id2, v2);
    let t1 = contribution_suffix(id, v);
    let t2 = contribution_suffix(id2, v2);
    assert(t1[0] == '/');
    assert(t2[0] == '/');
    if t1 == t2 {
        assert(decimal(id as nat) + e1 =~= t1.skip(14));
        assert(decimal(id2 as nat) + e2 =~= t2.skip(14));
        lemma_extension(id, v, id2, v2);
        lemma_split_number(id as nat, e1, id2 as nat, e2);
        lemma_extension(id, v, id2, v2);
    }
}

proof fn lemma_extension(id: u64, v: bool, id2: u64, v2: bool)
    requires
        id == 0 ==> v,
        id2 == 0 ==> v2,
    ensures
        contribution_extension(id, v).len() > 0,
        contribution_extension(id, v)[0] == '.',
        contribution_extension(id2, v2).len() > 0,
        contribution_extension(id2, v2)[0] == '.',
        contribution_extension(id, v) == contribution_extension(id2, v2) ==> v == v2,
{
    reveal_strlit(".verified");
    reveal_strlit(".unverified");
    let e1 = contribution_extension(id, v);
    let e2 = contribution_extension(id2, v2);
    if e1 == e2 {
        assert(e1[1] == e2[1]);
    }
}

/// The characters of a string, one by one.
fn chars_of(s: &str) -> (r: Vec<char>)
    ensures
        r@ == s@,
{
    let n = s.unicode_len();
    let mut r: Vec<char> = Vec::new();
    let mut i: usize = 0;
    while i < n
        invariant
            n == s@.len(),
            i <= n,
            r@ == s@.take(i as int),
        decreases n - i,
    {
        r.push(s.get_char(i));
        i = i + 1;
        assert(r@ == s@.take(i as int));
    }
    assert(s@.take(n as int) == s@);
    r
}

/// Whether `lit` occurs in `k` at position `pos`.
fn has_literal_at(k: &Vec<char>, pos: usize, lit: &str) -> (r: bool)
    ensures
        r == (pos + lit@.len() <= k@.len() && k@.subrange(pos as int, pos + lit@.len()) == lit@),
{
    let n = lit.unicode_len();
    let klen = k.len();
    if n > klen || pos > klen - n {
        return false;
    }
    let mut i: usize = 0;
    while i < n
        invariant
            n == lit@.len(),
            klen == k@.len(),
            pos + n <= klen,
            i <= n,
            forall|j: int| 0 <= j < i ==> k@[pos + j] == lit@[j],
        decreases n - i,
    {
        assert(pos + i < k@.len());
        if k[pos + i] != lit.get_char(i) {
            assert(k@.subrange(pos as int, pos + n)[i as int] != lit@[i as int]);
            return false;
        }
        i = i + 1;
    }
    assert(k@.subrange(pos as int, pos + n) =~= lit@);
    true
}

fn digit_of(c: char) -> (r: u64)
    ensures
        r as nat == digit_value(c),
        r < 10,
{
    if c == '0' {
        0
    } else if c == '1' {
        1
    } else if c == '2' {
        2
    } else if c == '3' {
        3
    } else if c == '4' {
        4
    } else if c == '5' {
        5
    } else if c == '6' {
        6
    } else if c == '7' {
        7
    } else if c == '8' {
        8
    } else {
        9
    }
}

/// Reads the run of digits that starts at `start`. Where the text there is a
/// number in decimal notation followed by a non-digit or by the end, returns
/// that number and the position after it.
fn read_number(k: &Vec<char>, start: usize) -> (r: Option<(u64, usize)>)
    ensures
        forall|n: u64, rest: Seq<char>|
            start <= k@.len() && #[trigger] k@.subrange(start as int, k@.len() as int) == decimal(
                n as nat,
            ) + rest && (rest.len() == 0 || !is_digit(rest[0])) ==> r == Some(
                (n, (start + decimal(n as nat).len()) as usize),
            ),
{
    if start >= k.len() || !('0' <= k[start] && k[start] <= '9') {
        proof {
            assert forall|n: u64, rest: Seq<char>|
                start <= k@.len() && #[trigger] k@.subrange(start as int, k@.len() as int)
                    == decimal(n as nat) + rest implies false by {
                lemma_decimal_digits(n as nat);
                let t = k@.subrange(start as int, k@.len() as int);
                assert(t.len() == (decimal(n as nat) + rest).len());
                if start < k@.len() {
                    assert(t[0] == decimal(n as nat)[0]);
                }
            }
        }
        return None;
    }
    let mut i: usize = start;
    let mut value: u64 = 0;
    while i < k.len() && '0' <= k[i] && k[i] <= '9'
        invariant
            start <= i <= k@.len(),
            value as nat == digits_value(k@.subrange(start as int, i as int)),
            forall|j: int| start <= j < i ==> is_digit(#[trigger] k@[j]),
        decreases k@.len() - i,
    {
        let d = digit_of(k[i]);
        if value > (u64::MAX - d) / 10 {
            proof {
                assert forall|n: u64, rest: Seq<char>|
                    #[trigger] k@.subrange(start as int, k@.len() as int) == decimal(n as nat)
                        + rest && (rest.len() == 0 || !is_digit(rest[0])) implies false by {
                    self::lemma_run_within(k@, start as int, i as int + 1, n as nat, rest);
                    let s = k@.subrange(start as int, i as int + 1);
                    assert(s.drop_last() == k@.subrange(start as int, i as int));
                    assert(digits_value(s) == value * 10 + d);
                    assert(value * 10 + d > u64::MAX) by (nonlinear_arith)
                        requires
                            value > (u64::MAX - d) / 10,
                            d < 10,
                    ;
                }
            }
            return None;
        }
        let ghost old_i = i;
        value = value * 10 + d;
        i = i + 1;
        proof {
            let s = k@.subrange(start as int, i as int);
            assert(s.drop_last() == k@.subrange(start as int, old_i as int));
        }
    }
    proof {
        assert forall|n: u64, rest: Seq<char>|
            #[trigger] k@.subrange(start as int, k@.len() as int) == decimal(n as nat) + rest && (
            rest.len() == 0 || !is_digit(rest[0])) implies value == n && i == start + decimal(
            n as nat,
        ).len() by {
            lemma_decimal_digits(n as nat);
            let t = k@.subrange(start as int, k@.len() as int);
            let len = decimal(n as nat).len();
            if i - start < len {
                assert(t[i - start] == decimal(n as nat)[i - start]);
                assert(k@[i as int] == t[i - start]);
            } else if i - start > len {
                assert(t[len as int] == rest[0]);
                assert(k@[start + len] == t[len as int]);
            }
            assert(k@.subrange(start as int, i as int) == decimal(n as nat));
            lemma_decimal_value(n as nat);
        }
    }
    Some((value, i))
}

/// Where the text at `start` is a number followed by a non-digit, the digits
/// up to `end` are a prefix of it and denote no more than the number.
proof fn lemma_run_within(k: Seq<char>, start: int, end: int, n: nat, rest: Seq<char>)
    requires
        0 <= start < end <= k.len(),
        forall|j: int| start <= j < end ==> is_digit(#[trigger] k[j]),
        k.subrange(start, k.len() as int) == decimal(n) + rest,
        rest.len() == 0 || !is_digit(rest[0]),
    ensures
        digits_value(k.subrange(start, end)) <= n,
{
    lemma_decimal_digits(n);
    let t = k.subrange(start, k.len() as int);
    let len = decimal(n).len();
    if end - start > len {
        assert(t[len as int] == rest[0]);
        assert(k[start + len] == t[len as int]);
    }
    assert(k.subrange(start, end) == decimal(n).take(end - start));
    lemma_prefix_value_le(decimal(n), end - start);
    lemma_decimal_value(n);
}

fn digit_str(d: u64) -> (r: &'static str)
    requires
        d < 10,
    ensures
        r@ == seq![digit_char(d as nat)],
{
    if d == 0 {
        proof { reveal_strlit("0"); }
        "0"
    } else if d == 1 {
        proof { reveal_strlit("1"); }
        "1"
    } else if d == 2 {
        proof { reveal_strlit("2"); }
        "2"
    } else if d == 3 {
        proof { reveal_strlit("3"); }
        "3"
    } else if d == 4 {
        proof { reveal_strlit("4"); }
        "4"
    } else if d == 5 {
        proof { reveal_strlit("5"); }
        "5"
    } else if d == 6 {
        proof { reveal_strlit("6"); }
        "6"
    } else if d == 7 {
        proof { reveal_strlit("7"); }
        "7"
    } else if d == 8 {
        proof { reveal_strlit("8"); }
        "8"
    } else {
        proof { reveal_strlit("9"); }
        "9"
    }
}

/// Appends the decimal notation of `n`.
pub fn push_decimal(s: &mut String, n: u64)
    ensures
        final(s)@ == old(s)@ + decimal(n as nat),
    decreases n,
{
    if n >= 10 {
        push_decimal(s, n / 10);
    }
    s.append(digit_str(n % 10));
    assert(decimal(n as nat) == if n < 10 {
        seq![digit_char(n as nat)]
    } else {
        decimal((n / 10) as nat).push(digit_char((n % 10) as nat))
    });
}

impl Locator {
    /// Whether this locator names a file that can exist.
    pub fn is_well_formed(&self) -> (r: bool)
        ensures
            r == well_formed(*self),
    {
        match *self {
            Locator::ContributionFile(_, _, id, verified) => id != 0 || verified,
            _ => true,
        }
    }

    /// The storage key of this locator, relative to the base directory.
    pub fn to_key(&self) -> (r: String)
        ensures
            r@ == key_of(*self),
    {
        let mut s = String::new();
        match *self {
            Locator::RoundHeight => {
                s.append("round_height");
            },
            Locator::RoundState(h) => {
                s.append("round_");
                push_decimal(&mut s, h);
                s.append("/state.json");
            },
            Locator::RoundFile(h) => {
                s.append("round_");
                push_decimal(&mut s, h);
                s.append("/round_");
                push_decimal(&mut s, h);
                s.append(".verified");
            },
            Locator::ContributionFile(h, c, id, v) => {
                s.append("round_");
                push_decimal(&mut s, h);
                s.append("/chunk_");
                push_decimal(&mut s, c);
                s.append("/contribution_");
                push_decimal(&mut s, id);
                if v || id == 0 {
                    s.append(".verified");
                } else {
                    s.append(".unverified");
                }
            },
        }
        assert(s@ =~= key_of(*self));
        s
    }

    /// The full path of this locator under `base`.
    pub fn to_path(&self, base: &str) -> (r: String)
        ensures
            r@ == path_of(base@, *self),
    {
        let mut s = String::from_str(base);
        s.append("/");
        let key = self.to_key();
        s.append(key.as_str());
        s
    }

    /// Parses a storage key back into its locator; any text that is not the
    /// key of a well-formed locator is refused.
    pub fn from_key(key: &str) -> (r: Result<Locator, CoordinatorError>)
        ensures
            parses_key(key@, r),
    {
        let k = chars_of(key);
        let r = Self::candidate(&k);
        match r {
            Some(l) => {
                let formatted = l.to_key();
                if l.is_well_formed() && string_equals(&formatted, &k) {
                    Ok(l)
                } else {
                    Err(CoordinatorError::LocatorFormatIncorrect)
                }
            },
            None => Err(CoordinatorError::LocatorFormatIncorrect),
        }
    }

    /// Parses a full path under `base` back into its locator.
    pub fn from_path(base: &str, path: &str) -> (r: Result<Locator, CoordinatorError>)
        ensures
            r is Ok ==> well_formed(r->Ok_0) && path_of(base@, r->Ok_0) == path@,
            r is Err ==> r == Err::<Locator, CoordinatorError>(
                CoordinatorError::LocatorFormatIncorrect,
            ),
            (exists|l: Locator| well_formed(l) && path_of(base@, l) == path@) ==> r is Ok,
    {
        let p = chars_of(path);
        let b = chars_of(base);
        let prefix_len = b.len();
        if !(prefix_len < p.len() && has_literal_at(&p, 0, base) && p[prefix_len] == '/') {
            proof {
                reveal_strlit("/");
                assert forall|l: Locator| well_formed(l) && path_of(base@, l) == path@ implies false by {
                    assert(path@.subrange(0, base@.len() as int) == base@);
                    assert(path@[base@.len() as int] == '/');
                    reveal_strlit("round_height");
                    if !(l is RoundHeight) {
                        lemma_shape(l);
                    }
                    assert(key_of(l).len() > 0);
                    assert(path@.len() > base@.len() + 1);
                }
            }
            return Err(CoordinatorError::LocatorFormatIncorrect);
        }
        let key = path.substring_char(prefix_len + 1, p.len());
        let r = Self::from_key(key);
        proof {
            reveal_strlit("/");
            assert(path@ == base@ + "/"@ + key@);
            assert forall|l: Locator| path_of(base@, l) == path@ implies key_of(l) == key@ by {
                assert(key_of(l) == path_of(base@, l).skip(base@.len() + 1 as int));
                assert(key@ == path@.skip(base@.len() + 1 as int));
            }
            if r is Ok {
                assert(path_of(base@, r->Ok_0) == base@ + "/"@ + key_of(r->Ok_0));
            }
        }
        r
    }

    /// Picks the one locator that `k` could be the key of, if any.
    fn candidate(k: &Vec<char>) -> (r: Option<Locator>)
        ensures
            forall|l: Locator| well_formed(l) && key_of(l) == k@ ==> r == Some(l),
    {
        proof {
            lemma_literal_lengths();
        }
        if k.len() == 12 && has_literal_at(k, 0, "round_height") {
            proof {
                assert(k@ =~= "round_height"@);
                assert forall|l: Locator| well_formed(l) && key_of(l) == k@ implies Some(l)
                    == Some(Locator::RoundHeight) by {
                    lemma_key_injective(l, Locator::RoundHeight);
                }
            }
            return Some(Locator::RoundHeight);
        }
        proof {
            assert forall|l: Locator| well_formed(l) && key_of(l) == k@ implies !(
            l is RoundHeight) by {
                if l is RoundHeight {
                    assert(k@ =~= "round_height"@);
                    assert(k@.subrange(0, 12) =~= k@);
                }
            }
        }
        if !has_literal_at(k, 0, "round_") {
            proof {
                assert forall|l: Locator| well_formed(l) && key_of(l) == k@ implies false by {
                    lemma_shape(l);
                }
            }
            return None;
        }
        let (h, end) = match read_number(k, 6) {
            Some(p) => p,
            None => {
                proof {
                    assert forall|l: Locator| well_formed(l) && key_of(l) == k@ implies false by {
                        lemma_shape(l);
                    }
                }
                return None;
            },
        };
        proof {
            assert forall|l: Locator| well_formed(l) && key_of(l) == k@ implies round_height_of(l)
                == h && end == 6 + decimal(h as nat).len() by {
                lemma_shape(l);
            }
        }
        if has_literal_at(k, end, "/state.json") {
            proof {
                assert forall|l: Locator| well_formed(l) && key_of(l) == k@ implies Some(l) == Some(
                    Locator::RoundState(h),
                ) by {
                    lemma_shape(l);
                    lemma_after_number(l, end as int);
                }
            }
            return Some(Locator::RoundState(h));
        }
        if has_literal_at(k, end, "/round_") {
            proof {
                assert forall|l: Locator| well_formed(l) && key_of(l) == k@ implies Some(l) == Some(
                    Locator::RoundFile(h),
                ) by {
                    lemma_shape(l);
                    lemma_after_number(l, end as int);
                }
            }
            return Some(Locator::RoundFile(h));
        }
        if !has_literal_at(k, end, "/chunk_") {
            proof {
                assert forall|l: Locator| well_formed(l) && key_of(l) == k@ implies false by {
                    lemma_shape(l);
                    lemma_after_number(l, end as int);
                }
            }
            return None;
        }
        proof {
            assert forall|l: Locator| well_formed(l) && key_of(l) == k@ implies l is ContributionFile
                && k@.subrange(end as int, k@.len() as int) == after_round_number(l) by {
                lemma_shape(l);
                lemma_after_number(l, end as int);
            }
        }
        let (c, end2) = match read_number(k, end + 7) {
            Some(p) => p,
            None => {
                proof {
                    assert forall|l: Locator| well_formed(l) && key_of(l) == k@ implies false by {
                        lemma_chunk_shape(l, k@, end as int);
                    }
                }
                return None;
            },
        };
        if !(end2 <= k.len() && has_literal_at(k, end2, "/contribution_")) {
            proof {
                assert forall|l: Locator| well_formed(l) && key_of(l) == k@ implies false by {
                    lemma_chunk_shape(l, k@, end as int);
                }
            }
            return None;
        }
        let (id, _) = match read_number(k, end2 + 14) {
            Some(p) => p,
            None => {
                proof {
                    assert forall|l: Locator| well_formed(l) && key_of(l) == k@ implies false by {
                        lemma_chunk_shape(l, k@, end as int);
                    }
                }
                return None;
            },
        };
        let unverified = k.len() >= 11 && has_literal_at(k, k.len() - 11, ".unverified");
        proof {
            assert forall|l: Locator| well_formed(l) && key_of(l) == k@ implies Some(l) == Some(
                Locator::ContributionFile(h, c, id, !unverified),
            ) by {
                lemma_chunk_shape(l, k@, end as int);
            }
        }
        Some(Locator::ContributionFile(h, c, id, !unverified))
    }
}

proof fn lemma_literal_lengths()
    ensures
        "round_height"@.len() == 12,
        "round_"@.len() == 6,
        "/chunk_"@.len() == 7,
        "/contribution_"@.len() == 14,
        ".unverified"@.len() == 11,
{
    reveal_strlit("round_height");
    reveal_strlit("round_");
    reveal_strlit("/chunk_");
    reveal_strlit("/contribution_");
    reveal_strlit(".unverified");
}

/// Which literal follows the round number tells the kind of locator.
proof fn lemma_after_number(l: Locator, end: int)
    requires
        !(l is RoundHeight),
        end == 6 + decimal(round_height_of(l) as nat).len(),
    ensures
        ({
            let k = key_of(l);
            let s = "/state.json"@;
            let r = "/round_"@;
            let c = "/chunk_"@;
            &&& (end + s.len() <= k.len() && k.subrange(end, end + s.len()) == s) == l is RoundState
            &&& (end + r.len() <= k.len() && k.subrange(end, end + r.len()) == r) == l is RoundFile
            &&& (end + c.len() <= k.len() && k.subrange(end, end + c.len()) == c)
                == l is ContributionFile
        }),
{
    reveal_strlit("/state.json");
    reveal_strlit("/round_");
    reveal_strlit("/chunk_");
    lemma_shape(l);
    let k = key_of(l);
    let t = after_round_number(l);
    assert(k.subrange(end, k.len() as int) == t);
    if end + 1 < k.len() {
        assert(k[end + 1] == t[1]);
    }
    if end + 7 <= k.len() {
        assert(k.subrange(end, end + 7) =~= t.subrange(0, 7));
        assert(k.subrange(end, end + 7)[1] == t[1]);
    }
    if end + 11 <= k.len() {
        assert(k.subrange(end, end + 11) =~= t.subrange(0, 11));
        assert(k.subrange(end, end + 11)[1] == t[1]);
    }
    match l {
        Locator::RoundState(_) => {
            assert(t.subrange(0, 11) =~= "/state.json"@);
        },
        Locator::RoundFile(h) => {
            assert(t.subrange(0, 7) =~= "/round_"@);
        },
        _ => {
            assert(t.subrange(0, 7) =~= "/chunk_"@);
        },
    }
}

/// The key of a locator other than the round height: the round directory,
/// its number, then what follows it.
proof fn lemma_shape(l: Locator)
    requires
        !(l is RoundHeight),
    ensures
        ({
            let k = key_of(l);
            let h = round_height_of(l) as nat;
            let t = after_round_number(l);
            &&& k.subrange(0, 6) == "round_"@
            &&& k.subrange(6, k.len() as int) == decimal(h) + t
            &&& k.subrange(6 + decimal(h).len() as int, k.len() as int) == t
            &&& t.len() > 1 && t[0] == '/'
            &&& t[1] == (match l {
                Locator::RoundState(_) => 's',
                Locator::RoundFile(_) => 'r',
                _ => 'c',
            })
        }),
{
    reveal_strlit("round_");
    reveal_strlit("/state.json");
    reveal_strlit("/round_");
    reveal_strlit("/chunk_");
    let k = key_of(l);
    let h = round_height_of(l) as nat;
    let t = after_round_number(l);
    assert(k =~= "round_"@ + decimal(h) + t);
    assert(k.subrange(0, 6) =~= "round_"@);
    assert(k.subrange(6, k.len() as int) =~= decimal(h) + t);
    assert(k.subrange(6 + decimal(h).len() as int, k.len() as int) =~= t);
}

/// The part of a contribution key after its round number.
proof fn lemma_chunk_shape(l: Locator, k: Seq<char>, end: int)
    requires
        well_formed(l),
        l is ContributionFile,
        k.subrange(end, k.len() as int) == after_round_number(l),
        0 <= end <= k.len(),
    ensures
        ({
            let c = l->ContributionFile_1;
            let id = l->ContributionFile_2;
            let v = l->ContributionFile_3;
            let t2 = "/contribution_"@ + decimal(id as nat) + contribution_extension(id, v);
            let e = contribution_extension(id, v);
            let end2 = end + 7 + decimal(c as nat).len();
            let end3 = end2 + 14 + decimal(id as nat).len();
            &&& k.subrange(end + 7, k.len() as int) == decimal(c as nat) + t2
            &&& t2[0] == '/'
            &&& end2 <= k.len()
            &&& k.subrange(end2, end2 + 14) == "/contribution_"@
            &&& k.subrange(end2 + 14, k.len() as int) == decimal(id as nat) + e
            &&& e[0] == '.'
            &&& k.len() >= 11
            &&& (k.subrange(k.len() - 11, k.len() as int) == ".unverified"@) == !v
        }),
{
    reveal_strlit("/chunk_");
    reveal_strlit("/contribution_");
    reveal_strlit(".verified");
    reveal_strlit(".unverified");
    let c = l->ContributionFile_1;
    let id = l->ContributionFile_2;
    let v = l->ContributionFile_3;
    let e = contribution_extension(id, v);
    let t2 = "/contribution_"@ + decimal(id as nat) + e;
    let t = after_round_number(l);
    let s = k.subrange(end, k.len() as int);
    assert(t =~= "/chunk_"@ + (decimal(c as nat) + t2));
    assert(k.subrange(end + 7, k.len() as int) =~= s.skip(7));
    assert(s.skip(7) =~= decimal(c as nat) + t2);
    let lc = decimal(c as nat).len() as int;
    let end2 = end + 7 + lc;
    assert(s.skip(7 + lc) =~= t2);
    assert(k.subrange(end2, k.len() as int) =~= s.skip(7 + lc));
    assert(k.subrange(end2, k.len() as int) =~= t2);
    assert(k.subrange(end2, end2 + 14) =~= "/contribution_"@);
    assert(t2.skip(14) =~= decimal(id as nat) + e);
    assert(k.subrange(end2 + 14, k.len() as int) =~= t2.skip(14));
    let n = k.len() as int;
    assert(t2.skip(t2.len() - e.len()) =~= e);
    assert(k.subrange(n - e.len(), n) =~= t2.skip(t2.len() - e.len()));
    if !v {
        assert(k.subrange(n - 11, n) =~= ".unverified"@);
    } else {
        assert(e =~= ".verified"@);
        assert(k.subrange(n - e.len(), n)[0] == k[n - 9]);
        assert(k[n - 9] == '.');
        assert(".unverified"@[2] == 'n');
        assert(k.subrange(n - 11, n)[2] == k[n - 9]);
    }
}

/// Whether two strings hold the same characters.
pub fn str_equals(a: &str, b: &str) -> (r: bool)
    ensures
        r == (a@ == b@),
{
    let n = a.unicode_len();
    if n != b.unicode_len() {
        return false;
    }
    let mut i: usize = 0;
    while i < n
        invariant
            n == a@.len(),
            n == b@.len(),
            i <= n,
            forall|j: int| 0 <= j < i ==> a@[j] == b@[j],
        decreases n - i,
    {
        if a.get_char(i) != b.get_char(i) {
            return false;
        }
        i = i + 1;
    }
    assert(a@ =~= b@);
    true
}

/// Compares the characters of a string with `k`.
fn string_equals(s: &String, k: &Vec<char>) -> (r: bool)
    ensures
        r == (s@ == k@),
{
    let t = s.as_str();
    let n = t.unicode_len();
    if n != k.len() {
        return false;
    }
    let mut i: usize = 0;
    while i < n
        invariant
            n == s@.len(),
            n == k@.len(),
            t@ == s@,
            i <= n,
            forall|j: int| 0 <= j < i ==> s@[j] == k@[j],
        decreases n - i,
    {
        if t.get_char(i) != k[i] {
            return false;
        }
        i = i + 1;
    }
    assert(s@ =~= k@);
    true
}

} // verus!
