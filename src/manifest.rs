use vstd::prelude::*;

use crate::coordinator::Coordinator;
use crate::errors::CoordinatorError;
use crate::locator::{key_of, parses_key, well_formed, Locator};

verus! {

#[verifier::external_type_specification]
#[verifier::external_body]
pub struct ExJsonError(serde_json::Error);

/// The UTF-8 encoding of a character.
pub open spec fn utf8(c: char) -> Seq<u8> {
    let v = c as u32 as nat;
    if v < 0x80 {
        seq![v as u8]
    } else if v < 0x800 {
        seq![(0xC0 + v / 64) as u8, (0x80 + v % 64) as u8]
    } else if v < 0x10000 {
        seq![(0xE0 + v / 4096) as u8, (0x80 + (v / 64) % 64) as u8, (0x80 + v % 64) as u8]
    } else {
        seq![
            (0xF0 + v / 262144) as u8,
            (0x80 + (v / 4096) % 64) as u8,
            (0x80 + (v / 64) % 64) as u8,
            (0x80 + v % 64) as u8,
        ]
    }
}

pub open spec fn hex_digit(d: nat) -> u8 {
    if d < 10 {
        (0x30 + d) as u8
    } else {
        (0x57 + d) as u8
    }
}

/// How a character stands inside a JSON string: quote, backslash and the
/// control characters are escaped (`\b`, `\t`, `\n`, `\f`, `\r`, else
/// `\u00` and two lower-case hex digits); any other character is its UTF-8
/// encoding.
pub open spec fn json_char(c: char) -> Seq<u8> {
    let v = c as u32 as nat;
    if c == '"' {
        seq![0x5Cu8, 0x22u8]
    } else if c == '\\' {
        seq![0x5Cu8, 0x5Cu8]
    } else if v == 0x08 {
        seq![0x5Cu8, 0x62u8]
    } else if v == 0x09 {
        seq![0x5Cu8, 0x74u8]
    } else if v == 0x0A {
        seq![0x5Cu8, 0x6Eu8]
    } else if v == 0x0C {
        seq![0x5Cu8, 0x66u8]
    } else if v == 0x0D {
        seq![0x5Cu8, 0x72u8]
    } else if v < 0x20 {
        seq![0x5Cu8, 0x75u8, 0x30u8, 0x30u8, hex_digit(v / 16), hex_digit(v % 16)]
    } else {
        utf8(c)
    }
}

pub open spec fn json_chars(s: Seq<char>) -> Seq<u8>
    decreases s.len(),
{
    if s.len() == 0 {
        Seq::empty()
    } else {
        json_chars(s.drop_last()) + json_char(s.last())
    }
}

/// A JSON string: the escaped characters between double quotes.
pub open spec fn json_string(s: Seq<char>) -> Seq<u8> {
    seq![0x22u8] + json_chars(s) + seq![0x22u8]
}

/// The JSON strings of `items`, separated by commas.
pub open spec fn json_elements(items: Seq<Seq<char>>) -> Seq<u8>
    decreases items.len(),
{
    if items.len() == 0 {
        Seq::empty()
    } else if items.len() == 1 {
        json_string(items[0])
    } else {
        json_elements(items.drop_last()) + seq![0x2Cu8] + json_string(items.last())
    }
}

/// What `serde_json::to_vec` writes for an array of strings: `[`, the
/// strings separated by commas, `]`, with no white space.
pub open spec fn json_of_strings(items: Seq<Seq<char>>) -> Seq<u8> {
    seq![0x5Bu8] + json_elements(items) + seq![0x5Du8]
}

/// What `serde_json::from_slice` reads from bytes as an array of strings,
/// where it reads one.
pub uninterp spec fn strings_of_json(bytes: Seq<u8>) -> Option<Seq<Seq<char>>>;

/// Whether `k` is the key of some well-formed locator.
pub open spec fn names_locator(k: Seq<char>) -> bool {
    exists|l: Locator| well_formed(l) && key_of(l) == k
}

pub open spec fn views(items: Seq<String>) -> Seq<Seq<char>> {
    items.map_values(|s: String| s@)
}

/// Relies on `serde_json::to_vec`: the JSON array of the strings, which
/// depends on the strings alone. Writing strings into a `Vec<u8>` cannot
/// fail: the serializer fails only on an I/O error of its writer, and a
/// vector's writer raises none.
#[verifier::external_body]
fn encode_strings(items: &Vec<String>) -> (r: Result<Vec<u8>, serde_json::Error>)
    ensures
        r is Ok,
        r->Ok_0@ == json_of_strings(views(items@)),
{
    serde_json::to_vec(items)
}

/// Relies on `serde_json::from_slice` into `Vec<String>`: the strings of a
/// JSON array of strings, which depend on the bytes alone.
#[verifier::external_body]
fn decode_strings(bytes: &[u8]) -> (r: Result<Vec<String>, serde_json::Error>)
    ensures
        r is Ok ==> strings_of_json(bytes@) == Some(views(r->Ok_0@)),
        r is Err ==> strings_of_json(bytes@) is None,
{
    serde_json::from_slice::<Vec<String>>(bytes)
}

impl Coordinator {
    /// What the manifest lists: the round height and the state of every
    /// stored round, once the ceremony has begun, then every artifact file.
    pub open spec fn manifest_locators(&self) -> Seq<Locator> {
        let records = if self.rounds@.len() == 0 {
            Seq::empty()
        } else {
            seq![Locator::RoundHeight] + Seq::new(
                self.rounds@.len(),
                |h: int| Locator::RoundState(h as u64),
            )
        };
        records + self.files@.map_values(|f: crate::coordinator::StoredFile| f.locator)
    }

    /// The keys of the manifest's entries, in order.
    pub fn manifest_keys(&self) -> (r: Vec<String>)
        ensures
            r@.len() == self.manifest_locators().len(),
            forall|i: int| 0 <= i < r@.len() ==> #[trigger] r@[i]@ == key_of(self.manifest_locators()[i]),
    {
        let ghost m = self.manifest_locators();
        let mut keys: Vec<String> = Vec::new();
        let mut offset: usize = 0;
        if self.rounds.len() > 0 {
            keys.push(Locator::RoundHeight.to_key());
            let mut h: usize = 0;
            while h < self.rounds.len()
                invariant
                    m == self.manifest_locators(),
                    self.rounds@.len() > 0,
                    h <= self.rounds@.len(),
                    keys@.len() == h + 1,
                    forall|i: int| 0 <= i < keys@.len() ==> #[trigger] keys@[i]@ == key_of(m[i]),
                decreases self.rounds@.len() - h,
            {
                keys.push(Locator::RoundState(h as u64).to_key());
                h = h + 1;
            }
            offset = keys.len();
        }
        let mut i: usize = 0;
        while i < self.files.len()
            invariant
                m == self.manifest_locators(),
                offset == m.len() - self.files@.len(),
                i <= self.files@.len(),
                keys@.len() == offset + i,
                forall|j: int| 0 <= j < keys@.len() ==> #[trigger] keys@[j]@ == key_of(m[j]),
            decreases self.files@.len() - i,
        {
            keys.push(self.files[i].locator.to_key());
            i = i + 1;
        }
        keys
    }

    /// The manifest as it is stored: a JSON array of keys.
    pub fn encode_manifest(&self) -> (r: Result<Vec<u8>, CoordinatorError>)
        ensures
            r is Ok,
            r is Ok ==> exists|keys: Seq<Seq<char>>|
                keys.len() == self.manifest_locators().len() && (forall|i: int|
                    0 <= i < keys.len() ==> #[trigger] keys[i] == key_of(self.manifest_locators()[i]))
                    && r->Ok_0@ == json_of_strings(keys),
    {
        let keys = self.manifest_keys();
        match encode_strings(&keys) {
            Ok(bytes) => {
                proof {
                    let ks = views(keys@);
                    assert(ks.len() == self.manifest_locators().len());
                    assert(forall|i: int| 0 <= i < ks.len() ==> #[trigger] ks[i] == keys@[i]@);
                }
                Ok(bytes)
            },
            Err(_) => Err(CoordinatorError::StorageFailed),
        }
    }
}

/// Parses every key of a manifest; refused if any key is not the key of a
/// well-formed locator.
pub fn locators_of_keys(keys: &Vec<String>) -> (r: Result<Vec<Locator>, CoordinatorError>)
    ensures
        r is Ok ==> r->Ok_0@.len() == keys@.len() && forall|i: int|
            0 <= i < keys@.len() ==> well_formed(#[trigger] r->Ok_0@[i]) && key_of(r->Ok_0@[i])
                == keys@[i]@,
        r is Err ==> r == Err::<Vec<Locator>, CoordinatorError>(
            CoordinatorError::LocatorFormatIncorrect,
        ),
        r is Err <==> exists|i: int| 0 <= i < keys@.len() && !names_locator((#[trigger] keys@[i])@),
{
    let mut out: Vec<Locator> = Vec::new();
    let mut i: usize = 0;
    while i < keys.len()
        invariant
            i <= keys@.len(),
            out@.len() == i,
            forall|j: int|
                0 <= j < i ==> well_formed(#[trigger] out@[j]) && key_of(out@[j]) == keys@[j]@,
        decreases keys@.len() - i,
    {
        let parsed = Locator::from_key(keys[i].as_str());
        match parsed {
            Ok(l) => {
                out.push(l);
            },
            Err(e) => {
                proof {
                    assert(parses_key(keys@[i as int]@, parsed));
                }
                return Err(e);
            },
        }
        i = i + 1;
    }
    proof {
        assert forall|j: int| 0 <= j < keys@.len() implies names_locator((#[trigger] keys@[j])@) by {
            assert(well_formed(out@[j]) && key_of(out@[j]) == keys@[j]@);
        }
    }
    Ok(out)
}

/// Reads a stored manifest back into its locators; refused with
/// `StorageFailed` where the bytes are not a JSON array of strings, and with
/// `LocatorFormatIncorrect` where a key names no locator.
pub fn decode_manifest(bytes: &[u8]) -> (r: Result<Vec<Locator>, CoordinatorError>)
    ensures
        strings_of_json(bytes@) is None ==> r == Err::<Vec<Locator>, CoordinatorError>(
            CoordinatorError::StorageFailed,
        ),
        strings_of_json(bytes@) is Some ==> {
            let keys = strings_of_json(bytes@)->0;
            &&& r is Ok ==> r->Ok_0@.len() == keys.len() && forall|i: int|
                0 <= i < keys.len() ==> well_formed(#[trigger] r->Ok_0@[i]) && key_of(r->Ok_0@[i])
                    == keys[i]
            &&& r is Err <==> exists|i: int| 0 <= i < keys.len() && !names_locator(#[trigger] keys[i])
            &&& r is Err ==> r == Err::<Vec<Locator>, CoordinatorError>(
                CoordinatorError::LocatorFormatIncorrect,
            )
        },
{
    match decode_strings(bytes) {
        Ok(keys) => {
            let r = locators_of_keys(&keys);
            proof {
                let ks = strings_of_json(bytes@)->0;
                assert(ks == views(keys@));
                assert(forall|i: int| 0 <= i < ks.len() ==> #[trigger] ks[i] == keys@[i]@);
                if r is Err {
                    let i = choose|i: int| 0 <= i < keys@.len() && !names_locator((#[trigger] keys@[i])@);
                    assert(ks[i] == keys@[i]@);
                } else {
                    assert forall|i: int| 0 <= i < ks.len() implies names_locator(#[trigger] ks[i]) by {
                        assert(ks[i] == keys@[i]@);
                        assert(well_formed(r->Ok_0@[i]) && key_of(r->Ok_0@[i]) == keys@[i]@);
                    }
                }
            }
            r
        },
        Err(_) => Err(CoordinatorError::StorageFailed),
    }
}

} // verus!
