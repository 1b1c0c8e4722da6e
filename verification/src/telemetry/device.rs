//! The anonymous install id sent with every report.

use vstd::prelude::*;
use std::hash::{BuildHasher, RandomState};
use crate::text::{chars_of, string_of, trim_chars, trim_end, trim_start, trimmed};

verus! {

/// A character of an install id: a digit or a small letter `a`-`f`.
pub open spec fn is_id_char(c: char) -> bool {
    ('0' <= c && c <= '9') || ('a' <= c && c <= 'f')
}

/// An install id: 32 lowercase hex digits.
pub open spec fn well_formed_id(id: Seq<char>) -> bool {
    id.len() == 32 && forall|i: int| 0 <= i < id.len() ==> is_id_char(#[trigger] id[i])
}

/// Whether `id` is 32 lowercase hex digits.
pub fn is_well_formed(id: &str) -> (r: bool)
    ensures
        r == well_formed_id(id@),
{
    let chars = chars_of(id);
    if chars.len() != 32 {
        return false;
    }
    let mut i: usize = 0;
    while i < chars.len()
        invariant
            i <= chars@.len(),
            chars@ == id@,
            forall|k: int| 0 <= k < i ==> is_id_char(#[trigger] chars@[k]),
        decreases chars@.len() - i,
    {
        let c = chars[i];
        if !(('0' <= c && c <= '9') || ('a' <= c && c <= 'f')) {
            return false;
        }
        i += 1;
    }
    true
}

/// The id a saved file holds, surrounding white space ignored; `None` when
/// it is not a well-formed id and a new one has to be made.
pub fn saved_id(text: &str) -> (r: Option<String>)
    ensures
        match r {
            Some(id) => well_formed_id(trimmed(text@)) && id@ == trimmed(text@),
            None => !well_formed_id(trimmed(text@)),
        },
{
    let chars = chars_of(text);
    let saved = string_of(trim_chars(chars.as_slice()).as_slice());
    if is_well_formed(saved.as_str()) {
        Some(saved)
    } else {
        None
    }
}

/// The lowercase hex digit for `d` (`0..=15`).
pub open spec fn hex_char(d: int) -> char {
    if d < 10 {
        (d + 48) as char
    } else {
        (d + 87) as char
    }
}

/// The last `width` hex digits of `n`, zero-padded.
pub open spec fn hex_digits(n: nat, width: nat) -> Seq<char>
    decreases width,
{
    if width == 0 {
        Seq::empty()
    } else {
        hex_digits(n / 16, (width - 1) as nat).push(hex_char((n % 16) as int))
    }
}

proof fn lemma_hex_digits(n: nat, width: nat)
    ensures
        hex_digits(n, width).len() == width,
        forall|i: int| 0 <= i < width ==> is_id_char(#[trigger] hex_digits(n, width)[i]),
    decreases width,
{
    if width > 0 {
        lemma_hex_digits(n / 16, (width - 1) as nat);
        let d = (n % 16) as int;
        assert(is_id_char(hex_char(d)));
        assert forall|i: int| 0 <= i < width implies is_id_char(
            #[trigger] hex_digits(n, width)[i],
        ) by {
            if i < width - 1 {
                assert(hex_digits(n, width)[i] == hex_digits(n / 16, (width - 1) as nat)[i]);
            }
        }
    }
}

fn hex_digit(d: u64) -> (c: char)
    requires
        d < 16,
    ensures
        c == hex_char(d as int),
{
    if d < 10 {
        ((d as u8) + 48) as char
    } else {
        ((d as u8) + 87) as char
    }
}

/// Two 64-bit numbers as one id: each as 16 lowercase hex digits.
pub fn format_id(high: u64, low: u64) -> (id: String)
    ensures
        id@ == hex_digits(high as nat, 16) + hex_digits(low as nat, 16),
        well_formed_id(id@),
{
    let mut out: Vec<char> = Vec::new();
    let mut half: usize = 0;
    while half < 2
        invariant
            half <= 2,
            half == 0 ==> out@.len() == 0,
            half == 1 ==> out@ == hex_digits(high as nat, 16),
            half == 2 ==> out@ == hex_digits(high as nat, 16) + hex_digits(low as nat, 16),
        decreases 2 - half,
    {
        let n = if half == 0 {
            high
        } else {
            low
        };
        let mut digits: Vec<char> = Vec::new();
        let mut m: u64 = n;
        let mut k: usize = 0;
        assert(hex_digits(n as nat, 16) == hex_digits(n as nat, 16) + Seq::<char>::empty());
        while k < 16
            invariant
                k <= 16,
                hex_digits(n as nat, 16) == hex_digits(m as nat, (16 - k) as nat) + digits@,
            decreases 16 - k,
        {
            let d = m % 16;
            digits.insert(0, hex_digit(d));
            proof {
                let w = (16 - k) as nat;
                assert(hex_digits(m as nat, w) == hex_digits((m / 16) as nat, (w - 1) as nat).push(
                    hex_char(d as int),
                ));
                assert(hex_digits((m / 16) as nat, (w - 1) as nat).push(hex_char(d as int)) + (
                digits@.drop_first()) =~= hex_digits((m / 16) as nat, (w - 1) as nat) + digits@);
            }
            m = m / 16;
            k += 1;
        }
        proof {
            assert(hex_digits(m as nat, 0) =~= Seq::<char>::empty());
            assert(digits@ =~= hex_digits(n as nat, 16));
        }
        let ghost before = out@;
        let mut q: usize = 0;
        while q < digits.len()
            invariant
                q <= digits@.len(),
                out@ == before + digits@.take(q as int),
            decreases digits@.len() - q,
        {
            out.push(digits[q]);
            proof {
                assert(digits@.take(q as int).push(digits@[q as int]) =~= digits@.take(q + 1));
            }
            q += 1;
        }
        proof {
            assert(digits@.take(q as int) =~= digits@);
            if half == 0 {
                assert(out@ =~= hex_digits(high as nat, 16));
            }
        }
        half += 1;
    }
    proof {
        lemma_hex_digits(high as nat, 16);
        lemma_hex_digits(low as nat, 16);
        let id = out@;
        assert forall|i: int| 0 <= i < id.len() implies is_id_char(#[trigger] id[i]) by {
            if i < 16 {
                assert(id[i] == hex_digits(high as nat, 16)[i]);
            } else {
                assert(id[i] == hex_digits(low as nat, 16)[i - 16]);
            }
        }
    }
    string_of(out.as_slice())
}

/// A fresh `RandomState`, which seeds itself from the operating system.
/// Nothing is stated of it: it is random.
#[verifier::external_body]
fn fresh_random_state() -> RandomState {
    RandomState::new()
}

/// `BuildHasher::hash_one` of the byte `0` under `state`: a number that
/// depends on the state's random seed, so nothing is stated of it.
#[verifier::external_body]
fn hash_of_zero(state: &RandomState) -> u64 {
    state.hash_one(0u8)
}

/// 128 random bits as hex. `RandomState` seeds itself from the OS, which
/// saves pulling in a random-number crate for the one id this app needs.
pub fn generate() -> (id: String)
    ensures
        well_formed_id(id@),
{
    let high_state = fresh_random_state();
    let low_state = fresh_random_state();
    format_id(hash_of_zero(&high_state), hash_of_zero(&low_state))
}

/// A saved id is read back as it was: a well-formed id, alone or followed
/// by a line break, is its own trimmed text, so the next launch reuses it.
pub proof fn law_saved_id_is_read_back(id: Seq<char>)
    requires
        well_formed_id(id),
    ensures
        trimmed(id) == id,
        trimmed(id.push('\n')) == id,
{
    assert(is_id_char(id[0]));
    assert(is_id_char(id.last()));
    assert(trim_start(id) == id);
    assert(trim_end(id) == id);
    let line = id.push('\n');
    assert(line[0] == id[0]);
    assert(trim_start(line) == line);
    assert(line.drop_last() =~= id);
    assert(trim_end(line) == trim_end(id));
}

} // verus!
