//! Room codes: eight characters `XXXX-YYYY` over `A`–`Z` and `0`–`9`.

use vstd::prelude::*;

verus! {

/// A character the code charset allows: an ASCII capital or a digit.
pub open spec fn is_code_char(c: char) -> bool {
    ('A' <= c && c <= 'Z') || ('0' <= c && c <= '9')
}

/// A well-formed room code: nine characters, a dash in the middle, code
/// characters everywhere else.
pub open spec fn valid_room_code(s: Seq<char>) -> bool {
    &&& s.len() == 9
    &&& s[4] == '-'
    &&& forall|i: int| 0 <= i < 9 && i != 4 ==> is_code_char(#[trigger] s[i])
}

/// Validate a room code's format.
pub fn validate_room_code(code: &str) -> (r: bool)
    ensures
        r == valid_room_code(code@),
{
    let n = code.unicode_len();
    if n != 9 {
        return false;
    }
    let mut i: usize = 0;
    while i < 9
        invariant
            0 <= i <= 9,
            code@.len() == 9,
            forall|j: int| 0 <= j < i && j != 4 ==> is_code_char(#[trigger] code@[j]),
            i > 4 ==> code@[4] == '-',
        decreases 9 - i,
    {
        let c = code.get_char(i);
        if i == 4 {
            if c != '-' {
                return false;
            }
        } else {
            if !(('A' <= c && c <= 'Z') || ('0' <= c && c <= '9')) {
                return false;
            }
        }
        i = i + 1;
    }
    true
}

/// Relies on `rand::Rng::gen_range` over the thread's generator: a value
/// below the bound. Nothing more is promised of a random draw.
#[verifier::external_body]
fn rand_below(n: u32) -> (r: u32)
    requires
        n > 0,
    ensures
        r < n,
{
    rand::Rng::gen_range(&mut rand::thread_rng(), 0..n)
}

/// Relies on `String::from_utf8`: bytes below 128 are valid UTF-8 and
/// decode one character per byte, each the byte's own code point.
#[verifier::external_body]
fn ascii_to_string(v: Vec<u8>) -> (r: String)
    requires
        forall|i: int| 0 <= i < v@.len() ==> v@[i] < 128,
    ensures
        r@ == v@.map_values(|b: u8| b as char),
{
    String::from_utf8(v).unwrap()
}

/// One random byte of the code charset.
fn random_code_byte() -> (r: u8)
    ensures
        r < 128,
        is_code_char(r as char),
{
    let idx = rand_below(36);
    let b: u8 = if idx < 26 {
        65 + idx as u8  // 'A'..='Z'
    } else {
        48 + (idx as u8 - 26)  // '0'..='9'
    };
    proof {
        assert(('A' <= (b as char) && (b as char) <= 'Z') || ('0' <= (b as char) && (b as char)
            <= '9'));
    }
    b
}

/// Generate a room code of the form `XXXX-YYYY`; what it generates always
/// passes `validate_room_code`.
pub fn generate_room_code() -> (r: String)
    ensures
        valid_room_code(r@),
{
    let mut bytes: Vec<u8> = Vec::new();
    let mut i: usize = 0;
    while i < 4
        invariant
            bytes@.len() == i <= 4,
            forall|j: int|
                0 <= j < i ==> (#[trigger] bytes@[j]) < 128 && is_code_char(bytes@[j] as char),
        decreases 4 - i,
    {
        bytes.push(random_code_byte());
        i = i + 1;
    }
    bytes.push(45);  // '-'
    let mut i2: usize = 0;
    while i2 < 4
        invariant
            bytes@.len() == 5 + i2,
            i2 <= 4,
            forall|j: int|
                0 <= j < bytes@.len() && j != 4 ==> (#[trigger] bytes@[j]) < 128 && is_code_char(
                    bytes@[j] as char,
                ),
            bytes@[4] == 45u8,
        decreases 4 - i2,
    {
        bytes.push(random_code_byte());
        i2 = i2 + 1;
    }
    let code = ascii_to_string(bytes);
    proof {
        assert(code@.len() == 9);
        assert(code@[4] == (45u8 as char));
        assert(code@[4] == '-');
        assert forall|i: int| 0 <= i < 9 && i != 4 implies is_code_char(#[trigger] code@[i]) by {
            assert(code@[i] == (bytes@[i] as char));
        }
    }
    code
}

} // verus!
