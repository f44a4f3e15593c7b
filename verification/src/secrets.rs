//! Secrets and agent identities: enrollment code hashing, bearer tokens,
//! agent names and the credential comparison.
use vstd::prelude::*;
use vstd::string::*;
use crate::text::{is_blank, strip_prefix, trim, trimmed};

verus! {

/// The SHA-256 digest that the sha2 crate computes for some bytes.
pub uninterp spec fn sha256_digest(data: Seq<u8>) -> Seq<u8>;

/// Calls `sha2::Sha256::digest`. The contract claims that the result is the
/// digest named by `sha256_digest` and, as SHA-256 defines, 32 bytes long.
#[verifier::external_body]
fn sha256(data: &[u8]) -> (r: Vec<u8>)
    ensures
        r@ == sha256_digest(data@),
        r@.len() == 32,
{
    <sha2::Sha256 as sha2::Digest>::digest(data).to_vec()
}

/// Calls `subtle::ConstantTimeEq::ct_eq` on two byte slices. The contract
/// claims that the comparison is true exactly when the slices are equal, as
/// the slice implementation of subtle 2.6 shows (different lengths compare
/// unequal; otherwise every byte is compared).
#[verifier::external_body]
fn bytes_equal_in_constant_time(a: &[u8], b: &[u8]) -> (r: bool)
    ensures
        r == (a@ == b@),
{
    bool::from(subtle::ConstantTimeEq::ct_eq(a, b))
}

/// The lower-case hexadecimal digit of a value below sixteen.
pub open spec fn hex_digit(v: u8) -> char {
    if v < 10 {
        (0x30 + v) as char
    } else {
        (0x57 + v) as char
    }
}

/// Lower-case hexadecimal text of bytes, two digits per byte.
pub open spec fn hex_lower(bytes: Seq<u8>) -> Seq<char>
    decreases bytes.len(),
{
    if bytes.len() == 0 {
        Seq::empty()
    } else {
        hex_lower(bytes.drop_last()) + seq![
            hex_digit(bytes.last() / 16),
            hex_digit(bytes.last() % 16),
        ]
    }
}

fn hex_digit_text(v: u8) -> (r: &'static str)
    requires
        v < 16,
    ensures
        r@ == seq![hex_digit(v)],
{
    proof {
        reveal_strlit("0");
        reveal_strlit("1");
        reveal_strlit("2");
        reveal_strlit("3");
        reveal_strlit("4");
        reveal_strlit("5");
        reveal_strlit("6");
        reveal_strlit("7");
        reveal_strlit("8");
        reveal_strlit("9");
        reveal_strlit("a");
        reveal_strlit("b");
        reveal_strlit("c");
        reveal_strlit("d");
        reveal_strlit("e");
        reveal_strlit("f");
    }
    let r = match v {
        0 => "0",
        1 => "1",
        2 => "2",
        3 => "3",
        4 => "4",
        5 => "5",
        6 => "6",
        7 => "7",
        8 => "8",
        9 => "9",
        10 => "a",
        11 => "b",
        12 => "c",
        13 => "d",
        14 => "e",
        _ => "f",
    };
    assert(r@ =~= seq![hex_digit(v)]);
    r
}

/// Lower-case hexadecimal text of some bytes.
pub fn to_hex_lower(bytes: &[u8]) -> (r: String)
    ensures
        r@ == hex_lower(bytes@),
{
    let mut out = String::new();
    let n = bytes.len();
    for i in 0..n
        invariant
            n == bytes@.len(),
            out@ == hex_lower(bytes@.take(i as int)),
    {
        let b = bytes[i];
        out.append(hex_digit_text(b / 16));
        out.append(hex_digit_text(b % 16));
        proof {
            assert(bytes@.take(i + 1).drop_last() =~= bytes@.take(i as int));
            assert(bytes@.take(i + 1).last() == b);
        }
    }
    assert(bytes@.take(n as int) =~= bytes@);
    out
}

/// The stored hash of a secret: lower-case hex SHA-256 of its trimmed UTF-8 text.
pub open spec fn secret_hash(secret: Seq<char>) -> Seq<char> {
    hex_lower(sha256_digest(vstd::utf8::encode_utf8(trimmed(secret))))
}

/// Hashes a secret for storage.
pub fn hash_secret(secret: &str) -> (r: String)
    ensures
        r@ == secret_hash(secret@),
{
    let trimmed_secret = trim(secret);
    let digest = sha256(trimmed_secret.as_str().as_bytes());
    to_hex_lower(digest.as_slice())
}

/// Why an agent name is refused.
#[derive(Clone, Copy, Debug, PartialEq, Eq, Structural)]
pub enum AgentNameError {
    BadLength,
    BadCharacter,
}

/// A byte allowed in agent names: ASCII letters and digits, `.`, `_` and `-`.
pub open spec fn is_name_byte(b: u8) -> bool {
    ||| 0x30 <= b <= 0x39
    ||| 0x41 <= b <= 0x5a
    ||| 0x61 <= b <= 0x7a
    ||| b == 0x2e
    ||| b == 0x5f
    ||| b == 0x2d
}

/// The problem, if any, with an agent name: 1 to 64 bytes, not `.` or `..`,
/// made of name bytes only. The name becomes a credential file name.
pub open spec fn agent_name_issue(name: Seq<char>) -> Option<AgentNameError> {
    let bytes = vstd::utf8::encode_utf8(name);
    if bytes.len() == 0 || bytes.len() > 64 || name == "."@ || name == ".."@ {
        Some(AgentNameError::BadLength)
    } else if exists|i: int| 0 <= i < bytes.len() && !is_name_byte(#[trigger] bytes[i]) {
        Some(AgentNameError::BadCharacter)
    } else {
        None
    }
}

/// Checks an agent name.
pub fn validate_agent_name(name: &str) -> (r: Result<(), AgentNameError>)
    ensures
        r == match agent_name_issue(name@) {
            Some(e) => Err(e),
            None => Ok(()),
        },
{
    let bytes = name.as_bytes();
    let n = bytes.len();
    if n == 0 || n > 64 || crate::text::text_eq(name, ".") || crate::text::text_eq(name, "..") {
        return Err(AgentNameError::BadLength);
    }
    for i in 0..n
        invariant
            n == bytes@.len(),
            0 < n <= 64,
            name@ != "."@,
            name@ != ".."@,
            bytes@ == vstd::utf8::encode_utf8(name@),
            forall|k: int| 0 <= k < i ==> is_name_byte(#[trigger] bytes@[k]),
    {
        let b = bytes[i];
        let ok = (0x30 <= b && b <= 0x39) || (0x41 <= b && b <= 0x5a) || (0x61 <= b && b <= 0x7a)
            || b == 0x2e || b == 0x5f || b == 0x2d;
        if !ok {
            assert(!is_name_byte(bytes@[i as int]));
            return Err(AgentNameError::BadCharacter);
        }
    }
    Ok(())
}

/// The credential a request presents: the text after `Bearer ` in its
/// `Authorization` header.
pub open spec fn bearer_of(header: Seq<char>) -> Option<Seq<char>> {
    let p = "Bearer "@;
    if header.len() >= p.len() && header.subrange(0, p.len() as int) == p {
        Some(header.subrange(p.len() as int, header.len() as int))
    } else {
        None
    }
}

/// Reads the bearer token of an `Authorization` header value.
pub fn bearer_token(header: &str) -> (r: Option<String>)
    ensures
        match r {
            Some(t) => bearer_of(header@) == Some(t@),
            None => bearer_of(header@) is None,
        },
{
    strip_prefix(header, "Bearer ")
}

/// The token a credential file holds: its trimmed contents, unless blank.
pub open spec fn stored_token(contents: Seq<char>) -> Option<Seq<char>> {
    if trimmed(contents).len() == 0 {
        None
    } else {
        Some(trimmed(contents))
    }
}

/// Whether a presented token equals the token of some credential file.
pub open spec fn token_authorized(files: Seq<String>, presented: Seq<char>) -> bool {
    exists|i: int|
        0 <= i < files.len() && #[trigger] stored_token(files[i]@) == Some(presented)
}

/// Whether the presented token matches the token of any credential file,
/// given the contents of the regular files of the credential directory. Every
/// file is compared, in constant time, whatever the earlier outcomes.
pub fn authorized(files: &Vec<String>, presented: &str) -> (r: bool)
    ensures
        r == token_authorized(files@, presented@),
{
    let mut matched = false;
    let n = files.len();
    for i in 0..n
        invariant
            n == files@.len(),
            matched == exists|k: int|
                0 <= k < i && #[trigger] stored_token(files@[k]@) == Some(presented@),
    {
        let token = trim(files[i].as_str());
        if token.as_str().unicode_len() != 0 {
            let equal = bytes_equal_in_constant_time(
                token.as_str().as_bytes(),
                presented.as_bytes(),
            );
            proof {
                vstd::utf8::encode_utf8_decode_utf8(token@);
                vstd::utf8::encode_utf8_decode_utf8(presented@);
            }
            matched = matched || equal;
        }
        proof {
            if stored_token(files@[i as int]@) == Some(presented@) {
                assert(exists|k: int|
                    0 <= k < i + 1 && #[trigger] stored_token(files@[k]@) == Some(presented@));
            }
        }
    }
    matched
}

} // verus!
