//! Digests that name stored credentials.

use crate::text;
use vstd::prelude::*;

verus! {

/// The SHA-256 digest of bytes, as `sha2::Sha256` computes it.
pub uninterp spec fn sha256(bytes: Seq<u8>) -> Seq<u8>;

/// The JSON array of two strings, as `serde_json::to_vec` writes it.
pub uninterp spec fn json_pair(first: Seq<char>, second: Seq<char>) -> Seq<u8>;

/// Digests bytes.
///
/// `sha2::Sha256::digest`: the digest is named, and it has 32 bytes.
#[verifier::external_body]
fn sha256_digest(bytes: &Vec<u8>) -> (digest: Vec<u8>)
    ensures
        digest@ == sha256(bytes@),
        digest@.len() == 32,
{
    <sha2::Sha256 as sha2::Digest>::digest(bytes).to_vec()
}

/// Writes two strings as a JSON array.
///
/// `serde_json::to_vec` on a pair of strings, which never fails. The bytes are named, not
/// described.
#[verifier::external_body]
fn json_pair_bytes(first: &str, second: &str) -> (bytes: Vec<u8>)
    ensures
        bytes@ == json_pair(first@, second@),
{
    serde_json::to_vec(&(first, second)).expect("strings serialize")
}

/// The lower-case hexadecimal digit of a number below sixteen.
pub open spec fn hex_digit(value: int) -> char {
    if value < 10 {
        ('0' as int + value) as char
    } else {
        ('a' as int + value - 10) as char
    }
}

/// Bytes in lower-case hexadecimal, two digits each.
pub open spec fn hex(bytes: Seq<u8>) -> Seq<char> {
    Seq::new(
        2 * bytes.len(),
        |i: int|
            if i % 2 == 0 {
                hex_digit(bytes[i / 2] as int / 16)
            } else {
                hex_digit(bytes[i / 2] as int % 16)
            },
    )
}

/// A hexadecimal digit in either case.
pub open spec fn is_hex(ch: char) -> bool {
    ('0' <= ch && ch <= '9') || ('a' <= ch && ch <= 'f') || ('A' <= ch && ch <= 'F')
}

/// A key that can name stored credentials: sixty-four hexadecimal digits.
pub open spec fn key_text(key: Seq<char>) -> bool {
    &&& key.len() == 64
    &&& forall|i: int| 0 <= i < key.len() ==> is_hex(#[trigger] key[i])
}

/// Writes a hexadecimal digit.
fn hex_char(value: u8) -> (digit: char)
    requires
        value < 16,
    ensures
        digit == hex_digit(value as int),
        is_hex(digit),
{
    if value < 10 {
        (48u8 + value) as char
    } else {
        (87u8 + value) as char
    }
}

/// Writes bytes in lower-case hexadecimal.
pub fn hex_text(bytes: &Vec<u8>) -> (written: String)
    ensures
        written@ == hex(bytes@),
        forall|i: int| 0 <= i < written@.len() ==> is_hex(#[trigger] written@[i]),
{
    let mut written: String = String::new();
    let mut i: usize = 0;
    while i < bytes.len()
        invariant
            i <= bytes.len(),
            written@ == hex(bytes@.take(i as int)),
            forall|j: int| 0 <= j < written@.len() ==> is_hex(#[trigger] written@[j]),
        decreases bytes.len() - i,
    {
        let byte: u8 = bytes[i];
        let ghost before = written@;
        written.push(hex_char(byte / 16));
        written.push(hex_char(byte % 16));
        proof {
            let want = hex(bytes@.take(i + 1));
            assert forall|j: int| 0 <= j < want.len() implies written@[j] == #[trigger] want[j] by {
                if j < 2 * i {
                    assert(before[j] == hex(bytes@.take(i as int))[j]);
                    assert(bytes@.take(i + 1)[j / 2] == bytes@.take(i as int)[j / 2]);
                }
            }
            assert(written@ =~= want);
        }
        i = i + 1;
    }
    assert(bytes@.take(i as int) =~= bytes@);
    written
}

/// The key under which the credentials of a user and workspace are stored.
pub open spec fn credential_key(user_id: Seq<char>, workspace_id: Seq<char>) -> Seq<char> {
    hex(sha256(json_pair(user_id, workspace_id)))
}

/// The key under which the credentials of a user and workspace are stored. It is always a key that
/// can name stored credentials.
pub fn identity_key(user_id: &str, workspace_id: &str) -> (key: String)
    ensures
        key@ == credential_key(user_id@, workspace_id@),
        key_text(key@),
{
    hex_text(&sha256_digest(&json_pair_bytes(user_id, workspace_id)))
}

/// The digest by which a serialized login is recognised.
pub fn login_digest(serialized: &Vec<u8>) -> (digest: String)
    ensures
        digest@ == hex(sha256(serialized@)),
        digest@.len() == 64,
{
    hex_text(&sha256_digest(serialized))
}

/// Whether a text can name stored credentials.
pub fn valid_key(key: &str) -> (answer: bool)
    ensures
        answer == key_text(key@),
{
    let list: Vec<char> = text::characters(key);
    if list.len() != 64 {
        return false;
    }
    let mut i: usize = 0;
    while i < list.len()
        invariant
            i <= list.len(),
            list@ == key@,
            forall|j: int| 0 <= j < i ==> is_hex(#[trigger] key@[j]),
        decreases list.len() - i,
    {
        let ch: char = list[i];
        let hex: bool = ('0' <= ch && ch <= '9') || ('a' <= ch && ch <= 'f') || ('A' <= ch && ch
            <= 'F');
        if !hex {
            return false;
        }
        i = i + 1;
    }
    true
}

/// The number that a hexadecimal digit stands for.
pub open spec fn hex_value(digit: char) -> int {
    if '0' <= digit && digit <= '9' {
        digit as int - '0' as int
    } else {
        digit as int - 'a' as int + 10
    }
}

/// Bytes are written with two lower-case hexadecimal digits each, the higher one first, so that they
/// can be read back.
pub proof fn law_hex_reads_back(bytes: Seq<u8>, i: int)
    requires
        0 <= i < bytes.len(),
    ensures
        hex(bytes).len() == 2 * bytes.len(),
        16 * hex_value(hex(bytes)[2 * i]) + hex_value(hex(bytes)[2 * i + 1]) == bytes[i],
        0 <= hex_value(hex(bytes)[2 * i]) < 16,
        0 <= hex_value(hex(bytes)[2 * i + 1]) < 16,
        forall|k: int|
            0 <= k < hex(bytes).len() ==> {
                ||| '0' <= #[trigger] hex(bytes)[k] && hex(bytes)[k] <= '9'
                ||| 'a' <= hex(bytes)[k] && hex(bytes)[k] <= 'f'
            },
{
    assert forall|k: int| 0 <= k < hex(bytes).len() implies {
        ||| '0' <= #[trigger] hex(bytes)[k] && hex(bytes)[k] <= '9'
        ||| 'a' <= hex(bytes)[k] && hex(bytes)[k] <= 'f'
    } by {
        let byte = bytes[k / 2] as int;
        assert(0 <= byte / 16 < 16 && 0 <= byte % 16 < 16);
    }
    let byte = bytes[i] as int;
    assert((2 * i) / 2 == i && (2 * i + 1) / 2 == i);
    assert((2 * i) % 2 == 0 && (2 * i + 1) % 2 == 1);
    assert(0 <= byte / 16 < 16 && 0 <= byte % 16 < 16);
}

/// A credential key is the digest of the user and the workspace, in that order, as a pair.
pub proof fn law_credential_key(user_id: Seq<char>, workspace_id: Seq<char>)
    ensures
        credential_key(user_id, workspace_id) == hex(sha256(json_pair(user_id, workspace_id))),
{
}

/// A text can name stored credentials just when it is sixty-four digits of either case, each a
/// character from zero to nine or from `a` to `f`.
pub proof fn law_keys_are_hexadecimal(key: Seq<char>)
    ensures
        key_text(key) <==> key.len() == 64 && forall|i: int|
            0 <= i < 64 ==> {
                let code = #[trigger] key[i] as int;
                48 <= code <= 57 || 65 <= code <= 70 || 97 <= code <= 102
            },
{
    if key.len() == 64 && forall|i: int|
        0 <= i < 64 ==> {
            let code = #[trigger] key[i] as int;
            48 <= code <= 57 || 65 <= code <= 70 || 97 <= code <= 102
        } {
        assert forall|i: int| 0 <= i < key.len() implies is_hex(#[trigger] key[i]) by {
            let code = key[i] as int;
            assert(48 <= code <= 57 || 65 <= code <= 70 || 97 <= code <= 102);
        }
    }
}

} // verus!
