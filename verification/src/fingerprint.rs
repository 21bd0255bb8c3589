//! Stable finding fingerprints: the SHA-256 digest of a rule, a path and an anchor, in hex.
use crate::findings::SourceLocation;
use crate::text::{slashes, slashes_exec};
use sha2::Digest;
use vstd::prelude::*;
use vstd::utf8::encode_utf8;

verus! {

/// The SHA-256 digest of a byte string.
pub uninterp spec fn sha256_digest(data: Seq<u8>) -> Seq<u8>;

/// `sha2::Sha256::digest`: the SHA-256 digest of `data`, which is 32 bytes long.
#[verifier::external_body]
fn sha256(data: &[u8]) -> (r: Vec<u8>)
    ensures
        r@ == sha256_digest(data@),
        r@.len() == 32,
{
    sha2::Sha256::digest(data).to_vec()
}

/// The lower-case hexadecimal digit of a value below sixteen.
pub open spec fn hex_digit(d: u8) -> char {
    if d < 10 {
        ((d + 48) as u8) as char
    } else {
        ((d + 87) as u8) as char
    }
}

/// Two lower-case hexadecimal digits per byte, most significant first.
pub open spec fn hex_text(bytes: Seq<u8>) -> Seq<char>
    decreases bytes.len(),
{
    if bytes.len() == 0 {
        seq![]
    } else {
        hex_text(bytes.drop_last()) + seq![
            hex_digit(bytes.last() / 16),
            hex_digit(bytes.last() % 16),
        ]
    }
}

/// The bytes that are hashed: rule, path with forward slashes and anchor, separated by zeros.
pub open spec fn fingerprint_input(rule_id: Seq<char>, anchor: Seq<char>, path: Seq<char>) -> Seq<
    u8,
> {
    encode_utf8(rule_id) + seq![0u8] + encode_utf8(slashes(path)) + seq![0u8] + encode_utf8(anchor)
}

/// The fingerprint of a finding of `rule_id` at `path`, anchored at `anchor`.
pub open spec fn fingerprint_text(rule_id: Seq<char>, anchor: Seq<char>, path: Seq<char>) -> Seq<
    char,
> {
    hex_text(sha256_digest(fingerprint_input(rule_id, anchor, path)))
}

/// A lower-case hexadecimal digit.
pub open spec fn is_lower_hex(c: char) -> bool {
    ('0' <= c && c <= '9') || ('a' <= c && c <= 'f')
}

proof fn lemma_hex_text(bytes: Seq<u8>)
    ensures
        hex_text(bytes).len() == 2 * bytes.len(),
        forall|i: int| 0 <= i < hex_text(bytes).len() ==> is_lower_hex(#[trigger] hex_text(bytes)[i]),
    decreases bytes.len(),
{
    if bytes.len() > 0 {
        lemma_hex_text(bytes.drop_last());
        let b = bytes.last();
        assert(is_lower_hex(hex_digit(b / 16))) by {
            assert(b / 16 < 16);
        }
        assert(is_lower_hex(hex_digit(b % 16)));
        let prev = hex_text(bytes.drop_last());
        assert forall|i: int| 0 <= i < hex_text(bytes).len() implies is_lower_hex(
            #[trigger] hex_text(bytes)[i],
        ) by {
            if i < prev.len() {
                assert(hex_text(bytes)[i] == prev[i]);
            }
        }
    }
}

fn hex_char(d: u8) -> (r: char)
    requires
        d < 16,
    ensures
        r == hex_digit(d),
{
    if d < 10 {
        (d + 48) as char
    } else {
        (d + 87) as char
    }
}

fn push_bytes(data: &mut Vec<u8>, s: &str)
    ensures
        final(data)@ == old(data)@ + encode_utf8(s@),
{
    let bytes = s.as_bytes();
    let mut i: usize = 0;
    while i < bytes.len()
        invariant
            i <= bytes@.len(),
            bytes@ == encode_utf8(s@),
            data@ == old(data)@ + bytes@.subrange(0, i as int),
        decreases bytes@.len() - i,
    {
        data.push(bytes[i]);
        i += 1;
        assert(data@ =~= old(data)@ + bytes@.subrange(0, i as int));
    }
    assert(bytes@.subrange(0, i as int) =~= bytes@);
}

/// The fingerprint of a finding of `rule_id` at `location`, anchored at `anchor`.
pub fn fingerprint(rule_id: &str, anchor: &str, location: &SourceLocation) -> (r: String)
    ensures
        r@ == fingerprint_text(rule_id@, anchor@, location.path@),
        r@.len() == 64,
        forall|i: int| 0 <= i < r@.len() ==> is_lower_hex(#[trigger] r@[i]),
{
    let path = slashes_exec(location.path.as_str());
    let mut data: Vec<u8> = Vec::new();
    push_bytes(&mut data, rule_id);
    data.push(0);
    push_bytes(&mut data, path.as_str());
    data.push(0);
    push_bytes(&mut data, anchor);
    assert(data@ =~= fingerprint_input(rule_id@, anchor@, location.path@));
    let digest = sha256(data.as_slice());
    let mut out = String::new();
    let mut i: usize = 0;
    while i < digest.len()
        invariant
            i <= digest@.len(),
            out@ == hex_text(digest@.subrange(0, i as int)),
        decreases digest@.len() - i,
    {
        let b = digest[i];
        crate::text::push_char(&mut out, hex_char(b / 16));
        crate::text::push_char(&mut out, hex_char(b % 16));
        proof {
            let pre = digest@.subrange(0, i as int);
            let next = digest@.subrange(0, i + 1);
            assert(next.drop_last() =~= pre);
            assert(next.last() == b);
        }
        i += 1;
    }
    assert(digest@.subrange(0, digest@.len() as int) =~= digest@);
    proof {
        lemma_hex_text(digest@);
    }
    out
}

} // verus!
