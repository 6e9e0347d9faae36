//! Digests and their text.
use sha2::Digest;
use base64::Engine;
use vstd::prelude::*;

verus! {

/// The SHA-256 digest of a sequence of bytes.
pub uninterp spec fn sha256_digest(data: Seq<u8>) -> Seq<u8>;

/// `sha2::Sha256`: fed `a` and then `b`, it gives the digest of the two one
/// behind the other, which is 32 bytes long.
#[verifier::external_body]
pub(crate) fn sha256_of_parts(a: &[u8], b: &[u8]) -> (r: Vec<u8>)
    ensures
        r@ == sha256_digest(a@ + b@),
        r@.len() == 32,
{
    let mut hasher = sha2::Sha256::new();
    hasher.update(a);
    hasher.update(b);
    hasher.finalize().to_vec()
}

/// The `i`-th group of six bits of `data`, filled up with zeros behind its end.
pub open spec fn sextet(data: Seq<u8>, i: int) -> int {
    let k = 6 * i / 8;
    let high = data[k] as int;
    let low = if k + 1 < data.len() { data[k + 1] as int } else { 0 };
    let unit: int = if i % 4 == 0 { 1024 } else if i % 4 == 1 { 16 } else if i % 4 == 2 { 64 } else {
        256
    };
    (high * 256 + low) / unit % 64
}

/// The letter that stands for six bits in URL-safe Base64.
pub open spec fn url_safe_letter(v: int) -> char {
    if v < 26 {
        (65 + v) as char
    } else if v < 52 {
        (71 + v) as char
    } else if v < 62 {
        (v - 4) as char
    } else if v == 62 {
        '-'
    } else {
        '_'
    }
}

/// URL-safe Base64 without padding: a letter for each group of six bits.
pub open spec fn base64_url_text(data: Seq<u8>) -> Seq<char> {
    Seq::new(((8 * data.len() + 5) / 6) as nat, |i: int| url_safe_letter(sextet(data, i)))
}

/// `base64`'s `encode` with the engine `URL_SAFE_NO_PAD`: the Base64 of RFC 4648
/// with `-` and `_` for its last two letters, and no padding.
#[verifier::external_body]
pub(crate) fn encode_base64_url(data: &[u8]) -> (r: String)
    requires
        data@.len() <= 0x1000_0000,
    ensures
        r@ == base64_url_text(data@),
{
    base64::engine::general_purpose::URL_SAFE_NO_PAD.encode(data)
}

/// Whether a character may stand in a file name and in a URL as it is.
pub open spec fn is_url_safe(c: char) -> bool {
    ||| 'A' <= c && c <= 'Z'
    ||| 'a' <= c && c <= 'z'
    ||| '0' <= c && c <= '9'
    ||| c == '-'
    ||| c == '_'
}

/// The text of a digest holds only characters that may stand in a file name, 43 of them
/// for 32 bytes.
pub proof fn lemma_base64_is_url_safe(data: Seq<u8>)
    ensures
        forall|i: int|
            0 <= i < base64_url_text(data).len() ==> is_url_safe(
                #[trigger] base64_url_text(data)[i],
            ),
        data.len() == 32 ==> base64_url_text(data).len() == 43,
{
    assert forall|i: int| 0 <= i < base64_url_text(data).len() implies is_url_safe(
        #[trigger] base64_url_text(data)[i],
    ) by {
        assert(0 <= sextet(data, i) < 64);
    }
}

}
