//! The dedup cache layout: the root directory chosen from the
//! environment, the per-endpoint tag directory that isolates
//! endpoints from one another, and the session identifier.

use vstd::prelude::*;
use vstd::string::StringSliceAdditionalSpecFns;
use crate::text::chars_of;
use crate::text::string_of;
use crate::text::subvec;

verus! {

/// The cache root the environment selects: the first set of
/// `HF_XET_CACHE`; `HF_HOME/xet`; `XDG_CACHE_HOME/huggingface/xet`;
/// `{home}/.cache/huggingface/xet`.
pub open spec fn cache_root_spec(
    hf_xet_cache: Option<&str>,
    hf_home: Option<&str>,
    xdg_cache_home: Option<&str>,
    home: Seq<char>,
) -> Seq<char> {
    match hf_xet_cache {
        Some(c) => c@,
        None => match hf_home {
            Some(h) => h@ + "/xet"@,
            None => match xdg_cache_home {
                Some(x) => x@ + "/huggingface/xet"@,
                None => home + "/.cache/huggingface/xet"@,
            },
        },
    }
}

/// Select the dedup cache root from the environment's values; `home`
/// is the home directory, or the working directory when none exists.
pub fn xet_cache_root(
    hf_xet_cache: Option<&str>,
    hf_home: Option<&str>,
    xdg_cache_home: Option<&str>,
    home: &str,
) -> (r: String)
    ensures
        r@ == cache_root_spec(hf_xet_cache, hf_home, xdg_cache_home, home@),
{
    match hf_xet_cache {
        Some(c) => String::from_str(c),
        None => match hf_home {
            Some(h) => {
                let mut s = String::from_str(h);
                s.append("/xet");
                s
            },
            None => match xdg_cache_home {
                Some(x) => {
                    let mut s = String::from_str(x);
                    s.append("/huggingface/xet");
                    s
                },
                None => {
                    let mut s = String::from_str(home);
                    s.append("/.cache/huggingface/xet");
                    s
                },
            },
        },
    }
}

/// Whether a character counts as alphanumeric under Unicode's
/// definition, as `char::is_alphanumeric` decides it.
pub uninterp spec fn is_unicode_alphanumeric(c: char) -> bool;

/// An ASCII digit or letter.
pub open spec fn char_ascii_alnum(c: char) -> bool {
    48 <= c as u32 <= 57 || 65 <= c as u32 <= 90 || 97 <= c as u32 <= 122
}

/// Relies on `char::is_alphanumeric`. Its documentation fixes the
/// ASCII cases: exactly the ASCII digits and letters are
/// alphanumeric there; the rest of the table is Unicode's.
#[verifier::external_body]
fn char_is_alphanumeric(c: char) -> (r: bool)
    ensures
        r == is_unicode_alphanumeric(c),
        char_ascii_alnum(c) ==> r,
        ((c as u32) < 128 && !char_ascii_alnum(c)) ==> !r,
{
    c.is_alphanumeric()
}

/// The digest of a byte string under SHA-256.
pub uninterp spec fn sha256_of(data: Seq<u8>) -> Seq<u8>;

/// Relies on `sha2::Sha256::digest`: the digest is a function of the
/// input bytes alone and is 32 bytes long.
#[verifier::external_body]
fn sha256(data: &[u8]) -> (r: Vec<u8>)
    ensures
        r@ == sha256_of(data@),
        r@.len() == 32,
{
    <sha2::Sha256 as sha2::Digest>::digest(data).to_vec()
}

/// The standard base64 encoding of a byte string.
pub uninterp spec fn base64_of(data: Seq<u8>) -> Seq<char>;

/// Relies on `base64`'s standard engine: the text is a function of
/// the input bytes alone, four characters for every started group of
/// three bytes.
#[verifier::external_body]
fn base64_encode(data: &[u8]) -> (r: String)
    ensures
        r@ == base64_of(data@),
        r@.len() == 4 * ((data@.len() + 2) / 3),
{
    base64::Engine::encode(&base64::engine::general_purpose::STANDARD, data)
}

/// The first sixteen characters of the endpoint, each kept when
/// alphanumeric and replaced by `_` otherwise.
pub open spec fn tag_prefix_spec(endpoint: Seq<char>) -> Seq<char> {
    Seq::new(
        if endpoint.len() < 16 {
            endpoint.len()
        } else {
            16
        },
        |i: int|
            if is_unicode_alphanumeric(endpoint[i]) {
                endpoint[i]
            } else {
                '_'
            },
    )
}

/// The tag directory that isolates one endpoint's caches: the
/// sanitised endpoint prefix, a dash, and the first sixteen
/// characters of the base64 form of the endpoint's SHA-256 digest.
pub open spec fn endpoint_tag_spec(endpoint: &str) -> Seq<char> {
    tag_prefix_spec(endpoint@) + "-"@ + base64_of(sha256_of(endpoint.spec_bytes())).subrange(
        0,
        16,
    )
}

/// The per-endpoint cache tag directory name.
pub fn endpoint_tag(endpoint: &str) -> (r: String)
    ensures
        r@ == endpoint_tag_spec(endpoint),
{
    let chars = chars_of(endpoint);
    let n = chars.len();
    let take: usize = if n < 16 {
        n
    } else {
        16
    };
    let mut prefix: Vec<char> = Vec::new();
    let mut i: usize = 0;
    while i < take
        invariant
            i <= take,
            take == if chars@.len() < 16 {
                chars@.len() as int
            } else {
                16
            },
            take <= chars@.len(),
            chars@ == endpoint@,
            prefix@ == tag_prefix_spec(endpoint@).subrange(0, i as int),
        decreases take - i,
    {
        let c = chars[i];
        if char_is_alphanumeric(c) {
            prefix.push(c);
        } else {
            prefix.push('_');
        }
        proof {
            assert(prefix@ =~= tag_prefix_spec(endpoint@).subrange(0, i + 1));
        }
        i += 1;
    }
    proof {
        assert(prefix@ =~= tag_prefix_spec(endpoint@));
    }
    let digest = sha256(endpoint.as_bytes());
    let encoded = base64_encode(digest.as_slice());
    let encoded_chars = chars_of(encoded.as_str());
    let hash_part = subvec(&encoded_chars, 0, 16);
    let mut s = string_of(&prefix);
    s.append("-");
    let tail = string_of(&hash_part);
    s.append(tail.as_str());
    s
}

/// The subdirectories of an endpoint's cache: the chunk cache, the
/// shard cache, the staging root, and the shard-session directory
/// under it.
pub fn cache_subdirectories(base: &str) -> (r: (String, String, String, String))
    ensures
        r.0@ == base@ + "/chunk-cache"@,
        r.1@ == base@ + "/shard-cache"@,
        r.2@ == base@ + "/staging"@,
        r.3@ == base@ + "/staging/shard-session"@,
{
    let mut chunk = String::from_str(base);
    chunk.append("/chunk-cache");
    let mut shard = String::from_str(base);
    shard.append("/shard-cache");
    let mut staging = String::from_str(base);
    staging.append("/staging");
    let mut session = String::from_str(base);
    session.append("/staging/shard-session");
    (chunk, shard, staging, session)
}

} // verus!
