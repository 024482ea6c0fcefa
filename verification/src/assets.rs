//! Asset naming: resolved downloads get stable, content-addressed file
//! names — the URL's last path segment (or a fixed fallback), a counter
//! prefix while the name collides, and finally a digest prefix computed
//! from the fetched bytes.

use sha2::Digest;
use vstd::prelude::*;
use vstd::string::StringExecFns;
use vstd::string::StrSliceExecFns;
use crate::fmt::{spec_hex_str, spec_udec, lemma_hex_str_len, fmt_u64};
use crate::strutil::contains_seq;
use crate::compile::BackendCaps;

verus! {

/// The SHA-256 digest of a byte string: a function of the bytes alone,
/// the same in every process and on every machine.
pub uninterp spec fn sha256_of(b: Seq<u8>) -> Seq<u8>;

/// Relies on sha2::Sha256 through the sha2::Digest trait: the SHA-256
/// digest of the input, 32 bytes, a function of the input alone.
#[verifier::external_body]
fn sha256_digest(data: &Vec<u8>) -> (r: Vec<u8>)
    ensures
        r@ == sha256_of(data@),
        r@.len() == 32,
{
    let mut h = sha2::Sha256::new();
    h.update(data.as_slice());
    h.finalize().to_vec()
}

/// Relies on hex::encode: the lowercase hexadecimal rendering of the
/// bytes, two digits per byte, high nibble first.
#[verifier::external_body]
fn hex_encode(b: &Vec<u8>) -> (r: String)
    ensures
        r@ == spec_hex_str(b@),
{
    hex::encode(b.as_slice())
}

/// The last path segment of a URL string, when it parses as a URL with
/// path segments: a function of the string alone.
pub uninterp spec fn url_last_segment_of(s: Seq<char>) -> Option<Seq<char>>;

/// Relies on url::Url::parse and url::Url::path_segments: the last path
/// segment of the parsed URL, or nothing when the string does not parse
/// or the URL cannot have segments.
#[verifier::external_body]
fn url_last_segment(u: &str) -> (r: Option<String>)
    ensures
        match (r, url_last_segment_of(u@)) {
            (Some(a), Some(b)) => a@ == b,
            (None, None) => true,
            _ => false,
        },
{
    url::Url::parse(u).ok().and_then(
        |p| p.path_segments().and_then(|mut s| s.next_back().map(|x| x.to_string())),
    )
}

/// The file name an asset URL gets: its last path segment when that is
/// non-empty, and a fixed fallback otherwise.
pub open spec fn spec_asset_filename(u: Seq<char>) -> Seq<char> {
    match url_last_segment_of(u) {
        Some(s) => if s.len() > 0 {
            s
        } else {
            "asset.bin"@
        },
        None => "asset.bin"@,
    }
}

/// The file name to store an asset URL under, before hashing.
pub fn asset_filename(u: &str) -> (r: String)
    ensures
        r@ == spec_asset_filename(u@),
{
    match url_last_segment(u) {
        Some(s) => {
            if s.as_str().unicode_len() > 0 {
                s
            } else {
                "asset.bin".to_owned()
            }
        },
        None => "asset.bin".to_owned(),
    }
}

/// The name tried next while a name collides: the counter, a hyphen,
/// the name.
pub fn indexed_filename(idx: u64, name: &str) -> (r: String)
    ensures
        r@ == spec_udec(idx as nat) + "-"@ + name@,
{
    let mut s = fmt_u64(idx);
    s.append("-");
    s.append(name);
    s
}

/// The content-addressed name of a fetched asset: the first sixteen hex
/// digits of the SHA-256 digest of its bytes, a hyphen, the stored name.
pub fn hashed_filename(data: &Vec<u8>, name: &str) -> (r: String)
    ensures
        r@ == spec_hex_str(sha256_of(data@)).take(16) + "-"@ + name@,
{
    let digest = sha256_digest(data);
    let full = hex_encode(&digest);
    proof {
        lemma_hex_str_len(digest@);
    }
    let mut s = full.as_str().substring_char(0, 16).to_owned();
    s.append("-");
    s.append(name);
    s
}

/// Whether an encoder listing reports hardware H.264 support.
pub fn caps_from_encoders(listing: &str) -> (r: BackendCaps)
    ensures
        r.nvenc == contains_seq(listing@, "h264_nvenc"@),
{
    BackendCaps { nvenc: crate::strutil::contains_sub(listing, "h264_nvenc") }
}

} // verus!
