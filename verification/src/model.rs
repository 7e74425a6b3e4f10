//! Speech-model download: progress reports and the archive digest check.

use sha2::Digest;
use vstd::prelude::*;

verus! {

/// The pinned SHA-256 of the model archive, in hex; `None` skips the check
/// (the computed digest is only logged so that it can be pinned).
pub const MODEL_SHA256: Option<&'static str> = None;

/// Progress of a model download.
#[derive(Clone, Copy, Debug, PartialEq, Eq)]
pub enum Progress {
    /// `bytes` received so far, out of `total` when the server said.
    Downloading { bytes: u64, total: Option<u64> },
    /// The archive is being unpacked.
    Extracting,
    /// The model is in place.
    Done,
}

/// The lowercase hexadecimal digit for `d` (0 to 15).
pub open spec fn hex_digit(d: int) -> char {
    if d < 10 {
        (48 + d) as char
    } else {
        (87 + d) as char
    }
}

/// Lowercase hex of a byte string: two digits per byte, high nibble first.
pub open spec fn hex_of(data: Seq<u8>) -> Seq<char> {
    Seq::new(
        2 * data.len(),
        |j: int|
            if j % 2 == 0 {
                hex_digit((data[j / 2] / 16) as int)
            } else {
                hex_digit((data[j / 2] % 16) as int)
            },
    )
}

/// `hex::encode`: lowercase hex, two digits per byte with the high nibble
/// first, as the crate's documentation and source state.
#[verifier::external_body]
fn hex_encode(data: &[u8]) -> (r: String)
    ensures
        r@ == hex_of(data@),
{
    hex::encode(data)
}

/// A byte with ASCII upper-case letters mapped to lower case.
pub open spec fn ascii_lower(b: u8) -> u8 {
    if 65 <= b <= 90 {
        (b + 32) as u8
    } else {
        b
    }
}

/// ASCII case-insensitive equality of byte strings (`str::eq_ignore_ascii_case`).
pub open spec fn eq_ignore_ascii_case(a: Seq<u8>, b: Seq<u8>) -> bool {
    a.len() == b.len() && forall|i: int| 0 <= i < a.len() ==> ascii_lower(a[i]) == ascii_lower(b[i])
}

/// Decides `eq_ignore_ascii_case` on the UTF-8 bytes of two strings.
fn same_ignoring_ascii_case(a: &str, b: &str) -> (r: bool)
    ensures
        r == eq_ignore_ascii_case(encode_utf8_of(a@), encode_utf8_of(b@)),
{
    let x = a.as_bytes();
    let y = b.as_bytes();
    if x.len() != y.len() {
        return false;
    }
    let n = x.len();
    let mut i: usize = 0;
    while i < n
        invariant
            n == x@.len(),
            n == y@.len(),
            x@ == encode_utf8_of(a@),
            y@ == encode_utf8_of(b@),
            i <= n,
            forall|j: int| 0 <= j < i ==> ascii_lower(x@[j]) == ascii_lower(y@[j]),
        decreases n - i,
    {
        let p = if 65 <= x[i] && x[i] <= 90 {
            x[i] + 32
        } else {
            x[i]
        };
        let q = if 65 <= y[i] && y[i] <= 90 {
            y[i] + 32
        } else {
            y[i]
        };
        if p != q {
            assert(ascii_lower(x@[i as int]) != ascii_lower(y@[i as int]));
            return false;
        }
        i += 1;
    }
    true
}

/// The downloaded archive's digest did not match the pinned one.
#[derive(Clone, Debug, PartialEq, Eq)]
pub struct DigestMismatch {
    pub expected: String,
    pub actual: String,
}

/// Checks the SHA-256 `digest` of the downloaded archive against the pinned
/// hex digest, if one is pinned, ignoring ASCII case. Gives the digest's hex
/// form (for the log) when it is accepted.
pub fn check_archive_digest(expected: Option<&str>, digest: &[u8]) -> (r: Result<String, DigestMismatch>)
    ensures
        match r {
            Ok(h) => h@ == hex_of(digest@) && (expected matches Some(e) ==> eq_ignore_ascii_case(
                encode_utf8_of(hex_of(digest@)),
                encode_utf8_of(e@),
            )),
            Err(m) => expected matches Some(e) && m.expected@ == e@ && m.actual@ == hex_of(digest@)
                && !eq_ignore_ascii_case(encode_utf8_of(hex_of(digest@)), encode_utf8_of(e@)),
        },
{
    let actual = hex_encode(digest);
    match expected {
        Some(e) => {
            if same_ignoring_ascii_case(actual.as_str(), e) {
                Ok(actual)
            } else {
                Err(DigestMismatch { expected: String::from_str(e), actual })
            }
        },
        None => Ok(actual),
    }
}

/// SHA-256 of a byte string, as FIPS 180-4 defines it.
pub uninterp spec fn sha256_of(data: Seq<u8>) -> Seq<u8>;

/// A running SHA-256 computation over the downloaded archive: a
/// `sha2::Sha256` state, kept out of Verus's sight. What it has been fed is
/// named by `hashed_bytes`, and the digest it gives by `sha256_of`.
#[verifier::external_body]
pub struct ArchiveHasher {
    inner: sha2::Sha256,
}

/// The bytes fed to a hasher so far, in order.
pub uninterp spec fn hashed_bytes(h: ArchiveHasher) -> Seq<u8>;

/// `<sha2::Sha256 as Digest>::new`: a hasher that has been fed nothing.
#[verifier::external_body]
fn sha256_new() -> (r: ArchiveHasher)
    ensures
        hashed_bytes(r) == Seq::<u8>::empty(),
{
    ArchiveHasher { inner: sha2::Sha256::new() }
}

/// `<sha2::Sha256 as Digest>::update`: feeds `chunk` after what came before.
#[verifier::external_body]
fn sha256_update(h: &mut ArchiveHasher, chunk: &[u8])
    ensures
        hashed_bytes(*final(h)) == hashed_bytes(*old(h)) + chunk@,
{
    h.inner.update(chunk);
}

/// `<sha2::Sha256 as Digest>::finalize`: the 32-byte SHA-256 of all the
/// bytes fed, as a vector.
#[verifier::external_body]
fn sha256_finish(h: ArchiveHasher) -> (r: Vec<u8>)
    ensures
        r@ == sha256_of(hashed_bytes(h)),
        r@.len() == 32,
{
    h.inner.finalize().to_vec()
}

impl ArchiveHasher {
    /// A hasher that has been fed nothing yet.
    pub fn new() -> (r: ArchiveHasher)
        ensures
            hashed_bytes(r) == Seq::<u8>::empty(),
    {
        sha256_new()
    }

    /// Feeds the next chunk of the archive.
    pub fn update(&mut self, chunk: &[u8])
        ensures
            hashed_bytes(*final(self)) == hashed_bytes(*old(self)) + chunk@,
    {
        sha256_update(self, chunk)
    }
}

/// Finishes the digest of the downloaded archive and checks it against the
/// pinned hex digest as `check_archive_digest` does: on success the digest's
/// hex form, otherwise the mismatch.
pub fn verify_download(expected: Option<&str>, h: ArchiveHasher) -> (r: Result<String, DigestMismatch>)
    ensures
        match r {
            Ok(x) => x@ == hex_of(sha256_of(hashed_bytes(h))) && (expected matches Some(e)
                ==> eq_ignore_ascii_case(encode_utf8_of(hex_of(sha256_of(hashed_bytes(h)))), encode_utf8_of(e@))),
            Err(m) => expected matches Some(e) && m.expected@ == e@ && m.actual@ == hex_of(sha256_of(hashed_bytes(h)))
                && !eq_ignore_ascii_case(encode_utf8_of(hex_of(sha256_of(hashed_bytes(h)))), encode_utf8_of(e@)),
        },
{
    let digest = sha256_finish(h);
    check_archive_digest(expected, digest.as_slice())
}

/// UTF-8 bytes of a character sequence.
pub open spec fn encode_utf8_of(s: Seq<char>) -> Seq<u8> {
    vstd::utf8::encode_utf8(s)
}

} // verus!
