//! Incremental md5 hashing and digest comparison.
//!
//! The digest computation itself is the `md5` crate's; this module names its
//! result, feeds it data in chunks, renders digests as lowercase hex and
//! compares them against reference hex strings.

use vstd::prelude::*;
use vstd::slice::slice_subrange;
use vstd::string::StringSliceAdditionalSpecFns;

verus! {

/// The md5 digest (16 bytes) of a byte sequence, as the `md5` crate
/// computes it.  Named, not defined: the algorithm is the outside crate's.
pub uninterp spec fn md5_of(data: Seq<u8>) -> Seq<u8>;

/// The stream of bytes an `md5::Context` has been fed so far.
pub uninterp spec fn md5_consumed(c: md5::Context) -> Seq<u8>;

#[verifier::external_type_specification]
#[verifier::external_body]
pub struct ExMd5Context(md5::Context);

/// Relies on `md5::Context::new`: a fresh context has consumed nothing.
#[verifier::external_body]
fn md5_context_new() -> (c: md5::Context)
    ensures
        md5_consumed(c) == Seq::<u8>::empty(),
{
    md5::Context::new()
}

/// Relies on `md5::Context::consume`: appends the data to the consumed
/// stream.
#[verifier::external_body]
fn md5_context_consume(c: &mut md5::Context, data: &[u8])
    ensures
        md5_consumed(*final(c)) == md5_consumed(*old(c)) + data@,
{
    c.consume(data)
}

/// Relies on `md5::Context::finalize`: a 16-byte digest that is a function
/// of the consumed stream alone.
#[verifier::external_body]
fn md5_context_finalize(c: md5::Context) -> (d: Vec<u8>)
    ensures
        d@ == md5_of(md5_consumed(c)),
        d@.len() == 16,
{
    c.finalize().0.to_vec()
}

/// An incremental hasher.  Its view is the whole stream consumed so far;
/// feeding the stream in chunks of any size yields the digest of the
/// concatenation.
pub struct Hasher {
    ctx: md5::Context,
}

impl View for Hasher {
    type V = Seq<u8>;

    closed spec fn view(&self) -> Seq<u8> {
        md5_consumed(self.ctx)
    }
}

impl Hasher {
    /// A hasher that has consumed nothing.
    pub fn new() -> (h: Hasher)
        ensures
            h@ == Seq::<u8>::empty(),
    {
        Hasher { ctx: md5_context_new() }
    }

    /// Appends one chunk to the consumed stream.
    pub fn update(&mut self, chunk: &[u8])
        ensures
            final(self)@ == old(self)@ + chunk@,
    {
        md5_context_consume(&mut self.ctx, chunk);
    }

    /// The digest of everything consumed, regardless of how the stream was
    /// chopped into chunks.
    pub fn finish(self) -> (d: Vec<u8>)
        ensures
            d@ == md5_of(self@),
            d@.len() == 16,
    {
        md5_context_finalize(self.ctx)
    }
}

/// The lowercase-hex character codes for one nibble.
pub open spec fn hex_digit(n: u8) -> u8
    recommends
        n < 16,
{
    if n < 10 {
        (0x30 + n) as u8
    } else {
        (0x57 + n) as u8
    }
}

/// The lowercase-hex rendering of a byte sequence: two digit codes per byte,
/// high nibble first.
pub open spec fn hex_bytes_of(data: Seq<u8>) -> Seq<u8> {
    Seq::new(
        2 * data.len(),
        |i: int|
            if i % 2 == 0 {
                hex_digit(data[i / 2] / 16)
            } else {
                hex_digit(data[i / 2] % 16)
            },
    )
}

fn hex_digit_exec(n: u8) -> (r: u8)
    requires
        n < 16,
    ensures
        r == hex_digit(n),
{
    if n < 10 {
        0x30 + n
    } else {
        0x57 + n
    }
}

/// Renders bytes as lowercase hex digit codes.
pub fn to_hex(data: &[u8]) -> (r: Vec<u8>)
    ensures
        r@ == hex_bytes_of(data@),
{
    let mut r: Vec<u8> = Vec::new();
    let mut i: usize = 0;
    while i < data.len()
        invariant
            i <= data@.len(),
            r@.len() == 2 * i,
            forall|j: int| 0 <= j < 2 * i ==> r@[j] == hex_bytes_of(data@)[j],
        decreases data@.len() - i,
    {
        let b = data[i];
        r.push(hex_digit_exec(b / 16));
        r.push(hex_digit_exec(b % 16));
        i = i + 1;
    }
    proof {
        assert(r@ =~= hex_bytes_of(data@));
    }
    r
}

/// Compares two byte slices for equality of contents.
pub fn bytes_eq(a: &[u8], b: &[u8]) -> (r: bool)
    ensures
        r == (a@ == b@),
{
    if a.len() != b.len() {
        proof {
            assert(a@ != b@);
        }
        return false;
    }
    let mut i: usize = 0;
    while i < a.len()
        invariant
            i <= a@.len(),
            a@.len() == b@.len(),
            forall|j: int| 0 <= j < i ==> a@[j] == b@[j],
        decreases a@.len() - i,
    {
        if a[i] != b[i] {
            proof {
                assert(a@ != b@);
            }
            return false;
        }
        i = i + 1;
    }
    proof {
        assert(a@ =~= b@);
    }
    true
}

/// Whether a digest matches a reference string: the digest's lowercase-hex
/// rendering must equal the reference byte for byte, case-sensitively, with
/// no normalization.
pub fn digest_matches(digest: &Vec<u8>, expected: &str) -> (r: bool)
    ensures
        r == (hex_bytes_of(digest@) == expected.spec_bytes()),
{
    let hex = to_hex(digest.as_slice());
    bytes_eq(hex.as_slice(), expected.as_bytes())
}

/// Verifies a whole buffer against a reference digest string.
pub fn verify_bytes(data: &[u8], expected: &str) -> (r: bool)
    ensures
        r == (hex_bytes_of(md5_of(data@)) == expected.spec_bytes()),
{
    let mut h = Hasher::new();
    h.update(data);
    proof {
        assert(h@ =~= data@);
    }
    let d = h.finish();
    digest_matches(&d, expected)
}

/// Verifies a buffer fed to the hasher in chunks of the given size: any
/// chunk size of at least one byte yields the same verdict as hashing the
/// whole buffer at once.
pub fn verify_bytes_chunked(data: &[u8], chunk_size: usize, expected: &str) -> (r: bool)
    requires
        chunk_size >= 1,
    ensures
        r == (hex_bytes_of(md5_of(data@)) == expected.spec_bytes()),
{
    let mut h = Hasher::new();
    let mut i: usize = 0;
    proof {
        assert(h@ =~= data@.take(0));
    }
    while i < data.len()
        invariant
            chunk_size >= 1,
            i <= data@.len(),
            h@ == data@.take(i as int),
        decreases data@.len() - i,
    {
        let j = if data.len() - i < chunk_size {
            data.len()
        } else {
            i + chunk_size
        };
        let chunk = slice_subrange(data, i, j);
        h.update(chunk);
        proof {
            assert(data@.take(j as int) =~= data@.take(i as int) + data@.subrange(
                i as int,
                j as int,
            ));
        }
        i = j;
    }
    proof {
        assert(data@.take(data@.len() as int) =~= data@);
    }
    let d = h.finish();
    digest_matches(&d, expected)
}

proof fn lemma_hex_digit_injective(x: u8, y: u8)
    requires
        x < 16,
        y < 16,
        hex_digit(x) == hex_digit(y),
    ensures
        x == y,
{
}

/// Distinct digests always render as distinct hex strings, and equal ones
/// as equal strings: a digest matches its own rendering and no other
/// digest's, so any corrupted digest is reported as a mismatch.
pub proof fn lemma_hex_injective(a: Seq<u8>, b: Seq<u8>)
    ensures
        (hex_bytes_of(a) == hex_bytes_of(b)) <==> (a == b),
{
    if hex_bytes_of(a) == hex_bytes_of(b) {
        assert(hex_bytes_of(a).len() == hex_bytes_of(b).len());
        assert(a.len() == b.len());
        assert forall|i: int| 0 <= i < a.len() implies a[i] == b[i] by {
            assert(hex_bytes_of(a)[2 * i] == hex_bytes_of(b)[2 * i]);
            assert(hex_bytes_of(a)[2 * i + 1] == hex_bytes_of(b)[2 * i + 1]);
            assert((2 * i) / 2 == i);
            assert((2 * i + 1) / 2 == i);
            assert(hex_digit(a[i] / 16) == hex_digit(b[i] / 16));
            assert(hex_digit(a[i] % 16) == hex_digit(b[i] % 16));
            lemma_hex_digit_injective(a[i] / 16, b[i] / 16);
            lemma_hex_digit_injective(a[i] % 16, b[i] % 16);
            assert(a[i] == a[i] / 16 * 16 + a[i] % 16);
            assert(b[i] == b[i] / 16 * 16 + b[i] % 16);
        };
        assert(a =~= b);
    }
}

} // verus!
