//! SHA-256 of a save file, fed chunk by chunk, printed in lower-case hex.
use vstd::prelude::*;
use sha2::Digest;

verus! {

/// A running SHA-256 computation (the `sha2` crate's hasher).
#[verifier::external_body]
pub struct Sha256Stream {
    inner: sha2::Sha256,
}

/// The bytes fed to a running SHA-256 computation so far.
pub uninterp spec fn absorbed(h: Sha256Stream) -> Seq<u8>;

/// The SHA-256 digest of a byte sequence, as `sha2` computes it.
pub uninterp spec fn sha256_digest(data: Seq<u8>) -> Seq<u8>;

/// `sha2::Sha256::new`: a computation that has been fed nothing.
#[verifier::external_body]
fn sha256_new() -> (h: Sha256Stream)
    ensures
        absorbed(h) == Seq::<u8>::empty(),
{
    Sha256Stream { inner: sha2::Sha256::new() }
}

/// `Digest::update`: feeds `data` after what was fed before.
#[verifier::external_body]
fn sha256_update(h: &mut Sha256Stream, data: &[u8])
    ensures
        absorbed(*final(h)) == absorbed(*old(h)) + data@,
{
    h.inner.update(data)
}

/// `Digest::finalize`: the 32-byte digest of everything fed.
#[verifier::external_body]
fn sha256_finalize(h: Sha256Stream) -> (d: Vec<u8>)
    ensures
        d@ == sha256_digest(absorbed(h)),
        d@.len() == 32,
{
    h.inner.finalize().to_vec()
}

pub open spec fn hex_digit(d: int) -> char {
    if d < 10 {
        ((d + 48) as u32) as char
    } else {
        ((d + 87) as u32) as char
    }
}

/// Each byte as two lower-case hexadecimal digits, high half first: what
/// `{:x}` prints for a digest.
pub open spec fn hex_lower(bytes: Seq<u8>) -> Seq<char>
    decreases bytes.len(),
{
    if bytes.len() == 0 {
        Seq::empty()
    } else {
        hex_lower(bytes.drop_last()) + seq![
            hex_digit(bytes.last() as int / 16),
            hex_digit(bytes.last() as int % 16),
        ]
    }
}

fn hex_digit_char(d: u8) -> (c: char)
    requires
        d < 16,
    ensures
        c == hex_digit(d as int),
{
    if d < 10 {
        (d + 48) as char
    } else {
        (d + 87) as char
    }
}

/// The lower-case hexadecimal text of `bytes`.
pub fn to_hex_lower(bytes: &[u8]) -> (s: String)
    ensures
        s@ == hex_lower(bytes@),
{
    let mut s = String::new();
    let n = bytes.len();
    let mut i: usize = 0;
    while i < n
        invariant
            i <= n,
            n == bytes@.len(),
            s@ == hex_lower(bytes@.subrange(0, i as int)),
        decreases n - i,
    {
        let b = bytes[i];
        let hi = hex_digit_char(b / 16);
        let lo = hex_digit_char(b % 16);
        crate::text::append_chars(&mut s, &[hi, lo]);
        proof {
            let pre = bytes@.subrange(0, i + 1);
            assert(pre.drop_last() =~= bytes@.subrange(0, i as int));
            assert(pre.last() == b);
            assert(s@ =~= hex_lower(pre));
        }
        i = i + 1;
    }
    assert(bytes@.subrange(0, n as int) =~= bytes@);
    s
}

/// Hashes a file's contents as they are read, chunk by chunk.
pub struct FileHasher {
    state: Sha256Stream,
}

impl FileHasher {
    /// The bytes fed so far.
    pub closed spec fn fed(&self) -> Seq<u8> {
        absorbed(self.state)
    }

    pub fn new() -> (h: Self)
        ensures
            h.fed() == Seq::<u8>::empty(),
    {
        FileHasher { state: sha256_new() }
    }

    /// Feeds the next chunk.
    pub fn update(&mut self, chunk: &[u8])
        ensures
            final(self).fed() == old(self).fed() + chunk@,
    {
        sha256_update(&mut self.state, chunk);
    }

    /// The digest of everything fed, in lower-case hex.
    pub fn finish_hex(self) -> (s: String)
        ensures
            s@ == hex_lower(sha256_digest(self.fed())),
            s@.len() == 64,
    {
        let d = sha256_finalize(self.state);
        let s = to_hex_lower(d.as_slice());
        proof {
            lemma_hex_len(d@);
        }
        s
    }
}

proof fn lemma_hex_len(b: Seq<u8>)
    ensures
        hex_lower(b).len() == 2 * b.len(),
    decreases b.len(),
{
    if b.len() > 0 {
        lemma_hex_len(b.drop_last());
    }
}

} // verus!
