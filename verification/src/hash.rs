//! Content hashes: the SHA-256 digest of a file's bytes, written as
//! lower-case hexadecimal text.
use vstd::prelude::*;
use sha2::{Digest, Sha256};

verus! {

/// The SHA-256 digest of `data`, as `sha2::Sha256` computes it.
pub uninterp spec fn sha256(data: Seq<u8>) -> Seq<u8>;

/// Calls `sha2::Sha256::digest`. Trusted: the result is the digest of the
/// bytes handed in (named `sha256`), and it has the 32 bytes of the
/// algorithm's output size (`OutputSize = U32` in the crate).
#[verifier::external_body]
fn sha256_digest(data: &[u8]) -> (d: Vec<u8>)
    ensures
        d@ == sha256(data@),
        d@.len() == 32,
{
    Sha256::digest(data).to_vec()
}

/// The lower-case hexadecimal digit for `n < 16`.
pub open spec fn hex_digit(n: int) -> char {
    if n == 0 { '0' }
    else if n == 1 { '1' }
    else if n == 2 { '2' }
    else if n == 3 { '3' }
    else if n == 4 { '4' }
    else if n == 5 { '5' }
    else if n == 6 { '6' }
    else if n == 7 { '7' }
    else if n == 8 { '8' }
    else if n == 9 { '9' }
    else if n == 10 { 'a' }
    else if n == 11 { 'b' }
    else if n == 12 { 'c' }
    else if n == 13 { 'd' }
    else if n == 14 { 'e' }
    else { 'f' }
}

/// Two lower-case hexadecimal digits per byte, high half first.
pub open spec fn lower_hex(bytes: Seq<u8>) -> Seq<char>
    decreases bytes.len(),
{
    if bytes.len() == 0 {
        Seq::empty()
    } else {
        let b = bytes.last();
        lower_hex(bytes.drop_last()) + seq![hex_digit(b as int / 16), hex_digit(b as int % 16)]
    }
}

fn digit(n: u8) -> (c: char)
    requires
        n < 16,
    ensures
        c == hex_digit(n as int),
{
    if n == 0 { '0' }
    else if n == 1 { '1' }
    else if n == 2 { '2' }
    else if n == 3 { '3' }
    else if n == 4 { '4' }
    else if n == 5 { '5' }
    else if n == 6 { '6' }
    else if n == 7 { '7' }
    else if n == 8 { '8' }
    else if n == 9 { '9' }
    else if n == 10 { 'a' }
    else if n == 11 { 'b' }
    else if n == 12 { 'c' }
    else if n == 13 { 'd' }
    else if n == 14 { 'e' }
    else { 'f' }
}

/// `bytes` written in lower-case hexadecimal (what `{:x}` prints for a
/// digest).
pub fn to_lower_hex(bytes: &[u8]) -> (s: String)
    ensures
        s@ == lower_hex(bytes@),
        s@.len() == 2 * bytes@.len(),
{
    let mut s = String::new();
    let mut i: usize = 0;
    while i < bytes.len()
        invariant
            i <= bytes@.len(),
            s@ == lower_hex(bytes@.take(i as int)),
            s@.len() == 2 * i,
        decreases bytes@.len() - i,
    {
        let b = bytes[i];
        assert(bytes@.take(i + 1).drop_last() =~= bytes@.take(i as int));
        assert((b / 16) as int == b as int / 16 && (b % 16) as int == b as int % 16);
        s.push(digit(b / 16));
        s.push(digit(b % 16));
        i = i + 1;
        assert(s@ =~= lower_hex(bytes@.take(i as int)));
    }
    assert(bytes@.take(bytes@.len() as int) =~= bytes@);
    s
}

/// The hash recorded for a file with content `content`: its SHA-256
/// digest in lower-case hexadecimal, 64 characters.
pub fn hash_hex(content: &[u8]) -> (h: String)
    ensures
        h@ == lower_hex(sha256(content@)),
        h@.len() == 64,
{
    let d = sha256_digest(content);
    to_lower_hex(d.as_slice())
}

/// Distinct bytes give distinct digits: the hexadecimal text determines the
/// bytes it was written from.
pub proof fn law_lower_hex_injective(a: Seq<u8>, b: Seq<u8>)
    requires
        lower_hex(a) == lower_hex(b),
    ensures
        a == b,
    decreases a.len(),
{
    lemma_lower_hex_len(a);
    lemma_lower_hex_len(b);
    if a.len() > 0 {
        let ha = lower_hex(a.drop_last());
        let hb = lower_hex(b.drop_last());
        lemma_lower_hex_len(a.drop_last());
        lemma_lower_hex_len(b.drop_last());
        let n = lower_hex(a).len();
        assert(lower_hex(a)[n - 2] == lower_hex(b)[n - 2]);
        assert(lower_hex(a)[n - 1] == lower_hex(b)[n - 1]);
        assert(ha =~= lower_hex(a).take(n - 2));
        assert(hb =~= lower_hex(b).take(n - 2));
        law_lower_hex_injective(a.drop_last(), b.drop_last());
        let x = a.last() as int;
        let y = b.last() as int;
        let ta = seq![hex_digit(x / 16), hex_digit(x % 16)];
        let tb = seq![hex_digit(y / 16), hex_digit(y % 16)];
        assert(lower_hex(a) == ha + ta);
        assert(lower_hex(b) == hb + tb);
        assert((ha + ta)[n - 2] == ta[0]);
        assert((hb + tb)[n - 2] == tb[0]);
        assert((ha + ta)[n - 1] == ta[1]);
        assert((hb + tb)[n - 1] == tb[1]);
        assert(hex_digit(x / 16) == hex_digit(y / 16));
        assert(hex_digit(x % 16) == hex_digit(y % 16));
        assert(x / 16 == y / 16);
        assert(x % 16 == y % 16);
        assert(x == 16 * (x / 16) + x % 16);
        assert(y == 16 * (y / 16) + y % 16);
        assert(a =~= a.drop_last().push(a.last()));
        assert(a.last() == b.last());
        assert(b =~= b.drop_last().push(b.last()));
    }
}

pub proof fn lemma_lower_hex_len(a: Seq<u8>)
    ensures
        lower_hex(a).len() == 2 * a.len(),
    decreases a.len(),
{
    if a.len() > 0 {
        lemma_lower_hex_len(a.drop_last());
    }
}

} // verus!
