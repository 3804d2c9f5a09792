//! SHA-1 digests and their hexadecimal form.

use vstd::prelude::*;

verus! {

/// The SHA-1 digest of some bytes.
pub uninterp spec fn sha1_of(bytes: Seq<u8>) -> Seq<u8>;

/// `sha1::Sha1::digest`: the SHA-1 digest of some bytes, which has 20 bytes.
/// What the digest is, is left to the outside crate, and named.
#[verifier::external_body]
fn sha1_digest(bytes: &Vec<u8>) -> (r: Vec<u8>)
    ensures
        r@ == sha1_of(bytes@),
        r@.len() == 20,
{
    <sha1::Sha1 as sha1::Digest>::digest(bytes).to_vec()
}

/// A hexadecimal digit.
pub open spec fn hex_digit(n: int) -> char {
    if n < 10 {
        (n + '0' as int) as char
    } else {
        (n - 10 + 'a' as int) as char
    }
}

/// The two digits of a byte.
pub open spec fn hex_byte(b: u8) -> Seq<char> {
    seq![hex_digit(b as int / 16), hex_digit(b as int % 16)]
}

/// The digits of bytes, one after another.
pub open spec fn hex(bytes: Seq<u8>) -> Seq<char>
    decreases bytes.len(),
{
    if bytes.len() == 0 {
        Seq::empty()
    } else {
        hex(bytes.drop_last()) + hex_byte(bytes.last())
    }
}

fn digit(n: u8) -> (c: char)
    requires
        n < 16,
    ensures
        c == hex_digit(n as int),
{
    if n < 10 {
        (48 + n) as char
    } else {
        (97 + (n - 10)) as char
    }
}

/// Writes bytes out in hexadecimal form.
pub fn hex_text(bytes: &Vec<u8>) -> (r: String)
    ensures
        r@ == hex(bytes@),
{
    let mut out = String::new();
    let mut i: usize = 0;
    while i < bytes.len()
        invariant
            i <= bytes@.len(),
            out@ == hex(bytes@.take(i as int)),
        decreases bytes@.len() - i,
    {
        let ghost before = out@;
        proof {
            assert(bytes@.take(i + 1).drop_last() =~= bytes@.take(i as int));
            assert(bytes@.take(i + 1).last() == bytes@[i as int]);
        }
        out.push(digit(bytes[i] / 16));
        out.push(digit(bytes[i] % 16));
        proof {
            assert(out@ =~= before + hex_byte(bytes@[i as int]));
        }
        i = i + 1;
    }
    proof {
        assert(bytes@.take(i as int) =~= bytes@);
    }
    out
}

proof fn lemma_hex_len(bytes: Seq<u8>)
    ensures
        hex(bytes).len() == bytes.len() * 2,
    decreases bytes.len(),
{
    if bytes.len() > 0 {
        lemma_hex_len(bytes.drop_last());
    }
}

/// The SHA-1 digest of some bytes in hexadecimal form.
pub fn sha1_hex(bytes: &Vec<u8>) -> (r: String)
    ensures
        r@ == hex(sha1_of(bytes@)),
        r@.len() == 40,
{
    let digest = sha1_digest(bytes);
    proof {
        lemma_hex_len(digest@);
    }
    hex_text(&digest)
}

/// Different bytes have different hexadecimal forms.
pub proof fn hex_forms_differ(a: Seq<u8>, b: Seq<u8>)
    requires
        hex(a) == hex(b),
    ensures
        a == b,
    decreases a.len(),
{
    lemma_hex_len(a);
    lemma_hex_len(b);
    if a.len() > 0 {
        let x = hex(a.drop_last());
        let y = hex(b.drop_last());
        let n = x.len() as int;
        lemma_hex_len(a.drop_last());
        lemma_hex_len(b.drop_last());
        assert(hex(a) == x + hex_byte(a.last()));
        assert(hex(b) == y + hex_byte(b.last()));
        assert(x.len() == y.len());
        assert(hex(a)[n] == hex_byte(a.last())[0] && hex(b)[n] == hex_byte(b.last())[0]);
        assert(hex(a)[n + 1] == hex_byte(a.last())[1] && hex(b)[n + 1] == hex_byte(b.last())[1]);
        lemma_hex_digit(a.last() as int / 16, b.last() as int / 16);
        lemma_hex_digit(a.last() as int % 16, b.last() as int % 16);
        assert(hex(a).take(n) =~= x);
        assert(hex(b).take(n) =~= y);
        hex_forms_differ(a.drop_last(), b.drop_last());
        assert(a =~= a.drop_last().push(a.last()));
        assert(b =~= b.drop_last().push(b.last()));
    } else {
        assert(a =~= b);
    }
}

proof fn lemma_hex_digit(m: int, n: int)
    requires
        0 <= m < 16,
        0 <= n < 16,
        hex_digit(m) == hex_digit(n),
    ensures
        m == n,
{
    assert(hex_digit(m) as int == if m < 10 {
        48 + m
    } else {
        87 + m
    });
    assert(hex_digit(n) as int == if n < 10 {
        48 + n
    } else {
        87 + n
    });
}

/// Hexadecimal digits count from 0 to 9 and on from a to f, two for every byte, the
/// higher one first.
pub proof fn bytes_have_two_digits(bytes: Seq<u8>, b: u8)
    ensures
        hex(bytes.push(b)) == hex(bytes) + seq![
            hex_digit(b as int / 16),
            hex_digit(b as int % 16),
        ],
        hex(bytes).len() == 2 * bytes.len(),
        forall|n: int| 0 <= n < 10 ==> #[trigger] hex_digit(n) as int == '0' as int + n,
        forall|n: int| 10 <= n < 16 ==> #[trigger] hex_digit(n) as int == 'a' as int + n - 10,
{
    assert(bytes.push(b).drop_last() =~= bytes);
    lemma_hex_len(bytes);
}

} // verus!
