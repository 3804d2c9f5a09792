//! Identifiers as text, and the identifier of a player without an account.

use vstd::prelude::*;
use vstd::string::*;
use vstd::utf8::*;

use crate::hash;
use crate::wire::{self, Uuid};

verus! {

/// Sixteen bytes as digits in groups of 8, 4, 4, 4 and 12.
pub open spec fn hyphenated(b: Seq<u8>) -> Seq<char> {
    hash::hex(b.subrange(0, 4)).push('-') + hash::hex(b.subrange(4, 6)).push('-') + hash::hex(
        b.subrange(6, 8),
    ).push('-') + hash::hex(b.subrange(8, 10)).push('-') + hash::hex(b.subrange(10, 16))
}

/// The `n` low bytes of a number, the highest first.
pub open spec fn be_bytes(value: nat, n: nat) -> Seq<u8>
    decreases n,
{
    if n == 0 {
        Seq::empty()
    } else {
        be_bytes(value / 256, (n - 1) as nat).push((value % 256) as u8)
    }
}

/// The bytes of an identifier.
pub open spec fn uuid_bytes(uuid: Uuid) -> Seq<u8> {
    be_bytes(uuid.high as nat, 8) + be_bytes(uuid.low as nat, 8)
}

/// The text of an identifier.
pub open spec fn uuid_chars(uuid: Uuid) -> Seq<char> {
    hyphenated(uuid_bytes(uuid))
}

/// `uuid::Uuid::from_u64_pair` with its `to_string`: lower-case digits in the
/// usual five groups.
#[verifier::external_body]
pub(crate) fn uuid_text(uuid: Uuid) -> (text: String)
    ensures
        text@ == uuid_chars(uuid),
{
    uuid::Uuid::from_u64_pair(uuid.high, uuid.low).to_string()
}

/// The sixteen bytes of an MD5 digest.
pub uninterp spec fn md5_of(bytes: Seq<u8>) -> Seq<u8>;

/// `md5::compute`: the digest of some bytes, sixteen of them. Which ones they
/// are is named `md5_of` and not stated further.
#[verifier::external_body]
fn md5_digest(bytes: &[u8]) -> (digest: [u8; 16])
    ensures
        digest@ == md5_of(bytes@),
{
    md5::compute(bytes).0
}

/// A digest turned into an identifier of version 3 and the standard variant.
pub open spec fn named_uuid(digest: Seq<u8>) -> Uuid {
    let marked = digest.update(6, (digest[6] % 16 + 48) as u8).update(
        8,
        (digest[8] % 64 + 128) as u8,
    );
    Uuid {
        high: wire::be_value(marked.subrange(0, 8)) as u64,
        low: wire::be_value(marked.subrange(8, 16)) as u64,
    }
}

fn be_half(bytes: &[u8; 16], from: usize) -> (r: u64)
    requires
        from <= 8,
    ensures
        r == wire::be_value(bytes@.subrange(from as int, from + 8)) as u64,
        wire::be_value(bytes@.subrange(from as int, from + 8)) <= u64::MAX,
{
    let mut value: u64 = 0;
    let mut i: usize = 0;
    let ghost half = bytes@.subrange(from as int, from + 8);
    proof {
        reveal_with_fuel(vstd::arithmetic::power::pow, 9);
        assert(half.subrange(0, 0) =~= Seq::<u8>::empty());
    }
    while i < 8
        invariant
            i <= 8,
            from <= 8,
            half == bytes@.subrange(from as int, from + 8),
            value as nat == wire::be_value(half.subrange(0, i as int)),
            value < vstd::arithmetic::power::pow(256, i as nat),
        decreases 8 - i,
    {
        let b: u8 = bytes[from + i];
        proof {
            assert(half.subrange(0, i + 1).drop_last() =~= half.subrange(0, i as int));
            assert(half.subrange(0, i + 1).last() == b);
            reveal_with_fuel(vstd::arithmetic::power::pow, 9);
            assert(vstd::arithmetic::power::pow(256, (i + 1) as nat)
                == 256 * vstd::arithmetic::power::pow(256, i as nat));
            assert(value * 256 + 255 <= u64::MAX);
        }
        value = value * 256 + b as u64;
        i = i + 1;
    }
    proof {
        assert(half.subrange(0, 8) =~= half);
    }
    value
}

/// Turns a digest into an identifier.
pub fn uuid_from_digest(digest: [u8; 16]) -> (r: Uuid)
    ensures
        r == named_uuid(digest@),
{
    let mut marked: [u8; 16] = digest;
    marked[6] = marked[6] % 16 + 48;
    marked[8] = marked[8] % 64 + 128;
    proof {
        assert(marked@ =~= digest@.update(6, (digest@[6] % 16 + 48) as u8).update(
            8,
            (digest@[8] % 64 + 128) as u8,
        ));
    }
    Uuid { high: be_half(&marked, 0), low: be_half(&marked, 8) }
}

/// The text whose digest identifies a player without an account.
pub open spec fn offline_seed(name: Seq<char>) -> Seq<char> {
    "OfflinePlayer:"@ + name
}

/// The identity that a name has without an account.
pub open spec fn offline_identity(name: Seq<char>) -> Uuid {
    named_uuid(md5_of(encode_utf8(offline_seed(name))))
}

/// The identity of a player without an account.
pub fn offline_uuid(name: &str) -> (r: Uuid)
    ensures
        r == offline_identity(name@),
{
    let mut seed = "OfflinePlayer:".to_owned();
    seed.append(name);
    uuid_from_digest(md5_digest(seed.as_str().as_bytes()))
}

proof fn lemma_be_value_eight(b: Seq<u8>)
    requires
        b.len() == 8,
    ensures
        wire::be_value(b) == b[0] * 0x100_0000_0000_0000 + b[1] * 0x1_0000_0000_0000 + b[2]
            * 0x100_0000_0000 + b[3] * 0x1_0000_0000 + b[4] * 0x100_0000 + b[5] * 0x1_0000 + b[6]
            * 0x100 + b[7],
{
    reveal_with_fuel(wire::be_value, 9);
    assert(b.drop_last().last() == b[6]);
    assert(b.drop_last().drop_last().last() == b[5]);
    assert(b.drop_last().drop_last().drop_last().last() == b[4]);
    assert(b.drop_last().drop_last().drop_last().drop_last().last() == b[3]);
    assert(b.drop_last().drop_last().drop_last().drop_last().drop_last().last() == b[2]);
    assert(b.drop_last().drop_last().drop_last().drop_last().drop_last().drop_last().last()
        == b[1]);
    assert(b.drop_last().drop_last().drop_last().drop_last().drop_last().drop_last().drop_last().last()
        == b[0]);
}

/// Every identifier made from a digest carries version 3 and the standard
/// variant.
pub proof fn named_uuids_carry_version_and_variant(digest: Seq<u8>)
    requires
        digest.len() == 16,
    ensures
        (named_uuid(digest).high as int / 0x1000) % 16 == 3,
        named_uuid(digest).low as int / 0x4000_0000_0000_0000 == 2,
{
    let marked = digest.update(6, (digest[6] % 16 + 48) as u8).update(
        8,
        (digest[8] % 64 + 128) as u8,
    );
    let a = marked.subrange(0, 8);
    let b = marked.subrange(8, 16);
    lemma_be_value_eight(a);
    lemma_be_value_eight(b);
    assert(a[6] == digest[6] % 16 + 48);
    assert(b[0] == digest[8] % 64 + 128);
    let above = a[0] * 0x100_0000_0000 + a[1] * 0x1_0000_0000 + a[2] * 0x100_0000 + a[3] * 0x1_0000
        + a[4] * 0x100 + a[5];
    lemma_version_digit(above, a[6] as int, a[7] as int);
    let below = b[1] * 0x1_0000_0000_0000 + b[2] * 0x100_0000_0000 + b[3] * 0x1_0000_0000 + b[4]
        * 0x100_0000 + b[5] * 0x1_0000 + b[6] * 0x100 + b[7];
    lemma_variant_bits(b[0] as int, below);
    lemma_fits(above, a[6] as int, a[7] as int, b[0] as int, below);
}

proof fn lemma_version_digit(above: int, byte: int, last: int)
    requires
        above >= 0,
        48 <= byte < 64,
        0 <= last < 256,
    ensures
        ((above * 0x1_0000 + byte * 0x100 + last) / 0x1000) % 16 == 3,
{
}

proof fn lemma_variant_bits(byte: int, below: int)
    requires
        128 <= byte < 192,
        0 <= below < 0x100_0000_0000_0000,
    ensures
        (byte * 0x100_0000_0000_0000 + below) / 0x4000_0000_0000_0000 == 2,
{
}

proof fn lemma_fits(above: int, byte: int, last: int, first: int, below: int)
    requires
        0 <= above < 0x1_0000_0000_0000,
        0 <= byte < 256,
        0 <= last < 256,
        0 <= first < 256,
        0 <= below < 0x100_0000_0000_0000,
    ensures
        0 <= above * 0x1_0000 + byte * 0x100 + last <= u64::MAX,
        0 <= first * 0x100_0000_0000_0000 + below <= u64::MAX,
{
}

/// The text of an identifier has 36 characters: its sixteen bytes in order as digits, in
/// groups of 8, 4, 4, 4 and 12 with hyphens between them.
pub proof fn identifiers_are_written_in_groups(b: Seq<u8>)
    requires
        b.len() == 16,
    ensures
        hyphenated(b).len() == 36,
        hyphenated(b)[8] == '-' && hyphenated(b)[13] == '-' && hyphenated(b)[18] == '-'
            && hyphenated(b)[23] == '-',
        hyphenated(b).subrange(0, 8) == hash::hex(b.subrange(0, 4)),
        hyphenated(b).subrange(9, 13) == hash::hex(b.subrange(4, 6)),
        hyphenated(b).subrange(14, 18) == hash::hex(b.subrange(6, 8)),
        hyphenated(b).subrange(19, 23) == hash::hex(b.subrange(8, 10)),
        hyphenated(b).subrange(24, 36) == hash::hex(b.subrange(10, 16)),
{
    hash::bytes_have_two_digits(b.subrange(0, 4), 0);
    hash::bytes_have_two_digits(b.subrange(4, 6), 0);
    hash::bytes_have_two_digits(b.subrange(6, 8), 0);
    hash::bytes_have_two_digits(b.subrange(8, 10), 0);
    hash::bytes_have_two_digits(b.subrange(10, 16), 0);
    let text = hyphenated(b);
    assert(text.subrange(0, 8) =~= hash::hex(b.subrange(0, 4)));
    assert(text.subrange(9, 13) =~= hash::hex(b.subrange(4, 6)));
    assert(text.subrange(14, 18) =~= hash::hex(b.subrange(6, 8)));
    assert(text.subrange(19, 23) =~= hash::hex(b.subrange(8, 10)));
    assert(text.subrange(24, 36) =~= hash::hex(b.subrange(10, 16)));
}

/// The identity of a player without an account comes from the digest of its name behind
/// `OfflinePlayer:`, of which only the version and the variant are set.
pub proof fn offline_identities_come_from_the_name(name: Seq<char>, digest: Seq<u8>)
    requires
        digest.len() == 16,
    ensures
        offline_identity(name) == named_uuid(md5_of(encode_utf8("OfflinePlayer:"@ + name))),
        digest[6] as int / 16 == 3 && digest[8] as int / 64 == 2 ==> named_uuid(digest) == (Uuid {
            high: wire::be_value(digest.subrange(0, 8)) as u64,
            low: wire::be_value(digest.subrange(8, 16)) as u64,
        }),
{
    if digest[6] as int / 16 == 3 && digest[8] as int / 64 == 2 {
        let marked = digest.update(6, (digest[6] % 16 + 48) as u8).update(
            8,
            (digest[8] % 64 + 128) as u8,
        );
        assert(marked =~= digest);
    }
}

/// The bytes of an identifier are those of its high half and then those of its low one,
/// the highest first: the numbers that they make are the halves again.
pub proof fn identifiers_are_their_bytes(uuid: Uuid)
    ensures
        uuid_bytes(uuid).len() == 16,
        wire::be_value(uuid_bytes(uuid).subrange(0, 8)) == uuid.high,
        wire::be_value(uuid_bytes(uuid).subrange(8, 16)) == uuid.low,
        uuid_chars(uuid) == hyphenated(uuid_bytes(uuid)),
{
    lemma_be_round(uuid.high as nat, 8);
    lemma_be_round(uuid.low as nat, 8);
    lemma_powers();
    assert(uuid_bytes(uuid).subrange(0, 8) =~= be_bytes(uuid.high as nat, 8));
    assert(uuid_bytes(uuid).subrange(8, 16) =~= be_bytes(uuid.low as nat, 8));
}

/// How many numbers so many bytes can hold.
spec fn numbers_of(n: nat) -> nat
    decreases n,
{
    if n == 0 {
        1
    } else {
        256 * numbers_of((n - 1) as nat)
    }
}

proof fn lemma_powers()
    ensures
        numbers_of(8) == 0x1_0000_0000_0000_0000,
{
    reveal_with_fuel(numbers_of, 9);
}

proof fn lemma_be_round(value: nat, n: nat)
    ensures
        be_bytes(value, n).len() == n,
        value < numbers_of(n) ==> wire::be_value(be_bytes(value, n)) == value,
    decreases n,
{
    if n > 0 {
        lemma_be_round(value / 256, (n - 1) as nat);
        let shorter = be_bytes(value / 256, (n - 1) as nat);
        assert(shorter.push((value % 256) as u8).drop_last() =~= shorter);
    }
}

} // verus!
