//! Primitive values of the network format.
//!
//! Every primitive is described by a specification function from the bytes that
//! are left to the value read (`None` for a malformed or truncated one) and the
//! bytes left afterwards. [`Reader`] computes exactly those functions.

use vstd::prelude::*;
use vstd::utf8::*;

verus! {

/// What a read gives back, and the bytes left after it.
pub type Taken<T> = (Option<T>, Seq<u8>);

/// A universally unique identifier, as its two big-endian halves.
#[derive(Clone, Copy, Debug, PartialEq, Eq, Structural)]
pub struct Uuid {
    pub high: u64,
    pub low: u64,
}

/// A block position.
#[derive(Clone, Copy, Debug, PartialEq, Eq, Structural)]
pub struct BlockPos {
    pub x: i32,
    pub y: i32,
    pub z: i32,
}

/// The natural number that big-endian bytes denote.
pub open spec fn be_value(bytes: Seq<u8>) -> nat
    decreases bytes.len(),
{
    if bytes.len() == 0 {
        0
    } else {
        be_value(bytes.drop_last()) * 256 + bytes.last() as nat
    }
}

/// Exactly `n` bytes; a shorter rest is left untouched.
pub open spec fn take_bytes(s: Seq<u8>, n: nat) -> Taken<Seq<u8>> {
    if s.len() < n {
        (None, s)
    } else {
        (Some(s.subrange(0, n as int)), s.subrange(n as int, s.len() as int))
    }
}

/// A big-endian natural number of `n` bytes.
pub open spec fn take_be(s: Seq<u8>, n: nat) -> Taken<nat> {
    match take_bytes(s, n) {
        (Some(bytes), rest) => (Some(be_value(bytes)), rest),
        (None, rest) => (None, rest),
    }
}

pub open spec fn take_u8(s: Seq<u8>) -> Taken<u8> {
    if s.len() == 0 {
        (None, s)
    } else {
        (Some(s[0]), s.subrange(1, s.len() as int))
    }
}

pub open spec fn take_i8(s: Seq<u8>) -> Taken<i8> {
    match take_u8(s) {
        (Some(b), rest) => (Some(b as i8), rest),
        (None, rest) => (None, rest),
    }
}

/// A boolean: every non-zero byte is true.
pub open spec fn take_bool(s: Seq<u8>) -> Taken<bool> {
    match take_u8(s) {
        (Some(b), rest) => (Some(b != 0), rest),
        (None, rest) => (None, rest),
    }
}

pub open spec fn take_u16(s: Seq<u8>) -> Taken<u16> {
    match take_be(s, 2) {
        (Some(v), rest) => (Some(v as u16), rest),
        (None, rest) => (None, rest),
    }
}

pub open spec fn take_i16(s: Seq<u8>) -> Taken<i16> {
    match take_u16(s) {
        (Some(v), rest) => (Some(v as i16), rest),
        (None, rest) => (None, rest),
    }
}

/// Four bytes: the bits of an `i32` or of a single-precision number.
pub open spec fn take_u32(s: Seq<u8>) -> Taken<u32> {
    match take_be(s, 4) {
        (Some(v), rest) => (Some(v as u32), rest),
        (None, rest) => (None, rest),
    }
}

pub open spec fn take_i32(s: Seq<u8>) -> Taken<i32> {
    match take_u32(s) {
        (Some(v), rest) => (Some(v as i32), rest),
        (None, rest) => (None, rest),
    }
}

/// Eight bytes: the bits of an `i64` or of a double-precision number.
pub open spec fn take_u64(s: Seq<u8>) -> Taken<u64> {
    match take_be(s, 8) {
        (Some(v), rest) => (Some(v as u64), rest),
        (None, rest) => (None, rest),
    }
}

pub open spec fn take_i64(s: Seq<u8>) -> Taken<i64> {
    match take_u64(s) {
        (Some(v), rest) => (Some(v as i64), rest),
        (None, rest) => (None, rest),
    }
}

/// Low seven bits of the `index`-th group of a variable-length number.
pub open spec fn varint_group(byte: u8, index: u32) -> u32 {
    ((byte & 0x7f) as u32) << ((7 * index) as u32)
}

/// A variable-length number whose first `index` groups are already in `acc`:
/// little-endian groups of seven bits, the high bit of a byte announcing
/// another group, at most five groups.
pub open spec fn varint_from(s: Seq<u8>, index: nat, acc: u32) -> Taken<i32>
    decreases 5 - index,
{
    if index >= 5 || s.len() == 0 {
        (None, s)
    } else {
        let value = acc | varint_group(s[0], index as u32);
        let rest = s.subrange(1, s.len() as int);
        if s[0] < 0x80 {
            (Some(value as i32), rest)
        } else {
            varint_from(rest, index + 1, value)
        }
    }
}

pub open spec fn take_varint(s: Seq<u8>) -> Taken<i32> {
    varint_from(s, 0, 0)
}

/// A long variable-length number, which is read and not kept: at most ten
/// groups, `index` of them read already.
pub open spec fn take_varlong_from(s: Seq<u8>, index: nat) -> Taken<()>
    decreases 10 - index,
{
    if index >= 10 || s.len() == 0 {
        (None, s)
    } else {
        let rest = s.subrange(1, s.len() as int);
        if s[0] < 0x80 {
            (Some(()), rest)
        } else {
            take_varlong_from(rest, index + 1)
        }
    }
}

pub open spec fn take_uuid(s: Seq<u8>) -> Taken<Uuid> {
    if s.len() < 16 {
        (None, s)
    } else {
        (
            Some(
                Uuid {
                    high: be_value(s.subrange(0, 8)) as u64,
                    low: be_value(s.subrange(8, 16)) as u64,
                },
            ),
            s.subrange(16, s.len() as int),
        )
    }
}

/// The signed number that `bits` binary digits denote in two's complement.
pub open spec fn signed(value: int, modulus: int) -> int {
    if 2 * value >= modulus {
        value - modulus
    } else {
        value
    }
}

/// The position packed into 64 bits: 26 bits of x, 26 bits of z, 12 bits of y.
pub open spec fn unpack_position(packed: int) -> BlockPos {
    BlockPos {
        x: signed(packed / 0x40_0000_0000, 0x400_0000) as i32,
        y: signed(packed % 0x1000, 0x1000) as i32,
        z: signed((packed / 0x1000) % 0x400_0000, 0x400_0000) as i32,
    }
}

pub open spec fn take_position(s: Seq<u8>) -> Taken<BlockPos> {
    match take_u64(s) {
        (Some(v), rest) => (Some(unpack_position(v as int)), rest),
        (None, rest) => (None, rest),
    }
}

/// UTF-8 text in exactly `n` bytes.
pub open spec fn take_utf8(s: Seq<u8>, n: nat) -> Taken<Seq<char>> {
    match take_bytes(s, n) {
        (Some(bytes), rest) => if valid_utf8(bytes) {
            (Some(decode_utf8(bytes)), rest)
        } else {
            (None, rest)
        },
        (None, rest) => (None, rest),
    }
}

/// Text of at most `max` characters behind its length in bytes.
pub open spec fn take_string(s: Seq<u8>, max: nat) -> Taken<Seq<char>> {
    match take_varint(s) {
        (Some(len), rest) => if len < 0 || len > 4 * max {
            (None, rest)
        } else {
            match take_utf8(rest, len as nat) {
                (Some(text), rest) => if text.len() > max {
                    (None, rest)
                } else {
                    (Some(text), rest)
                },
                (None, rest) => (None, rest),
            }
        },
        (None, rest) => (None, rest),
    }
}

/// `String::from_utf8`: the text that the bytes encode, or nothing where they
/// are not valid UTF-8.
#[verifier::external_body]
pub(crate) fn string_from_utf8(bytes: Vec<u8>) -> (text: Option<String>)
    ensures
        text is Some <==> valid_utf8(bytes@),
        text matches Some(t) ==> t@ == decode_utf8(bytes@),
{
    String::from_utf8(bytes).ok()
}

proof fn lemma_be_push(bytes: Seq<u8>, b: u8)
    ensures
        be_value(bytes.push(b)) == be_value(bytes) * 256 + b,
{
    assert(bytes.push(b).drop_last() =~= bytes);
}

/// The bytes of a packet body that have not been read yet.
pub struct Reader<'a> {
    rest: &'a [u8],
}

impl<'a> View for Reader<'a> {
    type V = Seq<u8>;

    closed spec fn view(&self) -> Seq<u8> {
        self.rest@
    }
}

impl<'a> Reader<'a> {
    pub fn new(bytes: &'a [u8]) -> (reader: Self)
        ensures
            reader@ == bytes@,
    {
        Reader { rest: bytes }
    }

    /// The number of unread bytes.
    pub fn remaining(&self) -> (n: usize)
        ensures
            n == self@.len(),
    {
        self.rest.len()
    }

    pub fn u8(&mut self) -> (r: Option<u8>)
        ensures
            (r, final(self)@) == take_u8(old(self)@),
    {
        if self.rest.len() == 0 {
            return None;
        }
        let b: u8 = self.rest[0];
        let (_, tail) = self.rest.split_at(1);
        self.rest = tail;
        Some(b)
    }

    pub fn i8(&mut self) -> (r: Option<i8>)
        ensures
            (r, final(self)@) == take_i8(old(self)@),
    {
        match self.u8() {
            Some(b) => Some(b as i8),
            None => None,
        }
    }

    pub fn bool(&mut self) -> (r: Option<bool>)
        ensures
            (r, final(self)@) == take_bool(old(self)@),
    {
        match self.u8() {
            Some(b) => Some(b != 0),
            None => None,
        }
    }

    /// The next `n` bytes.
    pub fn bytes(&mut self, n: usize) -> (r: Option<Vec<u8>>)
        ensures
            match take_bytes(old(self)@, n as nat) {
                (Some(bytes), rest) => r matches Some(v) && v@ == bytes && final(self)@ == rest,
                (None, rest) => r is None && final(self)@ == rest,
            },
    {
        if self.rest.len() < n {
            return None;
        }
        let (head, tail) = self.rest.split_at(n);
        self.rest = tail;
        Some(vstd::slice::slice_to_vec(head))
    }

    /// A big-endian number of at most eight bytes.
    fn be(&mut self, n: usize) -> (r: Option<u64>)
        requires
            n <= 8,
        ensures
            match take_be(old(self)@, n as nat) {
                (Some(value), rest) => r matches Some(v) && v == value && final(self)@ == rest,
                (None, rest) => r is None && final(self)@ == rest,
            },
            take_be(old(self)@, n as nat).0 matches Some(value) ==> value < vstd::arithmetic::power::pow(
                256,
                n as nat,
            ),
    {
        if self.rest.len() < n {
            return None;
        }
        let (head, tail) = self.rest.split_at(n);
        self.rest = tail;
        let mut value: u64 = 0;
        let mut i: usize = 0;
        proof {
            vstd::arithmetic::power::lemma_pow0(256);
            vstd::arithmetic::power::lemma_pow1(256);
            reveal_with_fuel(vstd::arithmetic::power::pow, 9);
        }
        while i < n
            invariant
                i <= n <= 8,
                head@.len() == n,
                value as nat == be_value(head@.subrange(0, i as int)),
                value < vstd::arithmetic::power::pow(256, i as nat),
            decreases n - i,
        {
            let b: u8 = head[i];
            proof {
                lemma_be_push(head@.subrange(0, i as int), b);
                assert(head@.subrange(0, i as int).push(b) =~= head@.subrange(0, i + 1));
                reveal_with_fuel(vstd::arithmetic::power::pow, 9);
                assert(vstd::arithmetic::power::pow(256, (i + 1) as nat)
                    == 256 * vstd::arithmetic::power::pow(256, i as nat));
                assert(value * 256 + 255 <= u64::MAX);
            }
            value = value * 256 + b as u64;
            i = i + 1;
        }
        proof {
            assert(head@.subrange(0, n as int) =~= head@);
        }
        Some(value)
    }

    pub fn u16(&mut self) -> (r: Option<u16>)
        ensures
            (r, final(self)@) == take_u16(old(self)@),
    {
        match self.be(2) {
            Some(v) => Some(v as u16),
            None => None,
        }
    }

    pub fn i16(&mut self) -> (r: Option<i16>)
        ensures
            (r, final(self)@) == take_i16(old(self)@),
    {
        match self.u16() {
            Some(v) => Some(v as i16),
            None => None,
        }
    }

    pub fn u32(&mut self) -> (r: Option<u32>)
        ensures
            (r, final(self)@) == take_u32(old(self)@),
    {
        match self.be(4) {
            Some(v) => Some(v as u32),
            None => None,
        }
    }

    pub fn i32(&mut self) -> (r: Option<i32>)
        ensures
            (r, final(self)@) == take_i32(old(self)@),
    {
        match self.u32() {
            Some(v) => Some(v as i32),
            None => None,
        }
    }

    pub fn u64(&mut self) -> (r: Option<u64>)
        ensures
            (r, final(self)@) == take_u64(old(self)@),
    {
        match self.be(8) {
            Some(v) => Some(v),
            None => None,
        }
    }

    pub fn i64(&mut self) -> (r: Option<i64>)
        ensures
            (r, final(self)@) == take_i64(old(self)@),
    {
        match self.u64() {
            Some(v) => Some(v as i64),
            None => None,
        }
    }

    pub fn varint(&mut self) -> (r: Option<i32>)
        ensures
            (r, final(self)@) == take_varint(old(self)@),
    {
        let ghost start = self@;
        let mut acc: u32 = 0;
        let mut index: u32 = 0;
        while index < 5
            invariant
                index <= 5,
                start == old(self)@,
                take_varint(start) == varint_from(self@, index as nat, acc),
            decreases 5 - index,
        {
            let b: u8 = match self.u8() {
                Some(b) => b,
                None => return None,
            };
            acc = acc | (((b & 0x7f) as u32) << (7 * index));
            index = index + 1;
            if b < 0x80 {
                return Some(acc as i32);
            }
        }
        None
    }

    pub fn skip_varlong(&mut self) -> (r: Option<()>)
        ensures
            (r, final(self)@) == take_varlong_from(old(self)@, 0),
    {
        let ghost start = self@;
        let mut index: u32 = 0;
        while index < 10
            invariant
                index <= 10,
                start == old(self)@,
                take_varlong_from(start, 0) == take_varlong_from(self@, index as nat),
            decreases 10 - index,
        {
            let b: u8 = match self.u8() {
                Some(b) => b,
                None => return None,
            };
            index = index + 1;
            if b < 0x80 {
                return Some(());
            }
        }
        None
    }

    pub fn uuid(&mut self) -> (r: Option<Uuid>)
        ensures
            (r, final(self)@) == take_uuid(old(self)@),
    {
        if self.rest.len() < 16 {
            return None;
        }
        let ghost start = self@;
        let high = self.u64();
        let low = self.u64();
        proof {
            assert(start.subrange(8, start.len() as int).subrange(0, 8) =~= start.subrange(8, 16));
            assert(start.subrange(8, start.len() as int).subrange(8, start.len() - 8)
                =~= start.subrange(16, start.len() as int));
        }
        match (high, low) {
            (Some(high), Some(low)) => Some(Uuid { high, low }),
            _ => None,
        }
    }

    pub fn position(&mut self) -> (r: Option<BlockPos>)
        ensures
            (r, final(self)@) == take_position(old(self)@),
    {
        match self.u64() {
            Some(v) => Some(position_from_bits(v)),
            None => None,
        }
    }

    fn utf8(&mut self, n: usize) -> (r: Option<String>)
        ensures
            match take_utf8(old(self)@, n as nat) {
                (Some(text), rest) => r matches Some(t) && t@ == text && final(self)@ == rest,
                (None, rest) => r is None && final(self)@ == rest,
            },
    {
        match self.bytes(n) {
            Some(bytes) => string_from_utf8(bytes),
            None => None,
        }
    }

    /// Text of at most `max` characters behind its length.
    pub fn string(&mut self, max: u32) -> (r: Option<String>)
        ensures
            match take_string(old(self)@, max as nat) {
                (Some(text), rest) => r matches Some(t) && t@ == text && final(self)@ == rest,
                (None, rest) => r is None && final(self)@ == rest,
            },
    {
        let len: i32 = match self.varint() {
            Some(len) => len,
            None => return None,
        };
        if len < 0 || len as u64 > 4 * (max as u64) {
            return None;
        }
        match self.utf8(len as usize) {
            Some(text) => {
                if text.as_str().unicode_len() > max as usize {
                    None
                } else {
                    Some(text)
                }
            },
            None => None,
        }
    }

    /// Text behind a two-byte length.
    pub fn short_string(&mut self) -> (r: Option<String>)
        ensures
            match take_short_string(old(self)@) {
                (Some(text), rest) => r matches Some(t) && t@ == text && final(self)@ == rest,
                (None, rest) => r is None && final(self)@ == rest,
            },
    {
        match self.u16() {
            Some(len) => self.utf8(len as usize),
            None => None,
        }
    }
}

/// Text behind a two-byte length, as tag names and string tags carry it.
pub open spec fn take_short_string(s: Seq<u8>) -> Taken<Seq<char>> {
    match take_u16(s) {
        (Some(len), rest) => take_utf8(rest, len as nat),
        (None, rest) => (None, rest),
    }
}

fn position_from_bits(v: u64) -> (r: BlockPos)
    ensures
        r == unpack_position(v as int),
{
    let x: i64 = (v / 0x40_0000_0000) as i64;
    let y: i64 = (v % 0x1000) as i64;
    let z: i64 = ((v / 0x1000) % 0x400_0000) as i64;
    let x: i64 = if 2 * x >= 0x400_0000 { x - 0x400_0000 } else { x };
    let y: i64 = if 2 * y >= 0x1000 { y - 0x1000 } else { y };
    let z: i64 = if 2 * z >= 0x400_0000 { z - 0x400_0000 } else { z };
    BlockPos { x: x as i32, y: y as i32, z: z as i32 }
}

/// A number of several bytes has its highest byte first, and the bytes behind it are
/// left.
pub proof fn numbers_are_big_endian(s: Seq<u8>)
    requires
        s.len() >= 8,
    ensures
        take_u8(s) == (Some(s[0]), s.subrange(1, s.len() as int)),
        take_bool(s) == (Some(s[0] != 0), s.subrange(1, s.len() as int)),
        take_u16(s) == (Some((s[0] * 0x100 + s[1]) as u16), s.subrange(2, s.len() as int)),
        take_u32(s) == (
            Some((s[0] * 0x100_0000 + s[1] * 0x1_0000 + s[2] * 0x100 + s[3]) as u32),
            s.subrange(4, s.len() as int),
        ),
        take_u64(s) == (
            Some(
                (s[0] * 0x100_0000_0000_0000 + s[1] * 0x1_0000_0000_0000 + s[2] * 0x100_0000_0000
                    + s[3] * 0x1_0000_0000 + s[4] * 0x100_0000 + s[5] * 0x1_0000 + s[6] * 0x100
                    + s[7]) as u64,
            ),
            s.subrange(8, s.len() as int),
        ),
{
    lemma_be_digits(s);
}

proof fn lemma_be_digits(s: Seq<u8>)
    requires
        s.len() >= 8,
    ensures
        be_value(s.subrange(0, 2)) == s[0] * 0x100 + s[1],
        be_value(s.subrange(0, 4)) == s[0] * 0x100_0000 + s[1] * 0x1_0000 + s[2] * 0x100 + s[3],
        be_value(s.subrange(0, 8)) == s[0] * 0x100_0000_0000_0000 + s[1] * 0x1_0000_0000_0000 + s[2]
            * 0x100_0000_0000 + s[3] * 0x1_0000_0000 + s[4] * 0x100_0000 + s[5] * 0x1_0000 + s[6]
            * 0x100 + s[7],
{
    reveal_with_fuel(be_value, 2);
    assert(s.subrange(0, 1).drop_last() =~= Seq::<u8>::empty());
    assert(be_value(s.subrange(0, 1)) == s[0]);
    lemma_be_step(s, 1);
    lemma_be_step(s, 2);
    lemma_be_step(s, 3);
    lemma_be_step(s, 4);
    lemma_be_step(s, 5);
    lemma_be_step(s, 6);
    lemma_be_step(s, 7);
}

proof fn lemma_be_step(s: Seq<u8>, n: int)
    requires
        0 <= n < s.len(),
    ensures
        be_value(s.subrange(0, n + 1)) == be_value(s.subrange(0, n)) * 256 + s[n],
{
    lemma_be_push(s.subrange(0, n), s[n]);
    assert(s.subrange(0, n).push(s[n]) =~= s.subrange(0, n + 1));
}

/// Signed numbers are written in two's complement: those from the middle of the range on
/// are the negative ones.
pub proof fn signed_numbers_wrap(s: Seq<u8>, small: u8, short: u16, word: u32, long: u64)
    ensures
        take_u8(s).0 == Some(small) ==> take_i8(s).0 == Some(
            (if small < 0x80 {
                small as int
            } else {
                small - 0x100
            }) as i8,
        ) && take_i8(s).1 == take_u8(s).1,
        take_u16(s).0 == Some(short) ==> take_i16(s).0 == Some(
            (if short < 0x8000 {
                short as int
            } else {
                short - 0x1_0000
            }) as i16,
        ) && take_i16(s).1 == take_u16(s).1,
        take_u32(s).0 == Some(word) ==> take_i32(s).0 == Some(
            (if word < 0x8000_0000 {
                word as int
            } else {
                word - 0x1_0000_0000
            }) as i32,
        ) && take_i32(s).1 == take_u32(s).1,
        take_u64(s).0 == Some(long) ==> take_i64(s).0 == Some(
            (if long < 0x8000_0000_0000_0000 {
                long as int
            } else {
                long - 0x1_0000_0000_0000_0000
            }) as i64,
        ) && take_i64(s).1 == take_u64(s).1,
{
    assert((small < 0x80 ==> small as i8 == small) && (small >= 0x80 ==> small as i8 == small
        - 0x100)) by (bit_vector);
    assert((short < 0x8000 ==> short as i16 == short) && (short >= 0x8000 ==> short as i16 == short
        - 0x1_0000)) by (bit_vector);
    assert((word < 0x8000_0000 ==> word as i32 == word) && (word >= 0x8000_0000 ==> word as i32
        == word - 0x1_0000_0000)) by (bit_vector);
    assert((long < 0x8000_0000_0000_0000 ==> long as i64 == long) && (long >= 0x8000_0000_0000_0000
        ==> long as i64 == long - 0x1_0000_0000_0000_0000)) by (bit_vector);
}

/// A number of variable length takes seven bits from every byte, the lowest first, and
/// goes on behind every byte from 128 on, through five bytes at the most.
pub proof fn varints_are_little_endian(s: Seq<u8>)
    requires
        s.len() >= 5,
    ensures
        s[0] < 128 ==> take_varint(s) == (Some(s[0] as i32), s.subrange(1, s.len() as int)),
        s[0] >= 128 && s[1] < 128 ==> take_varint(s) == (
            Some((s[0] - 128 + s[1] * 0x80) as i32),
            s.subrange(2, s.len() as int),
        ),
        s[0] >= 128 && s[1] >= 128 && s[2] < 128 ==> take_varint(s) == (
            Some((s[0] - 128 + (s[1] - 128) * 0x80 + s[2] * 0x4000) as i32),
            s.subrange(3, s.len() as int),
        ),
        s[0] >= 128 && s[1] >= 128 && s[2] >= 128 && s[3] < 128 ==> take_varint(s) == (
            Some(
                (s[0] - 128 + (s[1] - 128) * 0x80 + (s[2] - 128) * 0x4000 + s[3] * 0x20_0000) as i32,
            ),
            s.subrange(4, s.len() as int),
        ),
        s[0] >= 128 && s[1] >= 128 && s[2] >= 128 && s[3] >= 128 && s[4] < 8 ==> take_varint(s) == (
            Some(
                (s[0] - 128 + (s[1] - 128) * 0x80 + (s[2] - 128) * 0x4000 + (s[3] - 128) * 0x20_0000
                    + s[4] * 0x1000_0000) as i32,
            ),
            s.subrange(5, s.len() as int),
        ),
        s[0] >= 128 && s[1] >= 128 && s[2] >= 128 && s[3] >= 128 && 8 <= s[4] < 16 ==> take_varint(
            s,
        ) == (
            Some(
                (s[0] - 128 + (s[1] - 128) * 0x80 + (s[2] - 128) * 0x4000 + (s[3] - 128) * 0x20_0000
                    + s[4] * 0x1000_0000 - 0x1_0000_0000) as i32,
            ),
            s.subrange(5, s.len() as int),
        ),
        s[0] >= 128 && s[1] >= 128 && s[2] >= 128 && s[3] >= 128 && s[4] >= 128 ==> take_varint(
            s,
        ).0 is None,
{
    let n = s.len() as int;
    let r1 = s.subrange(1, n);
    let r2 = s.subrange(2, n);
    let r3 = s.subrange(3, n);
    let r4 = s.subrange(4, n);
    let r5 = s.subrange(5, n);
    assert(r1.subrange(1, n - 1) =~= r2);
    assert(r2.subrange(1, n - 2) =~= r3);
    assert(r3.subrange(1, n - 3) =~= r4);
    assert(r4.subrange(1, n - 4) =~= r5);
    let v0 = 0u32 | varint_group(s[0], 0);
    let v1 = v0 | varint_group(s[1], 1);
    let v2 = v1 | varint_group(s[2], 2);
    let v3 = v2 | varint_group(s[3], 3);
    let v4 = v3 | varint_group(s[4], 4);
    lemma_groups(s[0], s[1], s[2], s[3], s[4]);
    assert(varint_from(r4, 4, v3) == if s[4] < 0x80 {
        (Some(v4 as i32), r5)
    } else {
        varint_from(r5, 5, v4)
    });
    assert(varint_from(r5, 5, v4).0 is None);
    assert(varint_from(r3, 3, v2) == if s[3] < 0x80 {
        (Some(v3 as i32), r4)
    } else {
        varint_from(r4, 4, v3)
    });
    assert(varint_from(r2, 2, v1) == if s[2] < 0x80 {
        (Some(v2 as i32), r3)
    } else {
        varint_from(r3, 3, v2)
    });
    assert(varint_from(r1, 1, v0) == if s[1] < 0x80 {
        (Some(v1 as i32), r2)
    } else {
        varint_from(r2, 2, v1)
    });
    assert(take_varint(s) == if s[0] < 0x80 {
        (Some(v0 as i32), r1)
    } else {
        varint_from(r1, 1, v0)
    });
}

proof fn lemma_groups(a: u8, b: u8, c: u8, d: u8, e: u8)
    ensures
        ({
            let v0 = 0u32 | varint_group(a, 0);
            let v1 = v0 | varint_group(b, 1);
            let v2 = v1 | varint_group(c, 2);
            let v3 = v2 | varint_group(d, 3);
            let v4 = v3 | varint_group(e, 4);
            &&& v0 == a as int % 128
            &&& v1 == v0 + b as int % 128 * 0x80
            &&& v2 == v1 + c as int % 128 * 0x4000
            &&& v3 == v2 + d as int % 128 * 0x20_0000
            &&& e < 16 ==> v4 == v3 + e * 0x1000_0000
            &&& v4 < 0x8000_0000 ==> v4 as i32 == v4
            &&& v4 >= 0x8000_0000 ==> v4 as i32 == v4 - 0x1_0000_0000
        }),
{
    let g0 = varint_group(a, 0);
    let g1 = varint_group(b, 1);
    let g2 = varint_group(c, 2);
    let g3 = varint_group(d, 3);
    let g4 = varint_group(e, 4);
    assert(g0 == ((a & 0x7f) as u32) << 0u32);
    assert(g1 == ((b & 0x7f) as u32) << 7u32);
    assert(g2 == ((c & 0x7f) as u32) << 14u32);
    assert(g3 == ((d & 0x7f) as u32) << 21u32);
    assert(g4 == ((e & 0x7f) as u32) << 28u32);
    let v0 = 0u32 | g0;
    let v1 = v0 | g1;
    let v2 = v1 | g2;
    let v3 = v2 | g3;
    let v4 = v3 | g4;
    assert(v0 == a % 128) by (bit_vector)
        requires
            g0 == ((a & 0x7f) as u32) << 0u32,
            v0 == 0u32 | g0,
    ;
    assert(v1 == v0 + (b % 128) * 0x80u32) by (bit_vector)
        requires
            g1 == ((b & 0x7f) as u32) << 7u32,
            v0 < 0x80,
            v1 == v0 | g1,
    ;
    assert(v2 == v1 + (c % 128) * 0x4000u32) by (bit_vector)
        requires
            g2 == ((c & 0x7f) as u32) << 14u32,
            v1 < 0x4000,
            v2 == v1 | g2,
    ;
    assert(v3 == v2 + (d % 128) * 0x20_0000u32) by (bit_vector)
        requires
            g3 == ((d & 0x7f) as u32) << 21u32,
            v2 < 0x20_0000,
            v3 == v2 | g3,
    ;
    assert(e < 16 ==> v4 == v3 + e * 0x1000_0000u32) by (bit_vector)
        requires
            g4 == ((e & 0x7f) as u32) << 28u32,
            v3 < 0x1000_0000,
            v4 == v3 | g4,
    ;
    assert((v4 < 0x8000_0000 ==> v4 as i32 == v4) && (v4 >= 0x8000_0000 ==> v4 as i32 == v4
        - 0x1_0000_0000)) by (bit_vector);
}

/// A position packs x into the highest 26 bits, z into the next 26 and y into the lowest
/// 12, each in two's complement.
pub proof fn positions_unpack(x: int, y: int, z: int)
    requires
        -0x200_0000 <= x < 0x200_0000,
        -0x800 <= y < 0x800,
        -0x200_0000 <= z < 0x200_0000,
    ensures
        ({
            let high = if x < 0 {
                x + 0x400_0000
            } else {
                x
            };
            let middle = if z < 0 {
                z + 0x400_0000
            } else {
                z
            };
            let low = if y < 0 {
                y + 0x1000
            } else {
                y
            };
            let position = unpack_position(high * 0x40_0000_0000 + middle * 0x1000 + low);
            position.x == x && position.y == y && position.z == z
        }),
{
    let high = if x < 0 {
        x + 0x400_0000
    } else {
        x
    };
    let middle = if z < 0 {
        z + 0x400_0000
    } else {
        z
    };
    let low = if y < 0 {
        y + 0x1000
    } else {
        y
    };
    let packed = high * 0x40_0000_0000 + middle * 0x1000 + low;
    assert(packed / 0x40_0000_0000 == high);
    assert(packed / 0x1000 == high * 0x400_0000 + middle);
    assert((high * 0x400_0000 + middle) % 0x400_0000 == middle);
    assert(packed % 0x1000 == low);
}

/// An identifier is sixteen bytes: its high half, and then its low one.
pub proof fn identifiers_have_two_halves(s: Seq<u8>)
    ensures
        s.len() < 16 ==> take_uuid(s) == (None::<Uuid>, s),
        s.len() >= 16 ==> {
            let (high, behind) = take_u64(s);
            let (low, rest) = take_u64(behind);
            &&& high is Some && low is Some
            &&& take_uuid(s) == (Some(Uuid { high: high->0, low: low->0 }), rest)
        },
{
    if s.len() >= 16 {
        let behind = s.subrange(8, s.len() as int);
        assert(behind.subrange(0, 8) =~= s.subrange(8, 16));
        assert(behind.subrange(8, behind.len() as int) =~= s.subrange(16, s.len() as int));
    }
}

/// A text is its length in bytes and then its bytes; one that is longer than allowed, or
/// not whole, is refused.
pub proof fn texts_follow_their_length(
    s: Seq<u8>,
    text: Seq<char>,
    behind: Seq<u8>,
    len: i32,
    max: nat,
)
    requires
        take_varint(s) == (Some(len), encode_utf8(text) + behind),
        len == encode_utf8(text).len(),
        len <= 4 * max,
    ensures
        text.len() <= max ==> take_string(s, max) == (Some(text), behind),
        text.len() > max ==> take_string(s, max).0 is None,
{
    let bytes = encode_utf8(text);
    let all = bytes + behind;
    encode_utf8_valid_utf8(text);
    encode_utf8_decode_utf8(text);
    assert(all.subrange(0, bytes.len() as int) =~= bytes);
    assert(all.subrange(bytes.len() as int, all.len() as int) =~= behind);
}

/// A short text has its length in two bytes in front of it.
pub proof fn short_texts_follow_their_length(
    s: Seq<u8>,
    text: Seq<char>,
    behind: Seq<u8>,
    len: u16,
)
    requires
        take_u16(s) == (Some(len), encode_utf8(text) + behind),
        len == encode_utf8(text).len(),
    ensures
        take_short_string(s) == (Some(text), behind),
{
    let bytes = encode_utf8(text);
    let all = bytes + behind;
    encode_utf8_valid_utf8(text);
    encode_utf8_decode_utf8(text);
    assert(all.subrange(0, bytes.len() as int) =~= bytes);
    assert(all.subrange(bytes.len() as int, all.len() as int) =~= behind);
}

/// A long number of variable length is passed over up to its first byte below 128, through
/// ten bytes at the most.
pub proof fn varlongs_end_below_128(s: Seq<u8>, index: nat)
    requires
        s.len() > 0,
    ensures
        index < 10 && s[0] < 128 ==> take_varlong_from(s, index) == (
            Some(()),
            s.subrange(1, s.len() as int),
        ),
        index < 10 && s[0] >= 128 ==> take_varlong_from(s, index) == take_varlong_from(
            s.subrange(1, s.len() as int),
            index + 1,
        ),
        index >= 10 ==> take_varlong_from(s, index).0 is None,
        take_varlong_from(Seq::empty(), index).0 is None,
{
}

/// What is too short for a number gives none.
pub proof fn short_bodies_give_no_numbers(s: Seq<u8>)
    ensures
        s.len() < 1 ==> take_u8(s).0 is None && take_bool(s).0 is None && take_varint(s).0 is None,
        s.len() < 2 ==> take_u16(s).0 is None && take_i16(s).0 is None,
        s.len() < 4 ==> take_u32(s).0 is None && take_i32(s).0 is None,
        s.len() < 8 ==> take_u64(s).0 is None && take_i64(s).0 is None,
{
}

} // verus!
