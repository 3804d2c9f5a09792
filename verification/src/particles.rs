//! Particles that the server asks for.

use vstd::prelude::*;

use crate::entities;
use crate::protocol::ProtocolVersion;
use crate::wire::{self, Reader, Taken};

verus! {

/// A burst of particles: where, how far they spread and how fast, by the bits
/// of these numbers.
#[derive(Clone, Copy, Debug, PartialEq, Eq, Structural)]
pub struct Burst {
    pub particle_id: i32,
    pub long_distance: bool,
    pub x: u64,
    pub y: u64,
    pub z: u64,
    pub offset_x: u32,
    pub offset_y: u32,
    pub offset_z: u32,
    pub speed: u32,
    pub count: i32,
}

/// What a packet holds apart from the kind of the particles.
pub open spec fn take_burst(s: Seq<u8>, protocol: ProtocolVersion) -> Taken<Burst> {
    match wire::take_bool(s) {
        (Some(long_distance), rest) => match take_always_show(rest, protocol) {
            (Some(_), rest) => match entities::take_point(rest) {
                (Some((x, y, z)), rest) => match wire::take_u32(rest) {
                    (Some(offset_x), rest) => match wire::take_u32(rest) {
                        (Some(offset_y), rest) => match wire::take_u32(rest) {
                            (Some(offset_z), rest) => match wire::take_u32(rest) {
                                (Some(speed), rest) => match wire::take_i32(rest) {
                                    (Some(count), rest) => (
                                        Some(
                                            Burst {
                                                particle_id: 0,
                                                long_distance,
                                                x,
                                                y,
                                                z,
                                                offset_x,
                                                offset_y,
                                                offset_z,
                                                speed,
                                                count,
                                            },
                                        ),
                                        rest,
                                    ),
                                    (None, rest) => (None, rest),
                                },
                                (None, rest) => (None, rest),
                            },
                            (None, rest) => (None, rest),
                        },
                        (None, rest) => (None, rest),
                    },
                    (None, rest) => (None, rest),
                },
                (None, rest) => (None, rest),
            },
            (None, rest) => (None, rest),
        },
        (None, rest) => (None, rest),
    }
}

/// A flag that only the versions from protocol 769 on have.
pub open spec fn take_always_show(s: Seq<u8>, protocol: ProtocolVersion) -> Taken<bool> {
    if protocol.since_769() {
        wire::take_bool(s)
    } else {
        (Some(false), s)
    }
}

/// The kind comes last from protocol 766 on, first before that.
pub open spec fn burst_of(body: Seq<u8>, protocol: ProtocolVersion) -> Option<Burst> {
    if protocol.data_components() {
        match take_burst(body, protocol) {
            (Some(burst), rest) => match wire::take_varint(rest).0 {
                Some(particle_id) => Some(Burst { particle_id, ..burst }),
                None => None,
            },
            (None, _) => None,
        }
    } else {
        match wire::take_varint(body) {
            (Some(particle_id), rest) => match take_burst(rest, protocol).0 {
                Some(burst) => Some(Burst { particle_id, ..burst }),
                None => None,
            },
            (None, _) => None,
        }
    }
}

fn read_burst(r: &mut Reader, protocol: ProtocolVersion) -> (v: Option<Burst>)
    ensures
        (v, final(r)@) == take_burst(old(r)@, protocol),
{
    let long_distance: bool = match r.bool() {
        Some(v) => v,
        None => return None,
    };
    if protocol.since_769() {
        if r.bool().is_none() {
            return None;
        }
    }
    let x: u64 = match r.u64() {
        Some(v) => v,
        None => return None,
    };
    let y: u64 = match r.u64() {
        Some(v) => v,
        None => return None,
    };
    let z: u64 = match r.u64() {
        Some(v) => v,
        None => return None,
    };
    let offset_x: u32 = match r.u32() {
        Some(v) => v,
        None => return None,
    };
    let offset_y: u32 = match r.u32() {
        Some(v) => v,
        None => return None,
    };
    let offset_z: u32 = match r.u32() {
        Some(v) => v,
        None => return None,
    };
    let speed: u32 = match r.u32() {
        Some(v) => v,
        None => return None,
    };
    match r.i32() {
        Some(count) => Some(
            Burst {
                particle_id: 0,
                long_distance,
                x,
                y,
                z,
                offset_x,
                offset_y,
                offset_z,
                speed,
                count,
            },
        ),
        None => None,
    }
}

pub fn decode_particles(body: &[u8], protocol: ProtocolVersion) -> (v: Option<Burst>)
    ensures
        v == burst_of(body@, protocol),
{
    let mut r = Reader::new(body);
    if protocol.uses_data_components() {
        match read_burst(&mut r, protocol) {
            Some(mut burst) => match r.varint() {
                Some(particle_id) => {
                    burst.particle_id = particle_id;
                    Some(burst)
                },
                None => None,
            },
            None => None,
        }
    } else {
        match r.varint() {
            Some(particle_id) => match read_burst(&mut r, protocol) {
                Some(mut burst) => {
                    burst.particle_id = particle_id;
                    Some(burst)
                },
                None => None,
            },
            None => None,
        }
    }
}

/// How many particles a burst has: at least one, at most 128.
pub open spec fn burst_size(count: i32) -> i32 {
    if count < 1 {
        1
    } else if count > 128 {
        128
    } else {
        count
    }
}

pub fn spawn_count(count: i32) -> (r: i32)
    ensures
        r == burst_size(count),
{
    if count < 1 {
        1
    } else if count > 128 {
        128
    } else {
        count
    }
}

/// Whether a burst is scattered: one that asks for no particles is one
/// particle at its place.
pub fn is_scattered(count: i32) -> (r: bool)
    ensures
        r == (count != 0),
{
    count != 0
}

/// A number as 32 bits with a sign hold it.
pub open spec fn wrapped(v: int) -> int {
    let low = v % 0x1_0000_0000;
    if low >= 0x8000_0000 {
        low - 0x1_0000_0000
    } else {
        low
    }
}

/// The magnitude of a number of 32 bits; the smallest one has none and stays.
pub open spec fn wrapped_magnitude(v: int) -> int {
    if v < 0 && v != -0x8000_0000 {
        -v
    } else {
        v
    }
}

/// The remainder that has the sign of the number.
pub open spec fn remainder(v: int, by: int) -> int {
    if v < 0 {
        -((-v) % by)
    } else {
        v % by
    }
}

/// How far a particle of a burst is moved in one of its directions, in
/// thousandths of the spread and counted from -1000.
pub open spec fn jitter_of(index: int, salt: int) -> int {
    remainder(wrapped_magnitude(wrapped(index * 1_103_515_245 + salt * 12_345)), 2_001)
}

pub fn jitter(index: u32, salt: u32) -> (r: i32)
    requires
        index < 128,
        salt <= 6,
    ensures
        r == jitter_of(index as int, salt as int),
        -2_000 <= r <= 2_000,
{
    let v: u64 = index as u64 * 1_103_515_245 + salt as u64 * 12_345;
    let low: u64 = v % 0x1_0000_0000;
    if low < 0x8000_0000 {
        (low % 2_001) as i32
    } else if low == 0x8000_0000 {
        -((low % 2_001) as i32)
    } else {
        ((0x1_0000_0000 - low) % 2_001) as i32
    }
}

/// How many ticks a particle lives: 20 to 49, by its kind.
pub open spec fn lifetime_of(particle_id: i32) -> int {
    20 + (if particle_id < 0 {
        -particle_id
    } else {
        particle_id as int
    }) % 30
}

pub fn lifetime(particle_id: i32) -> (r: u16)
    ensures
        r == lifetime_of(particle_id),
        20 <= r <= 49,
{
    let magnitude: i64 = if particle_id < 0 {
        -(particle_id as i64)
    } else {
        particle_id as i64
    };
    (20 + magnitude % 30) as u16
}

/// The most particles at a time.
pub const MAX_PARTICLES: usize = 4096;

/// How many of the oldest particles are dropped.
pub fn excess(len: usize) -> (r: usize)
    ensures
        r == if len > MAX_PARTICLES {
            len - MAX_PARTICLES
        } else {
            0
        },
        len - r <= MAX_PARTICLES,
{
    if len > MAX_PARTICLES {
        len - MAX_PARTICLES
    } else {
        0
    }
}

/// Three bytes that spread the numbers of kinds over all colours: the lowest
/// ones of the product with an odd factor.
pub open spec fn spread_of(id: i32, factor: u32) -> (int, int, int) {
    let product = (id as int % 0x1_0000_0000) * factor % 0x1_0000_0000;
    (product % 256, product / 256 % 256, product / 65536 % 256)
}

pub fn spread(id: i32, factor: u32) -> (r: (u8, u8, u8))
    ensures
        (r.0 as int, r.1 as int, r.2 as int) == spread_of(id, factor),
{
    let low: u64 = if id >= 0 {
        id as u64
    } else {
        (0x1_0000_0000i64 + id as i64) as u64
    };
    proof {
        assert(low as int == id as int % 0x1_0000_0000);
        assert(low * factor <= 0xffff_ffff * 0xffff_ffff) by (nonlinear_arith)
            requires
                0 <= low <= 0xffff_ffff,
                0 <= factor <= 0xffff_ffff,
        ;
    }
    let product: u64 = low * factor as u64 % 0x1_0000_0000;
    ((product % 256) as u8, (product / 256 % 256) as u8, (product / 65536 % 256) as u8)
}

/// A burst of particles has its place, its spread in three directions, its speed and its
/// number, in this order; the kind comes first before protocol 766 and last from then on.
pub proof fn bursts_are_read_in_order(
    body: Seq<u8>,
    protocol: ProtocolVersion,
    s: Seq<u8>,
    r0: Seq<u8>,
    x: u64,
    r1: Seq<u8>,
    y: u64,
    r2: Seq<u8>,
    z: u64,
    r3: Seq<u8>,
    a: u32,
    r4: Seq<u8>,
    b: u32,
    r5: Seq<u8>,
    c: u32,
    r6: Seq<u8>,
    speed: u32,
    r7: Seq<u8>,
    count: i32,
    r8: Seq<u8>,
    kind: i32,
)
    requires
        s.len() >= 2,
        r0 == s.subrange(
            if protocol.number() >= 769 {
                2
            } else {
                1
            },
            s.len() as int,
        ),
        wire::take_u64(r0) == (Some(x), r1),
        wire::take_u64(r1) == (Some(y), r2),
        wire::take_u64(r2) == (Some(z), r3),
        wire::take_u32(r3) == (Some(a), r4),
        wire::take_u32(r4) == (Some(b), r5),
        wire::take_u32(r5) == (Some(c), r6),
        wire::take_u32(r6) == (Some(speed), r7),
        wire::take_i32(r7) == (Some(count), r8),
        protocol.number() < 766 ==> wire::take_varint(body) == (Some(kind), s),
        protocol.number() >= 766 ==> s == body && wire::take_varint(r8).0 == Some(kind),
    ensures
        burst_of(body, protocol) is Some,
        ({
            let burst = burst_of(body, protocol)->0;
            &&& burst.particle_id == kind
            &&& burst.long_distance == (s[0] != 0)
            &&& burst.x == x && burst.y == y && burst.z == z
            &&& burst.offset_x == a && burst.offset_y == b && burst.offset_z == c
            &&& burst.speed == speed && burst.count == count
        }),
{
    let n = s.len() as int;
    assert(s.subrange(1, n).subrange(1, n - 1) =~= s.subrange(2, n));
    assert(entities::take_point(r0) == (Some((x, y, z)), r3));
}

/// A burst has as many particles as it asks for, but at least one and at most 128.
pub proof fn bursts_have_a_size(count: i32)
    ensures
        1 <= burst_size(count) <= 128,
        1 <= count <= 128 ==> burst_size(count) == count,
        count < 1 ==> burst_size(count) == 1,
        count > 128 ==> burst_size(count) == 128,
{
}

/// Particles live for 20 to 49 ticks, one tick longer with every kind, and kinds with the
/// same number but its sign as long.
pub proof fn kinds_live_longer(particle_id: i32)
    requires
        0 <= particle_id < i32::MAX - 30,
    ensures
        20 <= lifetime_of(particle_id) < 50,
        particle_id < 30 ==> lifetime_of(particle_id) == 20 + particle_id,
        lifetime_of((particle_id + 30) as i32) == lifetime_of(particle_id),
        lifetime_of((-particle_id) as i32) == lifetime_of(particle_id),
{
}

/// The three bytes of a kind are the lowest of its product with the factor.
pub proof fn kinds_spread_over_colours(id: i32, factor: u32)
    requires
        0 <= id,
    ensures
        ({
            let (low, middle, high) = spread_of(id, factor);
            &&& 0 <= low < 256 && 0 <= middle < 256 && 0 <= high < 256
            &&& (low + 256 * middle + 65536 * high) == (id * factor) % 0x100_0000
        }),
{
    let product = id * factor;
    assert(product >= 0) by (nonlinear_arith)
        requires
            product == id * factor,
            id >= 0,
            factor >= 0,
    ;
    let low = product % 0x1_0000_0000;
    assert(low % 0x100_0000 == product % 0x100_0000);
}

/// The jitter of a particle is the truncated remainder by 2001 of a product that wraps
/// round at 32 bits: small ones are their own remainder, and none is beyond 2000.
pub proof fn jitters_stay_small(index: int, salt: int)
    requires
        index * 1_103_515_245 + salt * 12_345 >= 0,
    ensures
        -2000 <= jitter_of(index, salt) <= 2000,
        index * 1_103_515_245 + salt * 12_345 < 0x8000_0000 ==> jitter_of(index, salt) == (index
            * 1_103_515_245 + salt * 12_345) % 2001,
{
    let v = index * 1_103_515_245 + salt * 12_345;
    let w = wrapped(v);
    assert(-0x8000_0000 <= w < 0x8000_0000);
}

/// Wrapping keeps a number but for multiples of two to the 32, inside the signed range; the
/// remainder has the sign of the number.
pub proof fn wrapping_keeps_the_low_bits(v: int, by: int)
    requires
        by > 0,
    ensures
        -0x8000_0000 <= wrapped(v) < 0x8000_0000,
        (wrapped(v) - v) % 0x1_0000_0000 == 0,
        v >= 0 ==> remainder(v, by) == v % by,
        v < 0 ==> remainder(v, by) == -remainder(-v, by),
        v >= 0 ==> wrapped_magnitude(v) == v,
        -0x8000_0000 < v < 0 ==> wrapped_magnitude(v) == -v,
        wrapped_magnitude(-0x8000_0000) == -0x8000_0000,
{
    let low = v % 0x1_0000_0000;
    assert((low - v) % 0x1_0000_0000 == 0);
}

/// At most 4096 particles stay, and only as many go as have to; a burst of count 0 is one
/// particle that is not scattered.
pub proof fn old_particles_go(len: usize, dropped: usize, count: i32, scattered: bool)
    requires
        call_ensures(excess, (len,), dropped),
        call_ensures(is_scattered, (count,), scattered),
    ensures
        len <= 4096 ==> dropped == 0,
        len > 4096 ==> len - dropped == 4096,
        scattered <==> count != 0,
{
}

} // verus!
