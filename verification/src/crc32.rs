//! The checksum that closes the controller's Bluetooth output reports.
//!
//! CRC-32 with the IEEE 802.3 polynomial, over a seed byte followed by the report's
//! bytes. The firmware silently drops a report whose checksum is missing or wrong.

use vstd::prelude::*;

verus! {

/// The IEEE 802.3 polynomial, least significant bit first.
pub const POLY: u32 = 0xEDB88320;

/// One step of the shift register: the low bit leaves, and brings the polynomial in
/// if it was set.
pub open spec fn shift(crc: u32) -> u32 {
    if crc & 1 != 0 {
        (crc >> 1) ^ POLY
    } else {
        crc >> 1
    }
}

/// `n` steps of the shift register.
pub open spec fn shifts(crc: u32, n: nat) -> u32
    decreases n,
{
    if n == 0 {
        crc
    } else {
        shift(shifts(crc, (n - 1) as nat))
    }
}

/// The register after the eight bits of one more byte.
pub open spec fn after_byte(crc: u32, byte: u8) -> u32 {
    shifts(crc ^ (byte as u32), 8)
}

/// The register after all of `data`.
pub open spec fn after_bytes(crc: u32, data: Seq<u8>) -> u32
    decreases data.len(),
{
    if data.len() == 0 {
        crc
    } else {
        after_byte(after_bytes(crc, data.drop_last()), data.last())
    }
}

/// The checksum of `seed` followed by `data`.
pub open spec fn checksum(seed: u8, data: Seq<u8>) -> u32 {
    !after_bytes(after_byte(0xFFFF_FFFF, seed), data)
}

/// Feeds one byte to the register.
pub fn update(crc: &mut u32, byte: u8)
    ensures
        *final(crc) == after_byte(*old(crc), byte),
{
    *crc = *crc ^ (byte as u32);
    let ghost start = *crc;
    for i in 0..8u8
        invariant
            *crc == shifts(start, i as nat),
            start == *old(crc) ^ (byte as u32),
    {
        if *crc & 1 != 0 {
            *crc = (*crc >> 1) ^ POLY;
        } else {
            *crc = *crc >> 1;
        }
    }
}

/// The checksum of `data`: a register of all ones is fed `seed` and then every byte
/// of `data`, and inverted at the end.
pub fn sony_crc32(seed: u8, data: &[u8]) -> (crc: u32)
    ensures
        crc == checksum(seed, data@),
{
    let mut crc: u32 = 0xFFFF_FFFF;
    update(&mut crc, seed);
    let ghost start = crc;
    let n: usize = data.len();
    assert(data@.take(0) =~= Seq::<u8>::empty());
    for i in 0..n
        invariant
            n == data@.len(),
            crc == after_bytes(start, data@.take(i as int)),
    {
        proof {
            let longer = data@.take(i + 1);
            assert(longer.drop_last() =~= data@.take(i as int));
            assert(longer.last() == data@[i as int]);
        }
        update(&mut crc, data[i]);
    }
    assert(data@.take(n as int) =~= data@);
    !crc
}

proof fn lemma_shift_injective(a: u32, b: u32)
    requires
        shift(a) == shift(b),
    ensures
        a == b,
{
    assert(((if a & 1 != 0 { (a >> 1) ^ 0xEDB88320u32 } else { a >> 1 }) == (if b & 1 != 0 {
        (b >> 1) ^ 0xEDB88320u32
    } else {
        b >> 1
    })) ==> a == b) by (bit_vector);
}

proof fn lemma_shifts_injective(a: u32, b: u32, n: nat)
    requires
        shifts(a, n) == shifts(b, n),
    ensures
        a == b,
    decreases n,
{
    if n > 0 {
        lemma_shift_injective(shifts(a, (n - 1) as nat), shifts(b, (n - 1) as nat));
        lemma_shifts_injective(a, b, (n - 1) as nat);
    }
}

proof fn lemma_after_byte_injective(a: u32, x: u8, b: u32, y: u8)
    requires
        after_byte(a, x) == after_byte(b, y),
    ensures
        x == y ==> a == b,
        a == b ==> x == y,
{
    let xw = x as u32;
    let yw = y as u32;
    lemma_shifts_injective(a ^ xw, b ^ yw, 8);
    assert(a ^ xw == b ^ yw && xw == yw ==> a == b) by (bit_vector);
    assert(a ^ xw == b ^ yw && a == b ==> xw == yw) by (bit_vector);
}

proof fn lemma_after_bytes_injective(a: u32, b: u32, data: Seq<u8>)
    requires
        after_bytes(a, data) == after_bytes(b, data),
    ensures
        a == b,
    decreases data.len(),
{
    if data.len() > 0 {
        let rest = data.drop_last();
        lemma_after_byte_injective(
            after_bytes(a, rest),
            data.last(),
            after_bytes(b, rest),
            data.last(),
        );
        lemma_after_bytes_injective(a, b, rest);
    }
}

proof fn lemma_after_bytes_differ(crc: u32, x: Seq<u8>, y: Seq<u8>, at: int)
    requires
        x.len() == y.len(),
        0 <= at < x.len(),
        x[at] != y[at],
        forall|i: int| 0 <= i < x.len() && i != at ==> x[i] == y[i],
    ensures
        after_bytes(crc, x) != after_bytes(crc, y),
    decreases x.len(),
{
    let xs = x.drop_last();
    let ys = y.drop_last();
    if at == x.len() - 1 {
        assert(xs =~= ys);
        if after_bytes(crc, x) == after_bytes(crc, y) {
            lemma_after_byte_injective(
                after_bytes(crc, xs),
                x.last(),
                after_bytes(crc, ys),
                y.last(),
            );
        }
    } else {
        lemma_after_bytes_differ(crc, xs, ys, at);
        if after_bytes(crc, x) == after_bytes(crc, y) {
            lemma_after_byte_injective(
                after_bytes(crc, xs),
                x.last(),
                after_bytes(crc, ys),
                y.last(),
            );
        }
    }
}

/// A change of any single byte changes the checksum, so a report damaged in one byte
/// never passes for the one that was sent.
pub proof fn byte_change_is_detected(seed: u8, sent: Seq<u8>, received: Seq<u8>, at: int)
    requires
        sent.len() == received.len(),
        0 <= at < sent.len(),
        sent[at] != received[at],
        forall|i: int| 0 <= i < sent.len() && i != at ==> sent[i] == received[i],
    ensures
        checksum(seed, sent) != checksum(seed, received),
{
    let start = after_byte(0xFFFF_FFFF, seed);
    lemma_after_bytes_differ(start, sent, received, at);
    let a = after_bytes(start, sent);
    let b = after_bytes(start, received);
    assert(a != b ==> !a != !b) by (bit_vector);
}

/// The seed tells reports of different kinds apart: the same bytes under two seeds
/// have two checksums.
pub proof fn seed_is_checked(seed: u8, other: u8, data: Seq<u8>)
    requires
        seed != other,
    ensures
        checksum(seed, data) != checksum(other, data),
{
    let a = after_bytes(after_byte(0xFFFF_FFFF, seed), data);
    let b = after_bytes(after_byte(0xFFFF_FFFF, other), data);
    if a == b {
        lemma_after_bytes_injective(
            after_byte(0xFFFF_FFFF, seed),
            after_byte(0xFFFF_FFFF, other),
            data,
        );
        lemma_after_byte_injective(0xFFFF_FFFF, seed, 0xFFFF_FFFF, other);
    }
    assert(a != b ==> !a != !b) by (bit_vector);
}

proof fn lemma_shifts_linear(a: u32, b: u32, n: nat)
    ensures
        shifts(a ^ b, n) == shifts(a, n) ^ shifts(b, n),
    decreases n,
{
    if n > 0 {
        lemma_shifts_linear(a, b, (n - 1) as nat);
        let x = shifts(a, (n - 1) as nat);
        let y = shifts(b, (n - 1) as nat);
        assert((if (x ^ y) & 1 != 0 { ((x ^ y) >> 1) ^ 0xEDB88320u32 } else { (x ^ y) >> 1 }) == (
        if x & 1 != 0 { (x >> 1) ^ 0xEDB88320u32 } else { x >> 1 }) ^ (if y & 1 != 0 {
            (y >> 1) ^ 0xEDB88320u32
        } else {
            y >> 1
        })) by (bit_vector);
    }
}

/// While the low bits are clear, the register only shifts.
proof fn lemma_clear_bits_shift_out(x: u32, n: nat)
    requires
        x & 0xFF == 0,
        n <= 8,
    ensures
        shifts(x, n) == x >> (n as u32),
    decreases n,
{
    if n > 0 {
        lemma_clear_bits_shift_out(x, (n - 1) as nat);
        let k = (n - 1) as u32;
        assert((x >> k) & 1 == 0 && (x >> k) >> 1 == x >> ((k + 1) as u32)) by (bit_vector)
            requires
                x & 0xFF == 0,
                k < 8,
        ;
    } else {
        assert(x >> 0u32 == x) by (bit_vector);
    }
}

/// The register takes a whole byte at once: it shifts by a byte, and brings in a value that
/// depends on nothing but the byte that leaves and the byte that comes. So the step can be
/// read from a table of 256 values.
pub proof fn step_in_table_form(crc: u32, byte: u8)
    ensures
        after_byte(crc, byte) == (crc >> 8) ^ after_byte(
            0,
            ((crc ^ (byte as u32)) & 0xFF) as u8,
        ),
        after_byte(0, 0) == 0,
{
    let b = byte as u32;
    let x = crc ^ b;
    let low = x & 0xFF;
    let high = x & 0xFFFF_FF00;
    assert(x == high ^ low && high & 0xFF == 0 && high >> 8 == crc >> 8 && (low as u8) as u32 == low
        && 0u32 ^ low == low) by (bit_vector)
        requires
            x == crc ^ b,
            b < 256,
            low == x & 0xFF,
            high == x & 0xFFFF_FF00,
    ;
    lemma_shifts_linear(high, low, 8);
    lemma_clear_bits_shift_out(high, 8);
    assert(0u32 ^ 0u32 == 0 && 0u32 & 0xFF == 0 && 0u32 >> 8u32 == 0) by (bit_vector);
    lemma_clear_bits_shift_out(0, 8);
}

} // verus!
