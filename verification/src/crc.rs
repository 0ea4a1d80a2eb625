//! The CRC-16/MODBUS kernel: the checksum as a specification function, and two
//! executable variants proved equal to it — a baseline byte-at-a-time loop and
//! a throughput-oriented 16-byte unrolled loop.

use vstd::prelude::*;

verus! {

/// One step of the bit-serial CRC update: shift right, and fold in the
/// reflected Modbus polynomial 0xA001 when the dropped bit was set.
pub open spec fn crc16_bit_step(r: u16) -> u16 {
    if r & 1 == 1 {
        (r >> 1) ^ 0xA001
    } else {
        r >> 1
    }
}

/// `n` bit steps applied to the register `r`.
pub open spec fn crc16_bits(r: u16, n: nat) -> u16
    decreases n,
{
    if n == 0 {
        r
    } else {
        crc16_bit_step(crc16_bits(r, (n - 1) as nat))
    }
}

/// Folding one byte into the register: xor into the low byte, then eight bit
/// steps.
pub open spec fn crc16_byte(r: u16, b: u8) -> u16 {
    crc16_bits(r ^ (b as u16), 8)
}

/// Folding a whole byte sequence into the register, first byte first.
pub open spec fn crc16_update(r: u16, s: Seq<u8>) -> u16
    decreases s.len(),
{
    if s.len() == 0 {
        r
    } else {
        crc16_update(crc16_byte(r, s[0]), s.skip(1))
    }
}

/// The CRC-16/MODBUS checksum of a byte sequence: register initialised to
/// 0xFFFF, every byte folded in, no output reflection or final xor.
pub open spec fn crc16_of(s: Seq<u8>) -> u16 {
    crc16_update(0xFFFF, s)
}

/// The empty frame's checksum is the initial register value: zero update
/// steps leave 0xFFFF unchanged.
pub proof fn lemma_crc16_empty()
    ensures
        crc16_of(Seq::<u8>::empty()) == 0xFFFF,
{
}

/// Folding a concatenation equals folding the parts in order: processing a
/// frame in chunks of any size gives the same checksum as processing it
/// whole. This is why an unrolled kernel cannot change the result.
pub proof fn lemma_crc16_update_concat(r: u16, a: Seq<u8>, b: Seq<u8>)
    ensures
        crc16_update(crc16_update(r, a), b) == crc16_update(r, a + b),
    decreases a.len(),
{
    if a.len() == 0 {
        assert(a + b =~= b);
    } else {
        lemma_crc16_update_concat(crc16_byte(r, a[0]), a.skip(1), b);
        assert((a + b).skip(1) =~= a.skip(1) + b);
    }
}

/// Folding the suffix from position `i` starts by folding the byte at `i`.
proof fn lemma_crc16_update_one(r: u16, s: Seq<u8>, i: int)
    requires
        0 <= i < s.len(),
    ensures
        crc16_update(r, s.skip(i)) == crc16_update(crc16_byte(r, s[i]), s.skip(i + 1)),
{
    assert(s.skip(i).skip(1) =~= s.skip(i + 1));
}

/// One byte folded into the register, executably.
fn crc16_push_byte(crc: u16, byte: u8) -> (r: u16)
    ensures
        r == crc16_byte(crc, byte),
{
    let mut r: u16 = crc ^ (byte as u16);
    let mut k: usize = 0;
    while k < 8
        invariant
            k <= 8,
            r == crc16_bits(crc ^ (byte as u16), k as nat),
        decreases 8 - k,
    {
        r = if r & 1 == 1 {
            (r >> 1) ^ 0xA001
        } else {
            r >> 1
        };
        k = k + 1;
    }
    r
}

/// Baseline kernel: one byte per loop iteration.
pub fn crc16_modbus_baseline(data: &[u8]) -> (r: u16)
    ensures
        r == crc16_of(data@),
{
    let mut crc: u16 = 0xFFFF;
    let mut i: usize = 0;
    proof {
        assert(data@.skip(0) =~= data@);
    }
    while i < data.len()
        invariant
            i <= data.len(),
            crc16_update(crc, data@.skip(i as int)) == crc16_of(data@),
        decreases data.len() - i,
    {
        proof {
            lemma_crc16_update_one(crc, data@, i as int);
        }
        crc = crc16_push_byte(crc, data[i]);
        i = i + 1;
    }
    proof {
        assert(data@.skip(data@.len() as int) =~= Seq::<u8>::empty());
    }
    crc
}

/// Throughput-oriented kernel: sixteen bytes per unrolled loop iteration,
/// then a byte-at-a-time tail. Returns a bit-identical checksum to the
/// baseline kernel on every input.
pub fn crc16_modbus_optimized(data: &[u8]) -> (r: u16)
    ensures
        r == crc16_of(data@),
{
    let mut crc: u16 = 0xFFFF;
    let mut i: usize = 0;
    proof {
        assert(data@.skip(0) =~= data@);
    }
    while i < data.len() && data.len() - i >= 16
        invariant
            i <= data.len(),
            crc16_update(crc, data@.skip(i as int)) == crc16_of(data@),
        decreases data.len() - i,
    {
        proof {
            lemma_crc16_update_one(crc, data@, i as int);
        }
        crc = crc16_push_byte(crc, data[i]);
        proof {
            lemma_crc16_update_one(crc, data@, i as int + 1);
        }
        crc = crc16_push_byte(crc, data[i + 1]);
        proof {
            lemma_crc16_update_one(crc, data@, i as int + 2);
        }
        crc = crc16_push_byte(crc, data[i + 2]);
        proof {
            lemma_crc16_update_one(crc, data@, i as int + 3);
        }
        crc = crc16_push_byte(crc, data[i + 3]);
        proof {
            lemma_crc16_update_one(crc, data@, i as int + 4);
        }
        crc = crc16_push_byte(crc, data[i + 4]);
        proof {
            lemma_crc16_update_one(crc, data@, i as int + 5);
        }
        crc = crc16_push_byte(crc, data[i + 5]);
        proof {
            lemma_crc16_update_one(crc, data@, i as int + 6);
        }
        crc = crc16_push_byte(crc, data[i + 6]);
        proof {
            lemma_crc16_update_one(crc, data@, i as int + 7);
        }
        crc = crc16_push_byte(crc, data[i + 7]);
        proof {
            lemma_crc16_update_one(crc, data@, i as int + 8);
        }
        crc = crc16_push_byte(crc, data[i + 8]);
        proof {
            lemma_crc16_update_one(crc, data@, i as int + 9);
        }
        crc = crc16_push_byte(crc, data[i + 9]);
        proof {
            lemma_crc16_update_one(crc, data@, i as int + 10);
        }
        crc = crc16_push_byte(crc, data[i + 10]);
        proof {
            lemma_crc16_update_one(crc, data@, i as int + 11);
        }
        crc = crc16_push_byte(crc, data[i + 11]);
        proof {
            lemma_crc16_update_one(crc, data@, i as int + 12);
        }
        crc = crc16_push_byte(crc, data[i + 12]);
        proof {
            lemma_crc16_update_one(crc, data@, i as int + 13);
        }
        crc = crc16_push_byte(crc, data[i + 13]);
        proof {
            lemma_crc16_update_one(crc, data@, i as int + 14);
        }
        crc = crc16_push_byte(crc, data[i + 14]);
        proof {
            lemma_crc16_update_one(crc, data@, i as int + 15);
        }
        crc = crc16_push_byte(crc, data[i + 15]);
        i = i + 16;
    }
    while i < data.len()
        invariant
            i <= data.len(),
            crc16_update(crc, data@.skip(i as int)) == crc16_of(data@),
        decreases data.len() - i,
    {
        proof {
            lemma_crc16_update_one(crc, data@, i as int);
        }
        crc = crc16_push_byte(crc, data[i]);
        i = i + 1;
    }
    proof {
        assert(data@.skip(data@.len() as int) =~= Seq::<u8>::empty());
    }
    crc
}

} // verus!
