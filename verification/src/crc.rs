//! The checksum engine: lookup-table construction for the reflected CRC64
//! polynomial, the per-byte register update, and finalization.

use vstd::prelude::*;

verus! {

/// The reflected ("NVMe") CRC64 polynomial.
pub const NVME_POLY: u64 = 0x9A6C9329AC4BC9B5;

/// Initial value of the running register: all ones.
pub const CRC64_INIT: u64 = 0xFFFFFFFFFFFFFFFF;

/// One bit step of the reflected CRC: shift right, folding in the polynomial
/// when the low bit is set.
pub open spec fn poly_step(poly: u64, crc: u64) -> u64 {
    if crc & 1 == 1 {
        (crc >> 1) ^ poly
    } else {
        crc >> 1
    }
}

/// `n` bit steps applied to `crc`.
pub open spec fn poly_steps(poly: u64, crc: u64, n: nat) -> u64
    decreases n,
{
    if n == 0 {
        crc
    } else {
        poly_steps(poly, poly_step(poly, crc), (n - 1) as nat)
    }
}

/// The table entry for byte value `i`: eight bit steps applied to `i`.
pub open spec fn table_entry(poly: u64, i: u64) -> u64 {
    poly_steps(poly, i, 8)
}

/// The whole 256-entry lookup table, as a pure function of the polynomial.
pub open spec fn crc64_table_spec(poly: u64) -> Seq<u64> {
    Seq::new(256, |i: int| table_entry(poly, i as u64))
}

/// Applying one more bit step after `n` steps is the same as taking `n + 1`
/// steps: the head-first recursion can be peeled from the tail.
proof fn lemma_poly_steps_succ(poly: u64, crc: u64, n: nat)
    ensures
        poly_steps(poly, crc, n + 1) == poly_step(poly, poly_steps(poly, crc, n)),
    decreases n,
{
    if n > 0 {
        lemma_poly_steps_succ(poly, poly_step(poly, crc), (n - 1) as nat);
    } else {
        assert(poly_steps(poly, crc, 1) == poly_steps(poly, poly_step(poly, crc), 0));
    }
}

/// A register of zero is a fixed point of the bit step, so entry 0 is 0.
proof fn lemma_poly_steps_zero(poly: u64, n: nat)
    ensures
        poly_steps(poly, 0, n) == 0,
    decreases n,
{
    if n > 0 {
        assert(0u64 & 1 == 0) by (bit_vector);
        assert(0u64 >> 1 == 0) by (bit_vector);
        lemma_poly_steps_zero(poly, (n - 1) as nat);
    }
}

/// Builds the 256-entry lookup table for the given polynomial.
///
/// The result is a pure function of `poly`: building the table twice yields
/// identical tables, and entry 0 is always 0.
pub fn make_table(poly: u64) -> (table: Vec<u64>)
    ensures
        table@ == crc64_table_spec(poly),
        table@.len() == 256,
        table@[0] == 0,
{
    let mut table: Vec<u64> = Vec::new();
    let mut i: usize = 0;
    while i < 256
        invariant
            i <= 256,
            table@.len() == i,
            forall|j: int| 0 <= j < i ==> table@[j] == table_entry(poly, j as u64),
        decreases 256 - i,
    {
        let mut crc: u64 = i as u64;
        let mut k: usize = 0;
        while k < 8
            invariant
                k <= 8,
                crc == poly_steps(poly, i as u64, k as nat),
            decreases 8 - k,
        {
            proof {
                lemma_poly_steps_succ(poly, i as u64, k as nat);
            }
            if crc & 1 == 1 {
                crc = (crc >> 1) ^ poly;
            } else {
                crc = crc >> 1;
            }
            k = k + 1;
        }
        table.push(crc);
        i = i + 1;
    }
    proof {
        lemma_poly_steps_zero(poly, 8);
        assert(table@ =~= crc64_table_spec(poly));
    }
    table
}

/// One byte step of the table-driven update: index the table with the low
/// register byte XOR the input byte, and fold into the shifted register.
pub open spec fn step_byte(crc: u64, b: u8) -> u64 {
    table_entry(NVME_POLY, (crc & 0xff) ^ (b as u64)) ^ (crc >> 8)
}

/// The register after consuming `bytes` in order, starting from `crc`.
pub open spec fn crc_raw(crc: u64, bytes: Seq<u8>) -> u64
    decreases bytes.len(),
{
    if bytes.len() == 0 {
        crc
    } else {
        crc_raw(step_byte(crc, bytes[0]), bytes.drop_first())
    }
}

/// The finalized checksum of `bytes`: start from the all-ones register,
/// consume every byte in order, and complement the result.
pub open spec fn crc64_spec(bytes: Seq<u8>) -> u64 {
    crc_raw(CRC64_INIT, bytes) ^ 0xFFFFFFFFFFFFFFFF
}

/// Chunking invariance: consuming `a` then `b` leaves the register exactly
/// where consuming the concatenation `a + b` would. Splitting an input into
/// chunks, at any boundaries, cannot change the checksum.
pub proof fn lemma_crc_raw_append(crc: u64, a: Seq<u8>, b: Seq<u8>)
    ensures
        crc_raw(crc, a + b) == crc_raw(crc_raw(crc, a), b),
    decreases a.len(),
{
    if a.len() == 0 {
        assert(a + b =~= b);
    } else {
        assert((a + b)[0] == a[0]);
        assert((a + b).drop_first() =~= a.drop_first() + b);
        lemma_crc_raw_append(step_byte(crc, a[0]), a.drop_first(), b);
    }
}

/// Advances the register over one chunk of input bytes, strictly in order.
pub fn crc64_update(register: u64, table: &Vec<u64>, chunk: &[u8]) -> (r: u64)
    requires
        table@ == crc64_table_spec(NVME_POLY),
    ensures
        r == crc_raw(register, chunk@),
{
    let mut crc: u64 = register;
    let mut i: usize = 0;
    while i < chunk.len()
        invariant
            table@ == crc64_table_spec(NVME_POLY),
            i <= chunk@.len(),
            crc == crc_raw(register, chunk@.take(i as int)),
        decreases chunk@.len() - i,
    {
        let byte: u8 = chunk[i];
        let index_wide: u64 = (crc & 0xff) ^ (byte as u64);
        proof {
            assert((crc & 0xff) ^ (byte as u64) < 256) by (bit_vector);
        }
        let index: usize = index_wide as usize;
        let next: u64 = table[index] ^ (crc >> 8);
        proof {
            assert(table@[index_wide as int] == table_entry(NVME_POLY, index_wide));
            assert(next == step_byte(crc, byte));
            assert(chunk@.take(i + 1) =~= chunk@.take(i as int) + seq![chunk@[i as int]]);
            lemma_crc_raw_append(register, chunk@.take(i as int), seq![chunk@[i as int]]);
            assert(seq![byte].drop_first() =~= Seq::<u8>::empty());
            assert(crc_raw(step_byte(crc, byte), Seq::<u8>::empty()) == step_byte(crc, byte));
            assert(crc_raw(crc, seq![byte]) == step_byte(crc, byte));
        }
        crc = next;
        i = i + 1;
    }
    proof {
        assert(chunk@.take(i as int) =~= chunk@);
    }
    crc
}

/// Finalizes the register into the published checksum value: the bitwise
/// complement of the register. Skipping this step would yield a different,
/// non-standard value.
pub fn crc64_finalize(register: u64) -> (r: u64)
    ensures
        r == register ^ 0xFFFFFFFFFFFFFFFF,
{
    proof {
        assert(!register == register ^ 0xFFFFFFFFFFFFFFFF) by (bit_vector);
    }
    !register
}

/// The checksum of a whole input given as one slice.
pub fn compute_crc64(table: &Vec<u64>, data: &[u8]) -> (r: u64)
    requires
        table@ == crc64_table_spec(NVME_POLY),
    ensures
        r == crc64_spec(data@),
{
    let register = crc64_update(CRC64_INIT, table, data);
    crc64_finalize(register)
}

/// The bytes delivered by a chunked source, in delivery order.
pub open spec fn flatten_chunks(chunks: Seq<Vec<u8>>) -> Seq<u8>
    decreases chunks.len(),
{
    if chunks.len() == 0 {
        Seq::empty()
    } else {
        flatten_chunks(chunks.drop_last()) + chunks.last()@
    }
}

/// The checksum of a byte source read as a sequence of chunks of arbitrary,
/// caller-chosen sizes (empty chunks included). The result depends only on
/// the concatenation of the chunks, never on the chunk boundaries, so it
/// equals `compute_crc64` of the whole input.
pub fn compute_crc64_from_reader(table: &Vec<u64>, chunks: &Vec<Vec<u8>>) -> (r: u64)
    requires
        table@ == crc64_table_spec(NVME_POLY),
    ensures
        r == crc64_spec(flatten_chunks(chunks@)),
{
    let mut register: u64 = CRC64_INIT;
    let mut i: usize = 0;
    while i < chunks.len()
        invariant
            table@ == crc64_table_spec(NVME_POLY),
            i <= chunks@.len(),
            register == crc_raw(CRC64_INIT, flatten_chunks(chunks@.take(i as int))),
        decreases chunks@.len() - i,
    {
        let next = crc64_update(register, table, chunks[i].as_slice());
        proof {
            assert(chunks@.take(i + 1).drop_last() =~= chunks@.take(i as int));
            assert(chunks@.take(i + 1).last() == chunks@[i as int]);
            lemma_crc_raw_append(
                CRC64_INIT,
                flatten_chunks(chunks@.take(i as int)),
                chunks@[i as int]@,
            );
        }
        register = next;
        i = i + 1;
    }
    proof {
        assert(chunks@.take(i as int) =~= chunks@);
    }
    crc64_finalize(register)
}

} // verus!
