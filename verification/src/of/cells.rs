//! Big-endian cells, as the device tree stores numbers.
use vstd::prelude::*;

verus! {

/// The big-endian 32-bit value of the four bytes of `v` at `off`.
pub open spec fn be32(v: Seq<u8>, off: int) -> u32 {
    (v[off] as int * 0x100_0000 + v[off + 1] as int * 0x1_0000 + v[off + 2] as int * 0x100 + v[off + 3] as int) as u32
}

/// The big-endian 64-bit value of the eight bytes of `v` at `off`.
pub open spec fn be64(v: Seq<u8>, off: int) -> u64 {
    (be32(v, off) as int * 0x1_0000_0000 + be32(v, off + 4) as int) as u64
}

/// Reads the big-endian `u32` at byte `off`.
pub fn read_be32(v: &[u8], off: usize) -> (r: u32)
    requires
        off + 4 <= v@.len(),
    ensures
        r == be32(v@, off as int),
{
    let a = v[off] as u32;
    let b = v[off + 1] as u32;
    let c = v[off + 2] as u32;
    let d = v[off + 3] as u32;
    a * 0x100_0000 + b * 0x1_0000 + c * 0x100 + d
}

/// Reads the big-endian `u64` at byte `off`.
pub fn read_be64(v: &[u8], off: usize) -> (r: u64)
    requires
        off + 8 <= v@.len(),
    ensures
        r == be64(v@, off as int),
{
    let _n = v.len();
    let hi = read_be32(v, off) as u64;
    let lo = read_be32(v, off + 4) as u64;
    hi * 0x1_0000_0000 + lo
}

/// The four big-endian bytes of `x`.
pub open spec fn be32_bytes(x: u32) -> Seq<u8> {
    seq![(x / 0x100_0000) as u8, ((x / 0x1_0000) % 0x100) as u8, ((x / 0x100) % 0x100) as u8, (x % 0x100) as u8]
}

/// Encodes `x` as four big-endian bytes.
pub fn u32_to_be(x: u32) -> (r: [u8; 4])
    ensures
        r@ == be32_bytes(x),
        be32(r@, 0) == x,
{
    let r = [(x / 0x100_0000) as u8, ((x / 0x1_0000) % 0x100) as u8, ((x / 0x100) % 0x100) as u8, (x % 0x100) as u8];
    assert(r@ =~= be32_bytes(x));
    r
}

/// The number `size` cells at the front of `cell` encode: each whole cell
/// is shifted in from the right (the value keeps its low 64 bits); a cell
/// running past the end of `cell` is skipped.
pub open spec fn read_number_spec(cell: Seq<u8>, size: nat) -> u64
    decreases size,
{
    if size == 0 {
        0
    } else {
        let prev = read_number_spec(cell, (size - 1) as nat);
        let off = (size - 1) * 4;
        if off + 4 <= cell.len() {
            ((prev as int * 0x1_0000_0000 + be32(cell, off) as int) % 0x1_0000_0000_0000_0000) as u64
        } else {
            prev
        }
    }
}

/// Reads a number of `size` big-endian cells.
pub fn of_read_number(cell: &[u8], size: usize) -> (r: u64)
    ensures
        r == read_number_spec(cell@, size as nat),
{
    let mut result: u64 = 0;
    let mut i: usize = 0;
    while i < size
        invariant
            i <= size,
            result == read_number_spec(cell@, i as nat),
        decreases size - i,
    {
        if i < cell.len() / 4 {
            let val = read_be32(cell, i * 4);
            let lo = result % 0x1_0000_0000;
            result = lo * 0x1_0000_0000 + val as u64;
            assert((result as int) == (read_number_spec(cell@, i as nat) as int * 0x1_0000_0000 + val as int)
                % 0x1_0000_0000_0000_0000) by (nonlinear_arith)
                requires
                    lo == read_number_spec(cell@, i as nat) % 0x1_0000_0000,
                    result == lo * 0x1_0000_0000 + val,
                    val < 0x1_0000_0000,
            ;
        }
        i = i + 1;
    }
    result
}

} // verus!
