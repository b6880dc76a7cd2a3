//! A snapshot of a process's address space as a list of mapped regions.
use vstd::prelude::*;
use crate::bytes::{decode_le, le_value};

verus! {

/// A mapped range of addresses and the bytes it holds.
pub struct Region {
    pub base: u64,
    pub bytes: Vec<u8>,
}

/// Mapped regions, searched in order.
pub struct MemoryImage {
    pub regions: Vec<Region>,
}

/// Why an access to the target's memory failed.
#[derive(Clone, Copy, Debug, PartialEq, Eq, Structural)]
pub enum MemoryError {
    /// An address on the way is unmapped, null, or past the address space.
    ReadFailed,
}

/// Does region `r` hold all of `[addr, addr + n)`?
pub open spec fn region_holds(r: Region, addr: int, n: int) -> bool {
    r.base <= addr && addr + n <= r.base + r.bytes@.len()
}

/// The `n` bytes at `addr`, taken from the first region that holds them all.
pub open spec fn read_in(rs: Seq<Region>, addr: int, n: int) -> Option<Seq<u8>>
    decreases rs.len(),
{
    if rs.len() == 0 {
        None
    } else if region_holds(rs[0], addr, n) {
        Some(rs[0].bytes@.subrange(addr - rs[0].base, addr - rs[0].base + n))
    } else {
        read_in(rs.drop_first(), addr, n)
    }
}

/// The unsigned little-endian value of the `n` bytes at `addr`.
pub open spec fn read_le_spec(rs: Seq<Region>, addr: int, n: int) -> Option<nat> {
    match read_in(rs, addr, n) {
        Some(b) => Some(le_value(b)),
        None => None,
    }
}

pub proof fn lemma_read_in_len(rs: Seq<Region>, addr: int, n: int)
    requires
        n >= 0,
    ensures
        read_in(rs, addr, n) matches Some(b) ==> b.len() == n,
    decreases rs.len(),
{
    if rs.len() > 0 && !region_holds(rs[0], addr, n) {
        lemma_read_in_len(rs.drop_first(), addr, n);
    }
}

/// A value read as `n` little-endian bytes is below `256` to the power `n`.
pub proof fn lemma_read_le_bound(rs: Seq<Region>, addr: int, n: int)
    requires
        n >= 0,
    ensures
        read_le_spec(rs, addr, n) matches Some(v) ==> v < crate::bytes::pow256(n as nat),
{
    lemma_read_in_len(rs, addr, n);
    if let Some(b) = read_in(rs, addr, n) {
        crate::bytes::lemma_le_value_bound(b);
    }
}

impl MemoryImage {
    pub fn new() -> (r: MemoryImage)
        ensures
            r.regions@.len() == 0,
    {
        MemoryImage { regions: Vec::new() }
    }

    /// Maps `bytes` at `base`; earlier regions take precedence where they overlap.
    pub fn map_region(&mut self, base: u64, bytes: Vec<u8>)
        ensures
            final(self).regions@ == old(self).regions@.push(Region { base, bytes }),
    {
        self.regions.push(Region { base, bytes });
    }

    /// Reads an unsigned little-endian integer of `n` bytes at `addr`.
    pub fn read_le(&self, addr: u64, n: usize) -> (r: Option<u64>)
        requires
            n <= 8,
        ensures
            match r {
                Some(v) => read_le_spec(self.regions@, addr as int, n as int) == Some(v as nat),
                None => read_le_spec(self.regions@, addr as int, n as int) is None,
            },
    {
        let ghost rs = self.regions@;
        let mut i: usize = 0;
        assert(rs.subrange(0, rs.len() as int) =~= rs);
        while i < self.regions.len()
            invariant
                rs == self.regions@,
                i <= rs.len(),
                n <= 8,
                read_in(rs, addr as int, n as int) == read_in(rs.subrange(i as int, rs.len() as int), addr as int, n as int),
            decreases rs.len() - i,
        {
            let r = &self.regions[i];
            let ghost tail = rs.subrange(i as int, rs.len() as int);
            assert(tail[0] == *r);
            assert(tail.drop_first() =~= rs.subrange(i + 1, rs.len() as int));
            if r.base <= addr {
                let off: u64 = addr - r.base;
                if (off as u128) + (n as u128) <= r.bytes.len() as u128 {
                    let v = decode_le(r.bytes.as_slice(), off as usize, n);
                    return Some(v);
                }
            }
            i = i + 1;
        }
        None
    }
}

} // verus!
