//! Pointer chains: a base address and the offsets walked from it, resolved
//! afresh on every read.
use vstd::prelude::*;
use crate::memory::{MemoryImage, MemoryError, Region, read_le_spec, lemma_read_le_bound};
use crate::bytes::pow256;

verus! {

/// Width of the pointers stored in the target process.
#[derive(Clone, Copy, Debug, PartialEq, Eq, Structural)]
pub enum PointerWidth {
    W32,
    W64,
}

pub open spec fn width_bytes(w: PointerWidth) -> int {
    match w {
        PointerWidth::W32 => 4,
        PointerWidth::W64 => 8,
    }
}

/// A base address plus the offsets that lead from it to a value. Every
/// offset of the path but the last names a pointer to follow; the last is
/// added to the pointer reached.
pub struct PointerChain {
    pub base: u64,
    pub offsets: Vec<u64>,
    pub width: PointerWidth,
}

/// The offsets walked for a read: the chain's own, then the read's offset.
pub open spec fn full_path(offsets: Seq<u64>, final_offset: Option<u64>) -> Seq<u64> {
    match final_offset {
        Some(f) => offsets.push(f),
        None => offsets,
    }
}

/// The address reached by walking `path` from `cur`. Following a pointer
/// reads a zero-extended value of the chain's width; a null pointer, an
/// unreadable one or an address past the 64-bit space ends the walk.
pub open spec fn walk(rs: Seq<Region>, w: PointerWidth, cur: int, path: Seq<u64>) -> Option<int>
    decreases path.len(),
{
    if path.len() == 0 {
        Some(cur)
    } else {
        let a = cur + path[0];
        if a > u64::MAX {
            None
        } else if path.len() == 1 {
            Some(a)
        } else {
            match read_le_spec(rs, a, width_bytes(w)) {
                None => None,
                Some(p) => if p == 0 {
                    None
                } else {
                    walk(rs, w, p as int, path.drop_first())
                },
            }
        }
    }
}

/// The address that a read through `c` with `final_offset` targets.
pub open spec fn chain_address(rs: Seq<Region>, base: int, offsets: Seq<u64>, w: PointerWidth, final_offset: Option<u64>) -> Option<int> {
    walk(rs, w, base, full_path(offsets, final_offset))
}

/// The `n`-byte value that a read through the chain yields.
pub open spec fn chain_read(rs: Seq<Region>, base: int, offsets: Seq<u64>, w: PointerWidth, final_offset: Option<u64>, n: int) -> Option<nat> {
    match chain_address(rs, base, offsets, w, final_offset) {
        Some(a) => read_le_spec(rs, a, n),
        None => None,
    }
}

/// What the walker does at one offset of the path.
#[derive(Clone, Copy, Debug, PartialEq, Eq, Structural)]
pub enum ChainStep {
    /// Read a pointer at `address` and continue from its value.
    Follow { address: u64 },
    /// `address` is the end of the walk.
    Arrive { address: u64 },
    /// `current` plus the offset is past the 64-bit address space.
    Overflow,
}

pub open spec fn step_spec(cur: int, path: Seq<u64>, index: int) -> ChainStep {
    let a = cur + path[index];
    if a > u64::MAX {
        ChainStep::Overflow
    } else if index + 1 == path.len() {
        ChainStep::Arrive { address: a as u64 }
    } else {
        ChainStep::Follow { address: a as u64 }
    }
}

impl PointerChain {
    pub fn new(base: u64, offsets: Vec<u64>, width: PointerWidth) -> (r: PointerChain)
        ensures
            r.base == base,
            r.offsets@ == offsets@,
            r.width == width,
    {
        PointerChain { base, offsets, width }
    }

    /// Number of offsets a read with `final_offset` walks.
    pub fn path_len(&self, final_offset: Option<u64>) -> (r: u128)
        ensures
            r == full_path(self.offsets@, final_offset).len(),
    {
        match final_offset {
            Some(_) => self.offsets.len() as u128 + 1,
            None => self.offsets.len() as u128,
        }
    }

    /// The step at `index` of the path of a read with `final_offset`, from
    /// the pointer `current` reached so far.
    pub fn step(&self, final_offset: Option<u64>, index: usize, current: u64) -> (r: ChainStep)
        requires
            index < full_path(self.offsets@, final_offset).len(),
        ensures
            r == step_spec(current as int, full_path(self.offsets@, final_offset), index as int),
    {
        let off: u64 = if index < self.offsets.len() {
            self.offsets[index]
        } else {
            final_offset.unwrap()
        };
        let last = match final_offset {
            Some(_) => index == self.offsets.len(),
            None => index + 1 == self.offsets.len(),
        };
        let a: u128 = current as u128 + off as u128;
        if a > u64::MAX as u128 {
            ChainStep::Overflow
        } else if last {
            ChainStep::Arrive { address: a as u64 }
        } else {
            ChainStep::Follow { address: a as u64 }
        }
    }

    /// The address a read with `final_offset` targets, walked in `mem`.
    pub fn resolve_address(&self, mem: &MemoryImage, final_offset: Option<u64>) -> (r: Result<u64, MemoryError>)
        ensures
            match r {
                Ok(a) => chain_address(mem.regions@, self.base as int, self.offsets@, self.width, final_offset) == Some(a as int),
                Err(e) => e == MemoryError::ReadFailed && chain_address(
                    mem.regions@,
                    self.base as int,
                    self.offsets@,
                    self.width,
                    final_offset,
                ) is None,
            },
    {
        let ghost path = full_path(self.offsets@, final_offset);
        let ghost rs = mem.regions@;
        let n = self.path_len(final_offset);
        if n == 0 {
            return Ok(self.base);
        }
        let wb: usize = match self.width {
            PointerWidth::W32 => 4,
            PointerWidth::W64 => 8,
        };
        let ol = self.offsets.len();
        let mut cur: u64 = self.base;
        let mut i: usize = 0;
        assert(path.subrange(0, path.len() as int) =~= path);
        loop
            invariant
                n == path.len(),
                n <= ol as int + 1,
                ol == self.offsets@.len(),
                path == full_path(self.offsets@, final_offset),
                rs == mem.regions@,
                wb == width_bytes(self.width),
                i < n,
                chain_address(rs, self.base as int, self.offsets@, self.width, final_offset) == walk(
                    rs,
                    self.width,
                    cur as int,
                    path.subrange(i as int, n as int),
                ),
            decreases n - i,
        {
            let ghost rest = path.subrange(i as int, n as int);
            assert(rest[0] == path[i as int]);
            assert(rest.drop_first() =~= path.subrange(i + 1, n as int));
            match self.step(final_offset, i, cur) {
                ChainStep::Overflow => {
                    return Err(MemoryError::ReadFailed);
                },
                ChainStep::Arrive { address } => {
                    return Ok(address);
                },
                ChainStep::Follow { address } => {
                    match mem.read_le(address, wb) {
                        None => {
                            return Err(MemoryError::ReadFailed);
                        },
                        Some(p) => {
                            if p == 0 {
                                return Err(MemoryError::ReadFailed);
                            }
                            cur = p;
                        },
                    }
                },
            }
            i = i + 1;
        }
    }

    /// Reads an `n`-byte little-endian value through the chain.
    pub fn read_le(&self, mem: &MemoryImage, final_offset: Option<u64>, n: usize) -> (r: Result<u64, MemoryError>)
        requires
            n <= 8,
        ensures
            match r {
                Ok(v) => chain_read(mem.regions@, self.base as int, self.offsets@, self.width, final_offset, n as int) == Some(v as nat),
                Err(e) => e == MemoryError::ReadFailed && chain_read(
                    mem.regions@,
                    self.base as int,
                    self.offsets@,
                    self.width,
                    final_offset,
                    n as int,
                ) is None,
            },
    {
        let a = self.resolve_address(mem, final_offset)?;
        match mem.read_le(a, n) {
            Some(v) => Ok(v),
            None => Err(MemoryError::ReadFailed),
        }
    }

    pub fn read_u8(&self, mem: &MemoryImage, final_offset: Option<u64>) -> (r: Result<u8, MemoryError>)
        ensures
            match r {
                Ok(v) => chain_read(mem.regions@, self.base as int, self.offsets@, self.width, final_offset, 1) == Some(v as nat),
                Err(e) => e == MemoryError::ReadFailed && chain_read(mem.regions@, self.base as int, self.offsets@, self.width, final_offset, 1) is None,
            },
    {
        let v = self.read_le(mem, final_offset, 1)?;
        proof {
            let a = chain_address(mem.regions@, self.base as int, self.offsets@, self.width, final_offset)->0;
            lemma_read_le_bound(mem.regions@, a, 1);
            reveal_with_fuel(pow256, 2);
        }
        Ok(v as u8)
    }

    pub fn read_u16(&self, mem: &MemoryImage, final_offset: Option<u64>) -> (r: Result<u16, MemoryError>)
        ensures
            match r {
                Ok(v) => chain_read(mem.regions@, self.base as int, self.offsets@, self.width, final_offset, 2) == Some(v as nat),
                Err(e) => e == MemoryError::ReadFailed && chain_read(mem.regions@, self.base as int, self.offsets@, self.width, final_offset, 2) is None,
            },
    {
        let v = self.read_le(mem, final_offset, 2)?;
        proof {
            let a = chain_address(mem.regions@, self.base as int, self.offsets@, self.width, final_offset)->0;
            lemma_read_le_bound(mem.regions@, a, 2);
            reveal_with_fuel(pow256, 3);
        }
        Ok(v as u16)
    }

    pub fn read_u32(&self, mem: &MemoryImage, final_offset: Option<u64>) -> (r: Result<u32, MemoryError>)
        ensures
            match r {
                Ok(v) => chain_read(mem.regions@, self.base as int, self.offsets@, self.width, final_offset, 4) == Some(v as nat),
                Err(e) => e == MemoryError::ReadFailed && chain_read(mem.regions@, self.base as int, self.offsets@, self.width, final_offset, 4) is None,
            },
    {
        let v = self.read_le(mem, final_offset, 4)?;
        proof {
            let a = chain_address(mem.regions@, self.base as int, self.offsets@, self.width, final_offset)->0;
            lemma_read_le_bound(mem.regions@, a, 4);
            reveal_with_fuel(pow256, 5);
        }
        Ok(v as u32)
    }

    pub fn read_u64(&self, mem: &MemoryImage, final_offset: Option<u64>) -> (r: Result<u64, MemoryError>)
        ensures
            match r {
                Ok(v) => chain_read(mem.regions@, self.base as int, self.offsets@, self.width, final_offset, 8) == Some(v as nat),
                Err(e) => e == MemoryError::ReadFailed && chain_read(mem.regions@, self.base as int, self.offsets@, self.width, final_offset, 8) is None,
            },
    {
        self.read_le(mem, final_offset, 8)
    }
}

/// Do two memories hold the same bytes at every address they are read at?
pub open spec fn same_contents(rs1: Seq<Region>, rs2: Seq<Region>) -> bool {
    forall|a: int, n: int| #[trigger] read_le_spec(rs1, a, n) == read_le_spec(rs2, a, n)
}

proof fn lemma_walk_same_contents(rs1: Seq<Region>, rs2: Seq<Region>, w: PointerWidth, cur: int, path: Seq<u64>)
    requires
        same_contents(rs1, rs2),
    ensures
        walk(rs1, w, cur, path) == walk(rs2, w, cur, path),
    decreases path.len(),
{
    if path.len() > 1 {
        let a = cur + path[0];
        assert(read_le_spec(rs1, a, width_bytes(w)) == read_le_spec(rs2, a, width_bytes(w)));
        if let Some(p) = read_le_spec(rs1, a, width_bytes(w)) {
            lemma_walk_same_contents(rs1, rs2, w, p as int, path.drop_first());
        }
    }
}

/// A read through a chain is a function of the memory's contents alone:
/// it keeps no state of its own, so two reads of memories holding the same
/// bytes (in particular, two reads with no write between them) agree.
pub proof fn lemma_repeated_read_agrees(
    rs1: Seq<Region>,
    rs2: Seq<Region>,
    base: int,
    offsets: Seq<u64>,
    w: PointerWidth,
    final_offset: Option<u64>,
    n: int,
)
    requires
        same_contents(rs1, rs2),
    ensures
        chain_read(rs1, base, offsets, w, final_offset, n) == chain_read(rs2, base, offsets, w, final_offset, n),
{
    lemma_walk_same_contents(rs1, rs2, w, base, full_path(offsets, final_offset));
    if let Some(a) = chain_address(rs1, base, offsets, w, final_offset) {
        assert(read_le_spec(rs1, a, n) == read_le_spec(rs2, a, n));
    }
}

} // verus!
