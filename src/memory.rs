use vstd::prelude::*;

use crate::error::{HintError, ResolutionCause};
use crate::scalar::Scalar;

verus! {

/// A location in segmented memory.
#[derive(Clone, Copy, Debug, PartialEq, Eq, Structural)]
pub struct Address {
    pub segment_index: usize,
    pub offset: usize,
}

/// What a written cell holds.
#[derive(Debug)]
pub enum Cell {
    Scalar(Scalar),
    Address(Address),
}

/// `a` moved by `delta` cells inside its own segment, where the offset stays
/// within the native range.
pub open spec fn shifted(a: Address, delta: int) -> Option<Address> {
    let o = a.offset + delta;
    if 0 <= o <= usize::MAX {
        Some(Address { segment_index: a.segment_index, offset: o as usize })
    } else {
        None
    }
}

/// Moves `a` by `delta` cells within its segment; never crosses segments.
pub fn shift(a: Address, delta: i128) -> (r: Result<Address, HintError>)
    requires
        -0x1_0000_0000_0000_0000_0000 <= delta <= 0x1_0000_0000_0000_0000_0000,
    ensures
        match shifted(a, delta as int) {
            Some(b) => r == Ok::<Address, HintError>(b),
            None => r == Err::<Address, HintError>(
                HintError::ResolutionError(ResolutionCause::OffsetOutOfRange),
            ),
        },
{
    let o: i128 = a.offset as i128 + delta;
    if 0 <= o && o <= usize::MAX as i128 {
        Ok(Address { segment_index: a.segment_index, offset: o as usize })
    } else {
        Err(HintError::ResolutionError(ResolutionCause::OffsetOutOfRange))
    }
}

/// Why a write was refused.
#[derive(Clone, Copy, Debug, PartialEq, Eq, Structural)]
pub enum WriteError {
    NoSuchSegment,
    AlreadyWritten,
}

/// The scalar that a read of `a` yields.
pub open spec fn scalar_at(m: &Memory, a: Address) -> Result<Scalar, HintError> {
    match m.cell(a) {
        None => Err(HintError::ResolutionError(ResolutionCause::UnwrittenCell)),
        Some(Cell::Scalar(s)) => Ok(s),
        Some(Cell::Address(_)) => Err(HintError::TypeMismatch),
    }
}

/// The address that a read of `a` yields.
pub open spec fn address_at(m: &Memory, a: Address) -> Result<Address, HintError> {
    match m.cell(a) {
        None => Err(HintError::ResolutionError(ResolutionCause::UnwrittenCell)),
        Some(Cell::Address(p)) => Ok(p),
        Some(Cell::Scalar(_)) => Err(HintError::TypeMismatch),
    }
}

/// Reading a cell that was never written fails as a resolution error,
/// whether a scalar or an address is asked for.
pub proof fn lemma_unwritten_cell_is_resolution_error(m: &Memory, a: Address)
    requires
        m.cell(a) is None,
    ensures
        scalar_at(m, a) == Err::<Scalar, HintError>(
            HintError::ResolutionError(ResolutionCause::UnwrittenCell),
        ),
        address_at(m, a) == Err::<Address, HintError>(
            HintError::ResolutionError(ResolutionCause::UnwrittenCell),
        ),
{
}

/// Asking for a scalar from a cell that holds an address, or for an address
/// from a cell that holds a scalar, fails with a type mismatch.
pub proof fn lemma_wrong_tag_is_type_mismatch(m: &Memory, a: Address)
    ensures
        m.cell(a) matches Some(Cell::Address(_)) ==> scalar_at(m, a) == Err::<Scalar, HintError>(
            HintError::TypeMismatch,
        ),
        m.cell(a) matches Some(Cell::Scalar(_)) ==> address_at(m, a) == Err::<Address, HintError>(
            HintError::TypeMismatch,
        ),
{
}

/// Segmented, write-once memory: each segment is a run of cells, each cell
/// unwritten (`None`) or holding a value.
pub struct Memory {
    pub segments: Vec<Vec<Option<Cell>>>,
}

impl Memory {
    /// The cell at `a`, or `None` where it was never written.
    pub open spec fn cell(&self, a: Address) -> Option<Cell> {
        if a.segment_index < self.segments@.len() && a.offset
            < self.segments@[a.segment_index as int]@.len() {
            self.segments@[a.segment_index as int]@[a.offset as int]
        } else {
            None
        }
    }

    /// The number of segments allocated so far.
    pub open spec fn num_segments(&self) -> nat {
        self.segments@.len()
    }

    /// Memory with no segments.
    pub fn new() -> (r: Memory)
        ensures
            r.num_segments() == 0,
            forall|a: Address| r.cell(a) is None,
    {
        Memory { segments: Vec::new() }
    }

    /// Allocates a fresh, empty segment and returns its index.
    pub fn add_segment(&mut self) -> (r: usize)
        requires
            old(self).num_segments() < usize::MAX,
        ensures
            r == old(self).num_segments(),
            final(self).num_segments() == old(self).num_segments() + 1,
            forall|a: Address| #[trigger] final(self).cell(a) == old(self).cell(a),
    {
        let r = self.segments.len();
        self.segments.push(Vec::new());
        r
    }

    /// Writes `value` at `a`. Fails where the segment does not exist or the
    /// cell was written before; cells are never overwritten.
    pub fn write(&mut self, a: Address, value: Cell) -> (r: Result<(), WriteError>)
        ensures
            a.segment_index >= old(self).num_segments() ==> r == Err::<(), WriteError>(
                WriteError::NoSuchSegment,
            ),
            a.segment_index < old(self).num_segments() && old(self).cell(a) is Some ==> r == Err::<
                (),
                WriteError,
            >(WriteError::AlreadyWritten),
            r is Ok <==> a.segment_index < old(self).num_segments() && old(self).cell(a) is None,
            r is Ok ==> forall|b: Address| #[trigger]
                final(self).cell(b) == if b == a {
                    Some(value)
                } else {
                    old(self).cell(b)
                },
            r is Err ==> *final(self) == *old(self),
            final(self).num_segments() == old(self).num_segments(),
    {
        if a.segment_index >= self.segments.len() {
            return Err(WriteError::NoSuchSegment);
        }
        if a.offset < self.segments[a.segment_index].len() {
            if self.segments[a.segment_index][a.offset].is_some() {
                return Err(WriteError::AlreadyWritten);
            }
        }
        let s = a.segment_index;
        let ghost before = self.segments@;
        let mut seg = self.segments.remove(s);
        let ghost seg0 = seg@;
        while seg.len() <= a.offset
            invariant
                seg0.len() <= seg@.len(),
                seg@.len() <= a.offset + 1 || seg@.len() == seg0.len(),
                seg@.subrange(0, seg0.len() as int) == seg0,
                forall|i: int| seg0.len() <= i < seg@.len() ==> seg@[i] is None,
            decreases a.offset + 1 - seg@.len(),
        {
            seg.push(None);
        }
        seg.set(a.offset, Some(value));
        self.segments.insert(s, seg);
        assert(self.segments@ =~= before.update(s as int, seg));
        proof {
            assert forall|b: Address| #[trigger]
                self.cell(b) == if b == a {
                    Some(value)
                } else {
                    old(self).cell(b)
                } by {
                if b.segment_index == s && b != a {
                    if b.offset < seg0.len() {
                        assert(seg@[b.offset as int] == seg0[b.offset as int]);
                    }
                }
            }
        }
        Ok(())
    }

    /// Reads a scalar at `a`.
    pub fn get_integer(&self, a: Address) -> (r: Result<&Scalar, HintError>)
        ensures
            match r {
                Ok(s) => scalar_at(self, a) == Ok::<Scalar, HintError>(*s),
                Err(e) => scalar_at(self, a) == Err::<Scalar, HintError>(e),
            },
    {
        match self.get(a) {
            None => Err(HintError::ResolutionError(ResolutionCause::UnwrittenCell)),
            Some(Cell::Scalar(s)) => Ok(s),
            Some(Cell::Address(_)) => Err(HintError::TypeMismatch),
        }
    }

    /// Reads an address at `a`.
    pub fn get_address(&self, a: Address) -> (r: Result<Address, HintError>)
        ensures
            r == address_at(self, a),
    {
        match self.get(a) {
            None => Err(HintError::ResolutionError(ResolutionCause::UnwrittenCell)),
            Some(Cell::Address(p)) => Ok(*p),
            Some(Cell::Scalar(_)) => Err(HintError::TypeMismatch),
        }
    }

    /// The cell at `a`, if it was written.
    pub fn get(&self, a: Address) -> (r: Option<&Cell>)
        ensures
            match r {
                Some(c) => self.cell(a) == Some(*c),
                None => self.cell(a) is None,
            },
    {
        if a.segment_index < self.segments.len() {
            let seg = &self.segments[a.segment_index];
            if a.offset < seg.len() {
                return seg[a.offset].as_ref();
            }
        }
        None
    }
}

} // verus!
