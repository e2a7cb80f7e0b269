use vstd::prelude::*;

use crate::error::{HintError, ResolutionCause};
use crate::memory::{address_at, scalar_at, shift, shifted, Address, Memory};
use crate::names::NameMap;
use crate::scalar::Scalar;

verus! {

/// The register a reference is expressed against.
#[derive(Clone, Copy, Debug, PartialEq, Eq, Structural)]
pub enum Register {
    /// The allocation pointer.
    Ap,
    /// The frame pointer.
    Fp,
}

/// Allocation-pointer tracking: the group and the offset within it.
#[derive(Clone, Copy, Debug, PartialEq, Eq, Structural)]
pub struct ApTracking {
    pub group: usize,
    pub offset: usize,
}

/// A variable's reference expression. Its address is `register + offset1`,
/// replaced by the pointer stored there where `offset1_dereference` holds,
/// then moved by `offset2`, and replaced once more by the pointer stored
/// there where `inner_dereference` holds. `outer_dereference` marks a
/// pointer variable whose value is the address stored at that address.
/// An allocation-pointer reference carries the tracking it was compiled at.
#[derive(Clone, Copy, Debug, PartialEq, Eq, Structural)]
pub struct HintReference {
    pub register: Register,
    pub offset1: i32,
    pub offset1_dereference: bool,
    pub offset2: i32,
    pub inner_dereference: bool,
    pub outer_dereference: bool,
    pub ap_tracking: Option<ApTracking>,
}

/// The register values at the hint site.
#[derive(Clone, Copy, Debug, PartialEq, Eq, Structural)]
pub struct Registers {
    pub ap: Address,
    pub fp: Address,
}

pub open spec fn out_of_range<T>() -> Result<T, HintError> {
    Err(HintError::ResolutionError(ResolutionCause::OffsetOutOfRange))
}

/// The register value that `r` is relative to. An allocation-pointer
/// reference is corrected by how far the pointer moved since compile time,
/// which is known only within one tracking group.
pub open spec fn base_address(r: HintReference, tracking: ApTracking, regs: Registers) -> Result<
    Address,
    HintError,
> {
    match r.register {
        Register::Fp => Ok(regs.fp),
        Register::Ap => match r.ap_tracking {
            Some(t) => if t.group != tracking.group {
                Err(HintError::ResolutionError(ResolutionCause::TrackingMismatch))
            } else {
                match shifted(regs.ap, t.offset - tracking.offset) {
                    Some(a) => Ok(a),
                    None => out_of_range(),
                }
            },
            None => Err(HintError::ResolutionError(ResolutionCause::TrackingMismatch)),
        },
    }
}

/// The address stored at `a` where `follow` holds, else `a` itself.
pub open spec fn follow_if(m: &Memory, a: Address, follow: bool) -> Result<Address, HintError> {
    if follow {
        address_at(m, a)
    } else {
        Ok(a)
    }
}

/// The address that the reference expression `r` denotes.
pub open spec fn reference_address(
    r: HintReference,
    tracking: ApTracking,
    regs: Registers,
    m: &Memory,
) -> Result<Address, HintError> {
    match base_address(r, tracking, regs) {
        Err(e) => Err(e),
        Ok(b) => match shifted(b, r.offset1 as int) {
            None => out_of_range(),
            Some(a1) => match follow_if(m, a1, r.offset1_dereference) {
                Err(e) => Err(e),
                Ok(p) => match shifted(p, r.offset2 as int) {
                    None => out_of_range(),
                    Some(a2) => follow_if(m, a2, r.inner_dereference),
                },
            },
        },
    }
}

/// The address of the variable `name`.
pub open spec fn var_address(
    name: Seq<char>,
    m: &Memory,
    regs: Registers,
    ids: Map<Seq<char>, HintReference>,
    tracking: ApTracking,
) -> Result<Address, HintError> {
    if !ids.contains_key(name) {
        Err(HintError::ResolutionError(ResolutionCause::UnknownVariable))
    } else {
        reference_address(ids[name], tracking, regs, m)
    }
}

/// The scalar held by the variable `name`.
pub open spec fn integer_var(
    name: Seq<char>,
    m: &Memory,
    regs: Registers,
    ids: Map<Seq<char>, HintReference>,
    tracking: ApTracking,
) -> Result<Scalar, HintError> {
    match var_address(name, m, regs, ids, tracking) {
        Err(e) => Err(e),
        Ok(a) => scalar_at(m, a),
    }
}

/// The pointer held by the variable `name`: the address stored at the
/// variable's address where the reference dereferences, else that address.
pub open spec fn ptr_var(
    name: Seq<char>,
    m: &Memory,
    regs: Registers,
    ids: Map<Seq<char>, HintReference>,
    tracking: ApTracking,
) -> Result<Address, HintError> {
    match var_address(name, m, regs, ids, tracking) {
        Err(e) => Err(e),
        Ok(a) => follow_if(m, a, ids[name].outer_dereference),
    }
}

/// A name absent from the hint site's variable descriptors fails to resolve
/// with a resolution error, whatever is asked of it.
pub proof fn lemma_unknown_variable_is_resolution_error(
    name: Seq<char>,
    m: &Memory,
    regs: Registers,
    ids: Map<Seq<char>, HintReference>,
    tracking: ApTracking,
)
    requires
        !ids.contains_key(name),
    ensures
        var_address(name, m, regs, ids, tracking) == Err::<Address, HintError>(
            HintError::ResolutionError(ResolutionCause::UnknownVariable),
        ),
        integer_var(name, m, regs, ids, tracking) == Err::<Scalar, HintError>(
            HintError::ResolutionError(ResolutionCause::UnknownVariable),
        ),
        ptr_var(name, m, regs, ids, tracking) == Err::<Address, HintError>(
            HintError::ResolutionError(ResolutionCause::UnknownVariable),
        ),
{
}

/// Resolves the address of a reference expression.
pub fn compute_addr_from_reference(
    r: &HintReference,
    m: &Memory,
    regs: &Registers,
    tracking: &ApTracking,
) -> (res: Result<Address, HintError>)
    ensures
        res == reference_address(*r, *tracking, *regs, m),
{
    let base = match r.register {
        Register::Fp => regs.fp,
        Register::Ap => {
            match r.ap_tracking {
                Some(t) => {
                    if t.group != tracking.group {
                        return Err(HintError::ResolutionError(ResolutionCause::TrackingMismatch));
                    }
                    shift(regs.ap, t.offset as i128 - tracking.offset as i128)?
                },
                None => {
                    return Err(HintError::ResolutionError(ResolutionCause::TrackingMismatch));
                },
            }
        },
    };
    let a1 = shift(base, r.offset1 as i128)?;
    let p = if r.offset1_dereference {
        m.get_address(a1)?
    } else {
        a1
    };
    let a2 = shift(p, r.offset2 as i128)?;
    if r.inner_dereference {
        m.get_address(a2)
    } else {
        Ok(a2)
    }
}

/// Resolves the address of the variable `name` at the hint site.
pub fn get_relocatable_from_var_name(
    name: &String,
    m: &Memory,
    regs: &Registers,
    ids: &NameMap<HintReference>,
    tracking: &ApTracking,
) -> (res: Result<Address, HintError>)
    requires
        ids.wf(),
    ensures
        res == var_address(name@, m, *regs, ids.bindings(), *tracking),
{
    match ids.get(name) {
        None => Err(HintError::ResolutionError(ResolutionCause::UnknownVariable)),
        Some(r) => compute_addr_from_reference(r, m, regs, tracking),
    }
}

/// Resolves the scalar held by the variable `name`.
pub fn get_integer_from_var_name<'a>(
    name: &String,
    m: &'a Memory,
    regs: &Registers,
    ids: &NameMap<HintReference>,
    tracking: &ApTracking,
) -> (res: Result<&'a Scalar, HintError>)
    requires
        ids.wf(),
    ensures
        match res {
            Ok(s) => integer_var(name@, m, *regs, ids.bindings(), *tracking) == Ok::<
                Scalar,
                HintError,
            >(*s),
            Err(e) => integer_var(name@, m, *regs, ids.bindings(), *tracking) == Err::<
                Scalar,
                HintError,
            >(e),
        },
{
    let a = get_relocatable_from_var_name(name, m, regs, ids, tracking)?;
    m.get_integer(a)
}

/// Resolves the pointer held by the variable `name`.
pub fn get_ptr_from_var_name(
    name: &String,
    m: &Memory,
    regs: &Registers,
    ids: &NameMap<HintReference>,
    tracking: &ApTracking,
) -> (res: Result<Address, HintError>)
    requires
        ids.wf(),
    ensures
        res == ptr_var(name@, m, *regs, ids.bindings(), *tracking),
{
    let a = get_relocatable_from_var_name(name, m, regs, ids, tracking)?;
    match ids.get(name) {
        Some(r) => {
            if r.outer_dereference {
                m.get_address(a)
            } else {
                Ok(a)
            }
        },
        None => Err(HintError::ResolutionError(ResolutionCause::UnknownVariable)),
    }
}

} // verus!
