use vstd::prelude::*;

use crate::error::{HintError, ResolutionCause};
use crate::memory::{scalar_at, shift, shifted, Address, Memory};
use crate::names::NameMap;
use crate::resolver::{
    get_integer_from_var_name, get_ptr_from_var_name, integer_var, out_of_range, ptr_var,
    ApTracking, HintReference, Registers,
};
use crate::scalar::Scalar;

verus! {

pub open spec fn x_len_name() -> Seq<char> {
    "x_fp_s_len"@
}

pub open spec fn y_len_name() -> Seq<char> {
    "y_fp_s_len"@
}

pub open spec fn x_name() -> Seq<char> {
    "x_fp_s"@
}

pub open spec fn y_name() -> Seq<char> {
    "y_fp_s"@
}

/// The digits of each scalar, in order.
pub open spec fn views(s: Seq<Scalar>) -> Seq<Seq<u32>> {
    s.map_values(|x: Scalar| x@)
}

/// What reading `len` cells from `base` onwards yields: their scalars in
/// order, or the error met at the first cell that fails.
pub open spec fn read_array(m: &Memory, base: Address, len: nat) -> Result<Seq<Seq<u32>>, HintError>
    decreases len,
{
    if len == 0 {
        Ok(Seq::empty())
    } else {
        match read_array(m, base, (len - 1) as nat) {
            Err(e) => Err(e),
            Ok(prefix) => match shifted(base, len - 1) {
                None => out_of_range(),
                Some(a) => match scalar_at(m, a) {
                    Err(e) => Err(e),
                    Ok(s) => Ok(prefix.push(s@)),
                },
            },
        }
    }
}

/// A resolved scalar used as a length: it must fit a native unsigned integer.
pub open spec fn length_of(r: Result<Scalar, HintError>) -> Result<nat, HintError> {
    match r {
        Err(e) => Err(e),
        Ok(s) => if s.value() <= u64::MAX {
            Ok(s.value())
        } else {
            Err(HintError::ResolutionError(ResolutionCause::ValueTooLarge))
        },
    }
}

/// What the two-array hint emits: all of the first array, then all of the
/// second; or the first failure, in the order lengths, pointers, first
/// array, second array.
pub open spec fn two_array_output(
    m: &Memory,
    regs: Registers,
    ids: Map<Seq<char>, HintReference>,
    tracking: ApTracking,
) -> Result<Seq<Seq<u32>>, HintError> {
    match length_of(integer_var(x_len_name(), m, regs, ids, tracking)) {
        Err(e) => Err(e),
        Ok(xl) => match length_of(integer_var(y_len_name(), m, regs, ids, tracking)) {
            Err(e) => Err(e),
            Ok(yl) => match ptr_var(x_name(), m, regs, ids, tracking) {
                Err(e) => Err(e),
                Ok(xb) => match ptr_var(y_name(), m, regs, ids, tracking) {
                    Err(e) => Err(e),
                    Ok(yb) => match read_array(m, xb, xl) {
                        Err(e) => Err(e),
                        Ok(xv) => match read_array(m, yb, yl) {
                            Err(e) => Err(e),
                            Ok(yv) => Ok(xv + yv),
                        },
                    },
                },
            },
        },
    }
}

/// The address `i` cells past `base` in its segment.
pub open spec fn element_address(base: Address, i: int) -> Address {
    Address { segment_index: base.segment_index, offset: (base.offset + i) as usize }
}

/// The `len` cells from `base` onwards lie within the segment's offsets and
/// each holds a scalar.
pub open spec fn initialized(m: &Memory, base: Address, len: nat) -> bool {
    base.offset + len <= usize::MAX + 1 && forall|i: int|
        0 <= i < len ==> #[trigger] scalar_at(m, element_address(base, i)) is Ok
}

/// The scalars held by the `len` cells from `base` onwards.
pub open spec fn array_values(m: &Memory, base: Address, len: nat) -> Seq<Seq<u32>> {
    Seq::new(len, |i: int| scalar_at(m, element_address(base, i))->Ok_0@)
}

/// An array whose cells all hold scalars reads as exactly those scalars,
/// in order.
pub proof fn lemma_read_initialized_array(m: &Memory, base: Address, len: nat)
    requires
        initialized(m, base, len),
    ensures
        read_array(m, base, len) == Ok::<Seq<Seq<u32>>, HintError>(array_values(m, base, len)),
    decreases len,
{
    if len > 0 {
        let k = (len - 1) as nat;
        assert(initialized(m, base, k));
        lemma_read_initialized_array(m, base, k);
        assert(scalar_at(m, element_address(base, k as int)) is Ok);
        assert(shifted(base, k as int) == Some(element_address(base, k as int)));
        assert(array_values(m, base, k).push(scalar_at(m, element_address(base, k as int))->Ok_0@)
            =~= array_values(m, base, len));
    } else {
        assert(array_values(m, base, len) =~= Seq::empty());
    }
}

/// With both lengths and both pointers resolved and both arrays holding
/// scalars throughout, the hint emits exactly `xl + yl` values: the first
/// array's in order, then the second's.
pub proof fn lemma_emits_both_arrays(
    m: &Memory,
    regs: Registers,
    ids: Map<Seq<char>, HintReference>,
    tracking: ApTracking,
    xl: nat,
    yl: nat,
    xb: Address,
    yb: Address,
)
    requires
        length_of(integer_var(x_len_name(), m, regs, ids, tracking)) == Ok::<nat, HintError>(xl),
        length_of(integer_var(y_len_name(), m, regs, ids, tracking)) == Ok::<nat, HintError>(yl),
        ptr_var(x_name(), m, regs, ids, tracking) == Ok::<Address, HintError>(xb),
        ptr_var(y_name(), m, regs, ids, tracking) == Ok::<Address, HintError>(yb),
        initialized(m, xb, xl),
        initialized(m, yb, yl),
    ensures
        two_array_output(m, regs, ids, tracking) == Ok::<Seq<Seq<u32>>, HintError>(
            array_values(m, xb, xl) + array_values(m, yb, yl),
        ),
        (array_values(m, xb, xl) + array_values(m, yb, yl)).len() == xl + yl,
{
    lemma_read_initialized_array(m, xb, xl);
    lemma_read_initialized_array(m, yb, yl);
}

/// A zero length never fails and contributes no values: the hint then emits
/// only the other array, or nothing when both lengths are zero.
pub proof fn lemma_zero_length_omitted(
    m: &Memory,
    regs: Registers,
    ids: Map<Seq<char>, HintReference>,
    tracking: ApTracking,
    xl: nat,
    yl: nat,
    xb: Address,
    yb: Address,
)
    requires
        length_of(integer_var(x_len_name(), m, regs, ids, tracking)) == Ok::<nat, HintError>(xl),
        length_of(integer_var(y_len_name(), m, regs, ids, tracking)) == Ok::<nat, HintError>(yl),
        ptr_var(x_name(), m, regs, ids, tracking) == Ok::<Address, HintError>(xb),
        ptr_var(y_name(), m, regs, ids, tracking) == Ok::<Address, HintError>(yb),
        xl == 0 || initialized(m, xb, xl),
        yl == 0 || initialized(m, yb, yl),
        xl == 0 || yl == 0,
    ensures
        read_array(m, xb, 0) == Ok::<Seq<Seq<u32>>, HintError>(Seq::empty()),
        xl == 0 ==> two_array_output(m, regs, ids, tracking) == Ok::<Seq<Seq<u32>>, HintError>(
            array_values(m, yb, yl),
        ),
        yl == 0 ==> two_array_output(m, regs, ids, tracking) == Ok::<Seq<Seq<u32>>, HintError>(
            array_values(m, xb, xl),
        ),
{
    lemma_emits_both_arrays(m, regs, ids, tracking, xl, yl, xb, yb);
    assert(array_values(m, xb, 0) =~= Seq::empty());
    assert(array_values(m, yb, 0) =~= Seq::empty());
    assert(Seq::<Seq<u32>>::empty() + array_values(m, yb, yl) =~= array_values(m, yb, yl));
    assert(array_values(m, xb, xl) + Seq::<Seq<u32>>::empty() =~= array_values(m, xb, xl));
}

proof fn lemma_read_array_error_persists(m: &Memory, base: Address, i: nat, len: nat, e: HintError)
    requires
        i <= len,
        read_array(m, base, i) == Err::<Seq<Seq<u32>>, HintError>(e),
    ensures
        read_array(m, base, len) == Err::<Seq<Seq<u32>>, HintError>(e),
    decreases len - i,
{
    if i < len {
        lemma_read_array_error_persists(m, base, i, (len - 1) as nat, e);
    }
}

/// Reads the scalars of the `len` cells from `base` onwards, advancing by
/// offset within `base`'s segment.
pub fn read_scalars(m: &Memory, base: Address, len: u64) -> (r: Result<Vec<Scalar>, HintError>)
    ensures
        match read_array(m, base, len as nat) {
            Ok(v) => r is Ok && views(r->Ok_0@) == v,
            Err(e) => r == Err::<Vec<Scalar>, HintError>(e),
        },
{
    let mut out: Vec<Scalar> = Vec::new();
    let mut i: u64 = 0;
    assert(views(out@) =~= Seq::<Seq<u32>>::empty());
    while i < len
        invariant
            i <= len,
            read_array(m, base, i as nat) == Ok::<Seq<Seq<u32>>, HintError>(views(out@)),
        decreases len - i,
    {
        let ghost prev = views(out@);
        let a = match shift(base, i as i128) {
            Ok(a) => a,
            Err(e) => {
                proof {
                    lemma_read_array_error_persists(m, base, (i + 1) as nat, len as nat, e);
                }
                return Err(e);
            },
        };
        let s = match m.get_integer(a) {
            Ok(s) => s,
            Err(e) => {
                proof {
                    lemma_read_array_error_persists(m, base, (i + 1) as nat, len as nat, e);
                }
                return Err(e);
            },
        };
        out.push(s.duplicate());
        proof {
            assert(views(out@) =~= prev.push(s@));
        }
        i = i + 1;
    }
    Ok(out)
}

/// Resolves a variable holding a length and converts it to a native integer.
fn length_from_var_name(
    name: &String,
    m: &Memory,
    regs: &Registers,
    ids: &NameMap<HintReference>,
    tracking: &ApTracking,
) -> (r: Result<u64, HintError>)
    requires
        ids.wf(),
    ensures
        match length_of(integer_var(name@, m, *regs, ids.bindings(), *tracking)) {
            Ok(n) => r == Ok::<u64, HintError>(n as u64),
            Err(e) => r == Err::<u64, HintError>(e),
        },
{
    let s = get_integer_from_var_name(name, m, regs, ids, tracking)?;
    match s.to_u64() {
        Some(n) => Ok(n),
        None => Err(HintError::ResolutionError(ResolutionCause::ValueTooLarge)),
    }
}

/// The hint that emits two arrays of dynamic length: it resolves
/// `x_fp_s_len` and `y_fp_s_len` as lengths and `x_fp_s` and `y_fp_s` as
/// pointers, then returns the scalars of the first array followed by those
/// of the second, in the order they are to be emitted.
pub fn print_two_array_hint(
    m: &Memory,
    regs: &Registers,
    ids: &NameMap<HintReference>,
    tracking: &ApTracking,
) -> (r: Result<Vec<Scalar>, HintError>)
    requires
        ids.wf(),
    ensures
        match two_array_output(m, *regs, ids.bindings(), *tracking) {
            Ok(v) => r is Ok && views(r->Ok_0@) == v,
            Err(e) => r == Err::<Vec<Scalar>, HintError>(e),
        },
{
    let x_len_key = "x_fp_s_len".to_owned();
    let y_len_key = "y_fp_s_len".to_owned();
    let x_key = "x_fp_s".to_owned();
    let y_key = "y_fp_s".to_owned();
    let x_len = length_from_var_name(&x_len_key, m, regs, ids, tracking)?;
    let y_len = length_from_var_name(&y_len_key, m, regs, ids, tracking)?;
    let x = get_ptr_from_var_name(&x_key, m, regs, ids, tracking)?;
    let y = get_ptr_from_var_name(&y_key, m, regs, ids, tracking)?;
    let mut xs = read_scalars(m, x, x_len)?;
    let mut ys = read_scalars(m, y, y_len)?;
    let ghost xv = views(xs@);
    let ghost yv = views(ys@);
    xs.append(&mut ys);
    proof {
        assert(views(xs@) =~= xv + yv);
    }
    Ok(xs)
}

} // verus!
