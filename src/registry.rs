use vstd::prelude::*;

use crate::error::HintError;
use crate::hint::{print_two_array_hint, two_array_output, views};
use crate::memory::Memory;
use crate::names::NameMap;
use crate::resolver::{ApTracking, HintReference, Registers};
use crate::scalar::Scalar;

verus! {

/// The native hints this library provides.
#[derive(Clone, Copy, Debug, PartialEq, Eq, Structural)]
pub enum HintKind {
    /// Emits two arrays of dynamic length; see `print_two_array_hint`.
    PrintTwoArrays,
}

/// Binds hint source texts, matched exactly, to callbacks.
pub struct HintProcessor<C> {
    hints: NameMap<C>,
}

impl<C> HintProcessor<C> {
    pub closed spec fn wf(&self) -> bool {
        self.hints.wf()
    }

    /// The bindings, from hint source text to callback.
    pub closed spec fn bindings(&self) -> Map<Seq<char>, C> {
        self.hints.bindings()
    }

    /// A processor with no hint bound.
    pub fn new_empty() -> (r: HintProcessor<C>)
        ensures
            r.wf(),
            r.bindings() == Map::<Seq<char>, C>::empty(),
    {
        HintProcessor { hints: NameMap::new() }
    }

    /// Binds `code` to `f`. A second binding of the same text replaces the
    /// first: the last registration wins.
    pub fn add_hint(&mut self, code: String, f: C)
        requires
            old(self).wf(),
        ensures
            final(self).wf(),
            final(self).bindings() == old(self).bindings().insert(code@, f),
    {
        self.hints.insert(code, f);
    }

    /// The callback bound to `code`; none is made up where nothing is bound.
    pub fn hint_for(&self, code: &String) -> (r: Option<&C>)
        requires
            self.wf(),
        ensures
            match r {
                Some(f) => self.bindings().contains_key(code@) && self.bindings()[code@] == *f,
                None => !self.bindings().contains_key(code@),
            },
    {
        self.hints.get(code)
    }
}

/// Registering a second callback under the same source text leaves only
/// the second one bound to it, and leaves every other binding as it was.
pub proof fn lemma_last_registration_wins<C>(
    bindings: Map<Seq<char>, C>,
    code: Seq<char>,
    first: C,
    second: C,
)
    ensures
        bindings.insert(code, first).insert(code, second) == bindings.insert(code, second),
        bindings.insert(code, first).insert(code, second)[code] == second,
{
    assert(bindings.insert(code, first).insert(code, second) =~= bindings.insert(code, second));
}

/// The source text under which the two-array hint is registered.
pub fn two_array_hint_code() -> (r: String)
    ensures
        r@ == "for i in range(x_fp_s_len):\n    print(memory[ids.x_fp_s_len + i])\nfor i in range(y_fp_s_len):\n    print(memory[ids.y_fp_s_len + i])"@,
{
    "for i in range(x_fp_s_len):\n    print(memory[ids.x_fp_s_len + i])\nfor i in range(y_fp_s_len):\n    print(memory[ids.y_fp_s_len + i])".to_owned()
}

/// Runs the hint bound to `code` against the hint site's state and returns
/// what it emits, in order.
pub fn execute_hint(
    p: &HintProcessor<HintKind>,
    code: &String,
    m: &Memory,
    regs: &Registers,
    ids: &NameMap<HintReference>,
    tracking: &ApTracking,
) -> (r: Result<Vec<Scalar>, HintError>)
    requires
        p.wf(),
        ids.wf(),
    ensures
        !p.bindings().contains_key(code@) ==> r == Err::<Vec<Scalar>, HintError>(
            HintError::UnknownHint,
        ),
        p.bindings().contains_key(code@) && p.bindings()[code@] == HintKind::PrintTwoArrays
            ==> match two_array_output(m, *regs, ids.bindings(), *tracking) {
            Ok(v) => r is Ok && views(r->Ok_0@) == v,
            Err(e) => r == Err::<Vec<Scalar>, HintError>(e),
        },
{
    match p.hint_for(code) {
        None => Err(HintError::UnknownHint),
        Some(HintKind::PrintTwoArrays) => print_two_array_hint(m, regs, ids, tracking),
    }
}

} // verus!
