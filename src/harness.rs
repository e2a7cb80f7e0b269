use vstd::prelude::*;
use vstd::string::StringExecFns;

use crate::error::HintError;
use crate::memory::Address;
use crate::names::NameMap;

verus! {

/// Why a run failed.
#[derive(Clone, Copy, Debug, PartialEq, Eq, Structural)]
pub enum RunError {
    /// The entrypoint label is not among the program's identifiers.
    EntrypointNotFound,
    /// Memory could not be relocated after the machine halted.
    RelocationError,
    /// The machine itself failed.
    VmError,
    /// A hint failed, which is fatal for the run.
    Hint(HintError),
}

/// The stage a run has reached: each names the last step completed.
#[derive(Clone, Copy, Debug, PartialEq, Eq, Structural)]
pub enum RunStage {
    /// The program is loaded and its entrypoint resolved.
    Loaded,
    BuiltinsInit,
    SegmentsInit,
    /// The run from the entrypoint has returned with the machine halted.
    Running,
    /// Memory has been relocated into one linear space: the run succeeded.
    Relocated,
    Failed(RunError),
}

/// The step the driver of a run performs next.
#[derive(Clone, Copy, Debug, PartialEq, Eq, Structural)]
pub enum RunAction {
    InitializeBuiltins,
    InitializeSegments,
    RunFromEntrypoint,
    Relocate,
}

pub open spec fn spec_next_action(s: RunStage) -> Option<RunAction> {
    match s {
        RunStage::Loaded => Some(RunAction::InitializeBuiltins),
        RunStage::BuiltinsInit => Some(RunAction::InitializeSegments),
        RunStage::SegmentsInit => Some(RunAction::RunFromEntrypoint),
        RunStage::Running => Some(RunAction::Relocate),
        RunStage::Relocated => None,
        RunStage::Failed(_) => None,
    }
}

pub open spec fn is_terminal(s: RunStage) -> bool {
    s is Relocated || s is Failed
}

pub open spec fn spec_advance(s: RunStage, outcome: Result<(), RunError>) -> RunStage {
    if is_terminal(s) {
        s
    } else {
        match outcome {
            Err(e) => RunStage::Failed(e),
            Ok(()) => match s {
                RunStage::Loaded => RunStage::BuiltinsInit,
                RunStage::BuiltinsInit => RunStage::SegmentsInit,
                RunStage::SegmentsInit => RunStage::Running,
                _ => RunStage::Relocated,
            },
        }
    }
}

/// The step to perform at stage `s`; none once the run has ended.
pub fn next_action(s: RunStage) -> (r: Option<RunAction>)
    ensures
        r == spec_next_action(s),
        r is None <==> is_terminal(s),
{
    match s {
        RunStage::Loaded => Some(RunAction::InitializeBuiltins),
        RunStage::BuiltinsInit => Some(RunAction::InitializeSegments),
        RunStage::SegmentsInit => Some(RunAction::RunFromEntrypoint),
        RunStage::Running => Some(RunAction::Relocate),
        RunStage::Relocated => None,
        RunStage::Failed(_) => None,
    }
}

/// The stage after the step of stage `s` ended with `outcome`: the next one
/// on success, `Failed` with the error as it came otherwise. An ended run
/// stays where it is.
pub fn advance(s: RunStage, outcome: Result<(), RunError>) -> (r: RunStage)
    ensures
        r == spec_advance(s, outcome),
{
    match s {
        RunStage::Relocated | RunStage::Failed(_) => s,
        _ => match outcome {
            Err(e) => RunStage::Failed(e),
            Ok(()) => match s {
                RunStage::Loaded => RunStage::BuiltinsInit,
                RunStage::BuiltinsInit => RunStage::SegmentsInit,
                RunStage::SegmentsInit => RunStage::Running,
                _ => RunStage::Relocated,
            },
        },
    }
}

/// A run whose steps all succeed passes through every stage in order and
/// ends relocated; in particular relocation after a normal halt is reached
/// whenever the relocation step itself succeeds.
pub proof fn lemma_successful_steps_relocate()
    ensures
        spec_advance(
            spec_advance(
                spec_advance(spec_advance(RunStage::Loaded, Ok(())), Ok(())),
                Ok(()),
            ),
            Ok(()),
        ) == RunStage::Relocated,
        spec_advance(RunStage::Running, Ok(())) == RunStage::Relocated,
{
}

/// The qualified identifier of a function of the main module.
pub fn main_identifier(name: &String) -> (r: String)
    ensures
        r@ == "__main__."@ + name@,
{
    "__main__.".to_owned().concat(name.as_str())
}

/// The program counter of the entrypoint `name`, a qualified identifier.
pub fn entrypoint_pc(identifiers: &NameMap<Option<usize>>, name: &String) -> (r: Result<
    usize,
    RunError,
>)
    requires
        identifiers.wf(),
    ensures
        match r {
            Ok(pc) => identifiers.bindings().contains_key(name@) && identifiers.bindings()[name@]
                == Some(pc),
            Err(e) => e == RunError::EntrypointNotFound && !(identifiers.bindings().contains_key(
                name@,
            ) && identifiers.bindings()[name@] is Some),
        },
{
    match identifiers.get(name) {
        Some(Some(pc)) => Ok(*pc),
        _ => Err(RunError::EntrypointNotFound),
    }
}

/// One argument handed to the entrypoint.
#[derive(Clone, Copy, Debug, PartialEq, Eq, Structural)]
pub enum RunArg {
    Address(Address),
    Int(i64),
}

pub open spec fn spec_entry_arguments(builtins: Seq<Address>, params: Seq<i64>) -> Seq<RunArg> {
    builtins.map_values(|a: Address| RunArg::Address(a)) + params.map_values(
        |v: i64| RunArg::Int(v),
    )
}

/// The entrypoint's argument list: the builtins' base addresses first, then
/// the parameters as scalars, each group in the order given.
pub fn entry_arguments(builtins: &Vec<Address>, params: &Vec<i64>) -> (r: Vec<RunArg>)
    ensures
        r@ == spec_entry_arguments(builtins@, params@),
{
    let mut r: Vec<RunArg> = Vec::new();
    let mut i: usize = 0;
    while i < builtins.len()
        invariant
            i <= builtins@.len(),
            r@ == builtins@.subrange(0, i as int).map_values(|a: Address| RunArg::Address(a)),
        decreases builtins@.len() - i,
    {
        r.push(RunArg::Address(builtins[i]));
        i = i + 1;
        assert(r@ =~= builtins@.subrange(0, i as int).map_values(|a: Address| RunArg::Address(a)));
    }
    let ghost head = r@;
    let mut j: usize = 0;
    while j < params.len()
        invariant
            j <= params@.len(),
            head == builtins@.map_values(|a: Address| RunArg::Address(a)),
            r@ == head + params@.subrange(0, j as int).map_values(|v: i64| RunArg::Int(v)),
        decreases params@.len() - j,
    {
        r.push(RunArg::Int(params[j]));
        j = j + 1;
        assert(r@ =~= head + params@.subrange(0, j as int).map_values(|v: i64| RunArg::Int(v)));
    }
    r
}

} // verus!
