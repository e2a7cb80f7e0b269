use hint_harness::error::{HintError, ResolutionCause};
use hint_harness::harness::{
    advance, entry_arguments, entrypoint_pc, main_identifier, next_action, RunAction, RunArg,
    RunError, RunStage,
};
use hint_harness::hint::{print_two_array_hint, read_scalars};
use hint_harness::memory::{shift, Address, Cell, Memory, WriteError};
use hint_harness::names::NameMap;
use hint_harness::output::output_lines;
use hint_harness::registry::{execute_hint, two_array_hint_code, HintKind, HintProcessor};
use hint_harness::resolver::{
    get_integer_from_var_name, get_ptr_from_var_name, get_relocatable_from_var_name,
    ApTracking, HintReference, Register, Registers,
};
use hint_harness::scalar::Scalar;

fn addr(segment_index: usize, offset: usize) -> Address {
    Address { segment_index, offset }
}

fn fp_ref(offset1: i32, outer_dereference: bool) -> HintReference {
    HintReference {
        register: Register::Fp,
        offset1,
        offset1_dereference: false,
        offset2: 0,
        inner_dereference: false,
        outer_dereference,
        ap_tracking: None,
    }
}

fn values(out: &[Scalar]) -> Vec<u64> {
    out.iter().map(|s| s.to_u64().unwrap()).collect()
}

fn write_int(m: &mut Memory, a: Address, v: u64) {
    m.write(a, Cell::Scalar(Scalar::from_u64(v))).unwrap();
}

fn write_ptr(m: &mut Memory, a: Address, p: Address) {
    m.write(a, Cell::Address(p)).unwrap();
}

/// Segment 1 holds the frame; the lengths and base pointers sit just below
/// fp = (1, 10). The first array is at (2, 0), the second at (3, 5).
fn site(xs: &[u64], ys: &[u64]) -> (Memory, Registers, NameMap<HintReference>) {
    site_with(xs.len() as u64, xs, ys.len() as u64, ys)
}

/// As `site`, with lengths that may differ from what is written.
fn site_with(
    x_len: u64,
    xs: &[u64],
    y_len: u64,
    ys: &[u64],
) -> (Memory, Registers, NameMap<HintReference>) {
    let mut m = Memory::new();
    for _ in 0..4 {
        m.add_segment();
    }
    write_int(&mut m, addr(1, 6), x_len);
    write_int(&mut m, addr(1, 7), y_len);
    write_ptr(&mut m, addr(1, 8), addr(2, 0));
    write_ptr(&mut m, addr(1, 9), addr(3, 5));
    for (i, v) in xs.iter().enumerate() {
        write_int(&mut m, addr(2, i), *v);
    }
    for (i, v) in ys.iter().enumerate() {
        write_int(&mut m, addr(3, 5 + i), *v);
    }
    let mut ids = NameMap::new();
    ids.insert("x_fp_s_len".to_string(), fp_ref(-4, false));
    ids.insert("y_fp_s_len".to_string(), fp_ref(-3, false));
    ids.insert("x_fp_s".to_string(), fp_ref(-2, true));
    ids.insert("y_fp_s".to_string(), fp_ref(-1, true));
    let regs = Registers { ap: addr(1, 12), fp: addr(1, 10) };
    (m, regs, ids)
}

fn tracking() -> ApTracking {
    ApTracking { group: 0, offset: 0 }
}

#[test]
fn scalar_round_trips_through_u64() {
    for v in [0u64, 1, 0xFFFF_FFFF, 0x1_0000_0000, 123_456_789_012, u64::MAX] {
        assert_eq!(Scalar::from_u64(v).to_u64(), Some(v));
    }
}

#[test]
fn scalar_from_digits_value() {
    assert_eq!(Scalar::from_digits(vec![]).to_u64(), Some(0));
    assert_eq!(Scalar::from_digits(vec![7, 1]).to_u64(), Some(0x1_0000_0007));
    assert_eq!(Scalar::from_digits(vec![7, 1, 0, 0]).to_u64(), Some(0x1_0000_0007));
    assert_eq!(Scalar::from_digits(vec![0, 0, 1]).to_u64(), None);
    assert_eq!(Scalar::from_digits(vec![5, 0, 0, 9]).to_u64(), None);
}

#[test]
fn scalar_duplicate_keeps_digits() {
    let s = Scalar::from_digits(vec![1, 2, 3]);
    assert_eq!(s.duplicate().digits, vec![1, 2, 3]);
}

#[test]
fn memory_write_is_once_only() {
    let mut m = Memory::new();
    assert_eq!(m.write(addr(0, 0), Cell::Address(addr(0, 1))), Err(WriteError::NoSuchSegment));
    assert_eq!(m.add_segment(), 0);
    assert_eq!(m.write(addr(0, 3), Cell::Address(addr(0, 1))), Ok(()));
    assert_eq!(m.write(addr(0, 3), Cell::Address(addr(0, 2))), Err(WriteError::AlreadyWritten));
    assert_eq!(m.get_address(addr(0, 3)), Ok(addr(0, 1)));
    assert!(m.get(addr(0, 2)).is_none());
}

#[test]
fn unwritten_cell_is_resolution_error() {
    let mut m = Memory::new();
    m.add_segment();
    write_int(&mut m, addr(0, 2), 5);
    let unwritten = HintError::ResolutionError(ResolutionCause::UnwrittenCell);
    assert_eq!(m.get_integer(addr(0, 1)).unwrap_err(), unwritten);
    assert_eq!(m.get_address(addr(0, 1)), Err(unwritten));
    assert_eq!(m.get_integer(addr(0, 9)).unwrap_err(), unwritten);
    assert_eq!(m.get_integer(addr(4, 0)).unwrap_err(), unwritten);
}

#[test]
fn wrong_tag_is_type_mismatch() {
    let mut m = Memory::new();
    m.add_segment();
    write_int(&mut m, addr(0, 0), 5);
    write_ptr(&mut m, addr(0, 1), addr(0, 0));
    assert_eq!(m.get_address(addr(0, 0)), Err(HintError::TypeMismatch));
    assert_eq!(m.get_integer(addr(0, 1)).unwrap_err(), HintError::TypeMismatch);
}

#[test]
fn shift_stays_in_segment() {
    assert_eq!(shift(addr(3, 10), -4), Ok(addr(3, 6)));
    assert_eq!(shift(addr(3, 10), 5), Ok(addr(3, 15)));
    let out = Err(HintError::ResolutionError(ResolutionCause::OffsetOutOfRange));
    assert_eq!(shift(addr(3, 2), -3), out);
    assert_eq!(shift(addr(3, usize::MAX), 1), out);
}

#[test]
fn name_map_last_insert_wins() {
    let mut m: NameMap<u32> = NameMap::new();
    m.insert("a".to_string(), 1);
    m.insert("b".to_string(), 2);
    m.insert("a".to_string(), 3);
    assert_eq!(m.len(), 2);
    assert_eq!(m.get(&"a".to_string()), Some(&3));
    assert_eq!(m.get(&"b".to_string()), Some(&2));
    assert_eq!(m.get(&"c".to_string()), None);
}

#[test]
fn unknown_variable_is_resolution_error() {
    let (m, regs, ids) = site(&[1], &[2]);
    let unknown = HintError::ResolutionError(ResolutionCause::UnknownVariable);
    let name = "z_fp_s".to_string();
    assert_eq!(get_relocatable_from_var_name(&name, &m, &regs, &ids, &tracking()), Err(unknown));
    assert_eq!(get_ptr_from_var_name(&name, &m, &regs, &ids, &tracking()), Err(unknown));
    assert_eq!(
        get_integer_from_var_name(&name, &m, &regs, &ids, &tracking()).unwrap_err(),
        unknown
    );
}

#[test]
fn resolves_frame_relative_variables() {
    let (m, regs, ids) = site(&[4, 5, 6], &[7]);
    let t = tracking();
    assert_eq!(
        get_relocatable_from_var_name(&"x_fp_s_len".to_string(), &m, &regs, &ids, &t),
        Ok(addr(1, 6))
    );
    let len = get_integer_from_var_name(&"x_fp_s_len".to_string(), &m, &regs, &ids, &t).unwrap();
    assert_eq!(len.to_u64(), Some(3));
    assert_eq!(get_ptr_from_var_name(&"y_fp_s".to_string(), &m, &regs, &ids, &t), Ok(addr(3, 5)));
}

#[test]
fn ap_references_are_corrected_by_tracking() {
    let mut m = Memory::new();
    m.add_segment();
    m.add_segment();
    write_int(&mut m, addr(1, 3), 42);
    let mut ids = NameMap::new();
    let r = HintReference {
        register: Register::Ap,
        offset1: -1,
        offset1_dereference: false,
        offset2: 0,
        inner_dereference: false,
        outer_dereference: false,
        ap_tracking: Some(ApTracking { group: 2, offset: 1 }),
    };
    ids.insert("v".to_string(), r);
    let regs = Registers { ap: addr(1, 7), fp: addr(1, 0) };
    // ap moved by 3 since compile time: (1, 7) - 3 - 1 = (1, 3).
    let here = ApTracking { group: 2, offset: 4 };
    let v = get_integer_from_var_name(&"v".to_string(), &m, &regs, &ids, &here).unwrap();
    assert_eq!(v.to_u64(), Some(42));
    let elsewhere = ApTracking { group: 3, offset: 4 };
    assert_eq!(
        get_relocatable_from_var_name(&"v".to_string(), &m, &regs, &ids, &elsewhere),
        Err(HintError::ResolutionError(ResolutionCause::TrackingMismatch))
    );
}

#[test]
fn follows_inner_pointers() {
    let mut m = Memory::new();
    m.add_segment();
    m.add_segment();
    write_ptr(&mut m, addr(0, 0), addr(1, 10));
    write_int(&mut m, addr(1, 12), 9);
    let mut ids = NameMap::new();
    let r = HintReference {
        register: Register::Fp,
        offset1: 0,
        offset1_dereference: true,
        offset2: 2,
        inner_dereference: false,
        outer_dereference: false,
        ap_tracking: None,
    };
    ids.insert("p".to_string(), r);
    let regs = Registers { ap: addr(0, 5), fp: addr(0, 0) };
    let v = get_integer_from_var_name(&"p".to_string(), &m, &regs, &ids, &tracking()).unwrap();
    assert_eq!(v.to_u64(), Some(9));
}

#[test]
fn emits_first_array_then_second() {
    let (m, regs, ids) = site(&[1, 2, 3], &[10, 20]);
    let out = print_two_array_hint(&m, &regs, &ids, &tracking()).unwrap();
    assert_eq!(values(&out), vec![1, 2, 3, 10, 20]);
}

#[test]
fn zero_lengths_emit_nothing() {
    let (m, regs, ids) = site(&[], &[8, 9]);
    assert_eq!(values(&print_two_array_hint(&m, &regs, &ids, &tracking()).unwrap()), vec![8, 9]);
    let (m, regs, ids) = site(&[8], &[]);
    assert_eq!(values(&print_two_array_hint(&m, &regs, &ids, &tracking()).unwrap()), vec![8]);
    let (m, regs, ids) = site(&[], &[]);
    assert!(print_two_array_hint(&m, &regs, &ids, &tracking()).unwrap().is_empty());
}

#[test]
fn hint_fails_on_missing_element() {
    // The first array claims three elements where one was written.
    let (m, regs, ids) = site_with(3, &[1], 1, &[2]);
    assert_eq!(
        print_two_array_hint(&m, &regs, &ids, &tracking()).unwrap_err(),
        HintError::ResolutionError(ResolutionCause::UnwrittenCell)
    );
}

#[test]
fn hint_fails_on_pointer_element() {
    let (mut m, regs, ids) = site_with(1, &[1], 2, &[2]);
    write_ptr(&mut m, addr(3, 6), addr(0, 0));
    assert_eq!(
        print_two_array_hint(&m, &regs, &ids, &tracking()).unwrap_err(),
        HintError::TypeMismatch
    );
}

#[test]
fn hint_fails_on_oversized_length() {
    let mut m = Memory::new();
    for _ in 0..4 {
        m.add_segment();
    }
    m.write(addr(1, 6), Cell::Scalar(Scalar::from_digits(vec![0, 0, 1]))).unwrap();
    write_int(&mut m, addr(1, 7), 0);
    write_ptr(&mut m, addr(1, 8), addr(2, 0));
    write_ptr(&mut m, addr(1, 9), addr(3, 5));
    let (_, regs, ids) = site(&[], &[]);
    assert_eq!(
        print_two_array_hint(&m, &regs, &ids, &tracking()).unwrap_err(),
        HintError::ResolutionError(ResolutionCause::ValueTooLarge)
    );
}

#[test]
fn read_scalars_advances_by_offset() {
    let (m, _, _) = site(&[], &[4, 5, 6]);
    assert_eq!(values(&read_scalars(&m, addr(3, 6), 2).unwrap()), vec![5, 6]);
    assert!(read_scalars(&m, addr(3, 100), 0).unwrap().is_empty());
    assert_eq!(
        read_scalars(&m, addr(3, usize::MAX), 2).unwrap_err(),
        HintError::ResolutionError(ResolutionCause::UnwrittenCell)
    );
}

#[test]
fn last_registration_wins() {
    let mut p: HintProcessor<u32> = HintProcessor::new_empty();
    p.add_hint("code".to_string(), 1);
    p.add_hint("code".to_string(), 2);
    assert_eq!(p.hint_for(&"code".to_string()), Some(&2));
    assert_eq!(p.hint_for(&"other".to_string()), None);
}

#[test]
fn executes_the_bound_hint() {
    let (m, regs, ids) = site(&[3], &[4]);
    let mut p = HintProcessor::new_empty();
    p.add_hint(two_array_hint_code(), HintKind::PrintTwoArrays);
    let out = execute_hint(&p, &two_array_hint_code(), &m, &regs, &ids, &tracking()).unwrap();
    assert_eq!(values(&out), vec![3, 4]);
    assert_eq!(
        execute_hint(&p, &"print(1)".to_string(), &m, &regs, &ids, &tracking()).unwrap_err(),
        HintError::UnknownHint
    );
}

#[test]
fn hint_code_is_the_scripted_snippet() {
    assert_eq!(
        two_array_hint_code(),
        "for i in range(x_fp_s_len):\n    print(memory[ids.x_fp_s_len + i])\nfor i in range(y_fp_s_len):\n    print(memory[ids.y_fp_s_len + i])"
    );
}

#[test]
fn stages_advance_in_order() {
    let mut s = RunStage::Loaded;
    let mut actions = Vec::new();
    while let Some(a) = next_action(s) {
        actions.push(a);
        s = advance(s, Ok(()));
    }
    assert_eq!(
        actions,
        vec![
            RunAction::InitializeBuiltins,
            RunAction::InitializeSegments,
            RunAction::RunFromEntrypoint,
            RunAction::Relocate
        ]
    );
    assert_eq!(s, RunStage::Relocated);
}

#[test]
fn failures_end_the_run() {
    let s = advance(RunStage::Running, Err(RunError::RelocationError));
    assert_eq!(s, RunStage::Failed(RunError::RelocationError));
    assert_eq!(next_action(s), None);
    assert_eq!(advance(s, Ok(())), s);
    let hint = RunError::Hint(HintError::TypeMismatch);
    assert_eq!(advance(RunStage::SegmentsInit, Err(hint)), RunStage::Failed(hint));
}

#[test]
fn entrypoint_lookup() {
    let mut ids: NameMap<Option<usize>> = NameMap::new();
    ids.insert("__main__.projectile_path".to_string(), Some(17));
    ids.insert("__main__.helper".to_string(), None);
    let name = main_identifier(&"projectile_path".to_string());
    assert_eq!(name, "__main__.projectile_path");
    assert_eq!(entrypoint_pc(&ids, &name), Ok(17));
    assert_eq!(
        entrypoint_pc(&ids, &"__main__.helper".to_string()),
        Err(RunError::EntrypointNotFound)
    );
    assert_eq!(
        entrypoint_pc(&ids, &"__main__.main".to_string()),
        Err(RunError::EntrypointNotFound)
    );
}

#[test]
fn arguments_put_builtins_first() {
    let args = entry_arguments(&vec![addr(2, 0)], &vec![25, 60, 40]);
    assert_eq!(
        args,
        vec![RunArg::Address(addr(2, 0)), RunArg::Int(25), RunArg::Int(60), RunArg::Int(40)]
    );
    assert!(entry_arguments(&vec![], &vec![]).is_empty());
}

#[test]
fn output_lines_are_decimal() {
    let values = vec![
        Scalar::from_u64(0),
        Scalar::from_u64(7),
        Scalar::from_u64(0x1_0000_0000),
        Scalar::from_digits(vec![0, 0, 1]),
        Scalar::from_digits(vec![]),
    ];
    assert_eq!(
        output_lines(&values),
        vec!["0", "7", "4294967296", "18446744073709551616", "0"]
    );
}

#[test]
fn hint_output_renders_in_order() {
    let (m, regs, ids) = site(&[12, 345], &[6789]);
    let out = print_two_array_hint(&m, &regs, &ids, &tracking()).unwrap();
    assert_eq!(output_lines(&out), vec!["12", "345", "6789"]);
}
