use rusty_js_core::bytecodes::{Block, OpCode, Register};
use rusty_js_core::inlining::prepare_inlining;
use rusty_js_core::optimize::{
    induction_variable_pass, is_same_source, optimize, remove_temp_read_from_stack, remove_unreachable, remove_unuse_operations,
    remove_unused_mov, remove_unused_temp, resolve_jump_locations, source_of,
};

fn show(codes: &[OpCode]) -> String {
    format!("{:?}", codes)
}

#[test]
fn unreachable_code_after_a_jump_is_removed_until_the_next_block() {
    let codes = vec![
        OpCode::Jump { to: Block(0), line: 0 },
        OpCode::LoadTrue { result: Register(1) },
        OpCode::SwitchToBlock(Block(0)),
        OpCode::Return { value: Register(1) },
        OpCode::LoadNull { result: Register(1) },
        OpCode::Throw { value: Register(1) },
    ];
    let r = remove_unreachable(codes);
    assert_eq!(
        show(&r),
        show(&[
            OpCode::Jump { to: Block(0), line: 0 },
            OpCode::SwitchToBlock(Block(0)),
            OpCode::Return { value: Register(1) },
        ])
    );
}

#[test]
fn remove_unreachable_is_idempotent_on_an_example() {
    let codes = vec![
        OpCode::Throw { value: Register(0) },
        OpCode::LoadTrue { result: Register(1) },
        OpCode::CreateBlock(Block(1)),
        OpCode::SwitchToBlock(Block(1)),
        OpCode::LoadTrue { result: Register(1) },
    ];
    let once = remove_unreachable(codes);
    let twice = remove_unreachable(once.clone());
    assert_eq!(show(&once), show(&twice));
    assert_eq!(once.len(), 3);
}

#[test]
fn self_moves_are_removed() {
    let codes = vec![
        OpCode::Mov { from: Register(1), to: Register(1) },
        OpCode::Mov { from: Register(1), to: Register(2) },
        OpCode::Mov { from: Register(0), to: Register(0) },
    ];
    let r = remove_unused_mov(codes);
    assert_eq!(show(&r), show(&[OpCode::Mov { from: Register(1), to: Register(2) }]));
}

#[test]
fn jumps_get_the_line_of_their_block() {
    let codes = vec![
        OpCode::CreateBlock(Block(0)),
        OpCode::JumpIfTrue { value: Register(0), to: Block(0), line: 0 },
        OpCode::Jump { to: Block(0), line: 0 },
        OpCode::SwitchToBlock(Block(0)),
        OpCode::Return { value: Register(0) },
    ];
    let r = resolve_jump_locations(codes);
    assert!(matches!(r[1], OpCode::JumpIfTrue { line: 3, .. }));
    assert!(matches!(r[2], OpCode::Jump { line: 3, .. }));
    assert!(matches!(r[3], OpCode::SwitchToBlock(Block(0))));
}

#[test]
fn an_overwritten_write_is_removed() {
    let codes = vec![
        OpCode::LoadTrue { result: Register(1) },
        OpCode::LoadFalse { result: Register(1) },
        OpCode::Return { value: Register(1) },
    ];
    let r = remove_unuse_operations(codes);
    assert_eq!(
        show(&r),
        show(&[OpCode::LoadFalse { result: Register(1) }, OpCode::Return { value: Register(1) }])
    );
}

#[test]
fn a_read_write_is_kept() {
    let codes = vec![
        OpCode::LoadTrue { result: Register(1) },
        OpCode::Mov { from: Register(1), to: Register(2) },
        OpCode::LoadFalse { result: Register(1) },
        OpCode::Return { value: Register(2) },
    ];
    let r = remove_unuse_operations(codes);
    assert_eq!(r.len(), 4);
}

#[test]
fn a_temporary_holding_a_stack_slot_is_read_from_the_stack() {
    let codes = vec![
        OpCode::ReadFromStack { result: Register(1), stack_offset: 5 },
        OpCode::StoreTemp { value: Register(1) },
        OpCode::LoadTrue { result: Register(2) },
        OpCode::ReadTemp { value: Register(0) },
        OpCode::ReleaseTemp,
    ];
    let r = remove_temp_read_from_stack(codes);
    assert_eq!(
        show(&r),
        show(&[
            OpCode::ReadFromStack { result: Register(1), stack_offset: 5 },
            OpCode::LoadTrue { result: Register(2) },
            OpCode::ReadFromStack { result: Register(0), stack_offset: 5 },
        ])
    );
}

#[test]
fn an_unread_temporary_is_dropped() {
    let codes = vec![OpCode::StoreTemp { value: Register(1) }, OpCode::ReleaseTemp];
    let r = remove_unused_temp(codes);
    assert!(r.is_empty());
}

#[test]
fn a_temporary_whose_register_is_kept_becomes_moves() {
    let codes = vec![
        OpCode::StoreTemp { value: Register(1) },
        OpCode::LoadTrue { result: Register(2) },
        OpCode::ReadTemp { value: Register(0) },
        OpCode::ReleaseTemp,
    ];
    let r = remove_unused_temp(codes);
    assert_eq!(
        show(&r),
        show(&[
            OpCode::LoadTrue { result: Register(2) },
            OpCode::Mov { from: Register(1), to: Register(0) },
        ])
    );
}

#[test]
fn a_temporary_whose_register_is_overwritten_moves_through_a_free_register() {
    let codes = vec![
        OpCode::StoreTemp { value: Register(1) },
        OpCode::LoadTrue { result: Register(1) },
        OpCode::ReadTemp { value: Register(0) },
        OpCode::ReleaseTemp,
    ];
    let r = remove_unused_temp(codes);
    assert_eq!(
        show(&r),
        show(&[
            OpCode::Mov { from: Register(1), to: Register(2) },
            OpCode::LoadTrue { result: Register(1) },
            OpCode::Mov { from: Register(2), to: Register(0) },
        ])
    );
}

#[test]
fn optimize_runs_the_whole_pipeline() {
    let codes = vec![
        OpCode::CreateBlock(Block(0)),
        OpCode::Mov { from: Register(0), to: Register(0) },
        OpCode::Jump { to: Block(0), line: 0 },
        OpCode::LoadTrue { result: Register(1) },
        OpCode::SwitchToBlock(Block(0)),
        OpCode::Return { value: Register(1) },
    ];
    let r = optimize(codes);
    assert_eq!(
        show(&r),
        show(&[
            OpCode::CreateBlock(Block(0)),
            OpCode::Jump { to: Block(0), line: 2 },
            OpCode::SwitchToBlock(Block(0)),
            OpCode::Return { value: Register(1) },
        ])
    );
}

#[test]
fn sources_are_the_last_writers_of_the_operands() {
    let codes = vec![
        OpCode::LoadTrue { result: Register(1) },
        OpCode::LoadFalse { result: Register(2) },
        OpCode::LoadNull { result: Register(1) },
        OpCode::Add { result: Register(0), left: Register(1), right: Register(2) },
    ];
    assert_eq!(source_of(&codes, 3), vec![2, 1]);
    assert_eq!(source_of(&codes, 0), Vec::<usize>::new());
}

#[test]
fn inlining_renumbers_blocks_and_returns_through_the_exit() {
    let callee = vec![OpCode::Return { value: Register(1) }];
    let r = prepare_inlining(&callee, Register(0), Register(2), 3, 10);
    assert_eq!(
        show(&r),
        show(&[
            OpCode::PrepareInlinedCall { stack_offset: 10 },
            OpCode::SetThis { value: Register(2) },
            OpCode::CreateBlock(Block(7)),
            OpCode::Mov { from: Register(1), to: Register(0) },
            OpCode::Jump { to: Block(3), line: 5 },
            OpCode::SwitchToBlock(Block(3)),
        ])
    );
}

#[test]
fn inlining_shifts_stack_offsets() {
    let callee = vec![
        OpCode::ReadFromStack { result: Register(1), stack_offset: 1 },
        OpCode::WriteToStack { from: Register(1), stack_offset: 2 },
        OpCode::Return { value: Register(1) },
    ];
    let r = prepare_inlining(&callee, Register(0), Register(2), 0, 4);
    assert!(matches!(r[3], OpCode::ReadFromStack { stack_offset: 5, .. }));
    assert!(matches!(r[4], OpCode::WriteToStack { stack_offset: 6, .. }));
}

#[test]
fn unfinished_passes_change_nothing() {
    let a = OpCode::ReadFromStack { result: Register(1), stack_offset: 0 };
    assert!(!is_same_source(a, a));
    let codes = vec![a, OpCode::Return { value: Register(1) }];
    let r = induction_variable_pass(codes.clone());
    assert_eq!(show(&r), show(&codes));
}

#[test]
fn nested_temporaries_keep_the_outer_value() {
    let codes = vec![
        OpCode::StoreTemp { value: Register(0) },
        OpCode::StoreTemp { value: Register(1) },
        OpCode::LoadTrue { result: Register(0) },
        OpCode::ReadTemp { value: Register(2) },
        OpCode::ReleaseTemp,
        OpCode::ReadTemp { value: Register(1) },
        OpCode::ReleaseTemp,
    ];
    let r = remove_unused_temp(codes);
    assert_eq!(
        show(&r),
        show(&[
            OpCode::StoreTemp { value: Register(0) },
            OpCode::LoadTrue { result: Register(0) },
            OpCode::Mov { from: Register(1), to: Register(2) },
            OpCode::ReadTemp { value: Register(1) },
            OpCode::ReleaseTemp,
        ])
    );
}

#[test]
fn only_the_temporary_fed_from_the_stack_is_read_from_the_stack() {
    let codes = vec![
        OpCode::StoreTemp { value: Register(0) },
        OpCode::ReadFromStack { result: Register(1), stack_offset: 3 },
        OpCode::StoreTemp { value: Register(1) },
        OpCode::ReadTemp { value: Register(2) },
        OpCode::ReleaseTemp,
        OpCode::ReadTemp { value: Register(2) },
        OpCode::ReleaseTemp,
    ];
    let r = remove_temp_read_from_stack(codes);
    assert_eq!(
        show(&r),
        show(&[
            OpCode::StoreTemp { value: Register(0) },
            OpCode::ReadFromStack { result: Register(1), stack_offset: 3 },
            OpCode::ReadFromStack { result: Register(2), stack_offset: 3 },
            OpCode::ReadTemp { value: Register(2) },
            OpCode::ReleaseTemp,
        ])
    );
}
