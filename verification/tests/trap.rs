use lib::trap::{
    decode_mcause, report_bytes, report_exception, skip_instruction, trap_handler, trap_step, Report,
    TrapAction, TrapCause, TrapEvent, TrapStage,
};

const INTERRUPT: u64 = 1 << 63;

/// Runs the handler against a machine whose claim register reads `irq` and
/// whose UART yields `byte`, collecting the actions.
fn trace(mcause: u64, mepc: u64, irq: u32, byte: Option<u8>) -> Vec<TrapAction> {
    let (mut stage, mut action) = trap_handler(mcause, mepc);
    let mut out = vec![action];
    while action != TrapAction::Return {
        let event = match action {
            TrapAction::ClaimIrq => TrapEvent::Claimed(irq),
            TrapAction::ReadByte => TrapEvent::Received(byte),
            _ => TrapEvent::Done,
        };
        let next = trap_step(stage, event);
        stage = next.0;
        action = next.1;
        out.push(action);
        assert!(out.len() < 16);
    }
    out
}

#[test]
fn decode_splits_interrupt_bit_and_code() {
    assert_eq!(decode_mcause(INTERRUPT | 11), TrapCause::Interrupt(11));
    assert_eq!(decode_mcause(INTERRUPT | 7), TrapCause::Interrupt(7));
    assert_eq!(decode_mcause(INTERRUPT), TrapCause::Interrupt(0));
    assert_eq!(decode_mcause(u64::MAX), TrapCause::Interrupt(0x7fff_ffff_ffff_ffff));
    assert_eq!(decode_mcause(2), TrapCause::Exception(2));
    assert_eq!(decode_mcause(0), TrapCause::Exception(0));
    assert_eq!(decode_mcause(0x7fff_ffff_ffff_ffff), TrapCause::Exception(0x7fff_ffff_ffff_ffff));
}

#[test]
fn exception_reports() {
    assert_eq!(report_exception(0, 0x8000_0000), Report::InstructionAddressMisaligned);
    assert_eq!(report_exception(2, 0x8000_0000), Report::IllegalInstruction);
    assert_eq!(report_exception(5, 0x8000_0000), Report::LoadAccessFault);
    assert_eq!(report_exception(7, 0x8000_0000), Report::StoreAccessFault);
    assert_eq!(
        report_exception(13, 0x8000_1234),
        Report::UnknownException { cause: 13, mepc: 0x8000_1234 }
    );
}

#[test]
fn uart_interrupt_echoes_the_byte_and_completes() {
    assert_eq!(
        trace(INTERRUPT | 11, 0x8000_0000, 10, Some(b'x')),
        vec![
            TrapAction::ClaimIrq,
            TrapAction::ReadByte,
            TrapAction::WriteByte(b'x'),
            TrapAction::CompleteIrq(10),
            TrapAction::Return,
        ]
    );
}

#[test]
fn uart_interrupt_without_data_still_completes() {
    assert_eq!(
        trace(INTERRUPT | 11, 0, 10, None),
        vec![
            TrapAction::ClaimIrq,
            TrapAction::ReadByte,
            TrapAction::CompleteIrq(10),
            TrapAction::Return,
        ]
    );
}

#[test]
fn other_device_interrupt_is_completed_without_reading() {
    assert_eq!(
        trace(INTERRUPT | 11, 0, 1, Some(b'x')),
        vec![TrapAction::ClaimIrq, TrapAction::CompleteIrq(1), TrapAction::Return]
    );
    assert_eq!(
        trace(INTERRUPT | 11, 0, 0, None),
        vec![TrapAction::ClaimIrq, TrapAction::CompleteIrq(0), TrapAction::Return]
    );
}

#[test]
fn unknown_interrupt_is_reported_without_skipping() {
    assert_eq!(
        trace(INTERRUPT | 7, 0x8000_0100, 10, Some(1)),
        vec![
            TrapAction::Print(Report::UnknownInterrupt { cause: 7 }),
            TrapAction::Return
        ]
    );
}

#[test]
fn exceptions_are_reported_then_skipped() {
    assert_eq!(
        trace(2, 0x8000_0100, 10, Some(1)),
        vec![
            TrapAction::Print(Report::IllegalInstruction),
            TrapAction::SkipInstruction,
            TrapAction::Return
        ]
    );
    assert_eq!(
        trace(15, 0x8000_0100, 10, None),
        vec![
            TrapAction::Print(Report::UnknownException { cause: 15, mepc: 0x8000_0100 }),
            TrapAction::SkipInstruction,
            TrapAction::Return
        ]
    );
}

#[test]
fn unexpected_event_repeats_the_pending_action() {
    let (stage, action) = trap_handler(INTERRUPT | 11, 0);
    assert_eq!(stage, TrapStage::AwaitClaim);
    assert_eq!(action, TrapAction::ClaimIrq);
    assert_eq!(trap_step(stage, TrapEvent::Done), (TrapStage::AwaitClaim, TrapAction::ClaimIrq));
    assert_eq!(
        trap_step(TrapStage::Finished, TrapEvent::Claimed(3)),
        (TrapStage::Finished, TrapAction::Return)
    );
}

#[test]
fn skip_instruction_advances_four_bytes() {
    assert_eq!(skip_instruction(0x8000_0000), 0x8000_0004);
    assert_eq!(skip_instruction(u64::MAX - 1), 2);
}


fn text(r: Report) -> String {
    String::from_utf8(report_bytes(r)).unwrap()
}

#[test]
fn report_lines_match_the_printed_text() {
    assert_eq!(text(Report::UnknownInterrupt { cause: 7 }), "Unknown interrupt: cause=7");
    assert_eq!(text(Report::UnknownInterrupt { cause: 1234567 }), "Unknown interrupt: cause=1234567");
    assert_eq!(text(Report::InstructionAddressMisaligned), "Instruction address misaligned");
    assert_eq!(text(Report::IllegalInstruction), "Illegal instruction");
    assert_eq!(text(Report::LoadAccessFault), "Load access fault");
    assert_eq!(text(Report::StoreAccessFault), "Store access fault");
    assert_eq!(
        text(Report::UnknownException { cause: 13, mepc: 0x8000_1abc }),
        "Unknown exception: cause=13, mepc=0x80001abc"
    );
    assert_eq!(
        text(Report::UnknownException { cause: 0, mepc: 0 }),
        "Unknown exception: cause=0, mepc=0x0"
    );
    assert_eq!(
        text(Report::UnknownException { cause: u64::MAX, mepc: u64::MAX }),
        format!("Unknown exception: cause={}, mepc=0x{:x}", u64::MAX, u64::MAX)
    );
}
