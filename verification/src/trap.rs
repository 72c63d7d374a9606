//! Trap dispatch.
//!
//! A trap is an exception raised by the running code, or an interrupt from a
//! device. `mcause` says which: bit 63 is set for interrupts, bits 62..0
//! hold the cause code. The handler is a state machine: `trap_handler`
//! starts it from the values of `mcause` and `mepc`, and `trap_step` takes
//! the outcome of each requested action and gives the next action. The
//! caller performs the actions (claim a PLIC interrupt, read or write a UART
//! byte, print a report, move `mepc` past the faulting instruction) until
//! the machine asks to return from the trap.
use vstd::prelude::*;

verus! {

/// Bit 63 of `mcause`: the trap is an interrupt.
pub const INTERRUPT_BIT: u64 = 0x8000_0000_0000_0000;

/// Bits 62..0 of `mcause`: the cause code.
pub const CAUSE_MASK: u64 = 0x7fff_ffff_ffff_ffff;

/// Interrupt cause code of a machine external interrupt (from the PLIC).
pub const MACHINE_EXTERNAL_INTERRUPT: u64 = 11;

/// The PLIC source number of the UART.
pub const UART_IRQ: u32 = 10;

/// Exception cause codes that get a report of their own.
pub const INSTRUCTION_ADDRESS_MISALIGNED: u64 = 0;
pub const ILLEGAL_INSTRUCTION: u64 = 2;
pub const LOAD_ACCESS_FAULT: u64 = 5;
pub const STORE_ACCESS_FAULT: u64 = 7;

/// `mie` bit 11 (MEIE): machine external interrupts are accepted.
pub const MIE_MEIE: u64 = 0x800;

/// `mstatus` bit 3 (MIE): the master interrupt enable.
pub const MSTATUS_MIE: u64 = 0x8;

/// Length in bytes of the instruction skipped after an exception.
pub const INSTRUCTION_SIZE: u64 = 4;

/// What `mcause` says: an interrupt or an exception, with its cause code.
#[derive(Clone, Copy, Debug, PartialEq, Eq, Structural)]
pub enum TrapCause {
    Interrupt(u64),
    Exception(u64),
}

/// What the handler prints.
#[derive(Clone, Copy, Debug, PartialEq, Eq, Structural)]
pub enum Report {
    /// "Unknown interrupt: cause={cause}"
    UnknownInterrupt { cause: u64 },
    /// "Instruction address misaligned"
    InstructionAddressMisaligned,
    /// "Illegal instruction"
    IllegalInstruction,
    /// "Load access fault"
    LoadAccessFault,
    /// "Store access fault"
    StoreAccessFault,
    /// "Unknown exception: cause={cause}, mepc=0x{mepc:x}"
    UnknownException { cause: u64, mepc: u64 },
}

/// An action the caller performs for the handler.
#[derive(Clone, Copy, Debug, PartialEq, Eq, Structural)]
pub enum TrapAction {
    /// Read the PLIC claim register; answer with `Claimed`.
    ClaimIrq,
    /// Try to read a byte from the UART; answer with `Received`.
    ReadByte,
    /// Send a byte out of the UART; answer with `Done`.
    WriteByte(u8),
    /// Write the IRQ number to the PLIC complete register; answer with `Done`.
    CompleteIrq(u32),
    /// Print the report; answer with `Done`.
    Print(Report),
    /// Move `mepc` past the faulting instruction; answer with `Done`.
    SkipInstruction,
    /// Return from the trap.
    Return,
}

/// The outcome of an action.
#[derive(Clone, Copy, Debug, PartialEq, Eq, Structural)]
pub enum TrapEvent {
    /// The IRQ number read from the claim register.
    Claimed(u32),
    /// The byte read from the UART, if one was waiting.
    Received(Option<u8>),
    /// The action has been carried out.
    Done,
}

/// The handler's state: which action's outcome it waits for.
#[derive(Clone, Copy, Debug, PartialEq, Eq, Structural)]
pub enum TrapStage {
    AwaitClaim,
    AwaitByte { irq: u32 },
    AwaitEcho { irq: u32, byte: u8 },
    AwaitComplete { irq: u32 },
    AwaitReport { report: Report, skip: bool },
    AwaitSkip,
    Finished,
}

/// Decoding of `mcause`: bit 63 tells interrupts from exceptions, the other
/// bits are the cause code.
pub open spec fn cause_of(mcause: u64) -> TrapCause {
    if mcause >= INTERRUPT_BIT {
        TrapCause::Interrupt((mcause - INTERRUPT_BIT) as u64)
    } else {
        TrapCause::Exception(mcause)
    }
}

/// The report for exception `cause` raised at `mepc`.
pub open spec fn exception_report(cause: u64, mepc: u64) -> Report {
    if cause == INSTRUCTION_ADDRESS_MISALIGNED {
        Report::InstructionAddressMisaligned
    } else if cause == ILLEGAL_INSTRUCTION {
        Report::IllegalInstruction
    } else if cause == LOAD_ACCESS_FAULT {
        Report::LoadAccessFault
    } else if cause == STORE_ACCESS_FAULT {
        Report::StoreAccessFault
    } else {
        Report::UnknownException { cause, mepc }
    }
}

/// The action that a stage waits on.
pub open spec fn pending_action(stage: TrapStage) -> TrapAction {
    match stage {
        TrapStage::AwaitClaim => TrapAction::ClaimIrq,
        TrapStage::AwaitByte { .. } => TrapAction::ReadByte,
        TrapStage::AwaitEcho { byte, .. } => TrapAction::WriteByte(byte),
        TrapStage::AwaitComplete { irq } => TrapAction::CompleteIrq(irq),
        TrapStage::AwaitReport { report, .. } => TrapAction::Print(report),
        TrapStage::AwaitSkip => TrapAction::SkipInstruction,
        TrapStage::Finished => TrapAction::Return,
    }
}

/// The stage the handler enters on a trap with `mcause` and `mepc`.
pub open spec fn start_stage(mcause: u64, mepc: u64) -> TrapStage {
    match cause_of(mcause) {
        TrapCause::Interrupt(code) => if code == MACHINE_EXTERNAL_INTERRUPT {
            TrapStage::AwaitClaim
        } else {
            TrapStage::AwaitReport { report: Report::UnknownInterrupt { cause: code }, skip: false }
        },
        TrapCause::Exception(code) => TrapStage::AwaitReport {
            report: exception_report(code, mepc),
            skip: true,
        },
    }
}

/// The stage after `stage` receives `event`. An event that does not answer
/// the pending action leaves the stage as it is.
pub open spec fn next_stage(stage: TrapStage, event: TrapEvent) -> TrapStage {
    match (stage, event) {
        (TrapStage::AwaitClaim, TrapEvent::Claimed(irq)) => if irq == UART_IRQ {
            TrapStage::AwaitByte { irq }
        } else {
            TrapStage::AwaitComplete { irq }
        },
        (TrapStage::AwaitByte { irq }, TrapEvent::Received(Some(byte))) => TrapStage::AwaitEcho {
            irq,
            byte,
        },
        (TrapStage::AwaitByte { irq }, TrapEvent::Received(None)) => TrapStage::AwaitComplete {
            irq,
        },
        (TrapStage::AwaitEcho { irq, .. }, TrapEvent::Done) => TrapStage::AwaitComplete { irq },
        (TrapStage::AwaitComplete { .. }, TrapEvent::Done) => TrapStage::Finished,
        (TrapStage::AwaitReport { skip, .. }, TrapEvent::Done) => if skip {
            TrapStage::AwaitSkip
        } else {
            TrapStage::Finished
        },
        (TrapStage::AwaitSkip, TrapEvent::Done) => TrapStage::Finished,
        _ => stage,
    }
}

/// Decode `mcause` into interrupt or exception and its cause code.
pub fn decode_mcause(mcause: u64) -> (cause: TrapCause)
    ensures
        cause == cause_of(mcause),
        mcause & 0x8000_0000_0000_0000u64 != 0 ==> cause == TrapCause::Interrupt(
            mcause & 0x7fff_ffff_ffff_ffffu64,
        ),
        mcause & 0x8000_0000_0000_0000u64 == 0 ==> cause == TrapCause::Exception(mcause),
{
    assert(mcause & 0x8000_0000_0000_0000u64 != 0 <==> mcause >= 0x8000_0000_0000_0000u64)
        by (bit_vector);
    assert(mcause >= 0x8000_0000_0000_0000u64 ==> mcause & 0x7fff_ffff_ffff_ffffu64
        == mcause - 0x8000_0000_0000_0000u64) by (bit_vector);
    let code: u64 = mcause & CAUSE_MASK;
    if mcause >> 63u64 == 1 {
        assert(mcause >> 63u64 == 1 ==> mcause >= 0x8000_0000_0000_0000u64
            && mcause & 0x7fff_ffff_ffff_ffffu64 == mcause - 0x8000_0000_0000_0000u64)
            by (bit_vector);
        TrapCause::Interrupt(code)
    } else {
        assert(mcause >> 63u64 != 1 ==> mcause < 0x8000_0000_0000_0000u64
            && mcause & 0x7fff_ffff_ffff_ffffu64 == mcause) by (bit_vector);
        TrapCause::Exception(code)
    }
}

/// The report for exception `cause` raised at `mepc`.
pub fn report_exception(cause: u64, mepc: u64) -> (report: Report)
    ensures
        report == exception_report(cause, mepc),
        cause == 0 ==> report == Report::InstructionAddressMisaligned,
        cause == 2 ==> report == Report::IllegalInstruction,
        cause == 5 ==> report == Report::LoadAccessFault,
        cause == 7 ==> report == Report::StoreAccessFault,
        cause != 0 && cause != 2 && cause != 5 && cause != 7 ==> report
            == (Report::UnknownException { cause, mepc }),
{
    if cause == INSTRUCTION_ADDRESS_MISALIGNED {
        Report::InstructionAddressMisaligned
    } else if cause == ILLEGAL_INSTRUCTION {
        Report::IllegalInstruction
    } else if cause == LOAD_ACCESS_FAULT {
        Report::LoadAccessFault
    } else if cause == STORE_ACCESS_FAULT {
        Report::StoreAccessFault
    } else {
        Report::UnknownException { cause, mepc }
    }
}

/// The action a stage waits on.
pub fn pending(stage: TrapStage) -> (action: TrapAction)
    ensures
        action == pending_action(stage),
{
    match stage {
        TrapStage::AwaitClaim => TrapAction::ClaimIrq,
        TrapStage::AwaitByte { .. } => TrapAction::ReadByte,
        TrapStage::AwaitEcho { byte, .. } => TrapAction::WriteByte(byte),
        TrapStage::AwaitComplete { irq } => TrapAction::CompleteIrq(irq),
        TrapStage::AwaitReport { report, .. } => TrapAction::Print(report),
        TrapStage::AwaitSkip => TrapAction::SkipInstruction,
        TrapStage::Finished => TrapAction::Return,
    }
}

/// Main trap handler entry: given `mcause` and `mepc`, the first stage and
/// the first action. A machine external interrupt starts by claiming the
/// interrupt from the PLIC; any other trap starts by printing its report.
pub fn trap_handler(mcause: u64, mepc: u64) -> (res: (TrapStage, TrapAction))
    ensures
        res.0 == start_stage(mcause, mepc),
        res.1 == pending_action(res.0),
{
    let stage = match decode_mcause(mcause) {
        TrapCause::Interrupt(code) => {
            if code == MACHINE_EXTERNAL_INTERRUPT {
                TrapStage::AwaitClaim
            } else {
                TrapStage::AwaitReport { report: Report::UnknownInterrupt { cause: code }, skip: false }
            }
        },
        TrapCause::Exception(code) => TrapStage::AwaitReport {
            report: report_exception(code, mepc),
            skip: true,
        },
    };
    (stage, pending(stage))
}

/// One step of the handler: the outcome `event` of the pending action of
/// `stage` gives the next stage and its action.
pub fn trap_step(stage: TrapStage, event: TrapEvent) -> (res: (TrapStage, TrapAction))
    ensures
        res.0 == next_stage(stage, event),
        res.1 == pending_action(res.0),
{
    let next = match (stage, event) {
        (TrapStage::AwaitClaim, TrapEvent::Claimed(irq)) => {
            if irq == UART_IRQ {
                TrapStage::AwaitByte { irq }
            } else {
                TrapStage::AwaitComplete { irq }
            }
        },
        (TrapStage::AwaitByte { irq }, TrapEvent::Received(Some(byte))) => TrapStage::AwaitEcho {
            irq,
            byte,
        },
        (TrapStage::AwaitByte { irq }, TrapEvent::Received(None)) => TrapStage::AwaitComplete {
            irq,
        },
        (TrapStage::AwaitEcho { irq, .. }, TrapEvent::Done) => TrapStage::AwaitComplete { irq },
        (TrapStage::AwaitComplete { .. }, TrapEvent::Done) => TrapStage::Finished,
        (TrapStage::AwaitReport { skip, .. }, TrapEvent::Done) => {
            if skip {
                TrapStage::AwaitSkip
            } else {
                TrapStage::Finished
            }
        },
        (TrapStage::AwaitSkip, TrapEvent::Done) => TrapStage::Finished,
        _ => stage,
    };
    (next, pending(next))
}

/// `mepc` advanced past the faulting instruction (the CSR arithmetic wraps).
pub fn skip_instruction(mepc: u64) -> (next: u64)
    ensures
        next == (mepc + INSTRUCTION_SIZE) % 0x1_0000_0000_0000_0000,
{
    mepc.wrapping_add(INSTRUCTION_SIZE)
}

/// The UTF-8 bytes of `s`.
pub open spec fn text(s: &str) -> Seq<u8> {
    vstd::string::StringSliceAdditionalSpecFns::spec_bytes(s)
}

/// The ASCII character of digit `d` (0 to 15, lowercase letters past 9).
pub open spec fn digit_char(d: nat) -> u8 {
    if d < 10 {
        (48 + d) as u8
    } else {
        (87 + d) as u8
    }
}

/// `n` in decimal, most significant digit first, without leading zeros.
pub open spec fn decimal(n: nat) -> Seq<u8>
    decreases n,
{
    if n < 10 {
        seq![digit_char(n)]
    } else {
        decimal(n / 10).push(digit_char(n % 10))
    }
}

/// `n` in lowercase hexadecimal, most significant digit first, without
/// leading zeros.
pub open spec fn hex(n: nat) -> Seq<u8>
    decreases n,
{
    if n < 16 {
        seq![digit_char(n)]
    } else {
        hex(n / 16).push(digit_char(n % 16))
    }
}

/// The line printed for `report` (without the line end).
pub open spec fn report_text(report: Report) -> Seq<u8> {
    match report {
        Report::UnknownInterrupt { cause } => text("Unknown interrupt: cause=") + decimal(cause as nat),
        Report::InstructionAddressMisaligned => text("Instruction address misaligned"),
        Report::IllegalInstruction => text("Illegal instruction"),
        Report::LoadAccessFault => text("Load access fault"),
        Report::StoreAccessFault => text("Store access fault"),
        Report::UnknownException { cause, mepc } => text("Unknown exception: cause=") + decimal(
            cause as nat,
        ) + text(", mepc=0x") + hex(mepc as nat),
    }
}

fn digit_byte(d: u64) -> (c: u8)
    requires
        d < 16,
    ensures
        c == digit_char(d as nat),
{
    if d < 10 {
        48u8 + d as u8
    } else {
        87u8 + d as u8
    }
}

fn push_decimal(out: &mut Vec<u8>, n: u64)
    ensures
        final(out)@ == old(out)@ + decimal(n as nat),
    decreases n,
{
    if n >= 10 {
        push_decimal(out, n / 10);
    }
    out.push(digit_byte(n % 10));
    proof {
        if n >= 10 {
            assert(old(out)@ + decimal((n / 10) as nat).push(digit_char((n % 10) as nat))
                =~= (old(out)@ + decimal((n / 10) as nat)).push(digit_char((n % 10) as nat)));
        } else {
            assert(old(out)@ + seq![digit_char(n as nat)] =~= old(out)@.push(digit_char(n as nat)));
        }
    }
}

fn push_hex(out: &mut Vec<u8>, n: u64)
    ensures
        final(out)@ == old(out)@ + hex(n as nat),
    decreases n,
{
    if n >= 16 {
        push_hex(out, n / 16);
    }
    out.push(digit_byte(n % 16));
    proof {
        if n >= 16 {
            assert(old(out)@ + hex((n / 16) as nat).push(digit_char((n % 16) as nat))
                =~= (old(out)@ + hex((n / 16) as nat)).push(digit_char((n % 16) as nat)));
        } else {
            assert(old(out)@ + seq![digit_char(n as nat)] =~= old(out)@.push(digit_char(n as nat)));
        }
    }
}

fn push_text(out: &mut Vec<u8>, s: &str)
    ensures
        final(out)@ == old(out)@ + text(s),
{
    let bytes: &[u8] = s.as_bytes();
    let mut i: usize = 0;
    while i < bytes.len()
        invariant
            i <= bytes@.len(),
            bytes@ == text(s),
            out@ == old(out)@ + bytes@.take(i as int),
        decreases bytes@.len() - i,
    {
        out.push(bytes[i]);
        assert(bytes@.take(i as int + 1) == bytes@.take(i as int).push(bytes@[i as int]));
        i = i + 1;
    }
    assert(bytes@.take(i as int) == bytes@);
}

/// The bytes of the line printed for `report` (without the line end).
pub fn report_bytes(report: Report) -> (bytes: Vec<u8>)
    ensures
        bytes@ == report_text(report),
{
    let mut out: Vec<u8> = Vec::new();
    match report {
        Report::UnknownInterrupt { cause } => {
            push_text(&mut out, "Unknown interrupt: cause=");
            push_decimal(&mut out, cause);
        },
        Report::InstructionAddressMisaligned => push_text(&mut out, "Instruction address misaligned"),
        Report::IllegalInstruction => push_text(&mut out, "Illegal instruction"),
        Report::LoadAccessFault => push_text(&mut out, "Load access fault"),
        Report::StoreAccessFault => push_text(&mut out, "Store access fault"),
        Report::UnknownException { cause, mepc } => {
            push_text(&mut out, "Unknown exception: cause=");
            push_decimal(&mut out, cause);
            push_text(&mut out, ", mepc=0x");
            push_hex(&mut out, mepc);
        },
    }
    assert(out@ =~= report_text(report));
    out
}

/// Exactly the exception codes 0, 2, 5 and 7 get a report of their own
/// (instruction address misaligned, illegal instruction, load access fault,
/// store access fault); every other code is reported as unknown, with that
/// code and the faulting `mepc`.
pub proof fn lemma_exception_report_by_code(cause: u64, mepc: u64)
    ensures
        (exception_report(cause, mepc) == Report::InstructionAddressMisaligned) <==> cause == 0,
        (exception_report(cause, mepc) == Report::IllegalInstruction) <==> cause == 2,
        (exception_report(cause, mepc) == Report::LoadAccessFault) <==> cause == 5,
        (exception_report(cause, mepc) == Report::StoreAccessFault) <==> cause == 7,
        cause != 0 && cause != 2 && cause != 5 && cause != 7 ==> exception_report(cause, mepc)
            == (Report::UnknownException { cause, mepc }),
        exception_report(cause, mepc) is UnknownException ==> exception_report(cause, mepc)
            == (Report::UnknownException { cause, mepc }),
{
}

/// The value of a digit character: '0' to '9' and 'a' to 'f'.
pub open spec fn digit_value(c: u8) -> int {
    if 48 <= c <= 57 {
        c - 48
    } else if 97 <= c <= 102 {
        c - 97 + 10
    } else {
        -1
    }
}

/// The number written by the digits `s` in base `base`.
pub open spec fn digits_value(s: Seq<u8>, base: int) -> int
    decreases s.len(),
{
    if s.len() == 0 {
        0
    } else {
        digits_value(s.drop_last(), base) * base + digit_value(s.last())
    }
}

/// `decimal(n)` writes `n` in decimal: it reads back as `n`, every character
/// is one of '0' to '9', and it starts with '0' only when `n` is 0.
pub proof fn lemma_decimal_writes_n(n: nat)
    ensures
        digits_value(decimal(n), 10) == n,
        forall|i: int| 0 <= i < decimal(n).len() ==> 48 <= #[trigger] decimal(n)[i] <= 57,
        decimal(n).len() >= 1,
        decimal(n)[0] == 48 ==> n == 0,
    decreases n,
{
    if n >= 10 {
        lemma_decimal_writes_n(n / 10);
        let d = decimal(n / 10);
        assert(decimal(n).drop_last() =~= d);
        assert(forall|i: int| 0 <= i < d.len() ==> decimal(n)[i] == d[i]);
        assert(decimal(n).last() == digit_char(n % 10));
        assert(digit_value(digit_char(n % 10)) == n % 10);
        assert(digits_value(decimal(n), 10) == digits_value(d, 10) * 10 + digit_value(decimal(n).last()));
        assert((n / 10) * 10 + n % 10 == n);
        assert(digits_value(d, 10) == n / 10);
        assert(digits_value(decimal(n), 10) == n);
    } else {
        assert(decimal(n).drop_last() =~= Seq::<u8>::empty());
        assert(digits_value(Seq::<u8>::empty(), 10) == 0);
        assert(decimal(n).last() == digit_char(n));
        assert(digit_value(digit_char(n)) == n);
        assert(digits_value(decimal(n), 10) == n);
    }
}

/// `hex(n)` writes `n` in lowercase hexadecimal: it reads back as `n`, every
/// character is one of '0' to '9' or 'a' to 'f', and it starts with '0' only
/// when `n` is 0.
pub proof fn lemma_hex_writes_n(n: nat)
    ensures
        digits_value(hex(n), 16) == n,
        forall|i: int|
            0 <= i < hex(n).len() ==> (48 <= #[trigger] hex(n)[i] <= 57 || 97 <= hex(n)[i] <= 102),
        hex(n).len() >= 1,
        hex(n)[0] == 48 ==> n == 0,
    decreases n,
{
    if n >= 16 {
        lemma_hex_writes_n(n / 16);
        let d = hex(n / 16);
        assert(hex(n).drop_last() =~= d);
        assert(forall|i: int| 0 <= i < d.len() ==> hex(n)[i] == d[i]);
        assert(hex(n).last() == digit_char(n % 16));
        assert(digit_value(digit_char(n % 16)) == n % 16);
        assert(digits_value(hex(n), 16) == digits_value(d, 16) * 16 + digit_value(hex(n).last()));
        assert((n / 16) * 16 + n % 16 == n);
        assert(digits_value(d, 16) == n / 16);
        assert(digits_value(hex(n), 16) == n);
    } else {
        assert(hex(n).drop_last() =~= Seq::<u8>::empty());
        assert(digits_value(Seq::<u8>::empty(), 16) == 0);
        assert(hex(n).last() == digit_char(n));
        assert(digit_value(digit_char(n)) == n);
        assert(digits_value(hex(n), 16) == n);
    }
}

/// The outcome of `action` on a machine whose PLIC claim register reads
/// `irq` and whose UART yields `byte` when read.
pub open spec fn answer(action: TrapAction, irq: u32, byte: Option<u8>) -> TrapEvent {
    match action {
        TrapAction::ClaimIrq => TrapEvent::Claimed(irq),
        TrapAction::ReadByte => TrapEvent::Received(byte),
        _ => TrapEvent::Done,
    }
}

/// The actions the handler asks for from `stage` on, each answered as
/// `answer` says, up to the return or until `fuel` steps are used.
pub open spec fn run(stage: TrapStage, irq: u32, byte: Option<u8>, fuel: nat) -> Seq<TrapAction>
    decreases fuel,
{
    let action = pending_action(stage);
    if fuel == 0 || action == TrapAction::Return {
        seq![action]
    } else {
        seq![action] + run(next_stage(stage, answer(action, irq, byte)), irq, byte, (fuel - 1) as nat)
    }
}

/// Every action the handler asks for during one trap, in order.
pub open spec fn trap_trace(mcause: u64, mepc: u64, irq: u32, byte: Option<u8>) -> Seq<TrapAction> {
    run(start_stage(mcause, mepc), irq, byte, 8)
}

/// A machine external interrupt is claimed from the PLIC; when it comes from
/// the UART, the waiting byte, if any, is echoed back; in every case the
/// claimed IRQ is completed exactly once, last, and the handler returns.
pub proof fn lemma_external_interrupt_trace(mcause: u64, mepc: u64, irq: u32, byte: Option<u8>)
    requires
        cause_of(mcause) == TrapCause::Interrupt(MACHINE_EXTERNAL_INTERRUPT),
    ensures
        trap_trace(mcause, mepc, irq, byte) == seq![TrapAction::ClaimIrq] + (if irq == UART_IRQ {
            seq![TrapAction::ReadByte] + match byte {
                Some(b) => seq![TrapAction::WriteByte(b)],
                None => Seq::<TrapAction>::empty(),
            }
        } else {
            Seq::<TrapAction>::empty()
        }) + seq![TrapAction::CompleteIrq(irq), TrapAction::Return],
{
    reveal_with_fuel(run, 6);
    if irq == UART_IRQ {
        match byte {
            Some(b) => {
                assert(trap_trace(mcause, mepc, irq, byte) =~= seq![
                    TrapAction::ClaimIrq,
                    TrapAction::ReadByte,
                    TrapAction::WriteByte(b),
                    TrapAction::CompleteIrq(irq),
                    TrapAction::Return,
                ]);
            },
            None => {
                assert(trap_trace(mcause, mepc, irq, byte) =~= seq![
                    TrapAction::ClaimIrq,
                    TrapAction::ReadByte,
                    TrapAction::CompleteIrq(irq),
                    TrapAction::Return,
                ]);
            },
        }
    } else {
        assert(trap_trace(mcause, mepc, irq, byte) =~= seq![
            TrapAction::ClaimIrq,
            TrapAction::CompleteIrq(irq),
            TrapAction::Return,
        ]);
    }
}

/// Any other interrupt is reported as unknown, with its cause code, and the
/// handler returns without touching `mepc`.
pub proof fn lemma_other_interrupt_trace(mcause: u64, mepc: u64, irq: u32, byte: Option<u8>, code: u64)
    requires
        cause_of(mcause) == TrapCause::Interrupt(code),
        code != MACHINE_EXTERNAL_INTERRUPT,
    ensures
        trap_trace(mcause, mepc, irq, byte) == seq![
            TrapAction::Print(Report::UnknownInterrupt { cause: code }),
            TrapAction::Return,
        ],
{
    reveal_with_fuel(run, 3);
    assert(trap_trace(mcause, mepc, irq, byte) =~= seq![
        TrapAction::Print(Report::UnknownInterrupt { cause: code }),
        TrapAction::Return,
    ]);
}

/// An exception is reported, and then `mepc` is moved past the faulting
/// instruction exactly once before the handler returns, so the same
/// instruction does not trap again.
pub proof fn lemma_exception_trace(mcause: u64, mepc: u64, irq: u32, byte: Option<u8>, code: u64)
    requires
        cause_of(mcause) == TrapCause::Exception(code),
    ensures
        trap_trace(mcause, mepc, irq, byte) == seq![
            TrapAction::Print(exception_report(code, mepc)),
            TrapAction::SkipInstruction,
            TrapAction::Return,
        ],
{
    reveal_with_fuel(run, 4);
    assert(trap_trace(mcause, mepc, irq, byte) =~= seq![
        TrapAction::Print(exception_report(code, mepc)),
        TrapAction::SkipInstruction,
        TrapAction::Return,
    ]);
}

} // verus!
