//! Platform-Level Interrupt Controller.
//!
//! Each interrupt source has a 32-bit priority register at
//! `PLIC_BASE + 4 * irq`. The enable word of hart 0 sits at
//! `PLIC_BASE + 0x2000` (bit `irq` enables source `irq`), the priority
//! threshold at `PLIC_BASE + 0x20_0000`, and the claim/complete register at
//! `PLIC_BASE + 0x20_0004`: reading it claims the pending interrupt with the
//! highest priority, writing an IRQ number back completes it.
//!
//! The functions here compute the register stores; the caller performs them.
use vstd::prelude::*;
use crate::mmio::RegWrite;

verus! {

pub const PLIC_BASE: usize = 0x0C00_0000;

/// The UART's interrupt source number on the QEMU `virt` machine.
pub const UART0_IRQ: usize = 10;

/// Enable word for hart 0 (sources 0 to 31).
pub const ENABLE_ADDR: usize = PLIC_BASE + 0x2000;

/// Priority threshold: only sources with a greater priority get through.
pub const THRESHOLD_ADDR: usize = PLIC_BASE + 0x0020_0000;

/// Claim (read) and complete (write) register.
pub const CLAIM_ADDR: usize = PLIC_BASE + 0x0020_0004;

/// Address of the priority register of source `irq`.
pub open spec fn priority_addr(irq: int) -> int {
    PLIC_BASE + irq * 4
}

/// Whether bit `bit` of `word` is set.
pub open spec fn bit_is_set(word: u32, bit: u32) -> bool {
    word & (1u32 << bit) != 0
}

/// The store that gives source `irq` the priority `priority`.
pub open spec fn priority_write(irq: usize, priority: u32) -> RegWrite<u32> {
    RegWrite { addr: priority_addr(irq as int) as usize, value: priority }
}

/// The store that enables source `irq` when the enable word holds `current`.
pub open spec fn enable_write(irq: usize, current: u32) -> RegWrite<u32> {
    RegWrite { addr: ENABLE_ADDR, value: current | (1u32 << irq) }
}

/// The store that sets the priority threshold.
pub open spec fn threshold_write(threshold: u32) -> RegWrite<u32> {
    RegWrite { addr: THRESHOLD_ADDR, value: threshold }
}

/// The store that tells the PLIC that handling of `irq` is finished.
pub open spec fn complete_write(irq: u32) -> RegWrite<u32> {
    RegWrite { addr: CLAIM_ADDR, value: irq }
}

/// Set the priority of source `irq`.
pub fn set_priority(irq: usize, priority: u32) -> (w: RegWrite<u32>)
    requires
        priority_addr(irq as int) <= usize::MAX,
    ensures
        w == priority_write(irq, priority),
        w.addr == priority_addr(irq as int),
        w.addr == 0x0C00_0000 + 4 * irq,
        w.value == priority,
{
    RegWrite { addr: PLIC_BASE + irq * 4, value: priority }
}

/// Enable source `irq`, given the value `current` read from the enable
/// word: bit `irq` is set and every other bit is kept.
pub fn enable_irq(irq: usize, current: u32) -> (w: RegWrite<u32>)
    requires
        irq < 32,
    ensures
        w == enable_write(irq, current),
        w.addr == 0x0C00_2000usize,
        bit_is_set(w.value, irq as u32),
        forall|b: u32| b < 32 && b != irq ==> bit_is_set(w.value, b) == bit_is_set(current, b),
{
    let value: u32 = current | (1u32 << irq);
    proof {
        let i: u32 = irq as u32;
        assert((1u32 << irq) == (1u32 << i)) by (bit_vector)
            requires
                irq < 32,
                i == irq,
        ;
        assert(value & (1u32 << i) != 0) by (bit_vector)
            requires
                value == current | (1u32 << i),
                i < 32,
        ;
        assert forall|b: u32| b < 32 && b != i implies bit_is_set(value, b) == bit_is_set(current, b) by {
            assert((value & (1u32 << b) != 0) == (current & (1u32 << b) != 0)) by (bit_vector)
                requires
                    value == current | (1u32 << i),
                    i < 32,
                    b < 32,
                    b != i,
            ;
        }
    }
    RegWrite { addr: ENABLE_ADDR, value }
}

/// Set the priority threshold.
pub fn set_threshold(threshold: u32) -> (w: RegWrite<u32>)
    ensures
        w == threshold_write(threshold),
        w == (RegWrite { addr: 0x0C20_0000usize, value: threshold }),
{
    RegWrite { addr: THRESHOLD_ADDR, value: threshold }
}

/// Complete the handling of `irq`: write its number to the claim register.
pub fn complete(irq: u32) -> (w: RegWrite<u32>)
    ensures
        w == complete_write(irq),
        w == (RegWrite { addr: 0x0C20_0004usize, value: irq }),
{
    RegWrite { addr: CLAIM_ADDR, value: irq }
}

/// A register access that PLIC initialization asks the caller to make.
#[derive(Clone, Copy, Debug, PartialEq, Eq, Structural)]
pub enum PlicAccess {
    /// Perform the store; answer with `Stored`.
    Store(RegWrite<u32>),
    /// Read the 32-bit register at this address; answer with `Loaded`.
    Load(usize),
    /// Initialization is complete.
    Done,
}

/// The outcome of a `PlicAccess`.
#[derive(Clone, Copy, Debug, PartialEq, Eq, Structural)]
pub enum PlicEvent {
    /// The store has been made.
    Stored,
    /// The value read.
    Loaded(u32),
}

/// Progress of PLIC initialization: which access's outcome it waits for.
#[derive(Clone, Copy, Debug, PartialEq, Eq, Structural)]
pub enum PlicInitStage {
    AwaitPriority,
    AwaitEnableLoad,
    AwaitEnableStore { enable: u32 },
    AwaitThreshold,
    Finished,
}

/// The access a stage waits on.
pub open spec fn init_access(stage: PlicInitStage) -> PlicAccess {
    match stage {
        PlicInitStage::AwaitPriority => PlicAccess::Store(priority_write(UART0_IRQ, 1)),
        PlicInitStage::AwaitEnableLoad => PlicAccess::Load(ENABLE_ADDR),
        PlicInitStage::AwaitEnableStore { enable } => PlicAccess::Store(enable_write(UART0_IRQ, enable)),
        PlicInitStage::AwaitThreshold => PlicAccess::Store(threshold_write(0)),
        PlicInitStage::Finished => PlicAccess::Done,
    }
}

/// The stage after `stage` receives `event`. An event that does not answer
/// the pending access leaves the stage as it is.
pub open spec fn init_next(stage: PlicInitStage, event: PlicEvent) -> PlicInitStage {
    match (stage, event) {
        (PlicInitStage::AwaitPriority, PlicEvent::Stored) => PlicInitStage::AwaitEnableLoad,
        (PlicInitStage::AwaitEnableLoad, PlicEvent::Loaded(enable)) => PlicInitStage::AwaitEnableStore { enable },
        (PlicInitStage::AwaitEnableStore { .. }, PlicEvent::Stored) => PlicInitStage::AwaitThreshold,
        (PlicInitStage::AwaitThreshold, PlicEvent::Stored) => PlicInitStage::Finished,
        _ => stage,
    }
}

/// The access a stage waits on.
fn pending_access(stage: PlicInitStage) -> (access: PlicAccess)
    ensures
        access == init_access(stage),
{
    match stage {
        PlicInitStage::AwaitPriority => PlicAccess::Store(set_priority(UART0_IRQ, 1)),
        PlicInitStage::AwaitEnableLoad => PlicAccess::Load(ENABLE_ADDR),
        PlicInitStage::AwaitEnableStore { enable } => PlicAccess::Store(enable_irq(UART0_IRQ, enable)),
        PlicInitStage::AwaitThreshold => PlicAccess::Store(set_threshold(0)),
        PlicInitStage::Finished => PlicAccess::Done,
    }
}

/// Initialize the PLIC for UART interrupts: the first stage and access.
/// Driven by `init_step`, the accesses are, in order: priority 1 for the
/// UART source; a read of the enable word; the enable word written back with
/// the UART bit set; threshold 0 (every enabled source with a non-zero
/// priority gets through).
pub fn init() -> (res: (PlicInitStage, PlicAccess))
    ensures
        res.0 == PlicInitStage::AwaitPriority,
        res.1 == init_access(res.0),
{
    let stage = PlicInitStage::AwaitPriority;
    (stage, pending_access(stage))
}

/// One step of initialization: the outcome `event` of the pending access of
/// `stage` gives the next stage and its access.
pub fn init_step(stage: PlicInitStage, event: PlicEvent) -> (res: (PlicInitStage, PlicAccess))
    ensures
        res.0 == init_next(stage, event),
        res.1 == init_access(res.0),
{
    let next = match (stage, event) {
        (PlicInitStage::AwaitPriority, PlicEvent::Stored) => PlicInitStage::AwaitEnableLoad,
        (PlicInitStage::AwaitEnableLoad, PlicEvent::Loaded(enable)) => PlicInitStage::AwaitEnableStore { enable },
        (PlicInitStage::AwaitEnableStore { .. }, PlicEvent::Stored) => PlicInitStage::AwaitThreshold,
        (PlicInitStage::AwaitThreshold, PlicEvent::Stored) => PlicInitStage::Finished,
        _ => stage,
    };
    (next, pending_access(next))
}

/// The outcome of `access` on a machine whose enable word reads `enable`.
pub open spec fn init_answer(access: PlicAccess, enable: u32) -> PlicEvent {
    match access {
        PlicAccess::Load(_) => PlicEvent::Loaded(enable),
        _ => PlicEvent::Stored,
    }
}

/// The accesses made from `stage` on, each answered as `init_answer` says,
/// up to completion or until `fuel` steps are used.
pub open spec fn init_run(stage: PlicInitStage, enable: u32, fuel: nat) -> Seq<PlicAccess>
    decreases fuel,
{
    let access = init_access(stage);
    if fuel == 0 || access == PlicAccess::Done {
        seq![access]
    } else {
        seq![access] + init_run(init_next(stage, init_answer(access, enable)), enable, (fuel - 1) as nat)
    }
}

/// PLIC initialization makes exactly these accesses, in this order, when the
/// enable word holds `enable`: the priority store, then the read of the
/// enable word, then the enable store with bit `UART0_IRQ` added to what was
/// read, then the threshold store.
pub proof fn lemma_init_trace(enable: u32)
    ensures
        init_run(PlicInitStage::AwaitPriority, enable, 8) == seq![
            PlicAccess::Store(priority_write(UART0_IRQ, 1)),
            PlicAccess::Load(ENABLE_ADDR),
            PlicAccess::Store(enable_write(UART0_IRQ, enable)),
            PlicAccess::Store(threshold_write(0)),
            PlicAccess::Done,
        ],
{
    reveal_with_fuel(init_run, 6);
    assert(init_run(PlicInitStage::AwaitPriority, enable, 8) =~= seq![
        PlicAccess::Store(priority_write(UART0_IRQ, 1)),
        PlicAccess::Load(ENABLE_ADDR),
        PlicAccess::Store(enable_write(UART0_IRQ, enable)),
        PlicAccess::Store(threshold_write(0)),
        PlicAccess::Done,
    ]);
}

} // verus!
