//! 16550-compatible UART on the QEMU `virt` machine.
//!
//! Registers, at byte offsets from `UART_BASE`:
//! THR/RBR (0, transmit on write, receive on read), IER (1), FCR (2),
//! LCR (3) and LSR (5, line status). The functions here decide what to
//! store and whether a register may be read; the caller performs the
//! memory-mapped accesses.
use vstd::prelude::*;
use crate::mmio::RegWrite;

verus! {

pub const UART_BASE: usize = 0x1000_0000;

/// Transmit holding register (write) and receive buffer register (read).
pub const THR_ADDR: usize = UART_BASE;
pub const RBR_ADDR: usize = UART_BASE;

/// Interrupt enable register.
pub const IER_ADDR: usize = UART_BASE + 1;

/// FIFO control register.
pub const FCR_ADDR: usize = UART_BASE + 2;

/// Line control register.
pub const LCR_ADDR: usize = UART_BASE + 3;

/// Line status register.
pub const LSR_ADDR: usize = UART_BASE + 5;

/// LSR bit 0: a received byte is waiting in RBR.
pub const LSR_DATA_READY: u8 = 0x01;

/// LSR bit 5: the transmit holding register is empty.
pub const LSR_THR_EMPTY: u8 = 0x20;

/// Whether the line status `lsr` says a received byte is waiting.
pub open spec fn data_ready(lsr: u8) -> bool {
    lsr & LSR_DATA_READY != 0
}

/// Whether the line status `lsr` says the transmitter can take a byte.
pub open spec fn thr_empty(lsr: u8) -> bool {
    lsr & LSR_THR_EMPTY != 0
}

/// The store that sends `c` out of the serial port.
pub open spec fn transmit_write(c: u8) -> RegWrite<u8> {
    RegWrite { addr: THR_ADDR, value: c }
}

/// The stores that initialize the UART, in order: 8-bit words (LCR = 0x03),
/// the received-data interrupt enabled (IER = 0x01), the FIFO enabled
/// (FCR = 0x01).
pub open spec fn init_writes() -> Seq<RegWrite<u8>> {
    seq![
        RegWrite { addr: LCR_ADDR, value: 0x03u8 },
        RegWrite { addr: IER_ADDR, value: 0x01u8 },
        RegWrite { addr: FCR_ADDR, value: 0x01u8 },
    ]
}

/// Initialize the UART hardware.
pub fn init() -> (writes: Vec<RegWrite<u8>>)
    ensures
        writes@ == init_writes(),
{
    let mut writes: Vec<RegWrite<u8>> = Vec::new();
    writes.push(RegWrite { addr: LCR_ADDR, value: 0x03 });
    writes.push(RegWrite { addr: IER_ADDR, value: 0x01 });
    writes.push(RegWrite { addr: FCR_ADDR, value: 0x01 });
    writes
}

/// One attempt to send `c`, given the line status `lsr` just read: the store
/// to THR when the transmitter is free, `None` when it is busy and the
/// status must be polled again.
pub fn putc(c: u8, lsr: u8) -> (w: Option<RegWrite<u8>>)
    ensures
        w == (if thr_empty(lsr) { Some(transmit_write(c)) } else { None }),
        w is Some <==> lsr & 0x20u8 != 0,
        w is Some ==> w->0 == (RegWrite { addr: 0x1000_0000usize, value: c }),
{
    if lsr & LSR_THR_EMPTY == 0 {
        None
    } else {
        Some(RegWrite { addr: THR_ADDR, value: c })
    }
}

/// Non-blocking receive, given the line status `lsr` just read: the register
/// that holds the received byte when one is waiting, `None` when the
/// receive buffer is empty.
pub fn getc(lsr: u8) -> (reg: Option<usize>)
    ensures
        reg == (if data_ready(lsr) { Some(RBR_ADDR) } else { None }),
        reg is Some <==> lsr & 0x01u8 != 0,
        reg is Some ==> reg->0 == 0x1000_0000usize,
{
    if lsr & LSR_DATA_READY == 0 {
        None
    } else {
        Some(RBR_ADDR)
    }
}

/// The result of polling a transmit queue `queue` once with line status
/// `lsr`: the store made, if any, and the queue that remains.
pub open spec fn poll_queue(queue: Seq<u8>, lsr: u8) -> (Option<RegWrite<u8>>, Seq<u8>) {
    if queue.len() > 0 && thr_empty(lsr) {
        (Some(transmit_write(queue[0])), queue.drop_first())
    } else {
        (None, queue)
    }
}

/// A writer that sends text out of the serial port byte by byte. Text is
/// queued by `write_str`; each `poll` with a fresh line status sends the
/// next queued byte when the transmitter is free. The view is the queue of
/// bytes not sent yet, oldest first.
pub struct UartWriter {
    bytes: Vec<u8>,
    sent: usize,
}

impl View for UartWriter {
    type V = Seq<u8>;

    closed spec fn view(&self) -> Seq<u8> {
        self.bytes@.skip(self.sent as int)
    }
}

impl UartWriter {
    /// The index of the next byte to send lies within the buffer.
    pub closed spec fn wf(&self) -> bool {
        self.sent <= self.bytes@.len()
    }

    /// A writer with nothing queued.
    pub fn new() -> (w: UartWriter)
        ensures
            w.wf(),
            w@ == Seq::<u8>::empty(),
    {
        UartWriter { bytes: Vec::new(), sent: 0 }
    }

    /// Queue `bytes` behind what is already queued.
    pub fn write_bytes(&mut self, bytes: &[u8])
        requires
            old(self).wf(),
        ensures
            final(self).wf(),
            final(self)@ == old(self)@ + bytes@,
    {
        if self.sent == self.bytes.len() {
            self.bytes.clear();
            self.sent = 0;
        }
        let ghost before = self.bytes@;
        assert(before.skip(self.sent as int) =~= old(self)@);
        let mut i: usize = 0;
        while i < bytes.len()
            invariant
                self.sent <= before.len(),
                before.skip(self.sent as int) == old(self)@,
                i <= bytes@.len(),
                self.bytes@ == before + bytes@.take(i as int),
            decreases bytes@.len() - i,
        {
            self.bytes.push(bytes[i]);
            assert(bytes@.take(i as int + 1) == bytes@.take(i as int).push(bytes@[i as int]));
            i = i + 1;
        }
        assert(bytes@.take(i as int) == bytes@);
        assert(self.bytes@.skip(self.sent as int) =~= before.skip(self.sent as int) + bytes@);
    }

    /// Queue the UTF-8 bytes of `s` behind what is already queued. Writing
    /// never fails.
    pub fn write_str(&mut self, s: &str)
        requires
            old(self).wf(),
        ensures
            final(self).wf(),
            final(self)@ == old(self)@ + vstd::string::StringSliceAdditionalSpecFns::spec_bytes(s),
    {
        self.write_bytes(s.as_bytes());
    }

    /// Poll once with the line status `lsr` just read: when something is
    /// queued and the transmitter is free, the store that sends the oldest
    /// queued byte, which leaves the queue.
    pub fn poll(&mut self, lsr: u8) -> (w: Option<RegWrite<u8>>)
        requires
            old(self).wf(),
        ensures
            final(self).wf(),
            (w, final(self)@) == poll_queue(old(self)@, lsr),
            lsr & 0x20u8 == 0 ==> w is None && final(self)@ == old(self)@,
            w is Some <==> (lsr & 0x20u8 != 0 && old(self)@.len() > 0),
            w is Some ==> w->0 == (RegWrite { addr: 0x1000_0000usize, value: old(self)@[0] })
                && final(self)@ == old(self)@.drop_first(),
    {
        if self.sent < self.bytes.len() {
            let r = putc(self.bytes[self.sent], lsr);
            if r.is_some() {
                self.sent = self.sent + 1;
                assert(self@ == old(self)@.drop_first());
            }
            r
        } else {
            None
        }
    }

    /// Whether every queued byte has been sent.
    pub fn is_flushed(&self) -> (flushed: bool)
        requires
            self.wf(),
        ensures
            flushed == (self@.len() == 0),
    {
        self.sent == self.bytes.len()
    }
}

/// The bytes sent when a writer whose queue is `queue` is polled once with
/// each line status of `statuses`, in order.
pub open spec fn transmitted(queue: Seq<u8>, statuses: Seq<u8>) -> Seq<u8>
    decreases statuses.len(),
{
    if statuses.len() == 0 {
        Seq::empty()
    } else {
        let (w, rest) = poll_queue(queue, statuses[0]);
        let sent = match w {
            Some(store) => seq![store.value],
            None => Seq::<u8>::empty(),
        };
        sent + transmitted(rest, statuses.drop_first())
    }
}

/// How many of `statuses` report a free transmitter.
pub open spec fn ready_polls(statuses: Seq<u8>) -> nat
    decreases statuses.len(),
{
    if statuses.len() == 0 {
        0
    } else {
        (if thr_empty(statuses[0]) { 1nat } else { 0nat }) + ready_polls(statuses.drop_first())
    }
}

/// Polling sends queued bytes in the order they were queued, each at most
/// once, whatever busy polls come between; once the transmitter has been
/// found free as many times as bytes were queued, every byte has gone out.
pub proof fn lemma_polling_sends_queue_in_order(queue: Seq<u8>, statuses: Seq<u8>)
    ensures
        transmitted(queue, statuses).len() <= queue.len(),
        transmitted(queue, statuses) == queue.take(transmitted(queue, statuses).len() as int),
        ready_polls(statuses) >= queue.len() ==> transmitted(queue, statuses) == queue,
    decreases statuses.len(),
{
    if statuses.len() > 0 {
        let rest_status = statuses.drop_first();
        if queue.len() > 0 && thr_empty(statuses[0]) {
            let rest = queue.drop_first();
            lemma_polling_sends_queue_in_order(rest, rest_status);
            let t = transmitted(rest, rest_status);
            assert(transmitted(queue, statuses) == seq![queue[0]] + t);
            assert(seq![queue[0]] + rest.take(t.len() as int) =~= queue.take(t.len() as int + 1));
            if ready_polls(statuses) >= queue.len() {
                assert(t == rest);
                assert(seq![queue[0]] + rest =~= queue);
            }
        } else {
            lemma_polling_sends_queue_in_order(queue, rest_status);
            assert(transmitted(queue, statuses) =~= transmitted(queue, rest_status));
            if queue.len() == 0 {
                assert(queue.take(0) =~= queue);
            }
        }
    } else {
        assert(queue.take(0) =~= Seq::<u8>::empty());
    }
}

/// A poll stores only when the line status says the transmitter is free
/// (bit 5 set) and something is queued; a busy poll stores nothing and
/// leaves the queue as it is. A store sends the oldest queued byte to THR.
pub proof fn lemma_poll_waits_for_free_transmitter(queue: Seq<u8>, lsr: u8)
    ensures
        poll_queue(queue, lsr).0 is Some <==> (lsr & 0x20u8 != 0 && queue.len() > 0),
        lsr & 0x20u8 == 0 ==> poll_queue(queue, lsr) == (None::<RegWrite<u8>>, queue),
        poll_queue(queue, lsr).0 is Some ==> poll_queue(queue, lsr).0->0 == (RegWrite {
            addr: 0x1000_0000usize,
            value: queue[0],
        }) && poll_queue(queue, lsr).1 == queue.drop_first(),
{
}

/// Polling sends exactly one byte per poll that finds the transmitter free,
/// until the queue is empty: as many bytes as the smaller of the queue's
/// length and the number of free-transmitter polls.
pub proof fn lemma_one_byte_per_free_poll(queue: Seq<u8>, statuses: Seq<u8>)
    ensures
        transmitted(queue, statuses).len() == if ready_polls(statuses) < queue.len() {
            ready_polls(statuses)
        } else {
            queue.len()
        },
    decreases statuses.len(),
{
    if statuses.len() > 0 {
        let rest_status = statuses.drop_first();
        if queue.len() > 0 && thr_empty(statuses[0]) {
            lemma_one_byte_per_free_poll(queue.drop_first(), rest_status);
        } else {
            lemma_one_byte_per_free_poll(queue, rest_status);
        }
    }
}

/// How many of `statuses` have bit 5 (transmitter free) set.
pub open spec fn free_polls(statuses: Seq<u8>) -> nat
    decreases statuses.len(),
{
    if statuses.len() == 0 {
        0
    } else {
        (if statuses[0] & 0x20u8 != 0 { 1nat } else { 0nat }) + free_polls(statuses.drop_first())
    }
}

/// `ready_polls` counts the statuses with bit 5 set.
pub proof fn lemma_ready_polls_counts_bit5(statuses: Seq<u8>)
    ensures
        ready_polls(statuses) == free_polls(statuses),
    decreases statuses.len(),
{
    if statuses.len() > 0 {
        lemma_ready_polls_counts_bit5(statuses.drop_first());
    }
}

} // verus!
