# lib — verified core of a small RISC-V kernel

`src/` is the verified library:

- `page_alloc` — the LIFO free list of 4 KiB pages (`init`, `kfree`, `kalloc`,
  `free_page_count`, the boot-time allocator check), the link words each free
  writes into the freed page, and the allocator's laws.
- `plic`, `uart` — the register stores that program the interrupt controller
  and the serial port, the polling decisions of the UART, and a transmit
  queue (`UartWriter`).
- `console` — `_print`, which queues formatted text on a `UartWriter`.
- `trap` — `mcause` decoding and the trap handler as a state machine, with
  the traces it produces for each kind of trap, and the exact text of each
  trap report.
- `mmio` — `RegWrite`, a store to a device register.

`app/` performs the volatile register accesses, the CSR instructions and the
formatting, and holds the kernel's entry points.
