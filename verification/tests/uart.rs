use lib::console::_print;
use lib::mmio::RegWrite;
use lib::uart::{getc, init, putc, UartWriter, LSR_ADDR, RBR_ADDR, THR_ADDR, UART_BASE};

#[test]
fn init_programs_lcr_ier_fcr() {
    assert_eq!(
        init(),
        vec![
            RegWrite { addr: UART_BASE + 3, value: 0x03 },
            RegWrite { addr: UART_BASE + 1, value: 0x01 },
            RegWrite { addr: UART_BASE + 2, value: 0x01 },
        ]
    );
    assert_eq!(LSR_ADDR, 0x1000_0005);
}

#[test]
fn putc_waits_for_an_empty_transmitter() {
    assert_eq!(putc(b'A', 0x00), None);
    assert_eq!(putc(b'A', 0x01), None);
    assert_eq!(putc(b'A', 0xDF), None);
    assert_eq!(putc(b'A', 0x20), Some(RegWrite { addr: THR_ADDR, value: b'A' }));
    assert_eq!(putc(b'\n', 0x61), Some(RegWrite { addr: 0x1000_0000, value: 10 }));
}

#[test]
fn getc_reads_only_when_data_is_ready() {
    assert_eq!(getc(0x00), None);
    assert_eq!(getc(0x60), None);
    assert_eq!(getc(0x01), Some(RBR_ADDR));
    assert_eq!(getc(0x61), Some(0x1000_0000));
}

fn drain(writer: &mut UartWriter, statuses: &[u8]) -> Vec<u8> {
    let mut out = Vec::new();
    for &lsr in statuses {
        if let Some(w) = writer.poll(lsr) {
            assert_eq!(w.addr, THR_ADDR);
            out.push(w.value);
        }
    }
    out
}

#[test]
fn writer_sends_text_in_order_across_busy_polls() {
    let mut w = UartWriter::new();
    assert!(w.is_flushed());
    w.write_str("hi");
    w.write_str("!\n");
    assert!(!w.is_flushed());
    let sent = drain(&mut w, &[0x00, 0x20, 0x00, 0x00, 0x20, 0x20]);
    assert_eq!(sent, b"hi!".to_vec());
    assert!(!w.is_flushed());
    let sent = drain(&mut w, &[0x60, 0x60]);
    assert_eq!(sent, b"\n".to_vec());
    assert!(w.is_flushed());
    assert_eq!(w.poll(0x20), None);
}

#[test]
fn writer_sends_utf8_bytes() {
    let mut w = UartWriter::new();
    w.write_str("é");
    let sent = drain(&mut w, &[0x20, 0x20, 0x20]);
    assert_eq!(sent, vec![0xC3, 0xA9]);
}

#[test]
fn writer_reuses_its_buffer_after_flush() {
    let mut w = UartWriter::new();
    w.write_str("ab");
    assert_eq!(drain(&mut w, &[0x20, 0x20]), b"ab".to_vec());
    w.write_str("cd");
    assert_eq!(drain(&mut w, &[0x20, 0x20, 0x20]), b"cd".to_vec());
}

#[test]
fn print_queues_the_text() {
    let mut w = _print("Waiting for keyboard input...\n");
    let sent = drain(&mut w, &[0x20; 64]);
    assert_eq!(sent, b"Waiting for keyboard input...\n".to_vec());
    assert!(w.is_flushed());
}

#[test]
fn print_of_empty_text_is_flushed() {
    let w = _print("");
    assert!(w.is_flushed());
}

#[test]
fn write_bytes_queues_raw_bytes() {
    let mut w = UartWriter::new();
    w.write_bytes(&[0x00, 0xFF, b'a']);
    w.write_str("b");
    assert_eq!(drain(&mut w, &[0x20; 8]), vec![0x00, 0xFF, b'a', b'b']);
}
