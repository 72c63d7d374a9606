//! Serial console output.
use vstd::prelude::*;
use crate::uart::UartWriter;

verus! {

/// Print already formatted text on the serial console: a fresh writer with
/// the UTF-8 bytes of `text` queued. Polling the writer until it is flushed
/// sends them out of the UART.
pub fn _print(text: &str) -> (writer: UartWriter)
    ensures
        writer.wf(),
        writer@ == vstd::string::StringSliceAdditionalSpecFns::spec_bytes(text),
{
    let mut writer = UartWriter::new();
    writer.write_str(text);
    assert(Seq::<u8>::empty() + vstd::string::StringSliceAdditionalSpecFns::spec_bytes(text)
        =~= vstd::string::StringSliceAdditionalSpecFns::spec_bytes(text));
    writer
}

} // verus!
