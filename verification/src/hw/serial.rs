//! The COM1 serial port used for kernel logging.

use vstd::prelude::*;

verus! {

/// COM1 port address.
pub const COM1: u16 = 0x3F8;

/// The COM1 serial port.
pub struct Serial {}

impl Serial {
    /// The port writes that initialize COM1, in order: interrupts off, divisor latch
    /// on, divisor 1 (115200 baud), 8N1 framing, FIFO enabled and cleared with a
    /// 14-byte threshold, modem control with IRQs, RTS and DTR set.
    pub fn init_writes() -> (w: Vec<(u16, u8)>)
        ensures
            w@ == seq![
                (0x3F9u16, 0x00u8),
                (0x3FBu16, 0x80u8),
                (0x3F8u16, 0x01u8),
                (0x3F9u16, 0x00u8),
                (0x3FBu16, 0x03u8),
                (0x3FAu16, 0xC7u8),
                (0x3FCu16, 0x0Bu8),
            ],
    {
        let mut w: Vec<(u16, u8)> = Vec::new();
        w.push((COM1 + 1, 0x00));
        w.push((COM1 + 3, 0x80));
        w.push((COM1, 0x01));
        w.push((COM1 + 1, 0x00));
        w.push((COM1 + 3, 0x03));
        w.push((COM1 + 2, 0xC7));
        w.push((COM1 + 4, 0x0B));
        assert(w@ =~= seq![
            (0x3F9u16, 0x00u8),
            (0x3FBu16, 0x80u8),
            (0x3F8u16, 0x01u8),
            (0x3F9u16, 0x00u8),
            (0x3FBu16, 0x03u8),
            (0x3FAu16, 0xC7u8),
            (0x3FCu16, 0x0Bu8),
        ]);
        w
    }
}

} // verus!
