use apollo_kernel::hw::serial::{Serial, COM1};

#[test]
fn com1_init_sequence() {
    assert_eq!(COM1, 0x3F8);
    assert_eq!(
        Serial::init_writes(),
        vec![
            (0x3F9, 0x00),
            (0x3FB, 0x80),
            (0x3F8, 0x01),
            (0x3F9, 0x00),
            (0x3FB, 0x03),
            (0x3FA, 0xC7),
            (0x3FC, 0x0B),
        ]
    );
}
