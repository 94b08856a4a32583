use apollo_kernel::ipc::Message;

#[test]
fn message_keeps_its_fields() {
    let m = Message { sender: 1, recipient: 2, payload: vec![1, 2, 3] };
    let c = m.clone();
    assert_eq!((c.sender, c.recipient, c.payload), (1, 2, vec![1, 2, 3]));
}

