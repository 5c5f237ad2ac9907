use soundfarmer::channel::ControlChannel;

#[test]
fn receives_in_send_order() {
    let mut chan: ControlChannel<u32> = ControlChannel::new();
    chan.send(1);
    chan.send(2);
    chan.send(3);
    assert_eq!(chan.try_receive(), Some(1));
    assert_eq!(chan.try_receive(), Some(2));
    assert_eq!(chan.try_receive(), Some(3));
    assert_eq!(chan.try_receive(), None);
}

#[test]
fn drain_keeps_only_the_last_value() {
    let mut chan: ControlChannel<u32> = ControlChannel::new();
    chan.send(4);
    chan.send(5);
    assert_eq!(chan.recv_last(), Some(5));
    assert_eq!(chan.try_receive(), None);
}

#[test]
fn drain_of_empty_queue_yields_nothing() {
    let mut chan: ControlChannel<u32> = ControlChannel::new();
    assert_eq!(chan.recv_last(), None);
    assert_eq!(chan.recv_last(), None);
}
