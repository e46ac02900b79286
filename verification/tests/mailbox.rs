use qr_cam::mailbox::Mailbox;

#[test]
fn a_new_mailbox_is_empty() {
    let mut mailbox: Mailbox<u32> = Mailbox::new();
    assert!(!mailbox.is_full());
    assert_eq!(mailbox.take(), None);
}

#[test]
fn write_then_take_then_nothing() {
    let mut mailbox = Mailbox::new();
    mailbox.write(String::from("frame"));
    assert!(mailbox.is_full());
    assert_eq!(mailbox.take(), Some(String::from("frame")));
    assert!(!mailbox.is_full());
    assert_eq!(mailbox.take(), None);
    assert_eq!(mailbox.take(), None);
}

#[test]
fn only_the_last_of_many_writes_survives() {
    let mut mailbox = Mailbox::new();
    for n in 1..=100u32 {
        mailbox.write(n);
    }
    assert_eq!(mailbox.take(), Some(100));
    assert_eq!(mailbox.take(), None);
}

#[test]
fn a_write_after_a_take_is_seen() {
    let mut mailbox = Mailbox::new();
    mailbox.write(1u8);
    assert_eq!(mailbox.take(), Some(1));
    mailbox.write(2u8);
    mailbox.write(3u8);
    assert_eq!(mailbox.take(), Some(3));
}
