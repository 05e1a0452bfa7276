use arwen_elrond_ipc::mailbox::{Mailbox, Taken};

fn message(found: Taken<String>) -> Option<String> {
    match found {
        Taken::Message(text) => Some(text),
        _ => None,
    }
}

#[test]
fn replies_come_out_in_the_order_they_came_in() {
    let mut mailbox = Mailbox::new();
    mailbox.deliver("first".to_string());
    mailbox.deliver("second".to_string());
    mailbox.deliver("third".to_string());
    assert_eq!(message(mailbox.take()), Some("first".to_string()));
    assert_eq!(message(mailbox.take()), Some("second".to_string()));
    assert_eq!(message(mailbox.take()), Some("third".to_string()));
    assert!(matches!(mailbox.take(), Taken::Wait));
}

#[test]
fn takes_between_deliveries_keep_the_order() {
    let mut mailbox = Mailbox::new();
    assert!(matches!(mailbox.take(), Taken::Wait));
    mailbox.deliver(1);
    mailbox.deliver(2);
    assert!(matches!(mailbox.take(), Taken::Message(1)));
    mailbox.deliver(3);
    assert!(matches!(mailbox.take(), Taken::Message(2)));
    assert!(matches!(mailbox.take(), Taken::Message(3)));
    assert!(matches!(mailbox.take(), Taken::Wait));
    assert!(matches!(mailbox.take(), Taken::Wait));
}

#[test]
fn what_was_delivered_before_the_end_can_still_be_taken() {
    let mut mailbox = Mailbox::new();
    mailbox.deliver('a');
    mailbox.deliver('b');
    mailbox.close();
    assert!(matches!(mailbox.take(), Taken::Message('a')));
    assert!(matches!(mailbox.take(), Taken::Message('b')));
    assert!(matches!(mailbox.take(), Taken::Closed));
    assert!(matches!(mailbox.take(), Taken::Closed));
}

#[test]
fn an_empty_mailbox_that_has_ended_says_so() {
    let mut mailbox: Mailbox<u8> = Mailbox::new();
    mailbox.close();
    assert!(matches!(mailbox.take(), Taken::Closed));
}
