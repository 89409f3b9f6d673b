use brief::mail::{Header, Mailbox, Mailboxes, MessageBuilder};

#[test]
fn it_creates_a_builder_and_builds_an_empty_message() {
    let message = MessageBuilder::new().build();
    assert_eq!(message.headers().len(), 0);
}

#[test]
fn builder_takes_from_and_to_headers() {
    let sender: Mailbox = "name <user@domain.com>".parse().unwrap();
    let receiver: Mailbox = "<other@domain.com>".parse().unwrap();
    let message = MessageBuilder::new()
        .from(Mailboxes::from_single(sender))
        .to(Mailboxes::from_single(receiver))
        .build();
    assert_eq!(message.headers().len(), 0);
    let header = Header::From(Mailboxes::parse("user@domain.com").unwrap());
    MessageBuilder::new().header(header);
}
