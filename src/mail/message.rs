//! Messages and the builder that assembles them.
use vstd::prelude::*;
use super::header::Header;
use super::mailbox::Mailboxes;

verus! {

/// A message: its headers.
pub struct Message {
    headers: Vec<Header>,
}

impl View for Message {
    type V = Seq<Header>;

    closed spec fn view(&self) -> Seq<Header> {
        self.headers@
    }
}

impl Message {
    /// The headers of the message, in order.
    pub fn headers(&self) -> (r: &[Header])
        ensures
            r@ == self@,
    {
        self.headers.as_slice()
    }
}

/// Collects the headers of a message before it is built.
pub struct MessageBuilder {
    headers: Vec<Header>,
}

impl View for MessageBuilder {
    type V = Seq<Header>;

    closed spec fn view(&self) -> Seq<Header> {
        self.headers@
    }
}

impl MessageBuilder {
    /// A builder with no headers.
    pub fn new() -> (r: MessageBuilder)
        ensures
            r@ == Seq::<Header>::empty(),
    {
        MessageBuilder { headers: Vec::new() }
    }

    /// Adds `header` to a builder that is consumed and not handed back.
    pub fn header(self, header: Header) {
        let mut b = self;
        b.headers.push(header);
    }

    /// The builder with a `From` header of `mailboxes` added at the end.
    pub fn from(self, mailboxes: Mailboxes) -> (r: MessageBuilder)
        ensures
            r@ == self@.push(Header::From(mailboxes)),
    {
        let mut b = self;
        b.headers.push(Header::From(mailboxes));
        b
    }

    /// The builder with a `To` header of `mailboxes` added at the end.
    pub fn to(self, mailboxes: Mailboxes) -> (r: MessageBuilder)
        ensures
            r@ == self@.push(Header::To(mailboxes)),
    {
        let mut b = self;
        b.headers.push(Header::To(mailboxes));
        b
    }

    /// Builds the message; the headers collected so far are not carried over,
    /// so the message has none.
    pub fn build(self) -> (r: Message)
        ensures
            r@ == Seq::<Header>::empty(),
    {
        Message { headers: Vec::new() }
    }
}

} // verus!
