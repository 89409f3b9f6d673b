//! Message headers that carry mailboxes.
use vstd::prelude::*;
use super::mailbox::Mailboxes;

verus! {

/// A header of a message.
#[derive(Clone, Debug)]
pub enum Header {
    From(Mailboxes),
    To(Mailboxes),
}

} // verus!
