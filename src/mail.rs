//! Message participants: addresses, mailboxes and lists of mailboxes, and the
//! messages that carry them.
pub mod address;
pub mod header;
pub mod mailbox;
pub mod message;
pub mod text;
pub mod validation;

pub use address::{Address, ParseAddressError};
pub use header::Header;
pub use mailbox::{Mailbox, Mailboxes, ParseMailboxError};
pub use message::{Message, MessageBuilder};
pub use text::{find_first, find_last, is_whitespace, trim};
pub use validation::{validate_part, InvalidPartError};
