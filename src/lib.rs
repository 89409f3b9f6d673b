//! Parsing, validation and formatting of email addresses, mailboxes and
//! mailbox lists, with their behaviour stated and proved.
pub mod mail;
