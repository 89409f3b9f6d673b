use brief::mail::{
    Address, InvalidPartError, Mailbox, Mailboxes, ParseAddressError, ParseMailboxError,
};

#[test]
fn it_creates_a_mailbox_from_valid_data() {
    let mailbox = Mailbox::try_new(Some("name"), "user@domain.com".parse().unwrap());
    assert!(mailbox.is_ok());
}

#[test]
fn it_creates_a_mailbox_when_name_is_empty() {
    let mailbox = Mailbox::try_new(None, "user@domain.com".parse().unwrap());
    assert!(mailbox.is_ok());
}

#[test]
fn it_creates_a_mailbox_from_a_string_with_a_valid_name_and_address() {
    let mailbox = "name <user@domain.com>".parse::<Mailbox>();
    assert!(mailbox.is_ok());
}

#[test]
fn it_creates_a_mailbox_from_a_string_with_a_valid_address() {
    let mailbox = "user@domain.com".parse::<Mailbox>();
    assert!(mailbox.is_ok());
}

#[test]
fn it_creates_a_mailbox_from_a_string_with_a_valid_address_and_angle_brackets() {
    let mailbox = "<user@domain.com>".parse::<Mailbox>();
    assert!(mailbox.is_ok());
}

#[test]
fn it_fails_when_the_brackets_are_invalid() {
    let cases = [
        "user user@domain.com>",
        "user <user@domain.com",
        "user user@domain.com",
        "user >user@domain.com<",
        "user@domain.com>",
        "<user@domain.com",
        ">user@domain.com<",
    ];

    for v in cases {
        assert!(v.parse::<Mailbox>().is_err())
    }
}

#[test]
fn it_formats_the_mailbox_correctly() {
    let address: Address = "user@domain.com".parse().unwrap();
    let mailbox = Mailbox::try_new(Some("name"), address).unwrap();

    assert_eq!(mailbox.to_string(), "name <user@domain.com>");
}

#[test]
fn it_formats_mailboxes_correctly_single() {
    let mailboxes = Mailboxes(vec!["name <user@domain.com>".parse().unwrap()]);

    assert_eq!(mailboxes.to_string(), "name <user@domain.com>");
}

#[test]
fn it_formats_mailboxes_correctly_multiple() {
    let mailboxes = Mailboxes(vec![
        "name <user@domain.com>".parse().unwrap(),
        "nametwo <usertwo@domaintwo.com>".parse().unwrap(),
    ]);

    assert_eq!(
        mailboxes.to_string(),
        "name <user@domain.com>, nametwo <usertwo@domaintwo.com>"
    );
}

#[test]
fn it_parses_mailboxes_correctly_single() {
    let mailbox = "name <user@domain.com>".parse::<Mailboxes>();

    assert!(mailbox.is_ok());
    assert_eq!(mailbox.unwrap().0.len(), 1);
}

#[test]
fn it_parses_mailboxes_correctly() {
    let cases = vec![
        "name <user@domain.com>, nametwo <usertwo@domaintwo.com>",
        "name <user@domain.com>, <usertwo@domaintwo.com>",
        "<user@domain.com>, nametwo <usertwo@domaintwo.com>",
        "<user@domain.com>, <usertwo@domaintwo.com>",
        "user@domain.com, usertwo@domaintwo.com",
    ];

    for v in cases {
        assert!(v.parse::<Mailboxes>().is_ok())
    }
}

#[test]
fn bare_address_mailbox_has_no_name() {
    let mailbox = Mailbox::parse("user@domain.com").unwrap();
    assert_eq!(mailbox.to_string(), "<user@domain.com>");
}

#[test]
fn named_mailbox_formats_back_exactly() {
    let mailbox = Mailbox::parse("name <user@domain.com>").unwrap();
    assert_eq!(mailbox.to_string(), "name <user@domain.com>");
}

#[test]
fn bracket_errors_have_their_kinds() {
    assert_eq!(
        Mailbox::parse("<user@domain.com").unwrap_err(),
        ParseMailboxError::MissingClosingAngleBracket
    );
    assert_eq!(
        Mailbox::parse("user@domain.com>").unwrap_err(),
        ParseMailboxError::MissingOpeningAngleBracket
    );
    assert_eq!(
        Mailbox::parse("user >user@domain.com<").unwrap_err(),
        ParseMailboxError::WrongOrderAngleBrackets
    );
    assert_eq!(
        Mailbox::parse("user user@domain.com").unwrap_err(),
        ParseMailboxError::MissingAngleBrackets
    );
}

#[test]
fn address_errors_are_carried_by_the_mailbox_error() {
    assert_eq!(
        Mailbox::parse("name <userdomain.com>").unwrap_err(),
        ParseMailboxError::InvalidAddress(ParseAddressError::MissingUserOrDomain)
    );
    assert_eq!(
        Mailbox::parse("@domain.com").unwrap_err(),
        ParseMailboxError::InvalidAddress(ParseAddressError::InvalidUser(
            InvalidPartError::Empty
        ))
    );
    assert_eq!(
        ParseMailboxError::from(ParseAddressError::MissingUserOrDomain),
        ParseMailboxError::InvalidAddress(ParseAddressError::MissingUserOrDomain)
    );
}

#[test]
fn invalid_names_are_refused_by_try_new() {
    let address = Address::try_new("user", "domain.com").unwrap();
    assert_eq!(
        Mailbox::try_new(Some("first last"), address.clone()).unwrap_err(),
        ParseMailboxError::InvalidName(InvalidPartError::ForbiddenCharacter)
    );
    assert_eq!(
        Mailbox::try_new(Some(""), address).unwrap_err(),
        ParseMailboxError::InvalidName(InvalidPartError::Empty)
    );
}

#[test]
fn unchecked_mailbox_keeps_any_name() {
    let address = Address::try_new("user", "domain.com").unwrap();
    let mailbox = Mailbox::new_unchecked(Some("first last"), address).unwrap();
    assert_eq!(mailbox.to_string(), "first last <user@domain.com>");
}

#[test]
fn bracketed_name_is_trimmed_and_not_validated() {
    let mailbox = Mailbox::parse("  First Last   <user@domain.com>").unwrap();
    assert_eq!(mailbox.to_string(), "First Last <user@domain.com>");
    let blank = Mailbox::parse("   <user@domain.com>").unwrap();
    assert_eq!(blank.to_string(), "<user@domain.com>");
}

#[test]
fn text_after_the_closing_bracket_is_ignored() {
    let mailbox = Mailbox::parse("name <user@domain.com> trailing").unwrap();
    assert_eq!(mailbox.to_string(), "name <user@domain.com>");
}

#[test]
fn mailbox_list_keeps_order_and_formats_back() {
    let text = "name <user@domain.com>, nametwo <usertwo@domaintwo.com>";
    let list = Mailboxes::parse(text).unwrap();
    assert_eq!(list.0.len(), 2);
    assert_eq!(list.0[0].to_string(), "name <user@domain.com>");
    assert_eq!(list.0[1].to_string(), "nametwo <usertwo@domaintwo.com>");
    assert_eq!(list.to_string(), text);
}

#[test]
fn mailbox_list_of_bare_addresses() {
    let list = Mailboxes::parse("user@domain.com, usertwo@domaintwo.com").unwrap();
    assert_eq!(list.0.len(), 2);
    assert_eq!(
        list.to_string(),
        "<user@domain.com>, <usertwo@domaintwo.com>"
    );
}

#[test]
fn mailbox_list_fails_on_the_first_bad_piece() {
    assert_eq!(
        Mailboxes::parse("user@domain.com, ").unwrap_err(),
        ParseMailboxError::InvalidAddress(ParseAddressError::MissingUserOrDomain)
    );
    assert_eq!(
        Mailboxes::parse("a b, <c@d").unwrap_err(),
        ParseMailboxError::MissingAngleBrackets
    );
    assert_eq!(
        Mailboxes::parse("").unwrap_err(),
        ParseMailboxError::InvalidAddress(ParseAddressError::MissingUserOrDomain)
    );
}

#[test]
fn single_mailbox_makes_a_one_element_list() {
    let mailbox = Mailbox::parse("name <user@domain.com>").unwrap();
    let list = Mailboxes::from_single(mailbox);
    assert_eq!(list.0.len(), 1);
    assert_eq!(list.to_string(), "name <user@domain.com>");
    assert_eq!(Mailboxes(Vec::new()).to_string(), "");
}
