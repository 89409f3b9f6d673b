//! Email addresses: a validated user part and domain part, `user@domain`.
use vstd::prelude::*;
use super::text::{find_last, last_index, lemma_last_index};
use super::validation::{has_forbidden, is_forbidden, part_verdict, validate_part, InvalidPartError};

verus! {

/// Why text or parts do not make an address.
#[derive(Debug, Clone, Copy, PartialEq, Eq, Structural)]
pub enum ParseAddressError {
    MissingUserOrDomain,
    InvalidUser(InvalidPartError),
    InvalidDomain(InvalidPartError),
}

/// The mathematical value of an address: its user part and its domain part.
pub struct AddressView {
    pub user: Seq<char>,
    pub domain: Seq<char>,
}

/// An email address, `user@domain`.
#[derive(Clone, Debug)]
pub struct Address {
    user: String,
    domain: String,
}

impl View for Address {
    type V = AddressView;

    closed spec fn view(&self) -> AddressView {
        AddressView { user: self.user@, domain: self.domain@ }
    }
}

/// The address that `user` and `domain` make, or the first reason they do not:
/// the user part is judged before the domain part.
pub open spec fn address_from_parts(user: Seq<char>, domain: Seq<char>) -> Result<
    AddressView,
    ParseAddressError,
> {
    match part_verdict(user) {
        Err(e) => Err(ParseAddressError::InvalidUser(e)),
        Ok(_) => match part_verdict(domain) {
            Err(e) => Err(ParseAddressError::InvalidDomain(e)),
            Ok(_) => Ok(AddressView { user, domain }),
        },
    }
}

/// What parsing `s` gives: it is split at its last `@` into user and domain.
pub open spec fn parse_address(s: Seq<char>) -> Result<AddressView, ParseAddressError> {
    if !s.contains('@') {
        Err(ParseAddressError::MissingUserOrDomain)
    } else {
        let k = last_index(s, '@');
        address_from_parts(s.subrange(0, k), s.subrange(k + 1, s.len() as int))
    }
}

/// The text form of an address: `user@domain`.
pub open spec fn address_text(a: AddressView) -> Seq<char> {
    a.user + seq!['@'] + a.domain
}

/// The view of an address result, with the error kept as it is.
pub open spec fn address_result(r: Result<Address, ParseAddressError>) -> Result<
    AddressView,
    ParseAddressError,
> {
    match r {
        Ok(a) => Ok(a@),
        Err(e) => Err(e),
    }
}

impl Address {
    /// Makes an address from a user part and a domain part, checking the user
    /// part first and then the domain part.
    pub fn try_new(user: &str, domain: &str) -> (r: Result<Address, ParseAddressError>)
        ensures
            address_result(r) == address_from_parts(user@, domain@),
    {
        match validate_part(user) {
            Err(e) => return Err(ParseAddressError::InvalidUser(e)),
            Ok(_) => {},
        }
        match validate_part(domain) {
            Err(e) => return Err(ParseAddressError::InvalidDomain(e)),
            Ok(_) => {},
        }
        Ok(Address::new_unchecked(user, domain))
    }

    /// Makes an address from a user part and a domain part without checking them.
    pub fn new_unchecked(user: &str, domain: &str) -> (r: Address)
        ensures
            r@ == (AddressView { user: user@, domain: domain@ }),
    {
        Address { user: String::from_str(user), domain: String::from_str(domain) }
    }

    /// Parses `user@domain`, splitting at the last `@`.
    pub fn parse(s: &str) -> (r: Result<Address, ParseAddressError>)
        ensures
            address_result(r) == parse_address(s@),
    {
        proof {
            lemma_last_index(s@, '@');
        }
        match find_last(s, '@') {
            None => Err(ParseAddressError::MissingUserOrDomain),
            Some(k) => {
                let n = s.unicode_len();
                let user = s.substring_char(0, k);
                let domain = s.substring_char(k + 1, n);
                Address::try_new(user, domain)
            },
        }
    }

    /// The text form, `user@domain`.
    pub fn to_string(&self) -> (r: String)
        ensures
            r@ == address_text(self@),
    {
        let mut r = String::from_str(self.user.as_str());
        r.append("@");
        r.append(self.domain.as_str());
        proof {
            reveal_strlit("@");
        }
        r
    }
}

/// Round trip: the text of an address made from acceptable parts parses back
/// to that same address.
pub proof fn lemma_parse_address_text(user: Seq<char>, domain: Seq<char>)
    requires
        address_from_parts(user, domain) is Ok,
    ensures
        parse_address(address_text(AddressView { user, domain })) == Ok::<
            AddressView,
            ParseAddressError,
        >(AddressView { user, domain }),
{
    let s = address_text(AddressView { user, domain });
    let u = user.len() as int;
    assert(s[u] == '@');
    assert(s.contains('@'));
    lemma_last_index(s, '@');
    let k = last_index(s, '@');
    if k > u {
        assert(domain[k - u - 1] == s[k]);
        assert(is_forbidden(domain[k - u - 1]));
        assert(has_forbidden(domain));
    }
    assert(k == u);
    assert(s.subrange(0, k) =~= user);
    assert(s.subrange(k + 1, s.len() as int) =~= domain);
}

/// Text without `@` never parses as an address: it lacks a user or a domain.
pub proof fn lemma_parse_address_without_at(s: Seq<char>)
    requires
        !s.contains('@'),
    ensures
        parse_address(s) == Err::<AddressView, ParseAddressError>(
            ParseAddressError::MissingUserOrDomain,
        ),
{
}

impl core::str::FromStr for Address {
    type Err = ParseAddressError;

    fn from_str(s: &str) -> Result<Address, ParseAddressError> {
        Address::parse(s)
    }
}

} // verus!
