//! Mailboxes: an optional display name and an address, `name <user@domain>`.
use vstd::prelude::*;
use super::address::{
    address_from_parts, address_text, lemma_parse_address_text, parse_address, Address, AddressView,
    ParseAddressError,
};
use super::text::{
    find_first, first_index, is_white, lemma_first_index, lemma_first_index_at, trim, trim_back,
    trim_front, trimmed,
};
use super::validation::{has_forbidden, is_forbidden, part_verdict, validate_part, InvalidPartError};

verus! {

/// Why text or parts do not make a mailbox.
#[derive(Debug, Clone, Copy, PartialEq, Eq, Structural)]
pub enum ParseMailboxError {
    MissingAngleBrackets,
    MissingOpeningAngleBracket,
    MissingClosingAngleBracket,
    WrongOrderAngleBrackets,
    InvalidName(InvalidPartError),
    InvalidAddress(ParseAddressError),
}

impl From<ParseAddressError> for ParseMailboxError {
    fn from(value: ParseAddressError) -> (r: ParseMailboxError)
        ensures
            r == ParseMailboxError::InvalidAddress(value),
    {
        ParseMailboxError::InvalidAddress(value)
    }
}

impl vstd::std_specs::convert::FromSpecImpl<ParseAddressError> for ParseMailboxError {
    open spec fn obeys_from_spec() -> bool {
        true
    }

    open spec fn from_spec(v: ParseAddressError) -> ParseMailboxError {
        ParseMailboxError::InvalidAddress(v)
    }
}

/// The mathematical value of a mailbox: its display name, if any, and its address.
pub struct MailboxView {
    pub name: Option<Seq<char>>,
    pub address: AddressView,
}

/// A mailbox: an optional display name and an address.
#[derive(Clone, Debug)]
pub struct Mailbox {
    name: Option<String>,
    address: Address,
}

impl View for Mailbox {
    type V = MailboxView;

    closed spec fn view(&self) -> MailboxView {
        MailboxView {
            name: match self.name {
                Some(n) => Some(n@),
                None => None,
            },
            address: self.address@,
        }
    }
}

/// The view of an optional piece of text.
pub open spec fn name_view(name: Option<&str>) -> Option<Seq<char>> {
    match name {
        Some(n) => Some(n@),
        None => None,
    }
}

/// The mailbox that `name` and `address` make; a name, where given, must be
/// an acceptable fragment.
pub open spec fn mailbox_from_parts(name: Option<Seq<char>>, address: AddressView) -> Result<
    MailboxView,
    ParseMailboxError,
> {
    match name {
        None => Ok(MailboxView { name: None, address }),
        Some(n) => match part_verdict(n) {
            Err(e) => Err(ParseMailboxError::InvalidName(e)),
            Ok(_) => Ok(MailboxView { name: Some(n), address }),
        },
    }
}

/// The display name that the text before `<` gives: trimmed, and absent where
/// nothing is left.
pub open spec fn name_of_part(part: Seq<char>) -> Option<Seq<char>> {
    if trimmed(part).len() == 0 {
        None
    } else {
        Some(trimmed(part))
    }
}

/// What parsing `s` as a mailbox gives, decided by where `<` and `>` first occur.
pub open spec fn parse_mailbox(s: Seq<char>) -> Result<MailboxView, ParseMailboxError> {
    let lt = first_index(s, '<');
    let gt = first_index(s, '>');
    if lt < 0 && gt >= 0 {
        Err(ParseMailboxError::MissingOpeningAngleBracket)
    } else if lt >= 0 && gt < 0 {
        Err(ParseMailboxError::MissingClosingAngleBracket)
    } else if lt >= 0 && gt >= 0 {
        if lt > gt {
            Err(ParseMailboxError::WrongOrderAngleBrackets)
        } else {
            match parse_address(s.subrange(lt + 1, gt)) {
                Err(e) => Err(ParseMailboxError::InvalidAddress(e)),
                Ok(a) => Ok(MailboxView { name: name_of_part(s.subrange(0, lt)), address: a }),
            }
        }
    } else if s.contains(' ') {
        Err(ParseMailboxError::MissingAngleBrackets)
    } else {
        match parse_address(s) {
            Err(e) => Err(ParseMailboxError::InvalidAddress(e)),
            Ok(a) => Ok(MailboxView { name: None, address: a }),
        }
    }
}

/// The text form of a mailbox: `name <address>`, or `<address>` without a name.
pub open spec fn mailbox_text(m: MailboxView) -> Seq<char> {
    let bracketed = seq!['<'] + address_text(m.address) + seq!['>'];
    match m.name {
        Some(n) => n + seq![' '] + bracketed,
        None => bracketed,
    }
}

/// The view of a mailbox result, with the error kept as it is.
pub open spec fn mailbox_result(r: Result<Mailbox, ParseMailboxError>) -> Result<
    MailboxView,
    ParseMailboxError,
> {
    match r {
        Ok(m) => Ok(m@),
        Err(e) => Err(e),
    }
}

fn owned_name(name: Option<&str>) -> (r: Option<String>)
    ensures
        match r {
            Some(n) => name_view(name) == Some(n@),
            None => name is None,
        },
{
    match name {
        Some(n) => Some(String::from_str(n)),
        None => None,
    }
}

impl Mailbox {
    /// Makes a mailbox from an optional display name and an address, checking
    /// the name where one is given.
    pub fn try_new(name: Option<&str>, address: Address) -> (r: Result<Mailbox, ParseMailboxError>)
        ensures
            mailbox_result(r) == mailbox_from_parts(name_view(name), address@),
    {
        match name {
            Some(n) => match validate_part(n) {
                Err(e) => return Err(ParseMailboxError::InvalidName(e)),
                Ok(_) => {},
            },
            None => {},
        }
        Ok(Mailbox { name: owned_name(name), address })
    }

    /// Makes a mailbox from an optional display name and an address without
    /// checking the name; it always succeeds.
    pub fn new_unchecked(name: Option<&str>, address: Address) -> (r: Result<
        Mailbox,
        ParseMailboxError,
    >)
        ensures
            mailbox_result(r) == Ok::<MailboxView, ParseMailboxError>(
                MailboxView { name: name_view(name), address: address@ },
            ),
    {
        Ok(Mailbox { name: owned_name(name), address })
    }

    /// Parses `name <user@domain>`, `<user@domain>` or a bare `user@domain`.
    pub fn parse(s: &str) -> (r: Result<Mailbox, ParseMailboxError>)
        ensures
            mailbox_result(r) == parse_mailbox(s@),
    {
        proof {
            lemma_first_index(s@, '<');
            lemma_first_index(s@, '>');
            lemma_first_index(s@, ' ');
        }
        match (find_first(s, '<'), find_first(s, '>')) {
            (None, Some(_)) => Err(ParseMailboxError::MissingOpeningAngleBracket),
            (Some(_), None) => Err(ParseMailboxError::MissingClosingAngleBracket),
            (Some(lt), Some(gt)) => {
                if lt > gt {
                    return Err(ParseMailboxError::WrongOrderAngleBrackets);
                }
                let address = match Address::parse(s.substring_char(lt + 1, gt)) {
                    Err(e) => return Err(ParseMailboxError::InvalidAddress(e)),
                    Ok(a) => a,
                };
                let name_part = trim(s.substring_char(0, lt));
                let name = if name_part.unicode_len() == 0 {
                    None
                } else {
                    Some(String::from_str(name_part))
                };
                Ok(Mailbox { name, address })
            },
            (None, None) => {
                if find_first(s, ' ').is_some() {
                    return Err(ParseMailboxError::MissingAngleBrackets);
                }
                match Address::parse(s) {
                    Err(e) => Err(ParseMailboxError::InvalidAddress(e)),
                    Ok(address) => Ok(Mailbox { name: None, address }),
                }
            },
        }
    }

    /// The text form: `name <user@domain>`, or `<user@domain>` without a name.
    pub fn to_string(&self) -> (r: String)
        ensures
            r@ == mailbox_text(self@),
    {
        let mut r = String::new();
        match &self.name {
            Some(n) => {
                r.append(n.as_str());
                r.append(" ");
            },
            None => {},
        }
        r.append("<");
        let a = self.address.to_string();
        r.append(a.as_str());
        r.append(">");
        proof {
            reveal_strlit(" ");
            reveal_strlit("<");
            reveal_strlit(">");
            let bracketed = seq!['<'] + address_text(self@.address) + seq!['>'];
            match self@.name {
                Some(n) => {
                    assert(r@ =~= n + seq![' '] + bracketed);
                },
                None => {
                    assert(r@ =~= bracketed);
                },
            }
        }
        r
    }
}

/// Round trip: the text of a mailbox whose name and address are acceptable
/// parses back to that same mailbox.
pub proof fn lemma_parse_mailbox_text(m: MailboxView)
    requires
        mailbox_from_parts(m.name, m.address) is Ok,
        address_from_parts(m.address.user, m.address.domain) is Ok,
    ensures
        parse_mailbox(mailbox_text(m)) == Ok::<MailboxView, ParseMailboxError>(m),
{
    let a = address_text(m.address);
    let bracketed = seq!['<'] + a + seq!['>'];
    let s = mailbox_text(m);
    let lead: Seq<char> = match m.name {
        Some(n) => n + seq![' '],
        None => Seq::empty(),
    };
    assert(s =~= lead + bracketed);
    let p = lead.len() as int;
    let q = p + 1 + a.len();
    assert forall|j: int| 0 <= j < p implies s[j] != '<' && s[j] != '>' by {
        let n = m.name->Some_0;
        if j < n.len() {
            assert(s[j] == n[j]);
            if is_forbidden(n[j]) {
                assert(has_forbidden(n));
            }
        }
    }
    assert forall|j: int| p < j < q implies s[j] != '>' && s[j] != '<' by {
        let k = j - p - 1;
        assert(s[j] == a[k]);
        let u = m.address.user;
        let d = m.address.domain;
        if k < u.len() {
            assert(a[k] == u[k]);
            if is_forbidden(u[k]) {
                assert(has_forbidden(u));
            }
        } else if k > u.len() {
            assert(a[k] == d[k - u.len() - 1]);
            if is_forbidden(d[k - u.len() - 1]) {
                assert(has_forbidden(d));
            }
        }
    }
    assert(s[p] == '<');
    assert(s[q] == '>');
    lemma_first_index_at(s, '<', p);
    lemma_first_index_at(s, '>', q);
    assert(s.subrange(p + 1, q) =~= a);
    lemma_parse_address_text(m.address.user, m.address.domain);
    assert(s.subrange(0, p) =~= lead);
    match m.name {
        Some(n) => {
            assert(!is_white(n[0])) by {
                if is_white(n[0]) {
                    assert(is_forbidden(n[0]));
                    assert(has_forbidden(n));
                }
            }
            assert(!is_white(n.last())) by {
                if is_white(n.last()) {
                    assert(is_forbidden(n[n.len() - 1]));
                    assert(has_forbidden(n));
                }
            }
            assert(lead[0] == n[0]);
            assert(trim_front(lead) == lead);
            assert(lead.drop_last() =~= n);
            assert(trim_back(lead) == trim_back(n));
            assert(trim_back(n) == n);
        },
        None => {},
    }
}

/// The pieces of `s` between commas, in order; text without a comma is one piece.
pub open spec fn comma_pieces(s: Seq<char>) -> Seq<Seq<char>>
    decreases s.len(),
{
    if s.len() == 0 {
        seq![Seq::empty()]
    } else {
        let p = comma_pieces(s.drop_last());
        if s.last() == ',' {
            p.push(Seq::empty())
        } else {
            p.update(p.len() - 1, p.last().push(s.last()))
        }
    }
}

/// There is always at least one piece.
pub proof fn lemma_comma_pieces_len(s: Seq<char>)
    ensures
        comma_pieces(s).len() >= 1,
    decreases s.len(),
{
    if s.len() > 0 {
        lemma_comma_pieces_len(s.drop_last());
    }
}

/// The mailboxes that the trimmed pieces give, in order, or the error of the
/// first piece that gives none.
pub open spec fn parse_pieces(pieces: Seq<Seq<char>>) -> Result<Seq<MailboxView>, ParseMailboxError>
    decreases pieces.len(),
{
    if pieces.len() == 0 {
        Ok(Seq::empty())
    } else {
        match parse_pieces(pieces.drop_last()) {
            Err(e) => Err(e),
            Ok(v) => match parse_mailbox(trimmed(pieces.last())) {
                Err(e) => Err(e),
                Ok(m) => Ok(v.push(m)),
            },
        }
    }
}

/// A failure among the first pieces is the failure of the whole.
pub proof fn lemma_parse_pieces_prefix_err(pieces: Seq<Seq<char>>, k: int)
    requires
        0 <= k <= pieces.len(),
        parse_pieces(pieces.subrange(0, k)) is Err,
    ensures
        parse_pieces(pieces) == parse_pieces(pieces.subrange(0, k)),
    decreases pieces.len() - k,
{
    if k < pieces.len() {
        let q = pieces.subrange(0, k + 1);
        assert(q.drop_last() =~= pieces.subrange(0, k));
        assert(q.subrange(0, k) =~= pieces.subrange(0, k));
        lemma_parse_pieces_prefix_err(pieces, k + 1);
    } else {
        assert(pieces.subrange(0, k) =~= pieces);
    }
}

/// What parsing `s` as a list gives: each comma-separated piece, trimmed, is
/// parsed as a mailbox.
pub open spec fn parse_mailbox_list(s: Seq<char>) -> Result<Seq<MailboxView>, ParseMailboxError> {
    parse_pieces(comma_pieces(s))
}

/// The text form of a list: the mailboxes' text forms joined by `, `.
pub open spec fn mailboxes_text(ms: Seq<MailboxView>) -> Seq<char>
    decreases ms.len(),
{
    if ms.len() == 0 {
        Seq::empty()
    } else if ms.len() == 1 {
        mailbox_text(ms[0])
    } else {
        mailboxes_text(ms.drop_last()) + seq![',', ' '] + mailbox_text(ms.last())
    }
}

/// Splits `s` at every comma.
pub fn split_commas(s: &str) -> (r: Vec<&str>)
    ensures
        r@.map_values(|p: &str| p@) == comma_pieces(s@),
{
    let n = s.unicode_len();
    let mut r: Vec<&str> = Vec::new();
    let mut start: usize = 0;
    let mut i: usize = 0;
    assert(s@.subrange(0, 0) =~= Seq::<char>::empty());
    assert(r@.map_values(|p: &str| p@).push(s@.subrange(0, 0)) =~= seq![Seq::<char>::empty()]);
    while i < n
        invariant
            n == s@.len(),
            start <= i <= n,
            comma_pieces(s@.subrange(0, i as int)) == r@.map_values(|p: &str| p@).push(
                s@.subrange(start as int, i as int),
            ),
        decreases n - i,
    {
        let ghost pre = s@.subrange(0, i as int);
        let ghost next = s@.subrange(0, i + 1);
        assert(next.drop_last() =~= pre);
        proof {
            lemma_comma_pieces_len(pre);
        }
        let c = s.get_char(i);
        if c == ',' {
            let piece = s.substring_char(start, i);
            r.push(piece);
            start = i + 1;
            assert(s@.subrange(start as int, i + 1) =~= Seq::<char>::empty());
        } else {
            assert(s@.subrange(start as int, i + 1) =~= s@.subrange(start as int, i as int).push(
                c,
            ));
        }
        i = i + 1;
        assert(comma_pieces(s@.subrange(0, i as int)) =~= r@.map_values(|p: &str| p@).push(
            s@.subrange(start as int, i as int),
        ));
    }
    let last = s.substring_char(start, n);
    r.push(last);
    assert(s@.subrange(0, n as int) =~= s@);
    assert(r@.map_values(|p: &str| p@) =~= comma_pieces(s@));
    r
}

/// A list of mailboxes, in order.
#[derive(Clone, Debug)]
pub struct Mailboxes(pub Vec<Mailbox>);

impl View for Mailboxes {
    type V = Seq<MailboxView>;

    open spec fn view(&self) -> Seq<MailboxView> {
        self.0@.map_values(|m: Mailbox| m@)
    }
}

/// The view of a list result, with the error kept as it is.
pub open spec fn mailboxes_result(r: Result<Mailboxes, ParseMailboxError>) -> Result<
    Seq<MailboxView>,
    ParseMailboxError,
> {
    match r {
        Ok(m) => Ok(m@),
        Err(e) => Err(e),
    }
}

impl Mailboxes {
    /// Parses a comma-separated list of mailboxes; the first piece that is no
    /// mailbox decides the error.
    pub fn parse(s: &str) -> (r: Result<Mailboxes, ParseMailboxError>)
        ensures
            mailboxes_result(r) == parse_mailbox_list(s@),
    {
        let pieces = split_commas(s);
        let ghost ps = pieces@.map_values(|p: &str| p@);
        let mut out: Vec<Mailbox> = Vec::new();
        let mut j: usize = 0;
        assert(ps.subrange(0, 0) =~= Seq::<Seq<char>>::empty());
        assert(out@.map_values(|m: Mailbox| m@) =~= Seq::<MailboxView>::empty());
        while j < pieces.len()
            invariant
                ps == pieces@.map_values(|p: &str| p@),
                ps == comma_pieces(s@),
                j <= pieces.len(),
                parse_pieces(ps.subrange(0, j as int)) == Ok::<
                    Seq<MailboxView>,
                    ParseMailboxError,
                >(out@.map_values(|m: Mailbox| m@)),
            decreases pieces.len() - j,
        {
            let ghost q = ps.subrange(0, j + 1);
            assert(q.drop_last() =~= ps.subrange(0, j as int));
            assert(q.last() == pieces@[j as int]@);
            match Mailbox::parse(trim(pieces[j])) {
                Err(e) => {
                    proof {
                        lemma_parse_pieces_prefix_err(ps, j + 1);
                    }
                    return Err(e);
                },
                Ok(m) => {
                    out.push(m);
                },
            }
            j = j + 1;
            assert(out@.map_values(|m: Mailbox| m@) =~= parse_pieces(q)->Ok_0);
        }
        assert(ps.subrange(0, j as int) =~= ps);
        Ok(Mailboxes(out))
    }

    /// The one-element list that holds `mailbox`.
    pub fn from_single(mailbox: Mailbox) -> (r: Mailboxes)
        ensures
            r@ == seq![mailbox@],
    {
        let r = Mailboxes(vec![mailbox]);
        assert(r@ =~= seq![r.0@[0]@]);
        r
    }

    /// The text form: each mailbox's text form, joined by `, `.
    pub fn to_string(&self) -> (r: String)
        ensures
            r@ == mailboxes_text(self@),
    {
        let mut r = String::new();
        let mut i: usize = 0;
        while i < self.0.len()
            invariant
                r@ == mailboxes_text(self@.subrange(0, i as int)),
                i <= self.0.len(),
                self@.len() == self.0@.len(),
            decreases self.0.len() - i,
        {
            let ghost q = self@.subrange(0, i + 1);
            let ghost before = r@;
            assert(q.drop_last() =~= self@.subrange(0, i as int));
            assert(q.last() == self.0@[i as int]@);
            if i > 0 {
                r.append(", ");
                proof {
                    reveal_strlit(", ");
                    assert(", "@ =~= seq![',', ' ']);
                }
            }
            let t = self.0[i].to_string();
            r.append(t.as_str());
            i = i + 1;
            if i == 1 {
                assert(r@ =~= mailbox_text(q[0]));
            } else {
                assert(r@ =~= before + seq![',', ' '] + mailbox_text(q.last()));
            }
        }
        assert(self@.subrange(0, i as int) =~= self@);
        r
    }
}

impl core::str::FromStr for Mailbox {
    type Err = ParseMailboxError;

    fn from_str(s: &str) -> Result<Mailbox, ParseMailboxError> {
        Mailbox::parse(s)
    }
}

impl core::str::FromStr for Mailboxes {
    type Err = ParseMailboxError;

    fn from_str(s: &str) -> Result<Mailboxes, ParseMailboxError> {
        Mailboxes::parse(s)
    }
}

} // verus!
