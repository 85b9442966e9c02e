//! Reading the bytes of a message as MIME: header fields and part bodies.

use crate::text::{eq_ignore_ascii_case, same_ignoring_ascii_case};
use vstd::prelude::*;

verus! {

/// The error of the mailparse crate. Nothing is read from it.
#[verifier::external_type_specification]
#[verifier::external_body]
pub struct ExMailParseError(mailparse::MailParseError);

/// One header field: its name, and its value with encoded words resolved.
#[derive(Debug)]
pub struct Header {
    pub name: String,
    pub value: String,
}

impl View for Header {
    type V = (Seq<char>, Seq<char>);

    open spec fn view(&self) -> (Seq<char>, Seq<char>) {
        (self.name@, self.value@)
    }
}

/// The name and value of each of `headers`.
pub open spec fn header_views(headers: Seq<Header>) -> Seq<(Seq<char>, Seq<char>)> {
    headers.map_values(|h: Header| h@)
}

/// One part under the top of a message: its header fields, and its body
/// with the transfer encoding undone, where that can be undone.
#[derive(Debug)]
pub struct Part {
    pub headers: Vec<Header>,
    pub body: Option<Vec<u8>>,
}

impl View for Part {
    type V = (Seq<(Seq<char>, Seq<char>)>, Option<Seq<u8>>);

    open spec fn view(&self) -> (Seq<(Seq<char>, Seq<char>)>, Option<Seq<u8>>) {
        (
            header_views(self.headers@),
            match self.body {
                Some(b) => Some(b@),
                None => None,
            },
        )
    }
}

/// What each of `parts` holds.
pub open spec fn part_views(parts: Seq<Part>) -> Seq<
    (Seq<(Seq<char>, Seq<char>)>, Option<Seq<u8>>),
> {
    parts.map_values(|p: Part| p@)
}

/// The header fields at the top of the message `raw`, in their order, each
/// with its name and its decoded value, as mailparse reads them; `None`
/// where mailparse cannot read `raw`.
pub uninterp spec fn parsed_headers(raw: Seq<u8>) -> Option<Seq<(Seq<char>, Seq<char>)>>;

/// The text of the first part under the top of the message `raw`, as
/// mailparse reads it: `None` where mailparse cannot read `raw`, `Some(None)`
/// where the message has no parts, `Some(Some(None))` where the body of its
/// first part cannot be decoded.
pub uninterp spec fn parsed_first_part_text(raw: Seq<u8>) -> Option<Option<Option<Seq<char>>>>;

/// The parts directly under the top of the message `raw`, in their order,
/// as mailparse reads them: for each its header fields and its body, the
/// body `None` where its transfer encoding cannot be undone. `None` where
/// mailparse cannot read `raw`.
pub uninterp spec fn parsed_parts(raw: Seq<u8>) -> Option<
    Seq<(Seq<(Seq<char>, Seq<char>)>, Option<Seq<u8>>)>,
>;

/// The decoded value of the header field that the line `line` holds, as
/// mailparse reads it; `None` where mailparse reads no field from it.
pub uninterp spec fn parsed_header_value(line: Seq<u8>) -> Option<Seq<char>>;

/// `mailparse::parse_mail`, then `get_key` and `get_value` of each header
/// field at the top. Claimed: whether the bytes can be read, and the fields
/// read, are a function of the bytes.
#[verifier::external_body]
pub(crate) fn read_headers(raw: &[u8]) -> (r: Result<Vec<Header>, mailparse::MailParseError>)
    ensures
        r is Ok <==> parsed_headers(raw@) is Some,
        r matches Ok(hs) ==> header_views(hs@) == parsed_headers(raw@)->0,
{
    let mail = mailparse::parse_mail(raw)?;
    Ok(mail.headers.iter().map(|h| Header { name: h.get_key(), value: h.get_value() }).collect())
}

/// `mailparse::parse_mail`, then `get_body` of the first part. Claimed:
/// whether the bytes can be read, whether there is a part, and its text,
/// are a function of the bytes.
#[verifier::external_body]
pub(crate) fn read_first_part_text(raw: &[u8]) -> (r: Result<
    Option<Option<String>>,
    mailparse::MailParseError,
>)
    ensures
        r is Ok <==> parsed_first_part_text(raw@) is Some,
        r matches Ok(t) ==> parsed_first_part_text(raw@)->0 == match t {
            None => None::<Option<Seq<char>>>,
            Some(None) => Some(None::<Seq<char>>),
            Some(Some(s)) => Some(Some(s@)),
        },
{
    let mail = mailparse::parse_mail(raw)?;
    Ok(mail.subparts.first().map(|p| p.get_body().ok()))
}

/// `mailparse::parse_mail`, then for each part directly under the top
/// `get_key` and `get_value` of its header fields and `get_body_raw`.
/// Claimed: whether the bytes can be read, and what the parts hold, are a
/// function of the bytes.
#[verifier::external_body]
pub(crate) fn read_parts(raw: &[u8]) -> (r: Result<Vec<Part>, mailparse::MailParseError>)
    ensures
        r is Ok <==> parsed_parts(raw@) is Some,
        r matches Ok(ps) ==> part_views(ps@) == parsed_parts(raw@)->0,
{
    let mail = mailparse::parse_mail(raw)?;
    Ok(
        mail.subparts.iter().map(
            |p|
                Part {
                    headers: p.headers.iter().map(
                        |h| Header { name: h.get_key(), value: h.get_value() },
                    ).collect(),
                    body: p.get_body_raw().ok(),
                },
        ).collect(),
    )
}

/// `mailparse::parse_header`, then `get_value` of the field. Claimed:
/// whether a field is read, and its decoded value, are a function of the
/// bytes.
#[verifier::external_body]
pub(crate) fn read_header_value(line: &[u8]) -> (r: Result<String, mailparse::MailParseError>)
    ensures
        r is Ok <==> parsed_header_value(line@) is Some,
        r matches Ok(v) ==> v@ == parsed_header_value(line@)->0,
{
    let (header, _) = mailparse::parse_header(line)?;
    Ok(header.get_value())
}

/// The value of the first of `headers` whose name is `name`, the letters of
/// ASCII taken in either case.
pub open spec fn first_value(headers: Seq<(Seq<char>, Seq<char>)>, name: Seq<char>) -> Option<
    Seq<char>,
>
    decreases headers.len(),
{
    if headers.len() == 0 {
        None
    } else if same_ignoring_ascii_case(headers.first().0, name) {
        Some(headers.first().1)
    } else {
        first_value(headers.drop_first(), name)
    }
}

/// Looks up the first of `headers` whose name is `name`, the letters of
/// ASCII taken in either case.
pub fn get_first_value<'a>(headers: &'a Vec<Header>, name: &str) -> (r: Option<&'a String>)
    ensures
        r is Some <==> first_value(header_views(headers@), name@) is Some,
        r matches Some(v) ==> v@ == first_value(header_views(headers@), name@)->0,
{
    let ghost all = header_views(headers@);
    let mut at: usize = 0;
    assert(all.skip(0) =~= all);
    while at < headers.len()
        invariant
            all == header_views(headers@),
            at <= headers.len(),
            first_value(all, name@) == first_value(all.skip(at as int), name@),
        decreases headers.len() - at,
    {
        let ghost rest = all.skip(at as int);
        assert(rest.first() == headers@[at as int]@);
        assert(rest.drop_first() =~= all.skip(at + 1));
        if eq_ignore_ascii_case(headers[at].name.as_str(), name) {
            return Some(&headers[at].value);
        }
        at += 1;
    }
    None
}

} // verus!
