//! A mail as one record of text fields, for output.

use crate::client::{attachment_names, names_of, Mail, MailView};
use crate::datetime::rfc3339_text;
use crate::text::{join, joined};
use vstd::prelude::*;

verus! {

/// One found mail, each field as text: lists are joined by line feeds, the
/// date is in the form of RFC 3339.
#[derive(Debug)]
pub struct SearchResult {
    pub id: u32,
    pub subject: String,
    pub from: String,
    pub to: String,
    pub cc: String,
    pub date: String,
    pub attachments: String,
}

/// A record as a value of specifications.
pub struct SearchResultView {
    pub id: u32,
    pub subject: Seq<char>,
    pub from: Seq<char>,
    pub to: Seq<char>,
    pub cc: Seq<char>,
    pub date: Seq<char>,
    pub attachments: Seq<char>,
}

impl View for SearchResult {
    type V = SearchResultView;

    open spec fn view(&self) -> SearchResultView {
        SearchResultView {
            id: self.id,
            subject: self.subject@,
            from: self.from@,
            to: self.to@,
            cc: self.cc@,
            date: self.date@,
            attachments: self.attachments@,
        }
    }
}

/// The record of the mail `mail`.
pub open spec fn record_of(mail: MailView) -> SearchResultView {
    SearchResultView {
        id: mail.uid,
        subject: mail.subject,
        from: mail.from,
        to: joined(mail.to, "\n"@),
        cc: joined(mail.cc, "\n"@),
        date: rfc3339_text(mail.internal_date.secs(), mail.internal_date.offset_secs()),
        attachments: joined(attachment_names(mail.attachments), "\n"@),
    }
}

impl SearchResult {
    /// The record of `mail`.
    pub fn from_mail(mail: Mail) -> (r: SearchResult)
        ensures
            r@ == record_of(mail@),
    {
        let to = join(&mail.to, "\n");
        let cc = join(&mail.cc, "\n");
        let date = mail.internal_date.to_rfc3339();
        let names = names_of(&mail.attachments);
        let attachments = join(&names, "\n");
        SearchResult {
            id: mail.uid,
            subject: mail.subject,
            from: mail.from,
            to,
            cc,
            date,
            attachments,
        }
    }
}

} // verus!
