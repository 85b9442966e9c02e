//! Folders, queries and the mails that a query yields.

use crate::datetime::{DateTime, DateWindow, DEFAULT_END_TIMESTAMP};
use crate::download::{download, downloaded, file_views, lists, File};
use crate::engine::{
    lemma_failure_stays, lemma_selected_mails_pass, selected, FetchedMessage, Search,
};
use crate::error::SearchError;
use crate::matcher::{regex_compiles, subject_passes, SubjectMatcher};
use crate::mime::{
    first_value, get_first_value, header_views, parsed_first_part_text, parsed_header_value,
    parsed_headers, read_first_part_text, read_header_value, read_headers, Header,
};
use crate::order::{lemma_ordered_holds_the_same, ordered};
use crate::text::{same_text, split_trimmed, trimmed_pieces, views_of};
use crate::utf7::{decode, decoded_name, is_well_formed};
use vstd::prelude::*;
use vstd::string::*;

verus! {

/// What is known of an attachment without fetching it.
#[derive(Debug)]
pub struct Attachment {
    pub name: String,
    pub size: Option<u32>,
}

/// An attachment as a value of specifications.
pub struct AttachmentView {
    pub name: Seq<char>,
    pub size: Option<u32>,
}

impl View for Attachment {
    type V = AttachmentView;

    open spec fn view(&self) -> AttachmentView {
        AttachmentView { name: self.name@, size: self.size }
    }
}

/// What each of `attachments` holds.
pub open spec fn attachment_views(attachments: Seq<Attachment>) -> Seq<AttachmentView> {
    attachments.map_values(|a: Attachment| a@)
}

/// The name of each of `attachments`.
pub open spec fn attachment_names(attachments: Seq<AttachmentView>) -> Seq<Seq<char>> {
    attachments.map_values(|a: AttachmentView| a.name)
}

/// The file name that the parameter value `raw` states: `raw` set behind
/// `Subject: ` and read as the value of that header field, so that encoded
/// words are resolved as in any header; `raw` itself where no field is read.
pub open spec fn decoded_file_name(raw: Seq<char>) -> Seq<char> {
    match parsed_header_value(vstd::utf8::encode_utf8("Subject: "@ + raw)) {
        Some(name) => name,
        None => raw,
    }
}

impl Attachment {
    /// The attachment with the file name that `name` states and the size
    /// `size`.
    pub fn new(name: String, size: Option<u32>) -> (a: Attachment)
        ensures
            a@.name == decoded_file_name(name@),
            a@.size == size,
    {
        let line = String::from_str("Subject: ").concat(name.as_str());
        let decoded = match read_header_value(line.as_str().as_bytes()) {
            Ok(value) => value,
            Err(_) => name,
        };
        Attachment { name: decoded, size }
    }
}

/// One mail of a folder, as it was when it was fetched.
#[derive(Debug)]
pub struct Mail {
    pub subject: String,
    pub from: String,
    pub to: Vec<String>,
    pub cc: Vec<String>,
    pub uid: u32,
    pub body: String,
    pub internal_date: DateTime,
    pub attachments: Vec<Attachment>,
}

/// A mail as a value of specifications.
pub struct MailView {
    pub subject: Seq<char>,
    pub from: Seq<char>,
    pub to: Seq<Seq<char>>,
    pub cc: Seq<Seq<char>>,
    pub uid: u32,
    pub body: Seq<char>,
    pub internal_date: DateTime,
    pub attachments: Seq<AttachmentView>,
}

impl View for Mail {
    type V = MailView;

    open spec fn view(&self) -> MailView {
        MailView {
            subject: self.subject@,
            from: self.from@,
            to: views_of(self.to@),
            cc: views_of(self.cc@),
            uid: self.uid,
            body: self.body@,
            internal_date: self.internal_date,
            attachments: attachment_views(self.attachments@),
        }
    }
}

/// What each of `mails` holds.
pub open spec fn mail_views(mails: Seq<Mail>) -> Seq<MailView> {
    mails.map_values(|m: Mail| m@)
}

/// The value of the header field `name`; the empty text where there is none.
pub open spec fn header_text(headers: Seq<(Seq<char>, Seq<char>)>, name: Seq<char>) -> Seq<char> {
    match first_value(headers, name) {
        Some(v) => v,
        None => Seq::empty(),
    }
}

/// The addresses of the header field `name`: its value cut at each comma,
/// each piece trimmed. No address where there is no such field. A comma
/// inside a quoted display name cuts like any other.
pub open spec fn address_list(headers: Seq<(Seq<char>, Seq<char>)>, name: Seq<char>) -> Seq<
    Seq<char>,
> {
    match first_value(headers, name) {
        Some(v) => trimmed_pieces(v, ','),
        None => Seq::empty(),
    }
}

/// The body of a mail whose text part was read as `text`: the text of the
/// first part, empty where there is no part or its body cannot be decoded.
pub open spec fn body_text(text: Option<Option<Seq<char>>>) -> Seq<char> {
    match text {
        Some(Some(t)) => t,
        _ => Seq::empty(),
    }
}

/// The mail with the number `uid`, received at `received_at`, whose header
/// fields are `headers` and whose text part was read as `text`. It has no
/// attachments yet.
pub open spec fn assembled(
    uid: u32,
    received_at: DateTime,
    headers: Seq<(Seq<char>, Seq<char>)>,
    text: Option<Option<Seq<char>>>,
) -> MailView {
    MailView {
        subject: header_text(headers, "Subject"@),
        from: header_text(headers, "From"@),
        to: address_list(headers, "To"@),
        cc: address_list(headers, "CC"@),
        uid,
        body: body_text(text),
        internal_date: received_at,
        attachments: Seq::empty(),
    }
}

/// The mail that the header bytes `raw_headers` and the text bytes
/// `raw_text` decode to; an error where either cannot be read as MIME.
pub open spec fn decoded(
    uid: u32,
    received_at: DateTime,
    raw_headers: Seq<u8>,
    raw_text: Seq<u8>,
) -> Result<MailView, SearchError> {
    match (parsed_headers(raw_headers), parsed_first_part_text(raw_text)) {
        (Some(headers), Some(text)) => Ok(assembled(uid, received_at, headers, text)),
        _ => Err(SearchError::MalformedMessage),
    }
}

/// What `text` holds, as a value of specifications.
pub open spec fn text_view(text: Option<Option<String>>) -> Option<Option<Seq<char>>> {
    match text {
        None => None,
        Some(None) => Some(None),
        Some(Some(s)) => Some(Some(s@)),
    }
}

/// The value of the header field `name` as a string, empty where there is
/// none.
fn header_string(headers: &Vec<Header>, name: &str) -> (r: String)
    ensures
        r@ == header_text(header_views(headers@), name@),
{
    match get_first_value(headers, name) {
        Some(v) => v.clone(),
        None => String::new(),
    }
}

/// The addresses of the header field `name`.
fn header_addresses(headers: &Vec<Header>, name: &str) -> (r: Vec<String>)
    ensures
        views_of(r@) == address_list(header_views(headers@), name@),
{
    match get_first_value(headers, name) {
        Some(v) => split_trimmed(v.as_str(), ','),
        None => {
            let r: Vec<String> = Vec::new();
            assert(views_of(r@) =~= Seq::empty());
            r
        },
    }
}

impl Mail {
    /// Puts a mail together from header fields and a text part that were
    /// read already.
    pub fn from_parts(
        uid: u32,
        received_at: DateTime,
        headers: &Vec<Header>,
        text: Option<Option<String>>,
    ) -> (mail: Mail)
        ensures
            mail@ == assembled(uid, received_at, header_views(headers@), text_view(text)),
    {
        let body = match text {
            Some(Some(t)) => t,
            _ => String::new(),
        };
        let attachments: Vec<Attachment> = Vec::new();
        assert(attachment_views(attachments@) =~= Seq::empty());
        Mail {
            subject: header_string(headers, "Subject"),
            from: header_string(headers, "From"),
            to: header_addresses(headers, "To"),
            cc: header_addresses(headers, "CC"),
            uid,
            body,
            internal_date: received_at,
            attachments,
        }
    }

    /// Decodes the header bytes and the text bytes of a message into a mail
    /// without attachments.
    pub fn decode(uid: u32, received_at: DateTime, raw_headers: &[u8], raw_text: &[u8]) -> (r:
        Result<Mail, SearchError>)
        ensures
            r is Ok <==> decoded(uid, received_at, raw_headers@, raw_text@) is Ok,
            r matches Ok(mail) ==> mail@ == decoded(
                uid,
                received_at,
                raw_headers@,
                raw_text@,
            )->Ok_0,
            r matches Err(e) ==> e == SearchError::MalformedMessage,
    {
        let headers = match read_headers(raw_headers) {
            Ok(headers) => headers,
            Err(_) => { return Err(SearchError::MalformedMessage); },
        };
        let text = match read_first_part_text(raw_text) {
            Ok(text) => text,
            Err(_) => { return Err(SearchError::MalformedMessage); },
        };
        Ok(Mail::from_parts(uid, received_at, &headers, text))
    }
}

/// A query on one folder: the subject pattern, the date window and the
/// order of the result.
#[derive(Debug)]
pub struct MailFilter {
    pub subject_pattern: String,
    pub start_datetime: DateTime,
    pub end_datetime: DateTime,
    pub regex: bool,
    pub reverse: bool,
}

impl MailFilter {
    /// The pattern can be used: it is a literal, or it compiles.
    pub open spec fn is_valid(self) -> bool {
        self.regex ==> regex_compiles(self.subject_pattern@)
    }

    /// The window from the start to the end of the query.
    pub open spec fn date_window(self) -> DateWindow {
        DateWindow { start: self.start_datetime, end: self.end_datetime }
    }

    /// The text of the search that the server is asked for: the mails of
    /// the days from the day of the start to the day of the end.
    pub open spec fn query_text(self) -> Seq<char> {
        self.date_window().coarse().text()
    }

    /// The result of the query on the fetched `messages`: an error where
    /// the pattern cannot be used or the search fails on a message, else
    /// the accepted mails in the order asked for.
    pub open spec fn found(self, messages: Seq<FetchedMessage>) -> Result<
        Seq<MailView>,
        SearchError,
    > {
        if !self.is_valid() {
            Err(SearchError::InvalidPattern)
        } else {
            match selected(self.date_window(), self.subject_pattern@, self.regex, messages) {
                Err(e) => Err(e),
                Ok(mails) => Ok(ordered(mails, self.reverse)),
            }
        }
    }

    /// Sets the end of the window.
    pub fn end_date(&mut self, end_datetime: DateTime) -> (r: &mut Self)
        ensures
            *r == (MailFilter { end_datetime, ..*old(self) }),
            *final(self) == *final(r),
    {
        self.end_datetime = end_datetime;
        self
    }

    /// Sets whether the pattern is a regular expression.
    pub fn regex(&mut self, regex: bool) -> (r: &mut Self)
        ensures
            *r == (MailFilter { regex, ..*old(self) }),
            *final(self) == *final(r),
    {
        self.regex = regex;
        self
    }

    /// Sets whether the result is turned round, oldest first.
    pub fn reverse(&mut self, reverse: bool) -> (r: &mut Self)
        ensures
            *r == (MailFilter { reverse, ..*old(self) }),
            *final(self) == *final(r),
    {
        self.reverse = reverse;
        self
    }

    /// The window from the start to the end of the query.
    pub fn window(&self) -> (w: DateWindow)
        ensures
            w == self.date_window(),
    {
        DateWindow::between(self.start_datetime, self.end_datetime)
    }

    /// The test on subjects; `InvalidPattern` where the pattern is to be a
    /// regular expression and does not compile.
    pub fn matcher(&self) -> (r: Result<SubjectMatcher, SearchError>)
        ensures
            r is Ok <==> self.is_valid(),
            r matches Ok(m) ==> m.is_regex() == self.regex && m.pattern_text()
                == self.subject_pattern@,
            r matches Err(e) ==> e == SearchError::InvalidPattern,
    {
        SubjectMatcher::new(self.subject_pattern.as_str(), self.regex)
    }

    /// The text of the search that the server is asked for.
    pub fn search_query(&self) -> (r: String)
        ensures
            r@ == self.query_text(),
    {
        self.window().coarse_query().search_text()
    }

    /// The numbers of the messages to fetch, given what the search brought:
    /// none where the search failed.
    pub fn candidates(found: Option<Vec<u32>>) -> (uids: Vec<u32>)
        ensures
            uids@ == match found {
                Some(list) => list@,
                None => Seq::<u32>::empty(),
            },
    {
        match found {
            Some(list) => list,
            None => Vec::new(),
        }
    }

    /// Starts a search with this query, before any message was fetched;
    /// `InvalidPattern` where the pattern is to be a regular expression and
    /// does not compile.
    pub fn begin(&self) -> (r: Result<Search, SearchError>)
        ensures
            r is Ok <==> self.is_valid(),
            r matches Ok(search) ==> search.window() == self.date_window() && search.pattern()
                == self.subject_pattern@ && search.is_regex() == self.regex && search.is_reverse()
                == self.reverse && search.seen().len() == 0,
            r matches Err(e) ==> e == SearchError::InvalidPattern,
    {
        match self.matcher() {
            Ok(matcher) => Ok(Search::new(self.window(), matcher, self.reverse)),
            Err(e) => Err(e),
        }
    }

    /// The result of the query on the fetched `messages`.
    pub fn fetch(&self, messages: &Vec<FetchedMessage>) -> (r: Result<Vec<Mail>, SearchError>)
        ensures
            r is Ok <==> self.found(messages@) is Ok,
            r matches Ok(mails) ==> mail_views(mails@) == self.found(messages@)->Ok_0,
            r matches Err(e) ==> self.found(messages@) == Err::<Seq<MailView>, SearchError>(e),
    {
        let mut search = match self.begin() {
            Ok(search) => search,
            Err(e) => { return Err(e); },
        };
        let mut at: usize = 0;
        assert(messages@.take(0) =~= search.seen());
        while at < messages.len()
            invariant
                at <= messages.len(),
                self.is_valid(),
                search.window() == self.date_window(),
                search.pattern() == self.subject_pattern@,
                search.is_regex() == self.regex,
                search.is_reverse() == self.reverse,
                search.seen() == messages@.take(at as int),
            decreases messages.len() - at,
        {
            proof {
                assert(messages@.take(at + 1).drop_last() =~= messages@.take(at as int));
                assert(messages@.take(at + 1) =~= messages@.take(at as int).push(
                    messages@[at as int],
                ));
            }
            search = match search.step(&messages[at]) {
                Ok(next) => next,
                Err(e) => {
                    proof {
                        lemma_failure_stays(
                            self.date_window(),
                            self.subject_pattern@,
                            self.regex,
                            messages@,
                            at + 1,
                        );
                    }
                    return Err(e);
                },
            };
            at += 1;
        }
        assert(messages@.take(at as int) =~= messages@);
        Ok(search.finish())
    }
}

/// What the server reports of a folder when it is selected. It is shown
/// and decides nothing.
#[derive(Debug)]
pub struct MailBoxStatus {
    pub flags: Vec<String>,
    pub exists: u32,
    pub recent: u32,
    pub unseen: Option<u32>,
    pub permanent_flags: Vec<String>,
    pub uid_next: Option<u32>,
    pub uid_validity: Option<u32>,
}

/// A folder of the account, under its decoded name.
#[derive(Debug)]
pub struct MailBox {
    name: String,
    encoded_name: String,
    status: MailBoxStatus,
}

impl MailBox {
    /// The decoded name of the folder.
    pub closed spec fn name_text(self) -> Seq<char> {
        self.name@
    }

    /// The name of the folder as the server lists it, in modified UTF-7.
    pub closed spec fn encoded_text(self) -> Seq<char> {
        self.encoded_name@
    }

    /// What the server reported of the folder.
    pub closed spec fn reported(self) -> MailBoxStatus {
        self.status
    }

    /// The folder that the server lists as `encoded_name`, in modified UTF-7;
    /// `None` where that is not well-formed.
    pub fn new(encoded_name: &str, status: MailBoxStatus) -> (r: Option<MailBox>)
        ensures
            r is Some <==> is_well_formed(encoded_name@),
            r matches Some(b) ==> b.name_text() == decoded_name(encoded_name@) && b.encoded_text()
                == encoded_name@ && b.reported() == status,
    {
        match decode(encoded_name) {
            Some(name) => Some(MailBox { name, encoded_name: encoded_name.to_owned(), status }),
            None => None,
        }
    }

    /// The name of the folder as the server lists it, to select it by.
    pub fn encoded_name(&self) -> (r: &str)
        ensures
            r@ == self.encoded_text(),
    {
        self.encoded_name.as_str()
    }

    /// The decoded name of the folder.
    pub fn name(&self) -> (r: &str)
        ensures
            r@ == self.name_text(),
    {
        self.name.as_str()
    }

    /// What the server reported of the folder.
    pub fn status(&self) -> (r: &MailBoxStatus)
        ensures
            *r == self.reported(),
    {
        &self.status
    }

    /// The query for the mails of this folder from `start_datetime` on
    /// whose subject contains `subject_pattern`: the window ends at
    /// 9999-12-01T00:00:00Z, the pattern is a literal and the newest mail
    /// comes first, until the query is told otherwise.
    pub fn filter(&self, subject_pattern: &str, start_datetime: DateTime) -> (f: MailFilter)
        ensures
            f.subject_pattern@ == subject_pattern@,
            f.start_datetime == start_datetime,
            f.end_datetime.secs() == DEFAULT_END_TIMESTAMP,
            f.end_datetime.offset_secs() == 0,
            !f.regex,
            !f.reverse,
    {
        MailFilter {
            subject_pattern: subject_pattern.to_owned(),
            start_datetime,
            end_datetime: DateTime::default_end(),
            regex: false,
            reverse: false,
        }
    }

    /// The files attached to the message whose full bytes are `message`,
    /// each name once; `None` where the bytes cannot be read as MIME or a
    /// file cannot be had from a part that declares one.
    pub fn download(&self, message: &[u8]) -> (r: Option<Vec<File>>)
        ensures
            r is Some <==> downloaded(message@) is Some,
            r matches Some(files) ==> lists(file_views(files@), downloaded(message@)->0),
    {
        download(message)
    }
}

/// The account as it was listed: its folders, in the order of the listing.
#[derive(Debug)]
pub struct Client {
    mail_boxes: Vec<MailBox>,
}

impl Client {
    /// The folders of the account.
    pub closed spec fn folders(self) -> Seq<MailBox> {
        self.mail_boxes@
    }

    /// The account has a folder whose decoded name is exactly `name`.
    pub open spec fn has_folder(self, name: Seq<char>) -> bool {
        exists|i: int|
            0 <= i < self.folders().len() && (#[trigger] self.folders()[i]).name_text() == name
    }

    /// The account with the folders `mail_boxes`.
    pub fn new(mail_boxes: Vec<MailBox>) -> (c: Client)
        ensures
            c.folders() == mail_boxes@,
    {
        Client { mail_boxes }
    }

    /// The folders of the account, in the order of the listing.
    pub fn mail_boxes(&self) -> (r: &Vec<MailBox>)
        ensures
            r@ == self.folders(),
    {
        &self.mail_boxes
    }

    /// The first folder whose decoded name is exactly `mail_box_name`.
    pub fn get(&self, mail_box_name: &str) -> (r: Option<&MailBox>)
        ensures
            match r {
                Some(b) => exists|i: int|
                    0 <= i < self.folders().len() && #[trigger] self.folders()[i] == *b
                        && b.name_text() == mail_box_name@ && forall|j: int|
                        0 <= j < i ==> (#[trigger] self.folders()[j]).name_text()
                            != mail_box_name@,
                None => forall|j: int|
                    0 <= j < self.folders().len() ==> (#[trigger] self.folders()[j]).name_text()
                        != mail_box_name@,
            },
    {
        let mut at: usize = 0;
        while at < self.mail_boxes.len()
            invariant
                at <= self.mail_boxes.len(),
                forall|j: int|
                    0 <= j < at ==> (#[trigger] self.mail_boxes@[j]).name_text()
                        != mail_box_name@,
            decreases self.mail_boxes.len() - at,
        {
            if same_text(self.mail_boxes[at].name.as_str(), mail_box_name) {
                assert(self.folders()[at as int] == self.mail_boxes@[at as int]);
                return Some(&self.mail_boxes[at]);
            }
            at += 1;
        }
        None
    }

    /// The query that a search is set up with: on the folder `mail_box`,
    /// for `subject_pattern` from `start_datetime` to `end_datetime`. It
    /// fails with `InvalidPattern` where the pattern is to be a regular
    /// expression and does not compile, else with `FolderNotFound` where no
    /// folder has that name.
    pub fn query(
        &self,
        mail_box: &str,
        subject_pattern: &str,
        start_datetime: DateTime,
        end_datetime: DateTime,
        regex: bool,
        reverse: bool,
    ) -> (r: Result<MailFilter, SearchError>)
        ensures
            r is Ok <==> (regex ==> regex_compiles(subject_pattern@)) && self.has_folder(mail_box@),
            r matches Ok(f) ==> f.subject_pattern@ == subject_pattern@ && f.start_datetime
                == start_datetime && f.end_datetime == end_datetime && f.regex == regex
                && f.reverse == reverse,
            r matches Err(e) ==> e == if regex && !regex_compiles(subject_pattern@) {
                SearchError::InvalidPattern
            } else {
                SearchError::FolderNotFound
            },
    {
        match SubjectMatcher::new(subject_pattern, regex) {
            Ok(_) => {},
            Err(e) => { return Err(e); },
        }
        match self.get(mail_box) {
            None => Err(SearchError::FolderNotFound),
            Some(found) => {
                let mut filter = found.filter(subject_pattern, start_datetime);
                filter.end_datetime = end_datetime;
                filter.regex = regex;
                filter.reverse = reverse;
                Ok(filter)
            },
        }
    }
}

/// Every mail that a query finds was received in its window and has a
/// subject that passes its pattern.
pub proof fn lemma_found_mails_pass(
    filter: MailFilter,
    messages: Seq<FetchedMessage>,
    mail: MailView,
)
    requires
        filter.found(messages) matches Ok(mails) && mails.contains(mail),
    ensures
        filter.date_window().holds(mail.internal_date),
        subject_passes(filter.subject_pattern@, filter.regex, mail.subject),
{
    let accepted = selected(
        filter.date_window(),
        filter.subject_pattern@,
        filter.regex,
        messages,
    )->Ok_0;
    lemma_ordered_holds_the_same(accepted, filter.reverse, mail);
    lemma_selected_mails_pass(
        filter.date_window(),
        filter.subject_pattern@,
        filter.regex,
        messages,
        mail,
    );
}

/// A search is a function of the query and of what was fetched: on the same
/// query and the same messages it gives the same mails in the same order.
pub proof fn lemma_search_is_repeatable(
    first: MailFilter,
    second: MailFilter,
    messages: Seq<FetchedMessage>,
)
    requires
        first.subject_pattern@ == second.subject_pattern@,
        first.start_datetime == second.start_datetime,
        first.end_datetime == second.end_datetime,
        first.regex == second.regex,
        first.reverse == second.reverse,
    ensures
        first.found(messages) == second.found(messages),
{
}

/// The names of `attachments`, in their order.
pub fn names_of(attachments: &Vec<Attachment>) -> (names: Vec<String>)
    ensures
        views_of(names@) == attachment_names(attachment_views(attachments@)),
{
    let mut names: Vec<String> = Vec::new();
    let mut at: usize = 0;
    while at < attachments.len()
        invariant
            at <= attachments.len(),
            names.len() == at,
            forall|i: int| 0 <= i < at ==> (#[trigger] names@[i])@ == attachments@[i].name@,
        decreases attachments.len() - at,
    {
        names.push(attachments[at].name.clone());
        at += 1;
    }
    assert(views_of(names@) =~= attachment_names(attachment_views(attachments@)));
    names
}

} // verus!
