//! The search itself: what becomes of each fetched message, and the list
//! that grows from the accepted ones.

use crate::client::{
    attachment_views, decoded, mail_views, Attachment, AttachmentView, Mail, MailView,
};
use crate::datetime::{DateTime, DateWindow};
use crate::error::SearchError;
use crate::matcher::{subject_passes, SubjectMatcher};
use crate::order::{insert_newest_first, newest_first, ordered, reversed};
use crate::structure::{extract, extracted, BodyStructure};
use vstd::prelude::*;

verus! {

/// The items that a search fetches for each message: the date of receipt,
/// four header fields, the text and the part tree.
pub const FETCH_QUERY: &'static str =
    "(INTERNALDATE BODY[HEADER.FIELDS (SUBJECT FROM CC TO)] BODY[TEXT] BODYSTRUCTURE)";

/// What one fetch brought for one message: its number, and each item that
/// was asked for, `None` where the server sent none.
#[derive(Debug)]
pub struct FetchedMessage {
    pub uid: u32,
    pub internal_date: Option<DateTime>,
    pub header: Option<Vec<u8>>,
    pub text: Option<Vec<u8>>,
    pub bodystructure: Option<BodyStructure>,
}

/// The attachments that the part tree `structure` declares; none where the
/// server sent no part tree.
pub open spec fn attachments_in(structure: Option<BodyStructure>) -> Result<
    Seq<AttachmentView>,
    SearchError,
> {
    match structure {
        Some(tree) => extracted(tree),
        None => Ok(Seq::empty()),
    }
}

/// What becomes of a decoded mail of the window: `Ok(Some(..))`, with the
/// attachments that `structure` declares, where its subject passes;
/// `Ok(None)` where it does not; an error where an attachment declares a
/// size that is no number, whatever the subject.
pub open spec fn completed(
    pattern: Seq<char>,
    regex: bool,
    mail: MailView,
    structure: Option<BodyStructure>,
) -> Result<Option<MailView>, SearchError> {
    match attachments_in(structure) {
        Err(e) => Err(e),
        Ok(attachments) => if subject_passes(pattern, regex, mail.subject) {
            Ok(Some(MailView { attachments, ..mail }))
        } else {
            Ok(None)
        },
    }
}

/// What becomes of one fetched message: `Ok(Some(mail))` where it is
/// accepted, `Ok(None)` where it is passed over, an error where the whole
/// search fails on it. A message is passed over where its date, header or
/// text is missing, where its date lies outside `window`, where its bytes
/// cannot be read, or where its subject does not pass. The search fails
/// where an attachment of a readable message in the window declares a size
/// that is no number.
pub open spec fn judged(
    window: DateWindow,
    pattern: Seq<char>,
    regex: bool,
    message: FetchedMessage,
) -> Result<Option<MailView>, SearchError> {
    match (message.internal_date, message.header, message.text) {
        (Some(date), Some(header), Some(text)) => if !window.holds(date) {
            Ok(None)
        } else {
            match decoded(message.uid, date, header@, text@) {
                Err(_) => Ok(None),
                Ok(mail) => completed(pattern, regex, mail, message.bodystructure),
            }
        },
        _ => Ok(None),
    }
}

/// A message for which the server sent no part tree does not fail the
/// search, and where it is accepted its mail has no attachments.
pub proof fn lemma_no_structure_no_attachments(
    window: DateWindow,
    pattern: Seq<char>,
    regex: bool,
    message: FetchedMessage,
)
    requires
        message.bodystructure is None,
    ensures
        judged(window, pattern, regex, message) is Ok,
        judged(window, pattern, regex, message) matches Ok(Some(mail))
            ==> mail.attachments.len() == 0,
{
}

/// The mails accepted from `messages`, in the order of the messages; the
/// error of the first message on which the search fails, if there is one.
pub open spec fn selected(
    window: DateWindow,
    pattern: Seq<char>,
    regex: bool,
    messages: Seq<FetchedMessage>,
) -> Result<Seq<MailView>, SearchError>
    decreases messages.len(),
{
    if messages.len() == 0 {
        Ok(Seq::empty())
    } else {
        match selected(window, pattern, regex, messages.drop_last()) {
            Err(e) => Err(e),
            Ok(before) => match judged(window, pattern, regex, messages.last()) {
                Err(e) => Err(e),
                Ok(None) => Ok(before),
                Ok(Some(mail)) => Ok(before.push(mail)),
            },
        }
    }
}

/// The exact filters hold of every accepted mail: it was received in the
/// window, and its subject passes.
pub proof fn lemma_selected_mails_pass(
    window: DateWindow,
    pattern: Seq<char>,
    regex: bool,
    messages: Seq<FetchedMessage>,
    mail: MailView,
)
    requires
        selected(window, pattern, regex, messages) matches Ok(mails) && mails.contains(mail),
    ensures
        window.holds(mail.internal_date),
        subject_passes(pattern, regex, mail.subject),
    decreases messages.len(),
{
    if messages.len() > 0 {
        let before = selected(window, pattern, regex, messages.drop_last())->Ok_0;
        let mails = selected(window, pattern, regex, messages)->Ok_0;
        let i = choose|i: int| 0 <= i < mails.len() && mails[i] == mail;
        if i < before.len() {
            assert(before[i] == mail);
            lemma_selected_mails_pass(window, pattern, regex, messages.drop_last(), mail);
        }
    }
}

/// Once the search fails on the messages up to `n`, it fails so on all.
pub proof fn lemma_failure_stays(
    window: DateWindow,
    pattern: Seq<char>,
    regex: bool,
    messages: Seq<FetchedMessage>,
    n: int,
)
    requires
        0 <= n <= messages.len(),
        selected(window, pattern, regex, messages.take(n)) is Err,
    ensures
        selected(window, pattern, regex, messages) == selected(
            window,
            pattern,
            regex,
            messages.take(n),
        ),
    decreases messages.len(),
{
    if n == messages.len() {
        assert(messages.take(n) =~= messages);
    } else {
        assert(messages.drop_last().take(n) =~= messages.take(n));
        lemma_failure_stays(window, pattern, regex, messages.drop_last(), n);
    }
}

/// Gives a decoded mail of the window the attachments that `structure`
/// declares and tests its subject.
pub fn complete(matcher: &SubjectMatcher, mail: Mail, structure: &Option<BodyStructure>) -> (r:
    Result<Option<Mail>, SearchError>)
    ensures
        r is Ok <==> completed(matcher.pattern_text(), matcher.is_regex(), mail@, *structure) is Ok,
        r matches Ok(Some(m)) ==> completed(
            matcher.pattern_text(),
            matcher.is_regex(),
            mail@,
            *structure,
        ) == Ok::<Option<MailView>, SearchError>(Some(m@)),
        r matches Ok(None) ==> completed(
            matcher.pattern_text(),
            matcher.is_regex(),
            mail@,
            *structure,
        ) == Ok::<Option<MailView>, SearchError>(None),
        r matches Err(e) ==> completed(
            matcher.pattern_text(),
            matcher.is_regex(),
            mail@,
            *structure,
        ) == Err::<Option<MailView>, SearchError>(e),
{
    let attachments = match structure {
        Some(tree) => match extract(tree) {
            Ok(list) => list,
            Err(e) => { return Err(e); },
        },
        None => {
            let list: Vec<Attachment> = Vec::new();
            assert(attachment_views(list@) =~= Seq::empty());
            list
        },
    };
    if !matcher.matches(mail.subject.as_str()) {
        return Ok(None);
    }
    let mut mail = mail;
    mail.attachments = attachments;
    Ok(Some(mail))
}

/// Decides what becomes of one fetched message.
pub fn judge(window: &DateWindow, matcher: &SubjectMatcher, message: &FetchedMessage) -> (r: Result<
    Option<Mail>,
    SearchError,
>)
    ensures
        r is Ok <==> judged(*window, matcher.pattern_text(), matcher.is_regex(), *message) is Ok,
        r matches Ok(Some(mail)) ==> judged(
            *window,
            matcher.pattern_text(),
            matcher.is_regex(),
            *message,
        ) == Ok::<Option<MailView>, SearchError>(Some(mail@)),
        r matches Ok(None) ==> judged(
            *window,
            matcher.pattern_text(),
            matcher.is_regex(),
            *message,
        ) == Ok::<Option<MailView>, SearchError>(None),
        r matches Err(e) ==> judged(
            *window,
            matcher.pattern_text(),
            matcher.is_regex(),
            *message,
        ) == Err::<Option<MailView>, SearchError>(e),
{
    let date = match message.internal_date {
        Some(date) => date,
        None => { return Ok(None); },
    };
    let header = match &message.header {
        Some(header) => header,
        None => { return Ok(None); },
    };
    let text = match &message.text {
        Some(text) => text,
        None => { return Ok(None); },
    };
    if !window.contains(&date) {
        return Ok(None);
    }
    match Mail::decode(message.uid, date, header.as_slice(), text.as_slice()) {
        Ok(mail) => complete(matcher, mail, &message.bodystructure),
        Err(_) => Ok(None),
    }
}

/// A search under way: the query, the messages judged so far, and the
/// mails accepted from them, newest first.
pub struct Search {
    window: DateWindow,
    matcher: SubjectMatcher,
    reverse: bool,
    mails: Vec<Mail>,
    accepted: Ghost<Seq<MailView>>,
    seen: Ghost<Seq<FetchedMessage>>,
}

impl Search {
    #[verifier::type_invariant]
    spec fn well_formed(self) -> bool {
        &&& selected(self.window, self.matcher.pattern_text(), self.matcher.is_regex(), self.seen@)
            == Ok::<Seq<MailView>, SearchError>(self.accepted@)
        &&& mail_views(self.mails@) == newest_first(self.accepted@)
    }

    /// The date window of the query.
    pub closed spec fn window(self) -> DateWindow {
        self.window
    }

    /// The subject pattern of the query.
    pub closed spec fn pattern(self) -> Seq<char> {
        self.matcher.pattern_text()
    }

    /// The pattern is a regular expression.
    pub closed spec fn is_regex(self) -> bool {
        self.matcher.is_regex()
    }

    /// The result is to be turned round.
    pub closed spec fn is_reverse(self) -> bool {
        self.reverse
    }

    /// The messages judged so far, in their order.
    pub closed spec fn seen(self) -> Seq<FetchedMessage> {
        self.seen@
    }

    /// The search with the window `window` and the subject test `matcher`,
    /// before any message was judged.
    pub fn new(window: DateWindow, matcher: SubjectMatcher, reverse: bool) -> (search: Search)
        ensures
            search.window() == window,
            search.pattern() == matcher.pattern_text(),
            search.is_regex() == matcher.is_regex(),
            search.is_reverse() == reverse,
            search.seen().len() == 0,
    {
        let mails: Vec<Mail> = Vec::new();
        assert(mail_views(mails@) =~= newest_first(Seq::empty()));
        Search {
            window,
            matcher,
            reverse,
            mails,
            accepted: Ghost(Seq::empty()),
            seen: Ghost(Seq::empty()),
        }
    }

    /// Judges the next fetched message and takes it where it is accepted.
    /// The search ends with the error where it fails on the message.
    pub fn step(self, message: &FetchedMessage) -> (r: Result<Search, SearchError>)
        ensures
            selected(self.window(), self.pattern(), self.is_regex(), self.seen()) is Ok,
            r is Ok <==> judged(self.window(), self.pattern(), self.is_regex(), *message) is Ok,
            r matches Ok(next) ==> next.window() == self.window() && next.pattern()
                == self.pattern() && next.is_regex() == self.is_regex() && next.is_reverse()
                == self.is_reverse() && next.seen() == self.seen().push(*message),
            r matches Err(e) ==> judged(self.window(), self.pattern(), self.is_regex(), *message)
                == Err::<Option<MailView>, SearchError>(e),
    {
        proof {
            use_type_invariant(&self);
        }
        let Search { window, matcher, reverse, mut mails, accepted, seen } = self;
        let ghost next_seen = seen@.push(*message);
        assert(next_seen.drop_last() =~= seen@);
        match judge(&window, &matcher, message) {
            Err(e) => Err(e),
            Ok(None) => Ok(
                Search { window, matcher, reverse, mails, accepted, seen: Ghost(next_seen) },
            ),
            Ok(Some(mail)) => {
                let ghost next_accepted = accepted@.push(mail@);
                assert(next_accepted.drop_last() =~= accepted@);
                insert_newest_first(&mut mails, mail);
                Ok(
                    Search {
                        window,
                        matcher,
                        reverse,
                        mails,
                        accepted: Ghost(next_accepted),
                        seen: Ghost(next_seen),
                    },
                )
            },
        }
    }

    /// The mails accepted from the messages judged, in the order asked for.
    pub fn finish(self) -> (mails: Vec<Mail>)
        ensures
            selected(self.window(), self.pattern(), self.is_regex(), self.seen()) is Ok,
            mail_views(mails@) == ordered(
                selected(self.window(), self.pattern(), self.is_regex(), self.seen())->Ok_0,
                self.is_reverse(),
            ),
    {
        proof {
            use_type_invariant(&self);
        }
        let Search { reverse, mails, .. } = self;
        if reverse {
            reversed(mails)
        } else {
            mails
        }
    }
}

} // verus!
