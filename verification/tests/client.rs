use mailsearch::client::{names_of, Attachment, Client, Mail, MailBox, MailBoxStatus, MailFilter};
use mailsearch::engine::{complete, judge, FetchedMessage, Search};
use mailsearch::datetime::{DateTime, DateWindow, DEFAULT_END_TIMESTAMP};
use mailsearch::error::SearchError;
use mailsearch::matcher::SubjectMatcher;
use mailsearch::mime::{get_first_value, Header};
use mailsearch::structure::{BodyContentCommon, BodyStructure, ContentDisposition, Param};

fn rfc(text: &str) -> DateTime {
    let t = chrono::DateTime::parse_from_rfc3339(text).unwrap();
    DateTime::from_timestamp(t.timestamp(), t.offset().local_minus_utc()).unwrap()
}

fn at(secs: i64) -> DateTime {
    DateTime::from_timestamp(secs, 0).unwrap()
}

fn status() -> MailBoxStatus {
    MailBoxStatus {
        flags: vec!["\\Seen".to_string()],
        exists: 3,
        recent: 1,
        unseen: Some(2),
        permanent_flags: vec![],
        uid_next: Some(4),
        uid_validity: Some(1),
    }
}

fn inbox() -> MailBox {
    MailBox::new("INBOX", status()).unwrap()
}

fn headers(subject: &str) -> Vec<u8> {
    format!("Subject: {}\r\nFrom: sender@example.org\r\nTo: a@example.org, b@example.org\r\n\r\n", subject)
        .into_bytes()
}

fn message(uid: u32, date: DateTime, subject: &str) -> FetchedMessage {
    FetchedMessage {
        uid,
        internal_date: Some(date),
        header: Some(headers(subject)),
        text: Some(b"hello\r\n".to_vec()),
        bodystructure: None,
    }
}

fn attachment_tree(file: &str, size: &str) -> BodyStructure {
    let part = BodyStructure::Basic {
        common: BodyContentCommon {
            ty: "application".to_string(),
            subtype: "pdf".to_string(),
            disposition: Some(ContentDisposition {
                ty: "attachment".to_string(),
                params: Some(vec![
                    Param { name: "filename".to_string(), value: file.to_string() },
                    Param { name: "size".to_string(), value: size.to_string() },
                ]),
            }),
        },
    };
    BodyStructure::Multipart {
        common: BodyContentCommon { ty: "multipart".to_string(), subtype: "mixed".to_string(), disposition: None },
        bodies: vec![part],
    }
}

fn uids(mails: &[Mail]) -> Vec<u32> {
    mails.iter().map(|m| m.uid).collect()
}

#[test]
fn attachment_new_decodes_the_name_as_a_header_value() {
    let a = Attachment::new("report.pdf".to_string(), Some(1024));
    assert_eq!(a.name, "report.pdf");
    assert_eq!(a.size, Some(1024));
    let a = Attachment::new("=?utf-8?B?w6kucGRm?=".to_string(), None);
    assert_eq!(a.name, "é.pdf");
    assert_eq!(a.size, None);
    let a = Attachment::new("=?iso-8859-1?Q?=A1Hola,_se=F1or!?=".to_string(), None);
    assert_eq!(a.name, "\u{a1}Hola, se\u{f1}or!");
}

#[test]
fn decode_reads_the_four_header_fields() {
    let raw = b"Subject: Quarterly report\r\nFrom: Alice <alice@example.org>\r\nTo: bob@example.org,  carol@example.org \r\nCC: dave@example.org\r\n\r\n";
    let mail = Mail::decode(7, at(1000), raw, b"").unwrap();
    assert_eq!(mail.uid, 7);
    assert_eq!(mail.internal_date.timestamp(), 1000);
    assert_eq!(mail.subject, "Quarterly report");
    assert_eq!(mail.from, "Alice <alice@example.org>");
    assert_eq!(mail.to, vec!["bob@example.org", "carol@example.org"]);
    assert_eq!(mail.cc, vec!["dave@example.org"]);
    assert_eq!(mail.body, "");
    assert!(mail.attachments.is_empty());
}

#[test]
fn decode_gives_empty_values_for_absent_fields() {
    let mail = Mail::decode(1, at(0), b"X-Other: 1\r\n\r\n", b"").unwrap();
    assert_eq!(mail.subject, "");
    assert_eq!(mail.from, "");
    assert!(mail.to.is_empty());
    assert!(mail.cc.is_empty());
    let mail = Mail::decode(1, at(0), b"", b"").unwrap();
    assert_eq!(mail.subject, "");
    assert!(mail.to.is_empty());
}

#[test]
fn decode_takes_the_first_of_repeated_fields_in_any_case() {
    let raw = b"SUBJECT: first\r\nsubject: second\r\ncc: x@example.org\r\nto: y@example.org\r\n\r\n";
    let mail = Mail::decode(1, at(0), raw, b"").unwrap();
    assert_eq!(mail.subject, "first");
    assert_eq!(mail.cc, vec!["x@example.org"]);
    assert_eq!(mail.to, vec!["y@example.org"]);
}

#[test]
fn decode_resolves_encoded_words() {
    let raw = b"Subject: =?utf-8?B?R3LDvMOfZQ==?=\r\nFrom: =?iso-8859-1?Q?J=F6rg?= <j@example.org>\r\n\r\n";
    let mail = Mail::decode(1, at(0), raw, b"").unwrap();
    assert_eq!(mail.subject, "Grüße");
    assert_eq!(mail.from, "Jörg <j@example.org>");
}

#[test]
fn decode_cuts_addresses_at_every_comma() {
    let raw = b"To: \"Doe, John\" <john@example.org>, jane@example.org\r\n\r\n";
    let mail = Mail::decode(1, at(0), raw, b"").unwrap();
    assert_eq!(mail.to, vec!["\"Doe", "John\" <john@example.org>", "jane@example.org"]);
}

#[test]
fn decode_gives_one_empty_address_for_an_empty_field() {
    let mail = Mail::decode(1, at(0), b"To:\r\nSubject: x\r\n\r\n", b"").unwrap();
    assert_eq!(mail.to, vec![""]);
    assert!(mail.cc.is_empty());
}

#[test]
fn decode_takes_the_body_from_the_first_part() {
    let text = b"Content-Type: multipart/alternative; boundary=frontier\r\n\r\n--frontier\r\nContent-Type: text/plain; charset=utf-8\r\nContent-Transfer-Encoding: quoted-printable\r\n\r\nProof by Euro: =E2=82=AC\r\n--frontier\r\nContent-Type: text/html\r\n\r\n<p>second</p>\r\n--frontier--\r\n";
    let mail = Mail::decode(1, at(0), b"Subject: x\r\n\r\n", text).unwrap();
    assert_eq!(mail.body, "Proof by Euro: \u{20AC}");
}

#[test]
fn decode_gives_an_empty_body_without_parts() {
    let mail = Mail::decode(1, at(0), b"Subject: x\r\n\r\n", b"just text, no parts\r\n").unwrap();
    assert_eq!(mail.body, "");
    let mail = Mail::decode(1, at(0), b"Subject: x\r\n\r\n", b"Content-Type: text/plain\r\n\r\nplain\r\n").unwrap();
    assert_eq!(mail.body, "");
}

#[test]
fn decode_gives_an_empty_body_where_the_first_part_cannot_be_decoded() {
    let text = b"Content-Type: multipart/mixed; boundary=b\r\n\r\n--b\r\nContent-Transfer-Encoding: base64\r\n\r\n!!!!\r\n--b--\r\n";
    let mail = Mail::decode(1, at(0), b"Subject: x\r\n\r\n", text).unwrap();
    assert_eq!(mail.body, "");
}

#[test]
fn decode_fails_on_bytes_that_are_no_message() {
    assert_eq!(Mail::decode(1, at(0), b" leading: space\r\n\r\n", b"").unwrap_err(), SearchError::MalformedMessage);
    assert_eq!(Mail::decode(1, at(0), b"Subject: x\r\n\r\n", b" leading: space\r\n").unwrap_err(), SearchError::MalformedMessage);
    assert_eq!(Mail::decode(1, at(0), b"Subject: x\r\n\rlone", b"").unwrap_err(), SearchError::MalformedMessage);
}

#[test]
fn from_parts_puts_a_mail_together() {
    let headers = vec![
        Header { name: "To".to_string(), value: "a@x.org,b@x.org".to_string() },
        Header { name: "subject".to_string(), value: "s".to_string() },
    ];
    let mail = Mail::from_parts(3, at(5), &headers, Some(Some("body".to_string())));
    assert_eq!(mail.uid, 3);
    assert_eq!(mail.subject, "s");
    assert_eq!(mail.from, "");
    assert_eq!(mail.to, vec!["a@x.org", "b@x.org"]);
    assert!(mail.cc.is_empty());
    assert_eq!(mail.body, "body");
    assert_eq!(Mail::from_parts(3, at(5), &headers, Some(None)).body, "");
    assert_eq!(Mail::from_parts(3, at(5), &headers, None).body, "");
}

#[test]
fn get_first_value_finds_the_first_match() {
    let headers = vec![
        Header { name: "X".to_string(), value: "1".to_string() },
        Header { name: "Content-Disposition".to_string(), value: "first".to_string() },
        Header { name: "content-disposition".to_string(), value: "second".to_string() },
    ];
    assert_eq!(get_first_value(&headers, "CONTENT-DISPOSITION"), Some(&"first".to_string()));
    assert_eq!(get_first_value(&headers, "x"), Some(&"1".to_string()));
    assert_eq!(get_first_value(&headers, "Y"), None);
}

#[test]
fn sorting_default_is_newest_first() {
    let filter = inbox().filter("", at(0));
    let messages = vec![message(1, at(100), "a"), message(2, at(300), "b"), message(3, at(200), "c")];
    let mails = filter.fetch(&messages).unwrap();
    assert_eq!(uids(&mails), vec![2, 3, 1]);
    let times: Vec<i64> = mails.iter().map(|m| m.internal_date.timestamp()).collect();
    assert_eq!(times, vec![300, 200, 100]);
}

#[test]
fn sorting_reverse_is_oldest_first() {
    let mut filter = inbox().filter("", at(0));
    filter.reverse(true);
    let messages = vec![message(1, at(100), "a"), message(2, at(300), "b"), message(3, at(200), "c")];
    let mails = filter.fetch(&messages).unwrap();
    assert_eq!(uids(&mails), vec![1, 3, 2]);
}

#[test]
fn mails_of_one_second_keep_the_order_of_the_search() {
    let filter = inbox().filter("", at(0));
    let messages = vec![
        message(5, at(200), "a"),
        message(1, at(100), "b"),
        message(4, at(200), "c"),
        message(9, at(100), "d"),
        message(2, at(200), "e"),
        message(7, at(300), "f"),
    ];
    let mails = filter.fetch(&messages).unwrap();
    assert_eq!(uids(&mails), vec![7, 5, 4, 2, 1, 9]);
    let mut filter = inbox().filter("", at(0));
    filter.reverse(true);
    let mails = filter.fetch(&messages).unwrap();
    assert_eq!(uids(&mails), vec![9, 1, 2, 4, 5, 7]);
}

#[test]
fn end_to_end_scenario_keeps_only_the_message_in_the_exact_window() {
    let mailbox = vec![
        message(1, rfc("2023-01-01T08:00:00Z"), "one"),
        message(2, rfc("2023-01-01T23:00:00Z"), "two"),
        message(3, rfc("2023-01-02T10:00:00Z"), "three"),
    ];
    let mut filter = inbox().filter("", rfc("2023-01-01T00:00:00Z"));
    filter.end_date(rfc("2023-01-01T12:00:00Z"));
    assert_eq!(filter.search_query(), "SINCE 01-Jan-2023 BEFORE 02-Jan-2023");
    let coarse = filter.window().coarse_query();
    assert_eq!(coarse.since_day * 86_400, rfc("2023-01-01T00:00:00Z").timestamp());
    assert_eq!((coarse.before_day + 1) * 86_400, rfc("2023-01-02T00:00:00Z").timestamp());
    let candidates: Vec<FetchedMessage> = mailbox
        .into_iter()
        .filter(|m| {
            let day = m.internal_date.unwrap().local_day();
            coarse.since_day <= day && day <= coarse.before_day
        })
        .collect();
    assert_eq!(candidates.iter().map(|m| m.uid).collect::<Vec<u32>>(), vec![1, 2]);
    let mails = filter.fetch(&candidates).unwrap();
    assert_eq!(mails.len(), 1);
    assert_eq!(mails[0].uid, 1);
    assert_eq!(mails[0].subject, "one");
}

#[test]
fn a_message_without_structure_has_no_attachments() {
    let filter = inbox().filter("", at(0));
    let mails = filter.fetch(&vec![message(1, at(100), "a")]).unwrap();
    assert_eq!(mails.len(), 1);
    assert!(mails[0].attachments.is_empty());
}

#[test]
fn attachments_are_taken_from_the_structure() {
    let filter = inbox().filter("", at(0));
    let mut m = message(1, at(100), "a");
    m.bodystructure = Some(attachment_tree("report.pdf", "1024"));
    let mails = filter.fetch(&vec![m]).unwrap();
    assert_eq!(mails[0].attachments.len(), 1);
    assert_eq!(mails[0].attachments[0].name, "report.pdf");
    assert_eq!(mails[0].attachments[0].size, Some(1024));
}

#[test]
fn a_message_with_a_missing_item_is_passed_over() {
    let filter = inbox().filter("", at(0));
    let mut no_date = message(1, at(100), "a");
    no_date.internal_date = None;
    let mut no_header = message(2, at(100), "a");
    no_header.header = None;
    let mut no_text = message(3, at(100), "a");
    no_text.text = None;
    let messages = vec![no_date, message(4, at(100), "a"), no_header, no_text, message(5, at(100), "a")];
    let mails = filter.fetch(&messages).unwrap();
    assert_eq!(uids(&mails), vec![4, 5]);
}

#[test]
fn a_message_that_cannot_be_read_is_passed_over() {
    let filter = inbox().filter("", at(0));
    let mut broken = message(1, at(100), "a");
    broken.header = Some(b" not a header\r\n".to_vec());
    let mails = filter.fetch(&vec![broken, message(2, at(50), "b")]).unwrap();
    assert_eq!(uids(&mails), vec![2]);
}

#[test]
fn the_exact_window_is_applied_with_both_ends_included() {
    let mut filter = inbox().filter("", at(100));
    filter.end_date(at(200));
    let messages = vec![
        message(1, at(99), "a"),
        message(2, at(100), "a"),
        message(3, at(200), "a"),
        message(4, at(201), "a"),
    ];
    assert_eq!(uids(&filter.fetch(&messages).unwrap()), vec![3, 2]);
}

#[test]
fn an_inverted_window_finds_nothing() {
    let mut filter = inbox().filter("", at(200));
    filter.end_date(at(100));
    let messages = vec![message(1, at(100), "a"), message(2, at(150), "a"), message(3, at(200), "a")];
    assert!(filter.fetch(&messages).unwrap().is_empty());
}

#[test]
fn the_subject_is_tested_as_a_literal() {
    let filter = inbox().filter("Re:", at(0));
    let messages = vec![message(1, at(1), "Re: hello"), message(2, at(2), "hello"), message(3, at(3), "hello Re: x"), message(4, at(4), "re: lower")];
    assert_eq!(uids(&filter.fetch(&messages).unwrap()), vec![3, 1]);
}

#[test]
fn the_subject_is_tested_as_a_regular_expression() {
    let mut filter = inbox().filter("^Re:", at(0));
    filter.regex(true);
    let messages = vec![message(1, at(1), "Re: hello"), message(2, at(2), "hello"), message(3, at(3), "hello Re: x")];
    assert_eq!(uids(&filter.fetch(&messages).unwrap()), vec![1]);
    let literal = inbox().filter("^Re:", at(0));
    assert!(literal.fetch(&messages).unwrap().is_empty());
}

#[test]
fn a_pattern_that_does_not_compile_fails_the_search() {
    let mut filter = inbox().filter("(", at(0));
    filter.regex(true);
    assert_eq!(filter.matcher().unwrap_err(), SearchError::InvalidPattern);
    assert!(filter.begin().is_err());
    assert_eq!(filter.fetch(&vec![]).unwrap_err(), SearchError::InvalidPattern);
    assert_eq!(filter.fetch(&vec![message(1, at(1), "(")]).unwrap_err(), SearchError::InvalidPattern);
    filter.regex(false);
    assert_eq!(uids(&filter.fetch(&vec![message(1, at(1), "(")]).unwrap()), vec![1]);
}

#[test]
fn a_size_that_is_no_number_fails_the_whole_search() {
    let filter = inbox().filter("", at(0));
    let mut bad = message(2, at(100), "a");
    bad.bodystructure = Some(attachment_tree("a.pdf", "many"));
    let messages = vec![message(1, at(100), "a"), bad, message(3, at(100), "a")];
    assert_eq!(filter.fetch(&messages).unwrap_err(), SearchError::InvalidAttachmentMetadata);
}

#[test]
fn a_bad_size_fails_the_search_before_the_subject_is_tested() {
    let filter = inbox().filter("wanted", at(0));
    let mut bad = message(2, at(100), "other");
    bad.bodystructure = Some(attachment_tree("a.pdf", "many"));
    assert_eq!(filter.fetch(&vec![bad]).unwrap_err(), SearchError::InvalidAttachmentMetadata);
}

#[test]
fn a_bad_size_outside_the_window_or_in_an_unreadable_message_does_no_harm() {
    let mut filter = inbox().filter("", at(100));
    filter.end_date(at(200));
    let mut outside = message(1, at(300), "a");
    outside.bodystructure = Some(attachment_tree("a.pdf", "many"));
    let mut unreadable = message(2, at(150), "a");
    unreadable.header = Some(b" x\r\n".to_vec());
    unreadable.bodystructure = Some(attachment_tree("a.pdf", "many"));
    let mails = filter.fetch(&vec![outside, unreadable, message(3, at(150), "a")]).unwrap();
    assert_eq!(uids(&mails), vec![3]);
}

#[test]
fn an_empty_candidate_list_gives_an_empty_result() {
    let filter = inbox().filter("x", at(0));
    assert!(filter.fetch(&vec![]).unwrap().is_empty());
}

#[test]
fn searching_twice_gives_the_same_list() {
    let mut filter = inbox().filter("e", at(0));
    filter.regex(true);
    let messages = vec![
        message(5, at(200), "hello"),
        message(1, at(100), "no match"),
        message(4, at(200), "eel"),
        message(9, at(100), "xyz"),
        message(2, at(300), "e"),
    ];
    let first = filter.fetch(&messages).unwrap();
    let second = filter.fetch(&messages).unwrap();
    assert_eq!(uids(&first), vec![2, 5, 4]);
    assert_eq!(uids(&first), uids(&second));
    let subjects = |ms: &[Mail]| ms.iter().map(|m| m.subject.clone()).collect::<Vec<String>>();
    assert_eq!(subjects(&first), subjects(&second));
}

#[test]
fn stepping_gives_what_fetch_gives() {
    let mut filter = inbox().filter("a", at(0));
    filter.reverse(true);
    let messages = vec![message(1, at(30), "a"), message(2, at(10), "b"), message(3, at(20), "ba")];
    let mut search = filter.begin().unwrap();
    for m in &messages {
        search = search.step(m).unwrap();
    }
    let stepped = search.finish();
    assert_eq!(uids(&stepped), vec![3, 1]);
    assert_eq!(uids(&stepped), uids(&filter.fetch(&messages).unwrap()));
}

#[test]
fn a_step_fails_on_a_bad_size() {
    let filter = inbox().filter("", at(0));
    let mut bad = message(2, at(100), "a");
    bad.bodystructure = Some(attachment_tree("a.pdf", "-1"));
    let search = filter.begin().unwrap();
    assert_eq!(search.step(&bad).err(), Some(SearchError::InvalidAttachmentMetadata));
}

#[test]
fn judge_tells_accepted_from_passed_over() {
    let window = DateWindow::between(at(100), at(200));
    let matcher = SubjectMatcher::literal("x");
    assert_eq!(judge(&window, &matcher, &message(1, at(150), "x")).unwrap().unwrap().uid, 1);
    assert!(judge(&window, &matcher, &message(1, at(150), "y")).unwrap().is_none());
    assert!(judge(&window, &matcher, &message(1, at(250), "x")).unwrap().is_none());
}

#[test]
fn complete_adds_the_attachments_and_tests_the_subject() {
    let matcher = SubjectMatcher::literal("x");
    let mail = Mail::decode(1, at(0), b"Subject: x\r\n\r\n", b"").unwrap();
    let done = complete(&matcher, mail, &Some(attachment_tree("a.pdf", "3"))).unwrap().unwrap();
    assert_eq!(done.attachments.len(), 1);
    assert_eq!(done.attachments[0].size, Some(3));
    let mail = Mail::decode(1, at(0), b"Subject: y\r\n\r\n", b"").unwrap();
    assert!(complete(&matcher, mail, &None).unwrap().is_none());
    let mail = Mail::decode(1, at(0), b"Subject: y\r\n\r\n", b"").unwrap();
    assert_eq!(
        complete(&matcher, mail, &Some(attachment_tree("a.pdf", "x"))).unwrap_err(),
        SearchError::InvalidAttachmentMetadata
    );
}

#[test]
fn a_search_can_be_made_from_its_parts() {
    let window = DateWindow::between(at(0), at(100));
    let mut search = Search::new(window, SubjectMatcher::pattern("^a").unwrap(), false);
    for m in [message(1, at(10), "a"), message(2, at(20), "ba"), message(3, at(30), "ab"), message(4, at(101), "a")] {
        search = search.step(&m).unwrap();
    }
    assert_eq!(uids(&search.finish()), vec![3, 1]);
}

#[test]
fn search_query_asks_for_the_days_of_the_window() {
    let mut filter = inbox().filter("", rfc("2023-01-01T00:00:00Z"));
    assert_eq!(filter.search_query(), "SINCE 01-Jan-2023 BEFORE 02-Dec-9999");
    filter.end_date(rfc("2023-01-01T12:00:00Z"));
    assert_eq!(filter.search_query(), "SINCE 01-Jan-2023 BEFORE 02-Jan-2023");
    filter.end_date(rfc("9999-12-31T00:00:00+08:00"));
    assert_eq!(filter.search_query(), "SINCE 01-Jan-2023");
    let mut filter = inbox().filter("", rfc("2023-03-05T23:30:00+08:00"));
    filter.end_date(rfc("2023-04-01T00:30:00-03:00"));
    assert_eq!(filter.search_query(), "SINCE 05-Mar-2023 BEFORE 02-Apr-2023");
}

#[test]
fn a_failed_search_on_the_server_gives_no_candidates() {
    assert!(MailFilter::candidates(None).is_empty());
    assert_eq!(MailFilter::candidates(Some(vec![3, 1, 2])), vec![3, 1, 2]);
}

#[test]
fn filter_starts_as_a_literal_open_ended_newest_first() {
    let filter = inbox().filter("subject", at(42));
    assert_eq!(filter.subject_pattern, "subject");
    assert_eq!(filter.start_datetime.timestamp(), 42);
    assert_eq!(filter.end_datetime.timestamp(), DEFAULT_END_TIMESTAMP);
    assert!(!filter.regex);
    assert!(!filter.reverse);
}

#[test]
fn the_builders_chain() {
    let mut filter = inbox().filter("s", at(1));
    filter.end_date(at(9)).regex(true).reverse(true);
    assert_eq!(filter.end_datetime.timestamp(), 9);
    assert!(filter.regex);
    assert!(filter.reverse);
    assert_eq!(filter.subject_pattern, "s");
    assert_eq!(filter.start_datetime.timestamp(), 1);
    let w = filter.window();
    assert_eq!(w.start.timestamp(), 1);
    assert_eq!(w.end.timestamp(), 9);
}

#[test]
fn mail_box_name_is_decoded() {
    let b = MailBox::new("&BB4EQgQ,BEAEMAQyBDsENQQ9BD0ESwQ1-", status()).unwrap();
    assert_eq!(b.name(), "Отправленные");
    assert_eq!(b.encoded_name(), "&BB4EQgQ,BEAEMAQyBDsENQQ9BD0ESwQ1-");
    assert_eq!(b.status().exists, 3);
    assert_eq!(b.status().unseen, Some(2));
    assert!(MailBox::new("&!-", status()).is_none());
}

#[test]
fn client_get_finds_the_folder_by_its_exact_decoded_name() {
    let client = Client::new(vec![
        MailBox::new("INBOX", status()).unwrap(),
        MailBox::new("th&AOkA4g-tre", status()).unwrap(),
        MailBox::new("Sent", status()).unwrap(),
    ]);
    assert_eq!(client.mail_boxes().len(), 3);
    assert_eq!(client.get("INBOX").unwrap().name(), "INBOX");
    assert_eq!(client.get("théâtre").unwrap().name(), "théâtre");
    assert!(client.get("th&AOkA4g-tre").is_none());
    assert!(client.get("inbox").is_none());
    assert!(client.get("Sent ").is_none());
    assert!(client.get("Trash").is_none());
}

#[test]
fn client_get_takes_the_first_of_two_with_one_name() {
    let mut first = status();
    first.exists = 10;
    let mut second = status();
    second.exists = 20;
    let client = Client::new(vec![MailBox::new("A", first).unwrap(), MailBox::new("A", second).unwrap()]);
    assert_eq!(client.get("A").unwrap().status().exists, 10);
}

#[test]
fn query_fails_on_a_bad_pattern_before_it_looks_for_the_folder() {
    let client = Client::new(vec![inbox()]);
    assert_eq!(client.query("INBOX", "(", at(0), at(1), true, false).unwrap_err(), SearchError::InvalidPattern);
    assert_eq!(client.query("Nowhere", "(", at(0), at(1), true, false).unwrap_err(), SearchError::InvalidPattern);
    assert_eq!(client.query("Nowhere", "(", at(0), at(1), false, false).unwrap_err(), SearchError::FolderNotFound);
    assert_eq!(client.query("Nowhere", "a", at(0), at(1), true, false).unwrap_err(), SearchError::FolderNotFound);
    let filter = client.query("INBOX", "a+", at(5), at(6), true, true).unwrap();
    assert_eq!(filter.subject_pattern, "a+");
    assert_eq!(filter.start_datetime.timestamp(), 5);
    assert_eq!(filter.end_datetime.timestamp(), 6);
    assert!(filter.regex);
    assert!(filter.reverse);
}

#[test]
fn names_of_lists_the_names() {
    let list = vec![Attachment::new("a.txt".to_string(), None), Attachment::new("b.txt".to_string(), Some(1))];
    assert_eq!(names_of(&list), vec!["a.txt", "b.txt"]);
    assert!(names_of(&vec![]).is_empty());
}

#[test]
fn errors_have_sentences() {
    assert_eq!(SearchError::FolderNotFound.to_string(), "folder not found");
    assert_eq!(SearchError::InvalidPattern.to_string(), "invalid subject pattern");
    assert_eq!(SearchError::MalformedMessage.to_string(), "malformed message");
    assert_eq!(SearchError::InvalidAttachmentMetadata.to_string(), "invalid attachment metadata");
}
