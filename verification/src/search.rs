//! The state of the interactive viewer: the query, the mails it found and
//! the row that is selected.

use crate::client::{attachment_names, mail_views, names_of, Client, Mail, MailFilter, MailView};
use crate::engine::FetchedMessage;
use crate::datetime::{formatted_text, DateTime};
use crate::error::SearchError;
use crate::matcher::regex_compiles;
use crate::text::{count_char, count_of, decimal, decimal_text, join, joined, views_of};
use vstd::prelude::*;

verus! {

/// One row of the table of mails: its seven cells, and its height in lines.
#[derive(Debug)]
pub struct TableRow {
    pub cells: Vec<String>,
    pub height: usize,
}

/// The seven cells of the row for `mail`: number, subject, sender,
/// recipients, copies, date and attachment names; lists are joined by line
/// feeds.
pub open spec fn cells_of(mail: MailView) -> Seq<Seq<char>> {
    seq![
        decimal_text(mail.uid as nat),
        mail.subject,
        mail.from,
        joined(mail.to, "\n"@),
        joined(mail.cc, "\n"@),
        formatted_text(
            mail.internal_date.secs(),
            mail.internal_date.offset_secs(),
            "%Y-%m-%dT%H:%M:%S"@,
        ),
        joined(attachment_names(mail.attachments), "\n"@),
    ]
}

/// The most line feeds that one of `cells` holds; 0 for no cells.
pub open spec fn most_line_feeds(cells: Seq<Seq<char>>) -> nat
    decreases cells.len(),
{
    if cells.len() == 0 {
        0
    } else {
        let before = most_line_feeds(cells.drop_last());
        let here = count_of(cells.last(), '\n');
        if here > before {
            here
        } else {
            before
        }
    }
}

/// The lines that a row with `cells` takes: one more than the most line
/// feeds in a cell, as far as the machine counts.
pub open spec fn height_of(cells: Seq<Seq<char>>) -> nat {
    if most_line_feeds(cells) < usize::MAX {
        most_line_feeds(cells) + 1
    } else {
        usize::MAX as nat
    }
}

impl TableRow {
    /// The row for `cells`.
    pub fn new(cells: Vec<String>) -> (row: TableRow)
        ensures
            row.cells@ == cells@,
            row.height == height_of(views_of(cells@)),
    {
        let mut most: usize = 0;
        let mut at: usize = 0;
        let ghost all = views_of(cells@);
        while at < cells.len()
            invariant
                at <= cells.len(),
                all == views_of(cells@),
                most == most_line_feeds(all.take(at as int)),
            decreases cells.len() - at,
        {
            assert(all.take(at + 1).drop_last() =~= all.take(at as int));
            let here = count_char(cells[at].as_str(), '\n');
            if here > most {
                most = here;
            }
            at += 1;
        }
        assert(all.take(at as int) =~= all);
        let height = if most < usize::MAX {
            most + 1
        } else {
            most
        };
        TableRow { cells, height }
    }

    /// The row for `mail`.
    pub fn from_mail(mail: &Mail) -> (row: TableRow)
        ensures
            views_of(row.cells@) == cells_of(mail@),
            row.height == height_of(cells_of(mail@)),
    {
        let names = names_of(&mail.attachments);
        let mut cells: Vec<String> = Vec::new();
        cells.push(decimal(mail.uid));
        cells.push(mail.subject.clone());
        cells.push(mail.from.clone());
        cells.push(join(&mail.to, "\n"));
        cells.push(join(&mail.cc, "\n"));
        cells.push(mail.internal_date.to_string());
        cells.push(join(&names, "\n"));
        assert(views_of(cells@) =~= cells_of(mail@));
        TableRow::new(cells)
    }
}

/// The row behind `selected` in a list of `len` rows, the first behind the
/// last; the first where none is selected.
pub open spec fn row_after(selected: Option<usize>, len: nat) -> nat {
    match selected {
        Some(i) => if i + 1 < len {
            (i + 1) as nat
        } else {
            0
        },
        None => 0,
    }
}

/// The row before `selected` in a list of `len` rows, the last before the
/// first; the first where none is selected.
pub open spec fn row_before(selected: Option<usize>, len: nat) -> nat {
    match selected {
        Some(i) => if i == 0 {
            if len == 0 {
                0
            } else {
                (len - 1) as nat
            }
        } else {
            (i - 1) as nat
        },
        None => 0,
    }
}

/// The viewer: what to search for, what was found, and the selected row.
#[derive(Debug)]
pub struct App {
    pub selected: Option<usize>,
    pub subject_query: String,
    pub start_datetime: DateTime,
    pub end_datetime: DateTime,
    pub regex: bool,
    pub reserve: bool,
    pub mail_box: String,
    pub mails: Vec<Mail>,
}

impl App {
    /// The viewer for a query, with no mails yet and no row selected.
    pub fn new(
        subject_query: String,
        start_datetime: DateTime,
        end_datetime: DateTime,
        regex: bool,
        reserve: bool,
        mail_box: String,
    ) -> (app: App)
        ensures
            app.selected is None,
            app.subject_query == subject_query,
            app.start_datetime == start_datetime,
            app.end_datetime == end_datetime,
            app.regex == regex,
            app.reserve == reserve,
            app.mail_box == mail_box,
            app.mails@.len() == 0,
    {
        App {
            selected: None,
            subject_query,
            start_datetime,
            end_datetime,
            regex,
            reserve,
            mail_box,
            mails: Vec::new(),
        }
    }

    /// The query of the viewer on the account `client`; the error where the
    /// pattern does not compile or the account has no such folder.
    pub fn query(&self, client: &Client) -> (r: Result<MailFilter, SearchError>)
        ensures
            r is Ok <==> (self.regex ==> regex_compiles(self.subject_query@)) && client.has_folder(
                self.mail_box@,
            ),
            r matches Ok(f) ==> f.subject_pattern@ == self.subject_query@ && f.start_datetime
                == self.start_datetime && f.end_datetime == self.end_datetime && f.regex
                == self.regex && f.reverse == self.reserve,
            r matches Err(e) ==> e == if self.regex && !regex_compiles(self.subject_query@) {
                SearchError::InvalidPattern
            } else {
                SearchError::FolderNotFound
            },
    {
        client.query(
            self.mail_box.as_str(),
            self.subject_query.as_str(),
            self.start_datetime,
            self.end_datetime,
            self.regex,
            self.reserve,
        )
    }

    /// The query that the viewer asks.
    pub open spec fn asked(self) -> MailFilter {
        MailFilter {
            subject_pattern: self.subject_query,
            start_datetime: self.start_datetime,
            end_datetime: self.end_datetime,
            regex: self.regex,
            reverse: self.reserve,
        }
    }

    /// What a refresh on the account `client` with the fetched `messages`
    /// gives: the error of setting the query up, or else what the query
    /// finds.
    pub open spec fn refreshed(self, client: Client, messages: Seq<FetchedMessage>) -> Result<
        Seq<MailView>,
        SearchError,
    > {
        if !self.asked().is_valid() {
            Err(SearchError::InvalidPattern)
        } else if !client.has_folder(self.mail_box@) {
            Err(SearchError::FolderNotFound)
        } else {
            self.asked().found(messages)
        }
    }

    /// Runs the query on the fetched `messages` and takes the mails found.
    /// Where the search fails the viewer keeps what it had.
    pub fn refresh(&mut self, client: &Client, messages: &Vec<FetchedMessage>) -> (r: Result<
        (),
        SearchError,
    >)
        ensures
            final(self).selected == old(self).selected,
            final(self).subject_query == old(self).subject_query,
            final(self).start_datetime == old(self).start_datetime,
            final(self).end_datetime == old(self).end_datetime,
            final(self).regex == old(self).regex,
            final(self).reserve == old(self).reserve,
            final(self).mail_box == old(self).mail_box,
            match r {
                Ok(_) => old(self).refreshed(*client, messages@) == Ok::<
                    Seq<MailView>,
                    SearchError,
                >(mail_views(final(self).mails@)),
                Err(e) => old(self).refreshed(*client, messages@) == Err::<
                    Seq<MailView>,
                    SearchError,
                >(e) && final(self).mails == old(self).mails,
            },
    {
        let filter = match self.query(client) {
            Ok(filter) => filter,
            Err(e) => { return Err(e); },
        };
        proof {
            crate::client::lemma_search_is_repeatable(filter, self.asked(), messages@);
        }
        match filter.fetch(messages) {
            Ok(mails) => {
                self.mails = mails;
                Ok(())
            },
            Err(e) => Err(e),
        }
    }

    /// Selects the next row, the first behind the last.
    pub fn next(&mut self)
        ensures
            final(self).selected == Some(
                row_after(old(self).selected, old(self).mails@.len()) as usize,
            ),
            final(self).mails == old(self).mails,
    {
        let len = self.mails.len();
        let i: usize = match self.selected {
            Some(i) => if i < usize::MAX && i + 1 < len {
                i + 1
            } else {
                0
            },
            None => 0,
        };
        self.selected = Some(i);
    }

    /// Selects the row before, the last before the first.
    pub fn previous(&mut self)
        ensures
            final(self).selected == Some(
                row_before(old(self).selected, old(self).mails@.len()) as usize,
            ),
            final(self).mails == old(self).mails,
    {
        let i: usize = match self.selected {
            Some(i) => if i == 0 {
                if self.mails.len() == 0 {
                    0
                } else {
                    self.mails.len() - 1
                }
            } else {
                i - 1
            },
            None => 0,
        };
        self.selected = Some(i);
    }
}

} // verus!
