//! The three parts of a trace record: header, summary and action.
//!
//! Each part is recognised on one line of input and can write itself back
//! as one line. What a part *is* is given by its view; what a line is
//! recognised as is given by a spec function over the names that stand for
//! the answers of `regex` and `chrono`.
use crate::pattern::captures;
use crate::pattern::group_text;
use crate::pattern::groups_fit;
use crate::pattern::groups_view;
use crate::pattern::regex_captures;
use crate::pattern::regex_pattern;
use crate::stamp::date_parsed;
use crate::stamp::date_written;
use crate::stamp::format_date;
use crate::stamp::parse_date;
use crate::stamp::Timestamp;
use crate::stamp::DATE_FORMAT;
use crate::text::decimal_digits;
use crate::text::decimal_text;
use crate::text::decimal_value;
use crate::text::has_prefix;
use crate::text::parse_decimal;
use crate::text::trim;
use crate::text::trimmed;
use regex::Regex;
use vstd::prelude::*;
use vstd::string::StringExecFns;

verus! {

/// The pattern of a header line. Its groups, in order: date, thread,
/// component, source file, remainder.
pub const HEADER_REGEX: &'static str =
    r"(?<date>\d\d\d\d-\d\d-\d\d-\d\d:\d\d:\d\d.\d\d\d[+-]\d\d:\d\d)I----- thread\((?<thread>\d\d)\) (?<component>.+) (?<file>.+:\d+:)(?<remainder>.*)";

/// The pattern of a summary line. Its groups, in order: thread, file
/// descriptor, local endpoint, remote endpoint.
pub const SUMMARY_REGEX: &'static str =
    r"Thread (?<thread>\d+); fd (?<fd>\d+); local (?<local>.+); remote (?<remote>.+)";

/// The view of what is there, where something is there.
pub open spec fn viewed<T: View>(o: Option<T>) -> Option<T::V> {
    match o {
        Some(x) => Some(x@),
        None => None,
    }
}

/// Whether the groups `from..to` all took part in the match.
pub open spec fn groups_present(groups: Seq<Option<Seq<char>>>, from: int, to: int) -> bool {
    forall|i: int| from <= i < to ==> (#[trigger] groups[i]) is Some
}

/// What a header is.
pub struct HeaderView {
    /// When the event was traced.
    pub date: Timestamp,
    /// The date as the header writes it.
    pub date_text: Seq<char>,
    /// The thread that traced it.
    pub thread: u64,
    /// The component's name.
    pub component: Seq<char>,
    /// The place in the source, by convention `path:line:`.
    pub source_file: Seq<char>,
    /// The message that makes the header an error; empty on every other
    /// header.
    pub error_message: Seq<char>,
}

impl HeaderView {
    /// A header with a message is an error: a record of its own, with
    /// nothing after it.
    pub open spec fn is_error(self) -> bool {
        self.error_message.len() > 0
    }

    /// The header written as a line.
    pub open spec fn text(self) -> Seq<char> {
        self.date_text + "I----- thread("@ + decimal_digits(self.thread as nat) + ") "@
            + self.component + " "@ + self.source_file + " "@ + self.error_message
    }
}

/// The header made of a date and the four texts that follow it on the
/// line. The thread must be a decimal number; the remainder is trimmed.
pub open spec fn header_from_parts(
    date: Timestamp,
    date_text: Seq<char>,
    thread: Seq<char>,
    component: Seq<char>,
    source_file: Seq<char>,
    remainder: Seq<char>,
) -> Option<HeaderView> {
    match decimal_value(thread) {
        Some(n) => Some(
            HeaderView {
                date,
                date_text,
                thread: n,
                component,
                source_file,
                error_message: trimmed(remainder),
            },
        ),
        None => None,
    }
}

/// The header that the capture groups of a match make up: there must be
/// the whole match and five groups, all present; the date must be one that
/// `chrono` reads under `DATE_FORMAT` and writes again.
pub open spec fn header_of_groups(groups: Seq<Option<Seq<char>>>) -> Option<HeaderView> {
    if groups.len() == 6 && groups_present(groups, 1, 6) {
        match date_parsed(groups[1]->0, DATE_FORMAT@) {
            Some((secs, nanos, offset)) => match date_written(secs, nanos, offset, DATE_FORMAT@) {
                Some(date_text) => header_from_parts(
                    Timestamp { secs, nanos, offset },
                    date_text,
                    groups[2]->0,
                    groups[3]->0,
                    groups[4]->0,
                    groups[5]->0,
                ),
                None => None,
            },
            None => None,
        }
    } else {
        None
    }
}

/// The header that `line` holds for the expression written as `pattern`,
/// if it holds one. The groups of a match are parts of the line, which
/// `groups_fit` records as far as the laws of this library need it.
pub open spec fn header_of_line(pattern: Seq<char>, line: Seq<char>) -> Option<HeaderView> {
    match regex_captures(pattern, line) {
        Some(groups) => if groups_fit(groups, line) {
            header_of_groups(groups)
        } else {
            None
        },
        None => None,
    }
}

/// The leading line of a record.
///
/// The date is kept twice: as the instant that `chrono` read from the line,
/// and as the text that `chrono` writes for that instant, which is how the
/// header writes its date.
pub struct Header {
    date: Timestamp,
    date_text: String,
    thread: u64,
    component: String,
    source_file: String,
    error_message: String,
}

impl View for Header {
    type V = HeaderView;

    closed spec fn view(&self) -> HeaderView {
        HeaderView {
            date: self.date,
            date_text: self.date_text@,
            thread: self.thread,
            component: self.component@,
            source_file: self.source_file@,
            error_message: self.error_message@,
        }
    }
}

impl Clone for Header {
    fn clone(&self) -> (r: Self)
        ensures
            r@ == self@,
    {
        Header {
            date: self.date,
            date_text: self.date_text.clone(),
            thread: self.thread,
            component: self.component.clone(),
            source_file: self.source_file.clone(),
            error_message: self.error_message.clone(),
        }
    }
}

impl Header {
    /// Recognises a header on `line` with the compiled header expression.
    ///
    /// A line is no header where the expression does not match, where the
    /// date it captured is none that `chrono` reads and writes, or where the
    /// thread is no decimal number. The contract speaks of expressions that
    /// `Regex::new` compiled; with any other the call is safe and nothing
    /// is promised.
    pub fn new(re: &Regex, line: &str) -> (r: Option<Header>)
        ensures
            regex_pattern(re) matches Some(pattern) ==> viewed(r) == header_of_line(
                pattern,
                line@,
            ),
    {
        match captures(re, line) {
            Some(groups) => Header::from_groups(&groups),
            None => None,
        }
    }

    /// Builds the header from the capture groups of a match.
    pub fn from_groups(groups: &Vec<Option<String>>) -> (r: Option<Header>)
        ensures
            viewed(r) == header_of_groups(groups_view(groups@)),
    {
        if groups.len() != 6 {
            return None;
        }
        let date = match group_text(groups, 1) {
            Some(text) => text,
            None => return None,
        };
        let thread = match group_text(groups, 2) {
            Some(text) => text,
            None => return None,
        };
        let component = match group_text(groups, 3) {
            Some(text) => text,
            None => return None,
        };
        let source_file = match group_text(groups, 4) {
            Some(text) => text,
            None => return None,
        };
        let remainder = match group_text(groups, 5) {
            Some(text) => text,
            None => return None,
        };
        assert(groups_present(groups_view(groups@), 1, 6));
        let stamp = match parse_date(date, DATE_FORMAT) {
            Some(stamp) => stamp,
            None => return None,
        };
        match format_date(stamp, DATE_FORMAT) {
            Some(date_text) => Header::assemble(
                stamp,
                date_text,
                thread,
                component,
                source_file,
                remainder,
            ),
            None => None,
        }
    }

    /// Builds the header from its date and the four texts that follow the
    /// date on the line.
    pub fn assemble(
        date: Timestamp,
        date_text: String,
        thread: &str,
        component: &str,
        source_file: &str,
        remainder: &str,
    ) -> (r: Option<Header>)
        ensures
            viewed(r) == header_from_parts(
                date,
                date_text@,
                thread@,
                component@,
                source_file@,
                remainder@,
            ),
    {
        match parse_decimal(thread) {
            Some(n) => Some(
                Header {
                    date,
                    date_text,
                    thread: n,
                    component: String::from_str(component),
                    source_file: String::from_str(source_file),
                    error_message: String::from_str(trim(remainder)),
                },
            ),
            None => None,
        }
    }

    /// Whether the header carries a message, which makes it a record of
    /// its own.
    pub fn is_error(&self) -> (b: bool)
        ensures
            b == self@.is_error(),
    {
        !self.error_message.as_str().is_empty()
    }

    /// The thread that traced the event.
    pub fn get_thread(&self) -> (id: u64)
        ensures
            id == self@.thread,
    {
        self.thread
    }

    /// When the event was traced.
    pub fn get_date(&self) -> (date: Timestamp)
        ensures
            date == self@.date,
    {
        self.date
    }

    /// Writes the header as a line.
    pub fn to_string(&self) -> (r: String)
        ensures
            r@ == self@.text(),
    {
        let mut r = self.date_text.clone();
        r.append("I----- thread(");
        r.append(decimal_text(self.thread).as_str());
        r.append(") ");
        r.append(self.component.as_str());
        r.append(" ");
        r.append(self.source_file.as_str());
        r.append(" ");
        r.append(self.error_message.as_str());
        r
    }
}

/// What a summary is.
pub struct SummaryView {
    /// The thread that holds the connection.
    pub thread: u64,
    /// The file descriptor of the connection.
    pub fd: u64,
    /// The local endpoint.
    pub local: Seq<char>,
    /// The remote endpoint.
    pub remote: Seq<char>,
}

impl SummaryView {
    /// The summary written as a line.
    pub open spec fn text(self) -> Seq<char> {
        "Thread "@ + decimal_digits(self.thread as nat) + "; fd "@ + decimal_digits(
            self.fd as nat,
        ) + "; local "@ + self.local + "; remote "@ + self.remote
    }
}

/// The summary made of the four texts of a summary line. Thread and file
/// descriptor must be decimal numbers.
pub open spec fn summary_from_parts(
    thread: Seq<char>,
    fd: Seq<char>,
    local: Seq<char>,
    remote: Seq<char>,
) -> Option<SummaryView> {
    match (decimal_value(thread), decimal_value(fd)) {
        (Some(t), Some(f)) => Some(SummaryView { thread: t, fd: f, local, remote }),
        _ => None,
    }
}

/// The summary that the capture groups of a match make up: there must be
/// the whole match and four groups, all present.
pub open spec fn summary_of_groups(groups: Seq<Option<Seq<char>>>) -> Option<SummaryView> {
    if groups.len() == 5 && groups_present(groups, 1, 5) {
        summary_from_parts(groups[1]->0, groups[2]->0, groups[3]->0, groups[4]->0)
    } else {
        None
    }
}

/// The summary that `line` holds for the expression written as `pattern`,
/// if it holds one.
pub open spec fn summary_of_line(pattern: Seq<char>, line: Seq<char>) -> Option<SummaryView> {
    match regex_captures(pattern, line) {
        Some(groups) => if groups_fit(groups, line) {
            summary_of_groups(groups)
        } else {
            None
        },
        None => None,
    }
}

/// The line that describes the connection of a record.
pub struct Summary {
    thread: u64,
    fd: u64,
    local: String,
    remote: String,
}

impl View for Summary {
    type V = SummaryView;

    closed spec fn view(&self) -> SummaryView {
        SummaryView {
            thread: self.thread,
            fd: self.fd,
            local: self.local@,
            remote: self.remote@,
        }
    }
}

impl Clone for Summary {
    fn clone(&self) -> (r: Self)
        ensures
            r@ == self@,
    {
        Summary {
            thread: self.thread,
            fd: self.fd,
            local: self.local.clone(),
            remote: self.remote.clone(),
        }
    }
}

impl Summary {
    /// Recognises a summary on `line` with the compiled summary expression.
    ///
    /// A line is no summary where the expression does not match, or where
    /// the thread or the file descriptor is no decimal number that fits in
    /// 64 bits. The contract speaks of expressions that `Regex::new`
    /// compiled; with any other the call is safe and nothing is promised.
    pub fn new(re: &Regex, line: &str) -> (r: Option<Summary>)
        ensures
            regex_pattern(re) matches Some(pattern) ==> viewed(r) == summary_of_line(
                pattern,
                line@,
            ),
    {
        match captures(re, line) {
            Some(groups) => Summary::from_groups(&groups),
            None => None,
        }
    }

    /// Builds the summary from the capture groups of a match.
    pub fn from_groups(groups: &Vec<Option<String>>) -> (r: Option<Summary>)
        ensures
            viewed(r) == summary_of_groups(groups_view(groups@)),
    {
        if groups.len() != 5 {
            return None;
        }
        let thread = match group_text(groups, 1) {
            Some(text) => text,
            None => return None,
        };
        let fd = match group_text(groups, 2) {
            Some(text) => text,
            None => return None,
        };
        let local = match group_text(groups, 3) {
            Some(text) => text,
            None => return None,
        };
        let remote = match group_text(groups, 4) {
            Some(text) => text,
            None => return None,
        };
        assert(groups_present(groups_view(groups@), 1, 5));
        Summary::assemble(thread, fd, local, remote)
    }

    /// Builds the summary from the four texts of a summary line.
    pub fn assemble(thread: &str, fd: &str, local: &str, remote: &str) -> (r: Option<Summary>)
        ensures
            viewed(r) == summary_from_parts(thread@, fd@, local@, remote@),
    {
        match parse_decimal(thread) {
            Some(t) => match parse_decimal(fd) {
                Some(f) => Some(
                    Summary {
                        thread: t,
                        fd: f,
                        local: String::from_str(local),
                        remote: String::from_str(remote),
                    },
                ),
                None => None,
            },
            None => None,
        }
    }

    /// Writes the summary as a line.
    pub fn to_string(&self) -> (r: String)
        ensures
            r@ == self@.text(),
    {
        let mut r = String::from_str("Thread ");
        r.append(decimal_text(self.thread).as_str());
        r.append("; fd ");
        r.append(decimal_text(self.fd).as_str());
        r.append("; local ");
        r.append(self.local.as_str());
        r.append("; remote ");
        r.append(self.remote.as_str());
        r
    }
}

/// Whether an action with this text is followed by a payload: the text
/// starts with `Sending` or with `Receiving`, in exactly that spelling.
pub open spec fn has_payload(action: Seq<char>) -> bool {
    "Sending"@.is_prefix_of(action) || "Receiving"@.is_prefix_of(action)
}

/// The line that names the traced operation.
pub struct Action {
    action: String,
}

impl View for Action {
    type V = Seq<char>;

    closed spec fn view(&self) -> Seq<char> {
        self.action@
    }
}

impl Clone for Action {
    fn clone(&self) -> (r: Self)
        ensures
            r@ == self@,
    {
        Action { action: self.action.clone() }
    }
}

impl Action {
    /// Takes a line as the action, whatever it says.
    pub fn new(action: &str) -> (r: Self)
        ensures
            r@ == action@,
    {
        Action { action: action.to_owned() }
    }

    /// Whether a payload follows the action.
    pub fn has_data(&self) -> (b: bool)
        ensures
            b == has_payload(self@),
    {
        has_prefix(self.action.as_str(), "Sending") || has_prefix(
            self.action.as_str(),
            "Receiving",
        )
    }

    /// Writes the action as a line.
    pub fn to_string(&self) -> (r: String)
        ensures
            r@ == self@,
    {
        self.action.clone()
    }
}

} // verus!
