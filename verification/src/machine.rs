//! The state machine that turns lines into records, as mathematics.
//!
//! A record has no explicit boundaries: what a line means depends on the
//! state in which it is read. `step` is the transition table; `scan` runs it
//! over the input until a record is complete; `scan_filtered` and `records`
//! say what repeated reading yields. The executable parser is verified
//! against these functions.
use crate::entry::assembled;
use crate::entry::EntryView;
use crate::entry::DELIMITER;
use crate::fields::has_payload;
use crate::fields::header_of_line;
use crate::fields::summary_of_line;
use crate::fields::HeaderView;
use crate::fields::SummaryView;
use crate::fields::HEADER_REGEX;
use crate::fields::SUMMARY_REGEX;
use crate::pattern::regex_is_match;
use crate::reflow::reflowed;
use crate::reflow::text_column;
use crate::reflow::START_OF_TEXT;
use vstd::prelude::*;

verus! {

/// The pattern of a hex-dump line: `0x` and four hexadecimal digits at the
/// start of the line.
pub const DATA_REGEX: &'static str = r"^0x[0-9a-fA-F]{4}";

/// What the parser waits for.
#[derive(Clone, Copy, Debug, PartialEq, Eq, Structural)]
pub enum State {
    /// A header line.
    Header,
    /// The delimiter that opens the body.
    OpeningLimit,
    /// The summary line.
    Summary,
    /// The action line.
    Action,
    /// Hex-dump lines, or the empty line that ends them.
    Data,
    /// The delimiter that closes the body.
    ClosingLimit,
}

/// How payload is handled.
pub struct Settings {
    /// Keep the text column of each hex-dump line and re-wrap it, in place
    /// of the raw lines.
    pub text_only: bool,
    /// Keep no payload at all.
    pub no_data: bool,
    /// The width to which decoded text is wrapped.
    pub width: nat,
}

/// What the parser has gathered of the record it is reading.
pub struct PendingView {
    pub state: State,
    pub header: Option<HeaderView>,
    pub summary: Option<SummaryView>,
    pub action: Option<Seq<char>>,
    pub data: Seq<char>,
}

impl PendingView {
    /// Nothing gathered, waiting for a header.
    pub open spec fn fresh() -> PendingView {
        PendingView {
            state: State::Header,
            header: None,
            summary: None,
            action: None,
            data: Seq::empty(),
        }
    }

    /// The slots that the state promises are filled: past the header state
    /// there is a header that is no error; from the action state on there is
    /// a summary; from the data state on there is an action, which in the
    /// data state calls for a payload.
    pub open spec fn wf(self) -> bool {
        &&& self.state != State::Header ==> self.header is Some && !self.header->0.is_error()
        &&& (self.state == State::Action || self.state == State::Data || self.state
            == State::ClosingLimit) ==> self.summary is Some
        &&& (self.state == State::Data || self.state == State::ClosingLimit)
            ==> self.action is Some
        &&& self.state == State::Data ==> has_payload(self.action->0)
    }
}

/// The header on `line`, if the line is a header.
pub open spec fn header_on(line: Seq<char>) -> Option<HeaderView> {
    header_of_line(HEADER_REGEX@, line)
}

/// The summary on `line`, if the line is a summary.
pub open spec fn summary_on(line: Seq<char>) -> Option<SummaryView> {
    summary_of_line(SUMMARY_REGEX@, line)
}

/// Whether `line` is a hex-dump line. The empty line never is one: it is
/// what ends the payload.
pub open spec fn is_data_line(line: Seq<char>) -> bool {
    line.len() > 0 && regex_is_match(DATA_REGEX@, line)
}

/// What a hex-dump line adds to the payload. Raw, it is the line and a line
/// break. Decoded, it is the line's text column; a line too short to have
/// one adds nothing.
pub open spec fn captured(settings: Settings, line: Seq<char>) -> Seq<char> {
    if settings.text_only {
        if line.len() >= START_OF_TEXT {
            text_column(line)
        } else {
            Seq::empty()
        }
    } else {
        line + "\n"@
    }
}

/// The payload as the record carries it: decoded text is re-wrapped, raw
/// lines stay as they are.
pub open spec fn finished(settings: Settings, data: Seq<char>) -> Seq<char> {
    if !settings.no_data && settings.text_only {
        reflowed(data, settings.width)
    } else {
        data
    }
}

/// One transition: what reading `line` makes of what was gathered, and the
/// record that the line completes, if it completes one. A line that the
/// state has no use for changes nothing. After a record the parser starts
/// afresh.
pub open spec fn step(settings: Settings, p: PendingView, line: Seq<char>) -> (
    PendingView,
    Option<EntryView>,
) {
    match p.state {
        State::Header => match header_on(line) {
            Some(h) => if h.is_error() {
                (PendingView::fresh(), Some(EntryView::Error { header: h }))
            } else {
                (PendingView { state: State::OpeningLimit, header: Some(h), ..p }, None)
            },
            None => (p, None),
        },
        State::OpeningLimit => if line == DELIMITER@ {
            (PendingView { state: State::Summary, ..p }, None)
        } else {
            (p, None)
        },
        State::Summary => match summary_on(line) {
            Some(s) => (PendingView { state: State::Action, summary: Some(s), ..p }, None),
            None => (p, None),
        },
        State::Action => (
            PendingView {
                state: if has_payload(line) {
                    State::Data
                } else {
                    State::ClosingLimit
                },
                action: Some(line),
                ..p
            },
            None,
        ),
        State::Data => if !settings.no_data && is_data_line(line) {
            (PendingView { data: p.data + captured(settings, line), ..p }, None)
        } else if line.len() == 0 {
            (PendingView { state: State::ClosingLimit, ..p }, None)
        } else {
            (p, None)
        },
        State::ClosingLimit => if line == DELIMITER@ {
            (
                PendingView::fresh(),
                Some(assembled(p.header, p.summary, p.action, finished(settings, p.data))),
            )
        } else {
            (p, None)
        },
    }
}

/// Reads on from line `pos` with `p` gathered: the first record that
/// completes, and the position behind the line that completed it. Where the
/// input ends first there is no record, and what was gathered is dropped.
pub open spec fn scan(settings: Settings, lines: Seq<Seq<char>>, pos: nat, p: PendingView) -> (
    Option<EntryView>,
    nat,
)
    decreases lines.len() - pos,
{
    if pos >= lines.len() {
        (None, pos)
    } else {
        let (next, out) = step(settings, p, lines[pos as int]);
        if out is Some {
            (out, pos + 1)
        } else {
            scan(settings, lines, pos + 1, next)
        }
    }
}

/// Whether a record of thread `id` passes the allow-list. Without a list
/// every record passes.
pub open spec fn allowed(filter: Option<Seq<u64>>, id: u64) -> bool {
    match filter {
        Some(ids) => ids.contains(id),
        None => true,
    }
}

/// Reads on from line `pos` to the first record that passes the
/// allow-list. Records that do not pass are read to their end and dropped.
pub open spec fn scan_filtered(
    settings: Settings,
    filter: Option<Seq<u64>>,
    lines: Seq<Seq<char>>,
    pos: nat,
) -> (Option<EntryView>, nat)
    decreases lines.len() - pos,
    via scan_filtered_decreases
{
    let (out, next) = scan(settings, lines, pos, PendingView::fresh());
    match out {
        Some(entry) => if allowed(filter, entry.id()) {
            (out, next)
        } else {
            scan_filtered(settings, filter, lines, next)
        },
        None => (None, next),
    }
}

#[via_fn]
proof fn scan_filtered_decreases(
    settings: Settings,
    filter: Option<Seq<u64>>,
    lines: Seq<Seq<char>>,
    pos: nat,
) {
    lemma_scan_advances(settings, lines, pos, PendingView::fresh());
}

/// All the records that repeated reading from line `pos` yields, in the
/// order in which they complete.
pub open spec fn records(
    settings: Settings,
    filter: Option<Seq<u64>>,
    lines: Seq<Seq<char>>,
    pos: nat,
) -> Seq<EntryView>
    decreases lines.len() - pos,
    via records_decreases
{
    let (out, next) = scan_filtered(settings, filter, lines, pos);
    match out {
        Some(entry) => seq![entry] + records(settings, filter, lines, next),
        None => Seq::empty(),
    }
}

#[via_fn]
proof fn records_decreases(
    settings: Settings,
    filter: Option<Seq<u64>>,
    lines: Seq<Seq<char>>,
    pos: nat,
) {
    lemma_scan_filtered_advances(settings, filter, lines, pos);
}

/// A transition keeps the promise of `PendingView::wf`, and a record that
/// it completes has the shape that fits its parts.
pub proof fn lemma_step_wf(settings: Settings, p: PendingView, line: Seq<char>)
    requires
        p.wf(),
    ensures
        step(settings, p, line).0.wf(),
        step(settings, p, line).1 matches Some(entry) ==> entry.wf(),
{
}

/// A record is completed by a line: the position moves past at least one
/// line and never past the end. Without a record the input is used up.
pub proof fn lemma_scan_advances(
    settings: Settings,
    lines: Seq<Seq<char>>,
    pos: nat,
    p: PendingView,
)
    ensures
        scan(settings, lines, pos, p).0 is Some ==> pos < scan(settings, lines, pos, p).1
            <= lines.len(),
        scan(settings, lines, pos, p).0 is None && pos <= lines.len() ==> scan(
            settings,
            lines,
            pos,
            p,
        ).1 == lines.len(),
    decreases lines.len() - pos,
{
    if pos < lines.len() {
        let (next, out) = step(settings, p, lines[pos as int]);
        if out is None {
            lemma_scan_advances(settings, lines, pos + 1, next);
        }
    }
}

/// Every record that reading yields has the shape that fits its parts.
pub proof fn lemma_scan_wf(settings: Settings, lines: Seq<Seq<char>>, pos: nat, p: PendingView)
    requires
        p.wf(),
    ensures
        scan(settings, lines, pos, p).0 matches Some(entry) ==> entry.wf(),
    decreases lines.len() - pos,
{
    if pos < lines.len() {
        lemma_step_wf(settings, p, lines[pos as int]);
        let (next, out) = step(settings, p, lines[pos as int]);
        if out is None {
            lemma_scan_wf(settings, lines, pos + 1, next);
        }
    }
}

/// Filtered reading moves on like plain reading, and what it yields passes
/// the allow-list and has the shape that fits its parts.
pub proof fn lemma_scan_filtered_advances(
    settings: Settings,
    filter: Option<Seq<u64>>,
    lines: Seq<Seq<char>>,
    pos: nat,
)
    ensures
        scan_filtered(settings, filter, lines, pos).0 is Some ==> pos < scan_filtered(
            settings,
            filter,
            lines,
            pos,
        ).1 <= lines.len(),
        scan_filtered(settings, filter, lines, pos).0 is None && pos <= lines.len()
            ==> scan_filtered(settings, filter, lines, pos).1 == lines.len(),
        scan_filtered(settings, filter, lines, pos).0 matches Some(entry) ==> entry.wf()
            && allowed(filter, entry.id()),
    decreases lines.len() - pos,
{
    lemma_scan_advances(settings, lines, pos, PendingView::fresh());
    lemma_scan_wf(settings, lines, pos, PendingView::fresh());
    let (out, next) = scan(settings, lines, pos, PendingView::fresh());
    if let Some(entry) = out {
        if !allowed(filter, entry.id()) {
            lemma_scan_filtered_advances(settings, filter, lines, next);
        }
    }
}

} // verus!
