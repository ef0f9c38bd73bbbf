//! The parser: it owns the lines of one trace, remembers how far it has
//! read, and hands out one record per call.
use crate::entry::entries_view;
use crate::entry::Entry;
use crate::entry::EntryView;
use crate::entry::DELIMITER;
use crate::error::SnoopError;
use crate::fields::viewed;
use crate::fields::Action;
use crate::fields::Header;
use crate::fields::Summary;
use crate::fields::HEADER_REGEX;
use crate::fields::SUMMARY_REGEX;
use crate::machine::allowed;
use crate::machine::lemma_scan_advances;
use crate::machine::lemma_scan_filtered_advances;
use crate::machine::lemma_scan_wf;
use crate::machine::lemma_step_wf;
use crate::machine::records;
use crate::machine::scan;
use crate::machine::scan_filtered;
use crate::machine::step;
use crate::machine::PendingView;
use crate::machine::Settings;
use crate::machine::State;
use crate::machine::DATA_REGEX;
use crate::pattern::error_text;
use crate::pattern::regex_compiles;
use crate::pattern::regex_pattern;
use crate::reflow::reflow;
use crate::reflow::reflowed;
use crate::reflow::snoop_to_text;
use crate::reflow::START_OF_TEXT;
use crate::reflow::WRAP_WIDTH;
use crate::text::same_text;
use regex::Regex;
use vstd::prelude::*;
use vstd::string::StrSliceExecFns;
use vstd::string::StringExecFns;

verus! {

/// What the parser has gathered of the record it is reading: the state and
/// the slots for the parts.
pub struct Pending {
    state: State,
    header: Option<Header>,
    summary: Option<Summary>,
    action: Option<Action>,
    data: String,
}

impl View for Pending {
    type V = PendingView;

    closed spec fn view(&self) -> PendingView {
        PendingView {
            state: self.state,
            header: viewed(self.header),
            summary: viewed(self.summary),
            action: viewed(self.action),
            data: self.data@,
        }
    }
}

impl Pending {
    /// Nothing gathered, waiting for a header.
    pub fn new() -> (r: Self)
        ensures
            r@ == PendingView::fresh(),
    {
        Pending {
            state: State::Header,
            header: None,
            summary: None,
            action: None,
            data: String::new(),
        }
    }

    /// What the parser waits for.
    pub fn state(&self) -> (s: State)
        ensures
            s == self@.state,
    {
        self.state
    }
}

/// Whether `id` is in `ids`.
fn listed(ids: &Vec<u64>, id: u64) -> (b: bool)
    ensures
        b == ids@.contains(id),
{
    let mut i: usize = 0;
    while i < ids.len()
        invariant
            0 <= i <= ids.len(),
            forall|j: int| 0 <= j < i ==> ids@[j] != id,
        decreases ids.len() - i,
    {
        if ids[i] == id {
            return true;
        }
        i += 1;
    }
    false
}

fn copy_ids(ids: &Vec<u64>) -> (r: Vec<u64>)
    ensures
        r@ == ids@,
{
    let mut r: Vec<u64> = Vec::new();
    let mut i: usize = 0;
    while i < ids.len()
        invariant
            0 <= i <= ids.len(),
            r@ == ids@.take(i as int),
        decreases ids.len() - i,
    {
        r.push(ids[i]);
        assert(r@ =~= ids@.take(i + 1));
        i += 1;
    }
    assert(ids@.take(ids.len() as int) =~= ids@);
    r
}

/// Compiles one of the patterns; a failure is reported with the message of
/// the `regex` crate.
fn compile(pattern: &str) -> (r: Result<Regex, SnoopError>)
    ensures
        r is Ok <==> regex_compiles(pattern@),
        r matches Ok(re) ==> regex_pattern(&re) == Some(pattern@),
{
    match Regex::new(pattern) {
        Ok(re) => Ok(re),
        Err(e) => Err(SnoopError::new(error_text(&e))),
    }
}

/// A parser over the lines of one trace.
pub struct SnoopParser {
    wrap_width: usize,
    head_re: Regex,
    summary_re: Regex,
    data_re: Regex,
    input: Vec<String>,
    cursor: usize,
    no_data: bool,
    text_only: bool,
    filter: Option<Vec<u64>>,
}

impl SnoopParser {
    /// The parser is as `new` made it: its three expressions are the ones
    /// compiled from the patterns of this library, and it has not read past
    /// the end of its input.
    pub closed spec fn wf(&self) -> bool {
        &&& regex_pattern(&self.head_re) == Some(HEADER_REGEX@)
        &&& regex_pattern(&self.summary_re) == Some(SUMMARY_REGEX@)
        &&& regex_pattern(&self.data_re) == Some(DATA_REGEX@)
        &&& self.cursor <= self.input.len()
        &&& self.wrap_width > 0
    }

    /// The lines of the trace, read or not.
    pub closed spec fn lines(&self) -> Seq<Seq<char>> {
        self.input.deep_view()
    }

    /// How many lines have been read.
    pub closed spec fn position(&self) -> nat {
        self.cursor as nat
    }

    /// How payload is handled.
    pub closed spec fn settings(&self) -> Settings {
        Settings {
            text_only: self.text_only,
            no_data: self.no_data,
            width: self.wrap_width as nat,
        }
    }

    /// The threads whose records are wanted; `None` where all are.
    pub closed spec fn allow_list(&self) -> Option<Seq<u64>> {
        match self.filter {
            Some(ids) => Some(ids@),
            None => None,
        }
    }

    /// Sets up a parser over `lines`: raw payload, no filter, nothing read.
    ///
    /// It fails only where one of the three patterns does not compile, with
    /// the message of the `regex` crate.
    pub fn new(lines: Vec<String>) -> (r: Result<SnoopParser, SnoopError>)
        ensures
            r is Ok <==> regex_compiles(HEADER_REGEX@) && regex_compiles(SUMMARY_REGEX@)
                && regex_compiles(DATA_REGEX@),
            r matches Ok(parser) ==> {
                &&& parser.wf()
                &&& parser.lines() == lines.deep_view()
                &&& parser.position() == 0
                &&& parser.settings() == (Settings {
                    text_only: false,
                    no_data: false,
                    width: WRAP_WIDTH as nat,
                })
                &&& parser.allow_list() is None
            },
    {
        let head_re = match compile(HEADER_REGEX) {
            Ok(re) => re,
            Err(e) => return Err(e),
        };
        let summary_re = match compile(SUMMARY_REGEX) {
            Ok(re) => re,
            Err(e) => return Err(e),
        };
        let data_re = match compile(DATA_REGEX) {
            Ok(re) => re,
            Err(e) => return Err(e),
        };
        Ok(
            SnoopParser {
                wrap_width: WRAP_WIDTH,
                head_re,
                summary_re,
                data_re,
                input: lines,
                cursor: 0,
                no_data: false,
                text_only: false,
                filter: None,
            },
        )
    }

    /// Sets up a parser over `lines` with the two payload options given.
    pub fn new_with_options(lines: Vec<String>, text_only: bool, no_data: bool) -> (r: Result<
        SnoopParser,
        SnoopError,
    >)
        ensures
            r is Ok <==> regex_compiles(HEADER_REGEX@) && regex_compiles(SUMMARY_REGEX@)
                && regex_compiles(DATA_REGEX@),
            r matches Ok(parser) ==> {
                &&& parser.wf()
                &&& parser.lines() == lines.deep_view()
                &&& parser.position() == 0
                &&& parser.settings() == (Settings { text_only, no_data, width: WRAP_WIDTH as nat })
                &&& parser.allow_list() is None
            },
    {
        match SnoopParser::new(lines) {
            Ok(other) => Ok(
                SnoopParser {
                    wrap_width: other.wrap_width,
                    head_re: other.head_re,
                    summary_re: other.summary_re,
                    data_re: other.data_re,
                    input: other.input,
                    cursor: other.cursor,
                    no_data,
                    text_only,
                    filter: other.filter,
                },
            ),
            Err(e) => Err(e),
        }
    }

    /// Chooses between decoded text and raw hex-dump lines as payload.
    pub fn set_text_only(&mut self, text_only: bool)
        ensures
            final(self).wf() == old(self).wf(),
            final(self).lines() == old(self).lines(),
            final(self).position() == old(self).position(),
            final(self).allow_list() == old(self).allow_list(),
            final(self).settings() == (Settings { text_only, ..old(self).settings() }),
    {
        self.text_only = text_only;
    }

    /// Chooses whether payload is kept at all.
    pub fn set_no_data(&mut self, no_data: bool)
        ensures
            final(self).wf() == old(self).wf(),
            final(self).lines() == old(self).lines(),
            final(self).position() == old(self).position(),
            final(self).allow_list() == old(self).allow_list(),
            final(self).settings() == (Settings { no_data, ..old(self).settings() }),
    {
        self.no_data = no_data;
    }

    /// Sets the threads whose records are wanted; `None` lets every record
    /// pass.
    pub fn set_filter(&mut self, filter: &Option<Vec<u64>>)
        ensures
            final(self).wf() == old(self).wf(),
            final(self).lines() == old(self).lines(),
            final(self).position() == old(self).position(),
            final(self).settings() == old(self).settings(),
            final(self).allow_list() == match *filter {
                Some(ids) => Some(ids@),
                None => None,
            },
    {
        self.filter = match filter {
            Some(ids) => Some(copy_ids(ids)),
            None => None,
        };
    }

    /// Whether a record of thread `id` passes the filter.
    fn passes(&self, id: u64) -> (b: bool)
        ensures
            b == allowed(self.allow_list(), id),
    {
        match &self.filter {
            Some(ids) => listed(ids, id),
            None => true,
        }
    }

    /// Re-wraps decoded text to the parser's width.
    pub fn format_data(&self, data: &str) -> (r: String)
        requires
            self.wf(),
        ensures
            r@ == reflowed(data@, self.settings().width),
    {
        reflow(data, self.wrap_width)
    }

    /// Feeds one line to the state machine: `pending` moves on as the
    /// transition table says, and the record that the line completes, if
    /// any, is handed out.
    pub fn advance(&self, pending: &mut Pending, line: &str) -> (out: Option<Entry>)
        requires
            self.wf(),
            old(pending)@.wf(),
        ensures
            (final(pending)@, viewed(out)) == step(self.settings(), old(pending)@, line@),
            final(pending)@.wf(),
            out matches Some(entry) ==> entry@.wf(),
    {
        proof {
            lemma_step_wf(self.settings(), pending@, line@);
        }
        match pending.state {
            State::Header => {
                match Header::new(&self.head_re, line) {
                    Some(header) => {
                        if header.is_error() {
                            let slot = Some(header);
                            let entry = Entry::new(
                                &slot,
                                &pending.summary,
                                &pending.action,
                                pending.data.as_str(),
                            );
                            *pending = Pending::new();
                            Some(entry)
                        } else {
                            pending.header = Some(header);
                            pending.state = State::OpeningLimit;
                            None
                        }
                    },
                    None => None,
                }
            },
            State::OpeningLimit => {
                if same_text(line, DELIMITER) {
                    pending.state = State::Summary;
                }
                None
            },
            State::Summary => {
                match Summary::new(&self.summary_re, line) {
                    Some(summary) => {
                        pending.summary = Some(summary);
                        pending.state = State::Action;
                    },
                    None => {},
                }
                None
            },
            State::Action => {
                let action = Action::new(line);
                if action.has_data() {
                    pending.state = State::Data;
                } else {
                    pending.state = State::ClosingLimit;
                }
                pending.action = Some(action);
                None
            },
            State::Data => {
                if !self.no_data && !line.is_empty() && self.data_re.is_match(line) {
                    if self.text_only {
                        if line.unicode_len() >= START_OF_TEXT {
                            pending.data.append(snoop_to_text(line));
                        } else {
                            assert(pending.data@ + Seq::<char>::empty() =~= pending.data@);
                        }
                    } else {
                        pending.data.append(line);
                        pending.data.append("\n");
                        assert(old(pending)@.data + line@ + "\n"@ =~= old(pending)@.data + (line@
                            + "\n"@));
                    }
                } else if line.is_empty() {
                    pending.state = State::ClosingLimit;
                }
                None
            },
            State::ClosingLimit => {
                if same_text(line, DELIMITER) {
                    if !self.no_data && self.text_only {
                        pending.data = self.format_data(pending.data.as_str());
                    }
                    let entry = Entry::new(
                        &pending.header,
                        &pending.summary,
                        &pending.action,
                        pending.data.as_str(),
                    );
                    *pending = Pending::new();
                    Some(entry)
                } else {
                    None
                }
            },
        }
    }

    /// Reads on to the next complete record, whatever its thread.
    ///
    /// `None` means that the input is used up; a record that was begun and
    /// not completed is dropped.
    pub fn parse_next(&mut self) -> (r: Option<Entry>)
        requires
            old(self).wf(),
        ensures
            final(self).wf(),
            final(self).lines() == old(self).lines(),
            final(self).settings() == old(self).settings(),
            final(self).allow_list() == old(self).allow_list(),
            (viewed(r), final(self).position()) == scan(
                old(self).settings(),
                old(self).lines(),
                old(self).position(),
                PendingView::fresh(),
            ),
            r matches Some(entry) ==> entry@.wf(),
    {
        let mut pending = Pending::new();
        let ghost settings = self.settings();
        let ghost lines = self.lines();
        let ghost start = self.position();
        proof {
            lemma_scan_wf(settings, lines, start, PendingView::fresh());
        }
        while self.cursor < self.input.len()
            invariant
                self.wf(),
                lines == old(self).lines(),
                settings == old(self).settings(),
                start == old(self).position(),
                self.lines() == lines,
                self.settings() == settings,
                self.allow_list() == old(self).allow_list(),
                pending@.wf(),
                scan(settings, lines, start, PendingView::fresh()) == scan(
                    settings,
                    lines,
                    self.position(),
                    pending@,
                ),
            decreases self.input.len() - self.cursor,
        {
            let at = self.cursor;
            assert(lines[at as int] == self.input[at as int]@);
            let out = self.advance(&mut pending, self.input[at].as_str());
            self.cursor = at + 1;
            if out.is_some() {
                return out;
            }
        }
        None
    }

    /// Reads on to the next complete record whose thread passes the filter.
    ///
    /// Records of other threads are read to their end and dropped, so that
    /// the parser keeps its place in the grammar.
    pub fn parse_next_filtered(&mut self) -> (r: Option<Entry>)
        requires
            old(self).wf(),
        ensures
            final(self).wf(),
            final(self).lines() == old(self).lines(),
            final(self).settings() == old(self).settings(),
            final(self).allow_list() == old(self).allow_list(),
            (viewed(r), final(self).position()) == scan_filtered(
                old(self).settings(),
                old(self).allow_list(),
                old(self).lines(),
                old(self).position(),
            ),
            r matches Some(entry) ==> entry@.wf(),
    {
        let ghost settings = self.settings();
        let ghost filter = self.allow_list();
        let ghost lines = self.lines();
        let ghost start = self.position();
        loop
            invariant
                self.wf(),
                lines == old(self).lines(),
                settings == old(self).settings(),
                filter == old(self).allow_list(),
                start == old(self).position(),
                self.lines() == lines,
                self.settings() == settings,
                self.allow_list() == filter,
                scan_filtered(settings, filter, lines, start) == scan_filtered(
                    settings,
                    filter,
                    lines,
                    self.position(),
                ),
            decreases lines.len() - self.position(),
        {
            proof {
                lemma_scan_advances(settings, lines, self.position(), PendingView::fresh());
            }
            match self.parse_next() {
                Some(entry) => {
                    if self.passes(entry.get_id()) {
                        return Some(entry);
                    }
                },
                None => {
                    return None;
                },
            }
        }
    }

    /// Reads the rest of the input: every record that passes the filter, in
    /// the order in which the records complete.
    pub fn parse_all(&mut self) -> (r: Vec<Entry>)
        requires
            old(self).wf(),
        ensures
            final(self).wf(),
            final(self).lines() == old(self).lines(),
            final(self).settings() == old(self).settings(),
            final(self).allow_list() == old(self).allow_list(),
            final(self).position() == old(self).lines().len(),
            entries_view(r@) == records(
                old(self).settings(),
                old(self).allow_list(),
                old(self).lines(),
                old(self).position(),
            ),
            forall|i: int| 0 <= i < r.len() ==> (#[trigger] r[i])@.wf(),
    {
        let ghost settings = self.settings();
        let ghost filter = self.allow_list();
        let ghost lines = self.lines();
        let ghost start = self.position();
        let mut found: Vec<Entry> = Vec::new();
        loop
            invariant
                self.wf(),
                lines == old(self).lines(),
                settings == old(self).settings(),
                filter == old(self).allow_list(),
                start == old(self).position(),
                self.lines() == lines,
                self.settings() == settings,
                self.allow_list() == filter,
                self.position() <= lines.len(),
                records(settings, filter, lines, start) == entries_view(found@) + records(
                    settings,
                    filter,
                    lines,
                    self.position(),
                ),
                forall|i: int| 0 <= i < found.len() ==> (#[trigger] found[i])@.wf(),
            decreases lines.len() - self.position(),
        {
            proof {
                lemma_scan_filtered_advances(settings, filter, lines, self.position());
            }
            let ghost before = entries_view(found@);
            match self.parse_next_filtered() {
                Some(entry) => {
                    let ghost seen = entry@;
                    found.push(entry);
                    assert(entries_view(found@) =~= before + seq![seen]);
                    assert(before + (seq![seen] + records(settings, filter, lines, self.position()))
                        =~= before + seq![seen] + records(
                        settings,
                        filter,
                        lines,
                        self.position(),
                    ));
                },
                None => {
                    assert(entries_view(found@) + Seq::<EntryView>::empty() =~= entries_view(
                        found@,
                    ));
                    return found;
                },
            }
        }
    }
}

} // verus!
