//! What follows from the state machine: laws of the parser, each proved
//! from the definitions in `machine`.
use crate::entry::assembled;
use crate::entry::rendered;
use crate::entry::EntryView;
use crate::entry::DELIMITER;
use crate::fields::groups_present;
use crate::fields::has_payload;
use crate::fields::HeaderView;
use crate::fields::SummaryView;
use crate::fields::HEADER_REGEX;
use crate::machine::allowed;
use crate::machine::captured;
use crate::machine::header_on;
use crate::machine::is_data_line;
use crate::machine::lemma_scan_advances;
use crate::machine::lemma_scan_filtered_advances;
use crate::machine::records;
use crate::machine::scan;
use crate::machine::scan_filtered;
use crate::machine::step;
use crate::machine::summary_on;
use crate::machine::PendingView;
use crate::machine::Settings;
use crate::machine::State;
use crate::pattern::groups_fit;
use crate::pattern::regex_captures;
use crate::reflow::terminated;
use vstd::prelude::*;

verus! {

/// The test that the allow-list `filter` puts to a record.
pub open spec fn passes(filter: Option<Seq<u64>>) -> spec_fn(EntryView) -> bool {
    |entry: EntryView| allowed(filter, entry.id())
}

/// Reading one line: either the line completes a record, or reading goes on
/// behind it with what the line added.
proof fn lemma_scan_unfold(
    settings: Settings,
    lines: Seq<Seq<char>>,
    pos: nat,
    p: PendingView,
)
    requires
        pos < lines.len(),
    ensures
        scan(settings, lines, pos, p) == (if step(settings, p, lines[pos as int]).1 is Some {
            (step(settings, p, lines[pos as int]).1, pos + 1)
        } else {
            scan(settings, lines, pos + 1, step(settings, p, lines[pos as int]).0)
        }),
{
}

/// Filtering changes neither the records that are kept nor their order:
/// the records read with an allow-list are the records read without one,
/// less those whose thread is not on the list; and so for the output.
pub proof fn lemma_filter_correct(
    settings: Settings,
    filter: Option<Seq<u64>>,
    lines: Seq<Seq<char>>,
    pos: nat,
)
    ensures
        records(settings, filter, lines, pos) == records(settings, None, lines, pos).filter(
            passes(filter),
        ),
        rendered(records(settings, filter, lines, pos)) == rendered(
            records(settings, None, lines, pos).filter(passes(filter)),
        ),
    decreases lines.len() - pos,
{
    let (out, next) = scan(settings, lines, pos, PendingView::fresh());
    lemma_scan_advances(settings, lines, pos, PendingView::fresh());
    assert(scan_filtered(settings, None, lines, pos) == (out, next));
    match out {
        Some(entry) => {
            let rest = records(settings, None, lines, next);
            assert(records(settings, None, lines, pos) == seq![entry] + rest);
            lemma_filter_correct(settings, filter, lines, next);
            rest.lemma_filter_prepend(entry, passes(filter));
            if allowed(filter, entry.id()) {
                assert(scan_filtered(settings, filter, lines, pos) == (out, next));
            } else {
                assert(scan_filtered(settings, filter, lines, pos) == scan_filtered(
                    settings,
                    filter,
                    lines,
                    next,
                ));
                lemma_scan_filtered_advances(settings, filter, lines, next);
                assert(records(settings, filter, lines, pos) == records(
                    settings,
                    filter,
                    lines,
                    next,
                ));
                assert(Seq::<EntryView>::empty() + rest.filter(passes(filter)) =~= rest.filter(
                    passes(filter),
                ));
            }
        },
        None => {
            assert(scan_filtered(settings, filter, lines, pos) == (out, next));
            assert(Seq::<EntryView>::empty().filter(passes(filter)) =~= Seq::<EntryView>::empty())
                by {
                reveal(Seq::filter);
            }
        },
    }
}

/// The shape of a record is decided by its header and then by its action
/// alone: a header with a message makes an error, whatever else was
/// gathered; otherwise an action that starts with `Sending` or `Receiving`
/// makes a record with payload, and any other action a record without.
pub proof fn lemma_shape(
    header: HeaderView,
    summary: Option<SummaryView>,
    action: Option<Seq<char>>,
    data: Seq<char>,
)
    ensures
        header.is_error() ==> assembled(Some(header), summary, action, data)
            == (EntryView::Error { header }),
        !header.is_error() && action is Some && has_payload(action->0) ==> assembled(
            Some(header),
            summary,
            action,
            data,
        ) == (EntryView::Data { header, summary: summary->0, action: action->0, data }),
        !header.is_error() && action is Some && !has_payload(action->0) ==> assembled(
            Some(header),
            summary,
            action,
            data,
        ) == (EntryView::Action { header, summary: summary->0, action: action->0 }),
{
}

/// An error header is a record by itself: the parser hands it out on the
/// header line and reads no line after it.
pub proof fn lemma_error_stands_alone(settings: Settings, lines: Seq<Seq<char>>, pos: nat)
    requires
        pos < lines.len(),
        header_on(lines[pos as int]) is Some,
        header_on(lines[pos as int])->0.is_error(),
    ensures
        scan(settings, lines, pos, PendingView::fresh()) == (
            Some(EntryView::Error { header: header_on(lines[pos as int])->0 }),
            pos + 1,
        ),
{
}

/// Lines that are no header change nothing while the parser waits for one.
pub proof fn lemma_noise_is_skipped(
    settings: Settings,
    lines: Seq<Seq<char>>,
    pos: nat,
    count: nat,
)
    requires
        pos + count <= lines.len(),
        forall|i: int| pos <= i < pos + count ==> header_on(#[trigger] lines[i]) is None,
    ensures
        scan(settings, lines, pos, PendingView::fresh()) == scan(
            settings,
            lines,
            pos + count,
            PendingView::fresh(),
        ),
    decreases count,
{
    if count > 0 {
        assert(header_on(lines[pos as int]) is None);
        lemma_scan_unfold(settings, lines, pos, PendingView::fresh());
        lemma_noise_is_skipped(settings, lines, pos + 1, (count - 1) as nat);
    }
}

/// What a run of hex-dump lines adds to the payload: what each line adds,
/// in the order of the lines.
pub open spec fn captured_all(settings: Settings, lines: Seq<Seq<char>>) -> Seq<char>
    decreases lines.len(),
{
    if lines.len() == 0 {
        Seq::empty()
    } else {
        captured_all(settings, lines.drop_last()) + captured(settings, lines.last())
    }
}

/// Kept raw, a run of hex-dump lines adds the lines themselves, each with
/// its line break.
pub proof fn lemma_raw_capture(settings: Settings, lines: Seq<Seq<char>>)
    requires
        !settings.text_only,
    ensures
        captured_all(settings, lines) == terminated(lines),
    decreases lines.len(),
{
    if lines.len() > 0 {
        lemma_raw_capture(settings, lines.drop_last());
        assert(terminated(lines.drop_last()) + (lines.last() + "\n"@) =~= terminated(
            lines.drop_last(),
        ) + lines.last() + "\n"@);
    }
}

/// While payload is kept, the hex-dump lines of a record are gathered in
/// the order of the input, none left out and none twice: after `count` such
/// lines the payload has grown by what each adds, first line first.
pub proof fn lemma_capture_in_order(
    settings: Settings,
    lines: Seq<Seq<char>>,
    pos: nat,
    count: nat,
    p: PendingView,
)
    requires
        p.state == State::Data,
        !settings.no_data,
        pos + count <= lines.len(),
        forall|i: int| pos <= i < pos + count ==> is_data_line(#[trigger] lines[i]),
    ensures
        scan(settings, lines, pos, p) == scan(
            settings,
            lines,
            pos + count,
            PendingView {
                data: p.data + captured_all(
                    settings,
                    lines.subrange(pos as int, pos as int + count),
                ),
                ..p
            },
        ),
    decreases count,
{
    let run = lines.subrange(pos as int, pos as int + count);
    if count == 0 {
        assert(p.data + captured_all(settings, run) =~= p.data);
    } else {
        let shorter = (count - 1) as nat;
        lemma_capture_in_order(settings, lines, pos, shorter, p);
        let front = lines.subrange(pos as int, pos as int + shorter);
        let last = lines[pos as int + shorter];
        assert(is_data_line(last));
        assert(run.drop_last() =~= front);
        assert(run.last() == last);
        let before = PendingView { data: p.data + captured_all(settings, front), ..p };
        lemma_scan_unfold(settings, lines, pos + shorter, before);
        assert(p.data + captured_all(settings, front) + captured(settings, last) =~= p.data + (
        captured_all(settings, front) + captured(settings, last)));
    }
}

/// A record as it stands in a trace: the lines it is made of.
pub enum Block {
    /// An error header.
    Error { header: Seq<char> },
    /// A record without payload.
    Plain { header: Seq<char>, summary: Seq<char>, action: Seq<char> },
    /// A record with the hex-dump lines of its payload.
    Payload { header: Seq<char>, summary: Seq<char>, action: Seq<char>, data: Seq<Seq<char>> },
}

/// Whether `line` is a header that is written exactly as the parser would
/// write it, and is an error or not as `error` says.
pub open spec fn canonical_header(line: Seq<char>, error: bool) -> bool {
    &&& header_on(line) is Some
    &&& header_on(line)->0.is_error() == error
    &&& header_on(line)->0.text() == line
}

/// Whether `line` is a summary that is written exactly as the parser would
/// write it.
pub open spec fn canonical_summary(line: Seq<char>) -> bool {
    &&& summary_on(line) is Some
    &&& summary_on(line)->0.text() == line
}

/// The empty line is noise: it is no header, for it has no room for a
/// thread number, and no hex-dump line.
pub proof fn lemma_blank_is_noise()
    ensures
        header_on(Seq::empty()) is None,
        !is_data_line(Seq::empty()),
{
    let blank = Seq::<char>::empty();
    match regex_captures(HEADER_REGEX@, blank) {
        Some(groups) => {
            if groups_fit(groups, blank) && groups.len() == 6 && groups_present(groups, 1, 6) {
                assert(groups[2] is Some);
                assert(groups[2]->0.len() == 0);
            }
        },
        None => {},
    }
}

impl Block {
    /// The lines of the record up to the one that completes it.
    pub open spec fn body(self) -> Seq<Seq<char>> {
        match self {
            Block::Error { header } => seq![header],
            Block::Plain { header, summary, action } => seq![
                header,
                DELIMITER@,
                summary,
                action,
                DELIMITER@,
            ],
            Block::Payload { header, summary, action, data } => seq![
                header,
                DELIMITER@,
                summary,
                action,
            ] + data + seq![Seq::empty(), DELIMITER@],
        }
    }

    /// The lines of the record in a trace: its body, and behind every
    /// record but an error one empty line.
    pub open spec fn lines(self) -> Seq<Seq<char>> {
        match self {
            Block::Error { .. } => self.body(),
            _ => self.body().push(Seq::empty()),
        }
    }

    /// The record is written as the parser writes records: header and
    /// summary are canonical, the action calls for a payload exactly where
    /// there is one, and the payload is made of hex-dump lines.
    pub open spec fn canonical(self) -> bool {
        match self {
            Block::Error { header } => canonical_header(header, true),
            Block::Plain { header, summary, action } => canonical_header(header, false)
                && canonical_summary(summary) && !has_payload(action),
            Block::Payload { header, summary, action, data } => canonical_header(header, false)
                && canonical_summary(summary) && has_payload(action) && forall|i: int|
                0 <= i < data.len() ==> is_data_line(#[trigger] data[i]),
        }
    }

    /// The record that the parser makes of these lines when it keeps the
    /// payload raw.
    pub open spec fn entry(self) -> EntryView {
        match self {
            Block::Error { header } => EntryView::Error { header: header_on(header)->0 },
            Block::Plain { header, summary, action } => EntryView::Action {
                header: header_on(header)->0,
                summary: summary_on(summary)->0,
                action,
            },
            Block::Payload { header, summary, action, data } => EntryView::Data {
                header: header_on(header)->0,
                summary: summary_on(summary)->0,
                action,
                data: terminated(data),
            },
        }
    }
}

/// The lines of a trace made of `blocks`.
pub open spec fn trace_lines(blocks: Seq<Block>) -> Seq<Seq<char>>
    decreases blocks.len(),
{
    if blocks.len() == 0 {
        Seq::empty()
    } else {
        blocks.first().lines() + trace_lines(blocks.drop_first())
    }
}

/// The records of `blocks`.
pub open spec fn trace_entries(blocks: Seq<Block>) -> Seq<EntryView> {
    Seq::new(blocks.len(), |i: int| blocks[i].entry())
}

/// Payload kept raw, and all of it.
pub open spec fn raw(settings: Settings) -> bool {
    !settings.text_only && !settings.no_data
}

/// Reading a canonical record from its header line yields that record, at
/// the line that completes it.
pub proof fn lemma_scan_block(settings: Settings, lines: Seq<Seq<char>>, pos: nat, block: Block)
    requires
        raw(settings),
        block.canonical(),
        pos + block.body().len() <= lines.len(),
        lines.subrange(pos as int, pos as int + block.body().len()) == block.body(),
    ensures
        scan(settings, lines, pos, PendingView::fresh()) == (
            Some(block.entry()),
            pos + block.body().len(),
        ),
{
    let body = block.body();
    let at = pos as int;
    assert forall|i: int| 0 <= i < body.len() implies lines[at + i] == #[trigger] body[i] by {
        assert(lines.subrange(at, at + body.len())[i] == lines[at + i]);
    }
    let fresh = PendingView::fresh();
    match block {
        Block::Error { header } => {
            assert(lines[pos as int] == body[0]);
            lemma_scan_unfold(settings, lines, pos, fresh);
        },
        Block::Plain { header, summary, action } => {
            assert(lines[pos as int] == body[0]);
            assert(lines[at + 1] == body[1]);
            assert(lines[at + 2] == body[2]);
            assert(lines[at + 3] == body[3]);
            assert(lines[at + 4] == body[4]);
            let h = header_on(header);
            let s = summary_on(summary);
            let opened = PendingView { state: State::OpeningLimit, header: h, ..fresh };
            let at_summary = PendingView { state: State::Summary, ..opened };
            let at_action = PendingView { state: State::Action, summary: s, ..at_summary };
            let at_body = PendingView { state: State::ClosingLimit, action: Some(action), ..at_action };
            lemma_scan_unfold(settings, lines, pos, fresh);
            lemma_scan_unfold(settings, lines, pos + 1, opened);
            lemma_scan_unfold(settings, lines, pos + 2, at_summary);
            lemma_scan_unfold(settings, lines, pos + 3, at_action);
            lemma_scan_unfold(settings, lines, pos + 4, at_body);
        },
        Block::Payload { header, summary, action, data } => {
            let n = data.len();
            assert(body.len() == n + 6);
            assert(lines[pos as int] == body[0]);
            assert(lines[at + 1] == body[1]);
            assert(lines[at + 2] == body[2]);
            assert(lines[at + 3] == body[3]);
            assert(lines[at + 4 + n] == body[4 + n as int]);
            assert(lines[at + 5 + n] == body[5 + n as int]);
            assert forall|i: int| at + 4 <= i < at + 4 + n implies is_data_line(
                #[trigger] lines[i],
            ) by {
                assert(lines[i] == body[i - at]);
                assert(body[i - at] == data[i - at - 4]);
            }
            assert(lines.subrange(at + 4, at + 4 + n) =~= data) by {
                assert forall|i: int| 0 <= i < n implies lines.subrange(at + 4, at + 4 + n)[i]
                    == data[i] by {
                    assert(lines[at + 4 + i] == body[4 + i]);
                }
            }
            let h = header_on(header);
            let s = summary_on(summary);
            let opened = PendingView { state: State::OpeningLimit, header: h, ..fresh };
            let at_summary = PendingView { state: State::Summary, ..opened };
            let at_action = PendingView { state: State::Action, summary: s, ..at_summary };
            let at_body = PendingView { state: State::Data, action: Some(action), ..at_action };
            let gathered = PendingView { data: at_body.data + captured_all(settings, data), ..at_body };
            let closing = PendingView { state: State::ClosingLimit, ..gathered };
            lemma_scan_unfold(settings, lines, pos, fresh);
            lemma_scan_unfold(settings, lines, pos + 1, opened);
            lemma_scan_unfold(settings, lines, pos + 2, at_summary);
            lemma_scan_unfold(settings, lines, pos + 3, at_action);
            lemma_capture_in_order(settings, lines, pos + 4, n, at_body);
            lemma_raw_capture(settings, data);
            assert(at_body.data + captured_all(settings, data) =~= terminated(data));
            lemma_scan_unfold(settings, lines, pos + 4 + n, gathered);
            lemma_scan_unfold(settings, lines, pos + 5 + n, closing);
        },
    }
}

/// Line breaks behind each line of two lists, one list after the other.
pub proof fn lemma_terminated_add(a: Seq<Seq<char>>, b: Seq<Seq<char>>)
    ensures
        terminated(a + b) == terminated(a) + terminated(b),
    decreases b.len(),
{
    if b.len() == 0 {
        assert(a + b =~= a);
        assert(terminated(a) + terminated(b) =~= terminated(a));
    } else {
        lemma_terminated_add(a, b.drop_last());
        assert((a + b).drop_last() =~= a + b.drop_last());
        assert((a + b).last() == b.last());
        assert(terminated(a) + terminated(b.drop_last()) + b.last() + "\n"@ =~= terminated(a) + (
        terminated(b.drop_last()) + b.last() + "\n"@));
    }
}

proof fn lemma_terminated_push(a: Seq<Seq<char>>, line: Seq<char>)
    ensures
        terminated(a.push(line)) == terminated(a) + line + "\n"@,
{
    assert(a.push(line).drop_last() =~= a);
}

/// A canonical record, written by the parser and followed by a line break,
/// is the lines it was read from.
pub proof fn lemma_block_text(block: Block)
    requires
        block.canonical(),
    ensures
        block.entry().text() + "\n"@ == terminated(block.lines()),
{
    let nl = "\n"@;
    let none = Seq::<Seq<char>>::empty();
    let blank = Seq::<char>::empty();
    assert(terminated(none) =~= blank);
    match block {
        Block::Error { header } => {
            lemma_terminated_push(none, header);
            assert(block.lines() =~= none.push(header));
            assert(terminated(block.lines()) =~= header + nl);
        },
        Block::Plain { header, summary, action } => {
            let l1 = none.push(header);
            let l2 = l1.push(DELIMITER@);
            let l3 = l2.push(summary);
            let l4 = l3.push(action);
            let l5 = l4.push(DELIMITER@);
            let l6 = l5.push(blank);
            lemma_terminated_push(none, header);
            lemma_terminated_push(l1, DELIMITER@);
            lemma_terminated_push(l2, summary);
            lemma_terminated_push(l3, action);
            lemma_terminated_push(l4, DELIMITER@);
            lemma_terminated_push(l5, blank);
            assert(block.lines() =~= l6);
            assert(block.entry().text() + nl =~= terminated(l6));
        },
        Block::Payload { header, summary, action, data } => {
            let l1 = none.push(header);
            let l2 = l1.push(DELIMITER@);
            let l3 = l2.push(summary);
            let l4 = l3.push(action);
            let l5 = l4 + data;
            let l6 = l5.push(blank);
            let l7 = l6.push(DELIMITER@);
            let l8 = l7.push(blank);
            lemma_terminated_push(none, header);
            lemma_terminated_push(l1, DELIMITER@);
            lemma_terminated_push(l2, summary);
            lemma_terminated_push(l3, action);
            lemma_terminated_add(l4, data);
            lemma_terminated_push(l5, blank);
            lemma_terminated_push(l6, DELIMITER@);
            lemma_terminated_push(l7, blank);
            assert(block.lines() =~= l8);
            assert(block.entry().text() + nl =~= terminated(l8));
        },
    }
}

/// The output for the records of `blocks` is the lines of `blocks`, each
/// with its line break.
pub proof fn lemma_rendered_blocks(blocks: Seq<Block>)
    requires
        forall|i: int| 0 <= i < blocks.len() ==> (#[trigger] blocks[i]).canonical(),
    ensures
        rendered(trace_entries(blocks)) == terminated(trace_lines(blocks)),
    decreases blocks.len(),
{
    if blocks.len() == 0 {
        assert(trace_entries(blocks) =~= Seq::<EntryView>::empty());
    } else {
        let front = blocks.drop_last();
        let last = blocks.last();
        lemma_rendered_blocks(front);
        lemma_block_text(last);
        lemma_trace_lines_push(front, last);
        assert(blocks =~= front.push(last));
        lemma_terminated_add(trace_lines(front), last.lines());
        assert(trace_entries(blocks).drop_last() =~= trace_entries(front));
        assert(trace_entries(blocks).last() == last.entry());
        assert(rendered(trace_entries(front)) + last.entry().text() + "\n"@ =~= rendered(
            trace_entries(front),
        ) + (last.entry().text() + "\n"@));
    }
}

proof fn lemma_trace_lines_push(blocks: Seq<Block>, last: Block)
    ensures
        trace_lines(blocks.push(last)) == trace_lines(blocks) + last.lines(),
    decreases blocks.len(),
{
    let all = blocks.push(last);
    if blocks.len() == 0 {
        assert(all.drop_first() =~= Seq::<Block>::empty());
        assert(trace_lines(all.drop_first()) =~= Seq::<Seq<char>>::empty());
        assert(last.lines() + Seq::<Seq<char>>::empty() =~= last.lines());
        assert(trace_lines(blocks) + last.lines() =~= last.lines());
    } else {
        lemma_trace_lines_push(blocks.drop_first(), last);
        assert(all.drop_first() =~= blocks.drop_first().push(last));
        assert(all.first() == blocks.first());
        assert(blocks.first().lines() + (trace_lines(blocks.drop_first()) + last.lines())
            =~= blocks.first().lines() + trace_lines(blocks.drop_first()) + last.lines());
    }
}

/// Reading a trace of canonical records that follows `before` yields the
/// records of the trace. `gap` says whether reading starts on the empty
/// line that ends `before`.
proof fn lemma_records_of_blocks(
    settings: Settings,
    before: Seq<Seq<char>>,
    gap: nat,
    blocks: Seq<Block>,
)
    requires
        raw(settings),
        forall|i: int| 0 <= i < blocks.len() ==> (#[trigger] blocks[i]).canonical(),
        gap <= 1,
        gap == 1 ==> before.len() > 0 && before.last() == Seq::<char>::empty(),
    ensures
        records(settings, None, before + trace_lines(blocks), (before.len() - gap) as nat)
            == trace_entries(blocks),
    decreases blocks.len(),
{
    let lines = before + trace_lines(blocks);
    let pos = (before.len() - gap) as nat;
    let start = before.len();
    let fresh = PendingView::fresh();
    lemma_blank_is_noise();
    if gap == 1 {
        assert(lines[pos as int] == before.last());
    }
    assert forall|i: int| pos <= i < pos + gap implies header_on(#[trigger] lines[i]) is None by {
        assert(lines[i] == Seq::<char>::empty());
    }
    lemma_noise_is_skipped(settings, lines, pos, gap);
    assert(scan(settings, lines, pos, fresh) == scan(settings, lines, start, fresh));
    if blocks.len() == 0 {
        assert(trace_lines(blocks) =~= Seq::<Seq<char>>::empty());
        assert(lines =~= before);
        assert(scan(settings, lines, start, fresh) == (None::<EntryView>, start));
        assert(scan_filtered(settings, None, lines, pos).0 is None);
        assert(trace_entries(blocks) =~= Seq::<EntryView>::empty());
    } else {
        let first = blocks.first();
        let rest = blocks.drop_first();
        let body = first.body();
        assert(first.canonical());
        assert(lines =~= before + first.lines() + trace_lines(rest));
        assert(first.lines().subrange(0, body.len() as int) =~= body);
        assert(lines.subrange(start as int, start as int + body.len()) =~= body);
        lemma_scan_block(settings, lines, start, first);
        let next = start + body.len();
        assert(scan_filtered(settings, None, lines, pos) == (Some(first.entry()), next));
        let gap_after: nat = if first is Error {
            0
        } else {
            1
        };
        let done = before + first.lines();
        assert(done.len() - gap_after == next);
        assert forall|i: int| 0 <= i < rest.len() implies (#[trigger] rest[i]).canonical() by {
            assert(rest[i] == blocks[i + 1]);
        }
        lemma_records_of_blocks(settings, done, gap_after, rest);
        assert(done + trace_lines(rest) =~= lines);
        assert(records(settings, None, lines, pos) == seq![first.entry()] + records(
            settings,
            None,
            lines,
            next,
        ));
        assert(seq![first.entry()] + trace_entries(rest) =~= trace_entries(blocks)) by {
            assert forall|i: int| 0 <= i < blocks.len() implies (seq![first.entry()]
                + trace_entries(rest))[i] == trace_entries(blocks)[i] by {
                if i > 0 {
                    assert(rest[i - 1] == blocks[i]);
                }
            }
        }
    }
}

/// The round trip. Take a trace made of canonical records: error headers,
/// and records with a body between two delimiters, each of these followed by
/// an empty line. Read it with the payload kept raw and without a filter,
/// and write every record with a line break behind it: the output is the
/// trace, line for line.
pub proof fn lemma_round_trip(settings: Settings, blocks: Seq<Block>)
    requires
        raw(settings),
        forall|i: int| 0 <= i < blocks.len() ==> (#[trigger] blocks[i]).canonical(),
    ensures
        records(settings, None, trace_lines(blocks), 0) == trace_entries(blocks),
        rendered(records(settings, None, trace_lines(blocks), 0)) == terminated(
            trace_lines(blocks),
        ),
{
    let before = Seq::<Seq<char>>::empty();
    lemma_records_of_blocks(settings, before, 0, blocks);
    assert(before + trace_lines(blocks) =~= trace_lines(blocks));
    lemma_rendered_blocks(blocks);
}

} // verus!
