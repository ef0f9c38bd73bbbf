//! Completed trace records: their three shapes, how the shape is chosen,
//! and how a record is written back as text.
use crate::fields::has_payload;
use crate::fields::viewed;
use crate::fields::Action;
use crate::fields::Header;
use crate::fields::HeaderView;
use crate::fields::Summary;
use crate::fields::SummaryView;
use vstd::prelude::*;
use vstd::string::StringExecFns;

verus! {

/// The line of forty dashes that opens and closes the body of a record.
pub const DELIMITER: &'static str = "----------------------------------------";

/// What a record is: one of three shapes, each with the parts that belong
/// to it.
pub enum EntryView {
    /// An error header, which is a record by itself.
    Error { header: HeaderView },
    /// A record whose action carries no payload.
    Action { header: HeaderView, summary: SummaryView, action: Seq<char> },
    /// A record whose action is followed by a payload.
    Data { header: HeaderView, summary: SummaryView, action: Seq<char>, data: Seq<char> },
}

impl EntryView {
    /// The header of the record.
    pub open spec fn header(self) -> HeaderView {
        match self {
            EntryView::Error { header } => header,
            EntryView::Action { header, .. } => header,
            EntryView::Data { header, .. } => header,
        }
    }

    /// The thread of the record's header, by which records are filtered.
    pub open spec fn id(self) -> u64 {
        self.header().thread
    }

    /// The shape fits the parts: an error header stands alone, and a
    /// payload is there exactly when the action calls for one.
    pub open spec fn wf(self) -> bool {
        match self {
            EntryView::Error { header } => header.is_error(),
            EntryView::Action { header, action, .. } => !header.is_error() && !has_payload(
                action,
            ),
            EntryView::Data { header, action, .. } => !header.is_error() && has_payload(action),
        }
    }

    /// The record written as text. An error is its header line, with no
    /// line break after it. Every other record is the header, the
    /// delimiter, the summary, the action, the payload where there is one,
    /// and the delimiter again, with a line break after each.
    pub open spec fn text(self) -> Seq<char> {
        match self {
            EntryView::Error { header } => header.text(),
            EntryView::Action { header, summary, action } => header.text() + "\n"@ + DELIMITER@
                + "\n"@ + summary.text() + "\n"@ + action + "\n"@ + DELIMITER@ + "\n"@,
            EntryView::Data { header, summary, action, data } => header.text() + "\n"@
                + DELIMITER@ + "\n"@ + summary.text() + "\n"@ + action + "\n"@ + data + "\n"@
                + DELIMITER@ + "\n"@,
        }
    }
}

/// The record that the four slots make up once a record is complete. An
/// error header decides alone; otherwise the action decides between a
/// record with a payload and one without. Slots that the shape does not
/// need are ignored.
pub open spec fn assembled(
    header: Option<HeaderView>,
    summary: Option<SummaryView>,
    action: Option<Seq<char>>,
    data: Seq<char>,
) -> EntryView {
    if header->0.is_error() {
        EntryView::Error { header: header->0 }
    } else if has_payload(action->0) {
        EntryView::Data { header: header->0, summary: summary->0, action: action->0, data }
    } else {
        EntryView::Action { header: header->0, summary: summary->0, action: action->0 }
    }
}

/// A record that is an error header and nothing else.
pub struct ErrorEntry {
    header: Header,
}

/// A record without payload.
pub struct ActionEntry {
    header: Header,
    summary: Summary,
    action: Action,
}

/// A record with payload.
pub struct DataEntry {
    header: Header,
    summary: Summary,
    action: Action,
    data: String,
}

/// A completed record.
pub enum Entry {
    ErrorEntry(ErrorEntry),
    ActionEntry(ActionEntry),
    DataEntry(DataEntry),
}

impl View for Entry {
    type V = EntryView;

    closed spec fn view(&self) -> EntryView {
        match self {
            Entry::ErrorEntry(e) => EntryView::Error { header: e.header@ },
            Entry::ActionEntry(e) => EntryView::Action {
                header: e.header@,
                summary: e.summary@,
                action: e.action@,
            },
            Entry::DataEntry(e) => EntryView::Data {
                header: e.header@,
                summary: e.summary@,
                action: e.action@,
                data: e.data@,
            },
        }
    }
}

impl Clone for Entry {
    fn clone(&self) -> (r: Self)
        ensures
            r@ == self@,
    {
        match self {
            Entry::ErrorEntry(e) => Entry::ErrorEntry(ErrorEntry { header: e.header.clone() }),
            Entry::ActionEntry(e) => Entry::ActionEntry(
                ActionEntry {
                    header: e.header.clone(),
                    summary: e.summary.clone(),
                    action: e.action.clone(),
                },
            ),
            Entry::DataEntry(e) => Entry::DataEntry(
                DataEntry {
                    header: e.header.clone(),
                    summary: e.summary.clone(),
                    action: e.action.clone(),
                    data: e.data.clone(),
                },
            ),
        }
    }
}

impl Entry {
    fn new_error_entry(header: Header) -> (r: Self)
        ensures
            r@ == (EntryView::Error { header: header@ }),
    {
        Entry::ErrorEntry(ErrorEntry { header })
    }

    fn new_action_entry(header: Header, summary: Summary, action: Action) -> (r: Self)
        ensures
            r@ == (EntryView::Action { header: header@, summary: summary@, action: action@ }),
    {
        Entry::ActionEntry(ActionEntry { header, summary, action })
    }

    fn new_data_entry(header: Header, summary: Summary, action: Action, data: &str) -> (r: Self)
        ensures
            r@ == (EntryView::Data {
                header: header@,
                summary: summary@,
                action: action@,
                data: data@,
            }),
    {
        Entry::DataEntry(DataEntry { header, summary, action, data: data.to_owned() })
    }

    /// Makes the record out of the slots that the parser has filled.
    ///
    /// The header must be there. Unless it is an error, summary and action
    /// must be there too.
    pub fn new(
        header: &Option<Header>,
        summary: &Option<Summary>,
        action: &Option<Action>,
        data: &str,
    ) -> (r: Entry)
        requires
            header is Some,
            !header->0@.is_error() ==> summary is Some && action is Some,
        ensures
            r@ == assembled(viewed(*header), viewed(*summary), viewed(*action), data@),
            r@.wf(),
    {
        let header = header.as_ref().unwrap().clone();
        if header.is_error() {
            Entry::new_error_entry(header)
        } else {
            let summary = summary.as_ref().unwrap().clone();
            let action = action.as_ref().unwrap().clone();
            if action.has_data() {
                Entry::new_data_entry(header, summary, action, data)
            } else {
                Entry::new_action_entry(header, summary, action)
            }
        }
    }

    /// The thread of the record's header.
    pub fn get_id(&self) -> (id: u64)
        ensures
            id == self@.id(),
    {
        match self {
            Entry::ErrorEntry(entry) => entry.header.get_thread(),
            Entry::ActionEntry(entry) => entry.header.get_thread(),
            Entry::DataEntry(entry) => entry.header.get_thread(),
        }
    }

    /// Writes the record as text.
    pub fn to_string(&self) -> (r: String)
        ensures
            r@ == self@.text(),
    {
        match self {
            Entry::ErrorEntry(entry) => entry.header.to_string(),
            Entry::ActionEntry(entry) => {
                let mut r = entry.header.to_string();
                r.append("\n");
                r.append(DELIMITER);
                r.append("\n");
                r.append(entry.summary.to_string().as_str());
                r.append("\n");
                r.append(entry.action.to_string().as_str());
                r.append("\n");
                r.append(DELIMITER);
                r.append("\n");
                r
            },
            Entry::DataEntry(entry) => {
                let mut r = entry.header.to_string();
                r.append("\n");
                r.append(DELIMITER);
                r.append("\n");
                r.append(entry.summary.to_string().as_str());
                r.append("\n");
                r.append(entry.action.to_string().as_str());
                r.append("\n");
                r.append(entry.data.as_str());
                r.append("\n");
                r.append(DELIMITER);
                r.append("\n");
                r
            },
        }
    }
}

/// The views of a list of records.
pub open spec fn entries_view(entries: Seq<Entry>) -> Seq<EntryView> {
    Seq::new(entries.len(), |i: int| entries[i]@)
}

/// The output for a list of records: each record as text, with a line break
/// behind each.
pub open spec fn rendered(entries: Seq<EntryView>) -> Seq<char>
    decreases entries.len(),
{
    if entries.len() == 0 {
        Seq::empty()
    } else {
        rendered(entries.drop_last()) + entries.last().text() + "\n"@
    }
}

/// Writes a list of records as one text, each record with a line break
/// behind it.
pub fn render(entries: &Vec<Entry>) -> (r: String)
    ensures
        r@ == rendered(entries_view(entries@)),
{
    let mut out = String::new();
    let mut i: usize = 0;
    let ghost all = entries_view(entries@);
    assert(all.take(0) =~= Seq::<EntryView>::empty());
    while i < entries.len()
        invariant
            0 <= i <= entries.len(),
            all == entries_view(entries@),
            out@ == rendered(all.take(i as int)),
        decreases entries.len() - i,
    {
        let text = entries[i].to_string();
        out.append(text.as_str());
        out.append("\n");
        proof {
            let front = all.take(i + 1);
            assert(front.drop_last() =~= all.take(i as int));
            assert(front.last() == entries[i as int]@);
        }
        i += 1;
    }
    assert(all.take(entries.len() as int) =~= all);
    out
}

} // verus!
