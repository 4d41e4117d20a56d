use vstd::prelude::*;

use crate::text::opt_text;

verus! {

/// How a line is highlighted; the terminal styling is left to the caller.
#[derive(Clone, Copy, Debug, PartialEq, Eq, Structural)]
pub enum Emphasis {
    Plain,
    /// A completed task or an inactive reminder.
    Done,
    /// An open task past its due time.
    Overdue,
    /// An open task without due time past its start.
    Started,
}

/// Which timestamp a line shows.
#[derive(Clone, Copy, Debug, PartialEq, Eq, Structural)]
pub enum Label {
    Completed,
    Created,
    Start,
    Due,
    FirstDue,
    Until,
    NextDue,
}

/// One line of the listing of a task or a reminder.
#[derive(Debug)]
pub enum DisplayLine {
    /// `- [<marker>] (<id>) <title>`, the marker `x` when `done`.
    Heading { done: bool, id: u64, title: String, emphasis: Emphasis },
    /// A labelled timestamp.
    Stamp { label: Label, at: i64, emphasis: Emphasis },
    /// A description.
    Text { text: String },
    /// The line that opens the list of work bits.
    WorkBitsHeader,
    /// `<timestamp>[: <note>]`.
    WorkBit { at: i64, note: Option<String> },
}

/// A line of a listing, with its text as characters.
pub enum LineView {
    Heading { done: bool, id: u64, title: Seq<char>, emphasis: Emphasis },
    Stamp { label: Label, at: i64, emphasis: Emphasis },
    Text { text: Seq<char> },
    WorkBitsHeader,
    WorkBit { at: i64, note: Option<Seq<char>> },
}

impl View for DisplayLine {
    type V = LineView;

    open spec fn view(&self) -> LineView {
        match self {
            DisplayLine::Heading { done, id, title, emphasis } => LineView::Heading {
                done: *done,
                id: *id,
                title: title@,
                emphasis: *emphasis,
            },
            DisplayLine::Stamp { label, at, emphasis } => LineView::Stamp {
                label: *label,
                at: *at,
                emphasis: *emphasis,
            },
            DisplayLine::Text { text } => LineView::Text { text: text@ },
            DisplayLine::WorkBitsHeader => LineView::WorkBitsHeader,
            DisplayLine::WorkBit { at, note } => LineView::WorkBit { at: *at, note: opt_text(*note) },
        }
    }
}

/// The views of a sequence of lines.
pub open spec fn lines_view(lines: Seq<DisplayLine>) -> Seq<LineView> {
    lines.map_values(|l: DisplayLine| l@)
}

/// Appends `l` to `lines`.
pub fn push_line(lines: &mut Vec<DisplayLine>, l: DisplayLine)
    ensures
        lines_view(final(lines)@) == lines_view(old(lines)@).push(l@),
{
    lines.push(l);
    proof {
        assert(lines_view(final(lines)@) =~= lines_view(old(lines)@).push(l@));
    }
}

/// The description line, if there is a description.
pub open spec fn text_lines(description: Option<String>) -> Seq<LineView> {
    match description {
        Some(d) => seq![LineView::Text { text: d@ }],
        None => Seq::empty(),
    }
}

} // verus!
