use vstd::prelude::*;

use crate::render::{joined, render_lines, stamp_in_range, stamps_fit};
use crate::display::{push_line, lines_view, text_lines, DisplayLine, Emphasis, Label, LineView};
use crate::text::{clone_text, opt_text};

verus! {

/// A unit of work, as read from the store. Timestamps are seconds since the
/// Unix epoch.
pub struct Task {
    pub id: u64,
    pub title: String,
    pub description: Option<String>,
    /// The reminder whose occurrence the task is, if any.
    pub generated_by: Option<u64>,
    pub created: i64,
    pub start: Option<i64>,
    pub due: Option<i64>,
    /// When the task was completed; absent while it is open.
    pub completed: Option<i64>,
    /// Work bits in storage order: when, and an optional note.
    pub work_bits: Vec<(i64, Option<String>)>,
}

/// A task that is about to be inserted; the store assigns its id and its
/// creation time.
pub struct NewTask {
    pub title: String,
    pub description: Option<String>,
    pub start: Option<i64>,
    pub due: Option<i64>,
    pub generated_by: Option<u64>,
}

impl NewTask {
    /// A task created directly by the user.
    pub fn new(title: String, description: Option<String>, start: Option<i64>, due: Option<i64>) -> (r: NewTask)
        ensures
            r.title@ == title@,
            opt_text(r.description) == opt_text(description),
            r.start == start,
            r.due == due,
            r.generated_by is None,
    {
        NewTask { title, description, start, due, generated_by: None }
    }
}

/// The lines of a task's listing, built by `Task::display`.
pub struct TaskDisplay {
    pub lines: Vec<DisplayLine>,
}

/// How the heading of task `t` is highlighted at `now`: completed, else
/// overdue, else (without due time) started.
pub open spec fn task_emphasis(t: Task, now: i64) -> Emphasis {
    if t.completed is Some {
        Emphasis::Done
    } else if t.due is Some {
        if now > t.due->0 {
            Emphasis::Overdue
        } else {
            Emphasis::Plain
        }
    } else if t.start is Some && now > t.start->0 {
        Emphasis::Started
    } else {
        Emphasis::Plain
    }
}

pub open spec fn opt_stamp(at: Option<i64>, label: Label, emphasis: Emphasis) -> Seq<LineView> {
    match at {
        Some(a) => seq![LineView::Stamp { label, at: a, emphasis }],
        None => Seq::empty(),
    }
}

/// The line for one work bit.
pub open spec fn work_bit_line(b: (i64, Option<String>)) -> LineView {
    LineView::WorkBit { at: b.0, note: opt_text(b.1) }
}

/// The work bits block: a header, then the bits in storage order; nothing
/// when there are none.
pub open spec fn work_bit_lines(bits: Seq<(i64, Option<String>)>) -> Seq<LineView> {
    if bits.len() == 0 {
        Seq::empty()
    } else {
        seq![LineView::WorkBitsHeader] + bits.map_values(|b: (i64, Option<String>)| work_bit_line(b))
    }
}

/// The timestamps of a verbose listing: completion, creation, start and
/// due time. The due time is highlighted when it has passed and the task is
/// open.
pub open spec fn task_stamps(t: Task, now: i64) -> Seq<LineView> {
    let due_emphasis = if t.due is Some && now > t.due->0 && t.completed is None {
        Emphasis::Overdue
    } else {
        Emphasis::Plain
    };
    opt_stamp(t.completed, Label::Completed, Emphasis::Done)
        + seq![LineView::Stamp { label: Label::Created, at: t.created, emphasis: Emphasis::Plain }]
        + opt_stamp(t.start, Label::Start, Emphasis::Plain)
        + opt_stamp(t.due, Label::Due, due_emphasis)
}

/// What a verbose listing adds below the heading: the timestamps, the
/// description and the work bits.
pub open spec fn task_details(t: Task, now: i64) -> Seq<LineView> {
    task_stamps(t, now) + text_lines(t.description) + work_bit_lines(t.work_bits@)
}

/// The listing of task `t` at `now`: nothing for a completed task unless
/// `all`; else the heading, and with `verbose` the details.
pub open spec fn task_lines(t: Task, all: bool, verbose: bool, now: i64) -> Seq<LineView> {
    if !all && t.completed is Some {
        Seq::empty()
    } else {
        let heading = LineView::Heading {
            done: t.completed is Some,
            id: t.id,
            title: t.title@,
            emphasis: task_emphasis(t, now),
        };
        seq![heading] + if verbose {
            task_details(t, now)
        } else {
            Seq::empty()
        }
    }
}

impl Task {
    /// Whether the task is completed.
    pub fn is_completed(&self) -> (r: bool)
        ensures
            r == self.completed is Some,
    {
        self.completed.is_some()
    }

    fn emphasis(&self, now: i64) -> (r: Emphasis)
        ensures
            r == task_emphasis(*self, now),
    {
        if self.completed.is_some() {
            Emphasis::Done
        } else if let Some(due) = self.due {
            if now > due {
                Emphasis::Overdue
            } else {
                Emphasis::Plain
            }
        } else if let Some(start) = self.start {
            if now > start {
                Emphasis::Started
            } else {
                Emphasis::Plain
            }
        } else {
            Emphasis::Plain
        }
    }

    fn push_stamps(&self, lines: &mut Vec<DisplayLine>, now: i64)
        ensures
            lines_view(final(lines)@) == lines_view(old(lines)@) + task_stamps(*self, now),
    {
        let ghost start = lines_view(lines@);
        if let Some(c) = self.completed {
            push_line(lines, DisplayLine::Stamp { label: Label::Completed, at: c, emphasis: Emphasis::Done });
        }
        push_line(
            lines,
            DisplayLine::Stamp { label: Label::Created, at: self.created, emphasis: Emphasis::Plain },
        );
        if let Some(s) = self.start {
            push_line(lines, DisplayLine::Stamp { label: Label::Start, at: s, emphasis: Emphasis::Plain });
        }
        if let Some(d) = self.due {
            let emphasis = if now > d && self.completed.is_none() {
                Emphasis::Overdue
            } else {
                Emphasis::Plain
            };
            push_line(lines, DisplayLine::Stamp { label: Label::Due, at: d, emphasis });
        }
        proof {
            assert(lines_view(lines@) =~= start + task_stamps(*self, now));
        }
    }

    fn push_work_bits(&self, lines: &mut Vec<DisplayLine>)
        ensures
            lines_view(final(lines)@) == lines_view(old(lines)@) + work_bit_lines(self.work_bits@),
    {
        let ghost start = lines_view(lines@);
        if self.work_bits.len() == 0 {
            proof {
                assert(lines_view(lines@) =~= start + work_bit_lines(self.work_bits@));
            }
            return;
        }
        push_line(lines, DisplayLine::WorkBitsHeader);
        let mut i: usize = 0;
        while i < self.work_bits.len()
            invariant
                0 <= i <= self.work_bits@.len(),
                lines_view(lines@) == start + seq![LineView::WorkBitsHeader] + self.work_bits@.take(
                    i as int,
                ).map_values(|b: (i64, Option<String>)| work_bit_line(b)),
            decreases self.work_bits.len() - i,
        {
            let bit = &self.work_bits[i];
            push_line(lines, DisplayLine::WorkBit { at: bit.0, note: clone_text(&bit.1) });
            proof {
                assert(self.work_bits@.take(i + 1).map_values(|b: (i64, Option<String>)| work_bit_line(b))
                    =~= self.work_bits@.take(i as int).map_values(
                    |b: (i64, Option<String>)| work_bit_line(b),
                ).push(work_bit_line(self.work_bits@[i as int])));
            }
            i += 1;
        }
        proof {
            assert(self.work_bits@.take(i as int) =~= self.work_bits@);
            assert(lines_view(lines@) =~= start + work_bit_lines(self.work_bits@));
        }
    }

    /// The lines that list the task at `now`.
    pub fn display(&self, all: bool, verbose: bool, now: i64) -> (r: TaskDisplay)
        ensures
            lines_view(r.lines@) == task_lines(*self, all, verbose, now),
    {
        let mut lines: Vec<DisplayLine> = Vec::new();
        proof {
            assert(lines_view(lines@) =~= Seq::empty());
        }
        if !all && self.completed.is_some() {
            return TaskDisplay { lines };
        }
        push_line(
            &mut lines,
            DisplayLine::Heading {
                done: self.completed.is_some(),
                id: self.id,
                title: self.title.clone(),
                emphasis: self.emphasis(now),
            },
        );
        if verbose {
            self.push_stamps(&mut lines, now);
            if let Some(desc) = &self.description {
                push_line(&mut lines, DisplayLine::Text { text: desc.clone() });
            }
            self.push_work_bits(&mut lines);
        }
        proof {
            assert(lines_view(lines@) =~= task_lines(*self, all, verbose, now));
        }
        TaskDisplay { lines }
    }
}

/// Why a task could not be marked completed.
#[derive(Debug, PartialEq, Eq, Structural)]
pub enum CompletionError {
    /// The task was already completed, at `at`; that time is kept.
    AlreadyCompleted { at: i64 },
}

/// The completion time that completing a task at `now` stores, given its
/// current completion time: `now` for an open task, a conflict for a
/// completed one.
pub open spec fn completion_of(completed: Option<i64>, now: i64) -> Result<i64, CompletionError> {
    match completed {
        Some(at) => Err(CompletionError::AlreadyCompleted { at }),
        None => Ok(now),
    }
}

/// Decides the completion of a task whose stored completion time is
/// `completed`: the time to store, or the conflict.
pub fn complete_task(completed: Option<i64>, now: i64) -> (r: Result<i64, CompletionError>)
    ensures
        r == completion_of(completed, now),
{
    match completed {
        Some(at) => Err(CompletionError::AlreadyCompleted { at }),
        None => Ok(now),
    }
}

impl Task {
    /// Marks the task completed at `now`; a completed task is left as it is.
    pub fn complete(&mut self, now: i64) -> (r: Result<(), CompletionError>)
        ensures
            match completion_of(old(self).completed, now) {
                Ok(at) => r is Ok && final(self).completed == Some(at),
                Err(e) => r == Err::<(), CompletionError>(e) && final(self).completed == old(self).completed,
            },
            final(self).id == old(self).id,
            final(self).title == old(self).title,
            final(self).description == old(self).description,
            final(self).generated_by == old(self).generated_by,
            final(self).created == old(self).created,
            final(self).start == old(self).start,
            final(self).due == old(self).due,
            final(self).work_bits == old(self).work_bits,
    {
        match complete_task(self.completed, now) {
            Ok(at) => {
                self.completed = Some(at);
                Ok(())
            },
            Err(e) => Err(e),
        }
    }
}

/// Why a task could not be deleted.
#[derive(Debug, PartialEq, Eq, Structural)]
pub enum DeleteError {
    /// No task has the id.
    NotFound,
}

/// The outcome of deleting a task by id, given the number of stored tasks
/// that the deletion removed.
pub fn delete_outcome(removed: usize) -> (r: Result<(), DeleteError>)
    ensures
        r is Err <==> removed == 0,
        r matches Err(e) ==> e == DeleteError::NotFound,
{
    if removed == 0 {
        Err(DeleteError::NotFound)
    } else {
        Ok(())
    }
}

/// Completion is terminal: after a task was completed at `first`, completing
/// it again at `second` is a conflict that reports, and keeps, `first`.
pub proof fn lemma_completion_monotonic(completed: Option<i64>, first: i64, second: i64)
    requires
        completed is None,
    ensures
        completion_of(completed, first) == Ok::<i64, CompletionError>(first),
        completion_of(Some(first), second) == Err::<i64, CompletionError>(
            CompletionError::AlreadyCompleted { at: first },
        ),
{
}

/// A listing that is not `all` shows nothing of a completed task; one that
/// is `all` shows every task, its heading first.
pub proof fn lemma_task_display_filter(t: Task, verbose: bool, now: i64)
    ensures
        (task_lines(t, false, verbose, now).len() == 0) == (t.completed is Some),
        task_lines(t, true, verbose, now).len() > 0,
        task_lines(t, true, verbose, now)[0] is Heading,
{
}

impl TaskDisplay {
    /// The listing as text, one line each, timestamps in local time;
    /// `None` only when a timestamp is out of range.
    pub fn to_text(&self) -> (r: Option<String>)
        ensures
            (forall|i: int|
                0 <= i < lines_view(self.lines@).len() ==> stamp_in_range(
                    #[trigger] lines_view(self.lines@)[i],
                )) ==> r is Some,
            r matches Some(s) ==> exists|stamps: Seq<Seq<char>>|
                stamps_fit(lines_view(self.lines@), stamps) && s@ == #[trigger] joined(lines_view(self.lines@), stamps),
    {
        proof {
            assert forall|i: int| 0 <= i < self.lines@.len() implies #[trigger] self.lines@[i]@ == lines_view(
                self.lines@,
            )[i] by {}
        }
        render_lines(&self.lines)
    }
}

} // verus!
