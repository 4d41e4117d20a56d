use vstd::prelude::*;
use vstd::string::StringExecFns;

use crate::display::{lines_view, DisplayLine, Label, LineView};

verus! {

/// The decimal digit `d`.
pub open spec fn digit_char(d: nat) -> char {
    if d == 0 { '0' } else if d == 1 { '1' } else if d == 2 { '2' } else if d == 3 { '3' }
    else if d == 4 { '4' } else if d == 5 { '5' } else if d == 6 { '6' } else if d == 7 { '7' }
    else if d == 8 { '8' } else { '9' }
}

/// `n` written in decimal, without leading zeros.
pub open spec fn decimal(n: nat) -> Seq<char>
    decreases n,
{
    if n < 10 {
        seq![digit_char(n)]
    } else {
        decimal(n / 10).push(digit_char(n % 10))
    }
}

/// The text before a labelled timestamp, aligned in one column.
pub open spec fn label_chars(label: Label) -> Seq<char> {
    match label {
        Label::Completed => seq!['c', 'o', 'm', 'p', 'l', 'e', 't', 'e', 'd', ':', ' '],
        Label::Created => seq!['c', 'r', 'e', 'a', 't', 'e', 'd', ':', ' ', ' ', ' '],
        Label::Start => seq!['s', 't', 'a', 'r', 't', ':', ' ', ' ', ' ', ' ', ' '],
        Label::Due => seq!['d', 'u', 'e', ':', ' ', ' ', ' ', ' ', ' ', ' ', ' '],
        Label::FirstDue => seq!['f', 'i', 'r', 's', 't', ' ', 'd', 'u', 'e', ':', ' '],
        Label::Until => seq!['u', 'n', 't', 'i', 'l', ':', ' ', ' ', ' ', ' ', ' '],
        Label::NextDue => seq!['n', 'e', 'x', 't', ' ', 'd', 'u', 'e', ':', ' ', ' '],
    }
}

/// The text of `line`, with `stamp` the text of its timestamp, if it has
/// one: `- [x] (<id>) <title>` for a heading, indented lines for the rest.
pub open spec fn line_chars(line: LineView, stamp: Seq<char>) -> Seq<char> {
    match line {
        LineView::Heading { done, id, title, .. } => seq!['-', ' ', '[', if done { 'x' } else { ' ' }, ']', ' ', '(']
            + decimal(id as nat) + seq![')', ' '] + title,
        LineView::Stamp { label, .. } => seq![' ', ' '] + label_chars(label) + stamp,
        LineView::Text { text } => seq![' ', ' '] + text,
        LineView::WorkBitsHeader => seq![' ', ' ', 'w', 'o', 'r', 'k', ' ', 'b', 'i', 't', 's', ':'],
        LineView::WorkBit { note, .. } => seq![' ', ' ', '-', ' '] + stamp + match note {
            Some(n) => seq![':', ' '] + n,
            None => Seq::empty(),
        },
    }
}

fn push_digit(s: &mut String, d: u64)
    requires
        d < 10,
    ensures
        final(s)@ == old(s)@.push(digit_char(d as nat)),
{
    proof {
        reveal_strlit("0");
        reveal_strlit("1");
        reveal_strlit("2");
        reveal_strlit("3");
        reveal_strlit("4");
        reveal_strlit("5");
        reveal_strlit("6");
        reveal_strlit("7");
        reveal_strlit("8");
        reveal_strlit("9");
    }
    let t = if d == 0 { "0" } else if d == 1 { "1" } else if d == 2 { "2" } else if d == 3 { "3" }
    else if d == 4 { "4" } else if d == 5 { "5" } else if d == 6 { "6" } else if d == 7 { "7" }
    else if d == 8 { "8" } else { "9" };
    s.append(t);
    proof {
        assert(final(s)@ =~= old(s)@.push(digit_char(d as nat)));
    }
}

/// Appends `n` in decimal to `s`.
pub fn push_decimal(s: &mut String, n: u64)
    ensures
        final(s)@ == old(s)@ + decimal(n as nat),
    decreases n,
{
    if n >= 10 {
        push_decimal(s, n / 10);
    }
    push_digit(s, n % 10);
    proof {
        if n >= 10 {
            assert(final(s)@ =~= old(s)@ + decimal(n as nat));
        } else {
            assert(final(s)@ =~= old(s)@ + decimal(n as nat));
        }
    }
}

fn label_str(label: Label) -> (r: &'static str)
    ensures
        r@ == label_chars(label),
{
    proof {
        reveal_strlit("completed: ");
        reveal_strlit("created:   ");
        reveal_strlit("start:     ");
        reveal_strlit("due:       ");
        reveal_strlit("first due: ");
        reveal_strlit("until:     ");
        reveal_strlit("next due:  ");
    }
    let r = match label {
        Label::Completed => "completed: ",
        Label::Created => "created:   ",
        Label::Start => "start:     ",
        Label::Due => "due:       ",
        Label::FirstDue => "first due: ",
        Label::Until => "until:     ",
        Label::NextDue => "next due:  ",
    };
    proof {
        assert(r@ =~= label_chars(label));
    }
    r
}

/// The text of `line`, given the text `stamp` of its timestamp (ignored
/// by lines without one).
pub fn line_text(line: &DisplayLine, stamp: &str) -> (r: String)
    ensures
        r@ == line_chars(line@, stamp@),
{
    proof {
        reveal_strlit("- [");
        reveal_strlit("x");
        reveal_strlit(" ");
        reveal_strlit("] (");
        reveal_strlit(") ");
        reveal_strlit("  ");
        reveal_strlit("  work bits:");
        reveal_strlit("  - ");
        reveal_strlit(": ");
    }
    let mut s = String::new();
    match line {
        DisplayLine::Heading { done, id, title, .. } => {
            s.append("- [");
            s.append(if *done { "x" } else { " " });
            s.append("] (");
            push_decimal(&mut s, *id);
            s.append(") ");
            s.append(title.as_str());
        },
        DisplayLine::Stamp { label, .. } => {
            s.append("  ");
            s.append(label_str(*label));
            s.append(stamp);
        },
        DisplayLine::Text { text } => {
            s.append("  ");
            s.append(text.as_str());
        },
        DisplayLine::WorkBitsHeader => {
            s.append("  work bits:");
        },
        DisplayLine::WorkBit { note, .. } => {
            s.append("  - ");
            s.append(stamp);
            if let Some(n) = note {
                s.append(": ");
                s.append(n.as_str());
            }
        },
    }
    proof {
        assert(s@ =~= line_chars(line@, stamp@));
    }
    s
}

/// The timestamp that `line` shows, if any.
pub open spec fn line_stamp(line: LineView) -> Option<i64> {
    match line {
        LineView::Stamp { at, .. } => Some(at),
        LineView::WorkBit { at, .. } => Some(at),
        _ => None,
    }
}

/// The text of `lines`, each ended by a line feed, line `i` showing its
/// timestamp as `stamps[i]`.
pub open spec fn joined(lines: Seq<LineView>, stamps: Seq<Seq<char>>) -> Seq<char>
    decreases lines.len(),
{
    if lines.len() == 0 {
        Seq::empty()
    } else {
        joined(lines.drop_last(), stamps.drop_last()) + line_chars(lines.last(), stamps.last()) + seq![
            '\n',
        ]
    }
}

/// Whether `stamps` gives a text for the timestamp of each of `lines`, and
/// an empty one for the lines that show none.
pub open spec fn stamps_fit(lines: Seq<LineView>, stamps: Seq<Seq<char>>) -> bool {
    &&& stamps.len() == lines.len()
    &&& forall|i: int| 0 <= i < lines.len() && line_stamp(#[trigger] lines[i]) is None ==> stamps[i].len() == 0
}

/// The earliest timestamp that is rendered in every time zone: one day after
/// the first second of chrono's range (1 January of year -262143).
pub const MIN_STAMP: i64 = -8334601228800;

/// The latest timestamp that is rendered in every time zone: one day before
/// the last second of chrono's range (31 December of year 262142).
pub const MAX_STAMP: i64 = 8210266790399;

/// Whether the timestamp of `line`, if it has one, can be rendered.
pub open spec fn stamp_in_range(line: LineView) -> bool {
    match line_stamp(line) {
        Some(t) => MIN_STAMP <= t <= MAX_STAMP,
        None => true,
    }
}

/// Relies on `chrono::DateTime::from_timestamp`, `with_timezone(&chrono::Local)`
/// and `format("%d.%m.%Y %H:%M")`: the local date and time of `t` seconds
/// since the epoch. `from_timestamp` refuses only seconds outside its date
/// range, which the bounds keep a day away from, so the offset of any zone
/// stays inside. The text depends on the host's time zone, so nothing is
/// claimed of it.
#[verifier::external_body]
fn format_datetime(t: i64) -> (r: Option<String>)
    ensures
        MIN_STAMP <= t <= MAX_STAMP ==> r is Some,
{
    chrono::DateTime::from_timestamp(t, 0)
        .map(|d| d.with_timezone(&chrono::Local).format("%d.%m.%Y %H:%M").to_string())
}

/// The text of `line`, its timestamp in the host's local time; `None` only
/// when the timestamp is out of range.
pub fn render_line(line: &DisplayLine) -> (r: Option<String>)
    ensures
        stamp_in_range(line@) ==> r is Some,
        r matches Some(s) ==> exists|st: Seq<char>|
            s@ == #[trigger] line_chars(line@, st) && (line_stamp(line@) is None ==> st.len() == 0),
{
    proof {
        reveal_strlit("");
    }
    let stamp: Option<i64> = match line {
        DisplayLine::Stamp { at, .. } => Some(*at),
        DisplayLine::WorkBit { at, .. } => Some(*at),
        _ => None,
    };
    match stamp {
        Some(t) => match format_datetime(t) {
            Some(f) => {
                let s = line_text(line, f.as_str());
                proof {
                    assert(s@ == line_chars(line@, f@));
                }
                Some(s)
            },
            None => None,
        },
        None => {
            let s = line_text(line, "");
            proof {
                assert(s@ == line_chars(line@, ""@));
            }
            Some(s)
        },
    }
}

/// The text of `lines`, one per line, with the timestamps in the host's
/// local time; `None` only when a timestamp is out of range.
pub fn render_lines(lines: &Vec<DisplayLine>) -> (r: Option<String>)
    ensures
        (forall|i: int| 0 <= i < lines@.len() ==> stamp_in_range(#[trigger] lines@[i]@)) ==> r is Some,
        r matches Some(s) ==> exists|stamps: Seq<Seq<char>>|
            stamps_fit(lines_view(lines@), stamps) && s@ == #[trigger] joined(lines_view(lines@), stamps),
{
    let mut out = String::new();
    let mut i: usize = 0;
    let ghost mut stamps: Seq<Seq<char>> = Seq::empty();
    while i < lines.len()
        invariant
            0 <= i <= lines@.len(),
            stamps_fit(lines_view(lines@).take(i as int), stamps),
            out@ == joined(lines_view(lines@).take(i as int), stamps),
        decreases lines.len() - i,
    {
        let line = &lines[i];
        let text = match render_line(line) {
            Some(t) => t,
            None => {
                proof {
                    assert(!stamp_in_range(lines@[i as int]@));
                }
                return None;
            },
        };
        let ghost st = choose|st: Seq<char>|
            text@ == #[trigger] line_chars(line@, st) && (line_stamp(line@) is None ==> st.len() == 0);
        let ghost prev = stamps;
        let ghost next = lines_view(lines@).take(i + 1);
        proof {
            stamps = stamps.push(st);
            assert(next.drop_last() =~= lines_view(lines@).take(i as int));
            assert(next.last() == line@);
            assert(stamps.drop_last() =~= prev);
        }
        let ghost before = out@;
        out.append(text.as_str());
        out.append("\n");
        i += 1;
        proof {
            assert(text@ == line_chars(line@, st));
            assert(stamps.last() == st);
            assert(joined(next, stamps) == joined(next.drop_last(), stamps.drop_last()) + line_chars(
                next.last(),
                stamps.last(),
            ) + seq!['\n']);
            assert(before == joined(next.drop_last(), stamps.drop_last()));
            reveal_strlit("\n");
            assert("\n"@ =~= seq!['\n']);
            assert(out@ =~= before + text@ + seq!['\n']);
            assert(out@ =~= joined(next, stamps));
            assert forall|j: int| 0 <= j < next.len() && line_stamp(#[trigger] next[j]) is None implies stamps[j].len() == 0 by {
                if j < next.len() - 1 {
                    assert(next[j] == lines_view(lines@).take(i - 1)[j]);
                }
            }
        }
    }
    proof {
        assert(lines_view(lines@).take(i as int) =~= lines_view(lines@));
    }
    Some(out)
}

} // verus!
