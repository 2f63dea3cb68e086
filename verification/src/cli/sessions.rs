//! Laying out the table of running sessions.

use vstd::prelude::*;

use crate::session_registry::SessionBeacon;
use crate::text::{decimal, push_char, push_decimal, text_of};

verus! {

/// The ellipsis that marks a shortened name.
pub open spec fn ellipsis() -> char {
    '\u{2026}'
}

/// `value` cut to `width` characters: kept whole when it fits, otherwise its
/// first `width - 1` characters (none when `width` is 0) and an ellipsis.
pub open spec fn truncated(value: Seq<char>, width: nat) -> Seq<char> {
    if value.len() <= width {
        value
    } else {
        value.take(if width == 0 { 0 } else { width - 1 }).push(ellipsis())
    }
}

/// `value` followed by spaces up to `width` characters; a longer value is
/// kept whole.
pub open spec fn padded(value: Seq<char>, width: nat) -> Seq<char> {
    if value.len() >= width {
        value
    } else {
        value + Seq::new((width - value.len()) as nat, |i: int| ' ')
    }
}

/// Keeps the table aligned when a project name is longer than its column.
pub fn truncate(value: &str, width: usize) -> (r: String)
    ensures
        r@ == truncated(value@, width as nat),
{
    let count = value.unicode_len();
    if count <= width {
        return text_of(value);
    }
    let keep = if width == 0 { 0 } else { width - 1 };
    let mut kept = text_of(value.substring_char(0, keep));
    push_char(&mut kept, '\u{2026}');
    kept
}

/// Left-aligns `value` in a column of `width` characters.
pub fn pad_right(value: &str, width: usize) -> (r: String)
    ensures
        r@ == padded(value@, width as nat),
{
    let mut out = text_of(value);
    let mut count = value.unicode_len();
    let ghost start = out@;
    while count < width
        invariant
            start == value@,
            value@.len() <= count <= width || (count == value@.len() && count >= width),
            out@ == start + Seq::new((count - value@.len()) as nat, |i: int| ' '),
        decreases width - count,
    {
        push_char(&mut out, ' ');
        count = count + 1;
        assert(out@ =~= start + Seq::new((count - value@.len()) as nat, |i: int| ' '));
    }
    assert(value@.len() >= width ==> out@ =~= value@);
    out
}

/// The table's header line.
pub open spec fn header_text() -> Seq<char> {
    padded("PORT"@, 7) + " "@ + padded("PROJECT"@, 24) + " "@ + padded("CONNECT"@, 12) + " PATH"@
}

/// The cells of a session's row: its port, its project's name (shortened to
/// fit), and its auto-connect policy followed by its path. Each of the first
/// two ends in the space that separates it from the next.
pub open spec fn row_texts(port: nat, name: Seq<char>, policy: Seq<char>, path: Seq<char>) -> (
    Seq<char>,
    Seq<char>,
    Seq<char>,
) {
    (
        padded(decimal(port), 7) + " "@,
        padded(truncated(name, 24), 24) + " "@,
        padded(policy, 12) + " "@ + path,
    )
}

/// The header line of the session table.
pub fn table_header() -> (r: String)
    ensures
        r@ == header_text(),
{
    let mut out = pad_right("PORT", 7);
    out.append(" ");
    out.append(pad_right("PROJECT", 24).as_str());
    out.append(" ");
    out.append(pad_right("CONNECT", 12).as_str());
    out.append(" PATH");
    out
}

/// The cells of one session's row in the table, the project's name to be
/// shown highlighted.
pub fn session_row(session: &SessionBeacon) -> (r: (String, String, String))
    ensures
        (r.0@, r.1@, r.2@) == row_texts(
            session.port as nat,
            session.project_name@,
            session.auto_connect@,
            session.project_path@,
        ),
{
    let mut number = String::new();
    push_decimal(&mut number, session.port as u64);
    let mut port = pad_right(number.as_str(), 7);
    port.append(" ");
    let short = truncate(session.project_name.as_str(), 24);
    let mut name = pad_right(short.as_str(), 24);
    name.append(" ");
    let mut rest = pad_right(session.auto_connect.as_str(), 12);
    rest.append(" ");
    rest.append(session.project_path.as_str());
    (port, name, rest)
}

/// A shortened name never runs past its column (of at least one character)
/// and always ends in the ellipsis.
pub proof fn lemma_truncation_fits(value: Seq<char>, width: nat)
    requires
        value.len() > width,
        width >= 1,
    ensures
        truncated(value, width).len() == width,
        truncated(value, width).last() == ellipsis(),
{
}

/// Padding keeps the value whole at the front and fills the column with
/// spaces: the result is as wide as the column, or as the value when that is
/// wider.
pub proof fn lemma_padding_keeps_value(value: Seq<char>, width: nat)
    ensures
        padded(value, width).len() == if value.len() >= width {
            value.len()
        } else {
            width
        },
        padded(value, width).take(value.len() as int) == value,
        forall|i: int|
            value.len() <= i < padded(value, width).len() ==> #[trigger] padded(value, width)[i]
                == ' ',
{
    assert(padded(value, width).take(value.len() as int) =~= value);
}

/// A name that fits is shown whole; a longer one keeps its first
/// `width - 1` characters, in order, before the ellipsis.
pub proof fn lemma_truncation_keeps_the_start(value: Seq<char>, width: nat)
    ensures
        value.len() <= width ==> truncated(value, width) == value,
        value.len() > width && width >= 1 ==> truncated(value, width).take(width - 1) == value.take(
            width - 1,
        ),
{
    if value.len() > width && width >= 1 {
        assert(truncated(value, width).take(width - 1) =~= value.take(width - 1));
    }
}

} // verus!
