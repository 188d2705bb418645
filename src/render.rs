use crate::listing::{list, listed, DirectoryEntry, ListingPolicy, RawEntry};
use crate::name::{decorate, decorated, holds_reset, hue_of, is_painted, name_hue, paint, Hue};
use crate::size::{escape_free, size_text, size_text_of};
use crate::timestamp::{time_text, time_text_of};
use vstd::prelude::*;

verus! {

/// Width of the size column; sizes are right-aligned in it.
pub const SIZE_WIDTH: usize = 15;

/// Text right-aligned in a field of `width` characters; longer text is kept whole.
pub open spec fn padded(text: Seq<char>, width: nat) -> Seq<char> {
    if text.len() >= width {
        text
    } else {
        Seq::new((width - text.len()) as nat, |i: int| ' ') + text
    }
}

/// Right-aligns text in a field of `width` characters.
pub fn pad_left(text: &str, width: usize) -> (r: String)
    ensures
        r@ == padded(text@, width as nat),
{
    let n = text.unicode_len();
    let mut r = String::new();
    if n < width {
        let fill = width - n;
        let mut k: usize = 0;
        while k < fill
            invariant
                k <= fill,
                r@ == Seq::new(k as nat, |i: int| ' '),
            decreases fill - k,
        {
            proof {
                reveal_strlit(" ");
            }
            r.append(" ");
            k = k + 1;
            assert(r@ =~= Seq::new(k as nat, |i: int| ' '));
        }
    }
    r.append(text);
    assert(r@ =~= padded(text@, width as nat));
    r
}

/// One listing line: size field, time, name, separated by single spaces.
pub open spec fn line_of(size_field: Seq<char>, time: Seq<char>, name_field: Seq<char>) -> Seq<
    char,
> {
    size_field + seq![' '] + time + seq![' '] + name_field
}

/// Joins the three fields of a listing line.
pub fn compose_line(size_field: &str, time: &str, name_field: &str) -> (r: String)
    ensures
        r@ == line_of(size_field@, time@, name_field@),
{
    let mut r = String::from_str(size_field);
    proof {
        reveal_strlit(" ");
    }
    r.append(" ");
    r.append(time);
    r.append(" ");
    r.append(name_field);
    assert(r@ =~= line_of(size_field@, time@, name_field@));
    r
}

/// The size field of an entry's line, before painting.
pub open spec fn size_field_of(e: DirectoryEntry) -> Seq<char> {
    padded(size_text_of(e.size_bytes), SIZE_WIDTH as nat)
}

/// `line` renders `e`: its size field painted bright blue, its time at the
/// offset, and its decorated name painted for its classification (where the
/// name holds no reset escape of its own, which the painting would rewrite).
pub open spec fn is_rendering(line: Seq<char>, e: DirectoryEntry, utc_offset_seconds: i32) -> bool {
    exists|a: Seq<char>, b: Seq<char>|
        is_painted(a, size_field_of(e), Hue::BrightBlue) && (!holds_reset(
            decorated(e.name@, e.is_directory),
        ) ==> is_painted(b, decorated(e.name@, e.is_directory), hue_of(e.is_directory)))
            && line == #[trigger] line_of(a, time_text_of(e.modified_at, utc_offset_seconds), b)
}

proof fn lemma_escape_free_has_no_reset(text: Seq<char>)
    requires
        escape_free(text),
    ensures
        !holds_reset(text),
{
    assert forall|i: int| 0 <= i <= text.len() - 4 implies #[trigger] text.subrange(i, i + 4)
        != crate::name::ansi_reset() by {
        assert(text.subrange(i, i + 4)[0] == text[i]);
    }
}

/// Renders one entry as a listing line.
pub fn render(entry: &DirectoryEntry, utc_offset_seconds: i32) -> (r: String)
    ensures
        is_rendering(r@, *entry, utc_offset_seconds),
{
    let size = size_text(entry.size_bytes);
    let field = pad_left(size.as_str(), SIZE_WIDTH);
    assert(escape_free(field@)) by {
        assert forall|i: int| 0 <= i < field@.len() implies field@[i] != '\x1b' by {
            if size@.len() < SIZE_WIDTH {
                let fill = (SIZE_WIDTH - size@.len()) as int;
                if i >= fill {
                    assert(field@[i] == size@[i - fill]);
                }
            }
        }
    }
    proof {
        lemma_escape_free_has_no_reset(field@);
    }
    let size_part = paint(field.as_str(), Hue::BrightBlue);
    let time = time_text(entry.modified_at, utc_offset_seconds);
    let name = decorate(entry.name.as_str(), entry.is_directory);
    let name_part = paint(name.as_str(), name_hue(entry.is_directory));
    let r = compose_line(size_part.as_str(), time.as_str(), name_part.as_str());
    assert(line_of(size_part@, time@, name_part@) == r@);
    r
}

/// `lines` renders `entries`, one line for each, in order.
pub open spec fn renders_all(lines: Seq<String>, entries: Seq<DirectoryEntry>, utc_offset_seconds: i32) -> bool {
    lines.len() == entries.len() && forall|i: int|
        0 <= i < lines.len() ==> is_rendering(#[trigger] lines[i]@, entries[i], utc_offset_seconds)
}

/// Lists a directory stream under a policy and renders each listed entry.
pub fn render_listing(entries: &Vec<RawEntry>, policy: ListingPolicy, utc_offset_seconds: i32) -> (r:
    Vec<String>)
    ensures
        renders_all(r@, listed(entries@, policy), utc_offset_seconds),
{
    let shown = list(entries, policy);
    let mut lines: Vec<String> = Vec::new();
    for i in 0..shown.len()
        invariant
            shown@ == listed(entries@, policy),
            renders_all(lines@, shown@.take(i as int), utc_offset_seconds),
    {
        lines.push(render(&shown[i], utc_offset_seconds));
        assert(shown@.take(i + 1)[i as int] == shown@[i as int]);
        assert forall|k: int| 0 <= k < i implies shown@.take(i + 1)[k] == shown@.take(i as int)[k] by {}
    }
    assert(shown@.take(shown.len() as int) == shown@);
    lines
}

} // verus!
