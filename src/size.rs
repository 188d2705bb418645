use vstd::prelude::*;

verus! {

/// The display unit chosen for a file size.
#[derive(Clone, Copy, Debug, PartialEq, Eq, Structural)]
pub enum SizeUnit {
    B,
    KB,
    MB,
    GB,
}

/// Largest size shown in bytes.
pub const BYTES_MAX: u64 = 1024;

/// Largest size shown in kilobytes (kept as the listing has always drawn it).
pub const KILOBYTES_MAX: u64 = 1048567;

/// Smallest size shown in megabytes.
pub const MEGABYTES_MIN: u64 = 1048576;

/// Largest size shown in megabytes.
pub const MEGABYTES_MAX: u64 = 1073741824;

/// The unit a size is shown in; `None` for an empty file, which gets a placeholder.
/// Sizes between the kilobyte and megabyte ranges fall through to gigabytes.
pub open spec fn unit_for(len: u64) -> Option<SizeUnit> {
    if len == 0 {
        None
    } else if len <= BYTES_MAX {
        Some(SizeUnit::B)
    } else if len <= KILOBYTES_MAX {
        Some(SizeUnit::KB)
    } else if MEGABYTES_MIN <= len <= MEGABYTES_MAX {
        Some(SizeUnit::MB)
    } else {
        Some(SizeUnit::GB)
    }
}

/// Chooses the unit a size is shown in.
pub fn size_unit(len: u64) -> (r: Option<SizeUnit>)
    ensures
        r == unit_for(len),
{
    if len == 0 {
        None
    } else if len <= BYTES_MAX {
        Some(SizeUnit::B)
    } else if len <= KILOBYTES_MAX {
        Some(SizeUnit::KB)
    } else if MEGABYTES_MIN <= len && len <= MEGABYTES_MAX {
        Some(SizeUnit::MB)
    } else {
        Some(SizeUnit::GB)
    }
}

/// The decimal digits of `n`, most significant first.
pub open spec fn decimal(n: nat) -> Seq<char>
    decreases n,
{
    if n < 10 {
        seq![digit_char(n)]
    } else {
        decimal(n / 10).push(digit_char(n % 10))
    }
}

pub open spec fn digit_char(d: nat) -> char {
    if d == 0 { '0' }
    else if d == 1 { '1' }
    else if d == 2 { '2' }
    else if d == 3 { '3' }
    else if d == 4 { '4' }
    else if d == 5 { '5' }
    else if d == 6 { '6' }
    else if d == 7 { '7' }
    else if d == 8 { '8' }
    else { '9' }
}

/// The unit's label as it follows the number.
pub open spec fn unit_suffix(unit: SizeUnit) -> Seq<char> {
    match unit {
        SizeUnit::B => seq![' ', 'B'],
        SizeUnit::KB => seq![' ', 'K', 'B'],
        SizeUnit::MB => seq![' ', 'M', 'B'],
        SizeUnit::GB => seq![' ', 'G', 'B'],
    }
}

/// What `bytefmt::format_to` gives for a size in a unit: the size divided by the
/// unit, with two decimals and trailing zeros dropped, then the unit's label.
pub uninterp spec fn bytefmt_text(bytes: int, unit: SizeUnit) -> Seq<char>;

/// Upper bound under which every integer is exact as a float, so that a size in
/// bytes prints as its own digits.
pub const EXACT_BYTES: u64 = 9007199254740992;

/// Relies on `bytefmt::format_to`: the number, then a space and the unit label;
/// in bytes, an exactly representable count prints as its decimal digits.
#[verifier::external_body]
fn format_to(bytes: u64, unit: SizeUnit) -> (r: String)
    ensures
        r@ == bytefmt_text(bytes as int, unit),
        r@.len() > unit_suffix(unit).len(),
        r@.subrange(r@.len() - unit_suffix(unit).len(), r@.len() as int) == unit_suffix(unit),
        unit == SizeUnit::B && bytes <= EXACT_BYTES ==> r@ == decimal(bytes as nat) + unit_suffix(unit),
        escape_free(r@),
{
    let u = match unit {
        SizeUnit::B => bytefmt::Unit::B,
        SizeUnit::KB => bytefmt::Unit::KB,
        SizeUnit::MB => bytefmt::Unit::MB,
        SizeUnit::GB => bytefmt::Unit::GB,
    };
    bytefmt::format_to(bytes, u)
}

/// Text without an escape character.
pub open spec fn escape_free(text: Seq<char>) -> bool {
    forall|i: int| 0 <= i < text.len() ==> text[i] != '\x1b'
}

/// The size column's text: `...` for an empty file, `-` when the size could not
/// be read, otherwise the size in its unit.
pub open spec fn size_text_of(size: Option<u64>) -> Seq<char> {
    match size {
        None => seq!['-'],
        Some(len) => match unit_for(len) {
            None => seq!['.', '.', '.'],
            Some(unit) => bytefmt_text(len as int, unit),
        },
    }
}

/// Formats the size column of one entry.
pub fn size_text(size: Option<u64>) -> (r: String)
    ensures
        r@ == size_text_of(size),
        escape_free(r@),
        size is Some && 1 <= size->0 <= BYTES_MAX ==> r@ == decimal(size->0 as nat) + unit_suffix(
            SizeUnit::B,
        ),
{
    match size {
        None => {
            proof {
                reveal_strlit("-");
            }
            String::from_str("-")
        },
        Some(len) => match size_unit(len) {
            None => {
                proof {
                    reveal_strlit("...");
                }
                String::from_str("...")
            },
            Some(unit) => format_to(len, unit),
        },
    }
}

} // verus!
