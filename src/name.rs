use colored::Colorize;
use vstd::prelude::*;

verus! {

/// A foreground color for one field of a listing line.
#[derive(Clone, Copy, Debug, PartialEq, Eq, Structural)]
pub enum Hue {
    Green,
    Yellow,
    BrightBlue,
}

/// A dotfile: a name that starts with `.`.
pub open spec fn is_dotfile(name: Seq<char>) -> bool {
    name.len() > 0 && name[0] == '.'
}

/// Whether a name is listed under the given visibility setting.
pub open spec fn is_shown(name: Seq<char>, show_hidden: bool) -> bool {
    show_hidden || !is_dotfile(name)
}

/// Decides whether an entry of this name is listed.
pub fn is_visible(name: &str, show_hidden: bool) -> (r: bool)
    ensures
        r == is_shown(name@, show_hidden),
{
    if show_hidden {
        return true;
    }
    let n = name.unicode_len();
    !(n > 0 && name.get_char(0) == '.')
}

/// A name as listed: directories carry a trailing separator, files do not.
pub open spec fn decorated(name: Seq<char>, is_directory: bool) -> Seq<char> {
    if is_directory {
        name.push('/')
    } else {
        name
    }
}

/// The color that tells directories from files.
pub open spec fn hue_of(is_directory: bool) -> Hue {
    if is_directory {
        Hue::Green
    } else {
        Hue::Yellow
    }
}

/// Appends the directory separator to a directory's name.
pub fn decorate(name: &str, is_directory: bool) -> (r: String)
    ensures
        r@ == decorated(name@, is_directory),
{
    let mut s = String::from_str(name);
    if is_directory {
        proof {
            reveal_strlit("/");
        }
        s.append("/");
        assert(s@ =~= name@.push('/'));
    }
    s
}

/// Picks the name color for an entry's classification.
pub fn name_hue(is_directory: bool) -> (r: Hue)
    ensures
        r == hue_of(is_directory),
{
    if is_directory {
        Hue::Green
    } else {
        Hue::Yellow
    }
}

/// The ANSI escape that `colored` writes before text in this foreground color.
pub open spec fn ansi_open(hue: Hue) -> Seq<char> {
    match hue {
        Hue::Green => seq!['\x1b', '[', '3', '2', 'm'],
        Hue::Yellow => seq!['\x1b', '[', '3', '3', 'm'],
        Hue::BrightBlue => seq!['\x1b', '[', '9', '4', 'm'],
    }
}

/// The ANSI escape that ends colored text.
pub open spec fn ansi_reset() -> Seq<char> {
    seq!['\x1b', '[', '0', 'm']
}

/// Whether the text holds a reset escape of its own.
pub open spec fn holds_reset(text: Seq<char>) -> bool {
    exists|i: int| 0 <= i <= text.len() - 4 && #[trigger] text.subrange(i, i + 4) == ansi_reset()
}

/// Text as painted in a color: unchanged where the terminal takes no color,
/// otherwise between the color's escape and the reset escape.
pub open spec fn is_painted(r: Seq<char>, text: Seq<char>, hue: Hue) -> bool {
    r == text || r == ansi_open(hue) + text + ansi_reset()
}

/// Relies on `colored::Colorize::color` and the `Display` of the string it
/// returns: with colors switched off (by environment or terminal) the text
/// itself, otherwise the text between the color escape and the reset escape.
#[verifier::external_body]
pub(crate) fn paint(text: &str, hue: Hue) -> (r: String)
    ensures
        !holds_reset(text@) ==> is_painted(r@, text@, hue),
{
    let c = match hue {
        Hue::Green => colored::Color::Green,
        Hue::Yellow => colored::Color::Yellow,
        Hue::BrightBlue => colored::Color::BrightBlue,
    };
    text.color(c).to_string()
}

/// A name decorated and painted for its classification.
pub fn colorize(name: &str, is_directory: bool) -> (r: String)
    ensures
        !holds_reset(decorated(name@, is_directory)) ==> is_painted(
            r@,
            decorated(name@, is_directory),
            hue_of(is_directory),
        ),
{
    let d = decorate(name, is_directory);
    paint(d.as_str(), name_hue(is_directory))
}

/// The separator suffix and the color both follow the classification alone:
/// a name is decorated exactly when it is painted as a directory.
pub proof fn lemma_decoration_matches_color(name: Seq<char>, is_directory: bool)
    ensures
        (decorated(name, is_directory) == name.push('/')) == is_directory,
        (hue_of(is_directory) == Hue::Green) == is_directory,
        (decorated(name, is_directory) == name.push('/')) == (hue_of(is_directory) == Hue::Green),
{
    if !is_directory {
        assert(decorated(name, is_directory).len() != name.push('/').len());
    }
}

} // verus!
