//! ANSI decoration of console strings: colors, styles, and the removal of
//! existing decorations. A decoration is an escape sequence running from an
//! escape character up to and including the next `m`.

use vstd::prelude::*;

verus! {

/// Colors which can be used in the console.
pub enum AnsiColor {
    Black,
    Red,
    Green,
    Yellow,
    Blue,
    Purple,
    Cyan,
    White,
    BrightBlack,
    BrightRed,
    BrightGreen,
    BrightYellow,
    BrightBlue,
    BrightPurple,
    BrightCyan,
    BrightWhite,
}

/// Styles which can be used in the console.
pub enum AnsiStyle {
    Bold,
    Underline,
    Strikethrough,
}

/// The string with its decorations removed, scanning with the given flag:
/// while the flag is set, characters are dropped; an escape character sets
/// it, and an `m` clears it (and is itself dropped).
pub open spec fn strip_rec(s: Seq<char>, within: bool) -> Seq<char>
    decreases s.len(),
{
    if s.len() == 0 {
        Seq::empty()
    } else {
        let w = within || s[0] == '\x1B';
        if w {
            strip_rec(s.skip(1), s[0] != 'm')
        } else {
            seq![s[0]] + strip_rec(s.skip(1), false)
        }
    }
}

/// The string with all of its ANSI decorations removed.
pub open spec fn strip(s: Seq<char>) -> Seq<char> {
    strip_rec(s, false)
}

/// The escape sequence that starts the given color.
pub open spec fn color_prefix(color: AnsiColor) -> Seq<char> {
    match color {
        AnsiColor::Black => "\x1B[30m"@,
        AnsiColor::Red => "\x1B[31m"@,
        AnsiColor::Green => "\x1B[32m"@,
        AnsiColor::Yellow => "\x1B[33m"@,
        AnsiColor::Blue => "\x1B[34m"@,
        AnsiColor::Purple => "\x1B[35m"@,
        AnsiColor::Cyan => "\x1B[36m"@,
        AnsiColor::White => "\x1B[37m"@,
        AnsiColor::BrightBlack => "\x1B[90m"@,
        AnsiColor::BrightRed => "\x1B[91m"@,
        AnsiColor::BrightGreen => "\x1B[92m"@,
        AnsiColor::BrightYellow => "\x1B[93m"@,
        AnsiColor::BrightBlue => "\x1B[94m"@,
        AnsiColor::BrightPurple => "\x1B[95m"@,
        AnsiColor::BrightCyan => "\x1B[96m"@,
        AnsiColor::BrightWhite => "\x1B[97m"@,
    }
}

/// The escape sequence that starts the given style.
pub open spec fn style_prefix(style: AnsiStyle) -> Seq<char> {
    match style {
        AnsiStyle::Bold => "\x1B[1m"@,
        AnsiStyle::Strikethrough => "\x1B[9m"@,
        AnsiStyle::Underline => "\x1B[4m"@,
    }
}

/// The base string with every style prefix applied in order: a style later
/// in the list ends up further to the front of the result.
pub open spec fn styles_prefixed(styles: Seq<AnsiStyle>, base: Seq<char>) -> Seq<char>
    decreases styles.len(),
{
    if styles.len() == 0 {
        base
    } else {
        style_prefix(styles.last()) + styles_prefixed(styles.drop_last(), base)
    }
}

/// Clear all of the decorations from a string.
pub fn clear_decoration(s: String) -> (r: String)
    ensures
        r@ == strip(s@),
{
    let mut result = String::new();
    let st = s.as_str();
    let n = st.unicode_len();
    let mut within = false;
    let mut i: usize = 0;
    proof {
        assert(s@.skip(0) =~= s@);
    }
    while i < n
        invariant
            n == s@.len(),
            st@ == s@,
            i <= n,
            strip(s@) == result@ + strip_rec(s@.skip(i as int), within),
        decreases n - i,
    {
        let c = st.get_char(i);
        proof {
            assert(s@.skip(i as int)[0] == s@[i as int]);
            assert(s@.skip(i as int).skip(1) =~= s@.skip(i as int + 1));
        }
        if c == '\x1B' {
            within = true;
        }
        if within {
            if c == 'm' {
                within = false;
            }
        } else {
            let ghost before = result@;
            result.append(st.substring_char(i, i + 1));
            proof {
                assert(result@ =~= before + seq![s@[i as int]]);
                assert(before + seq![s@[i as int]] + strip_rec(s@.skip(i as int + 1), false)
                    =~= before + (seq![s@[i as int]] + strip_rec(s@.skip(i as int + 1), false)));
            }
        }
        i += 1;
    }
    proof {
        assert(s@.skip(n as int) =~= Seq::<char>::empty());
        assert(result@ + strip_rec(s@.skip(n as int), within) =~= result@);
    }
    result
}

/// Decorate a string with a color: any existing decoration is cleared, the
/// color's escape sequence is put in front, and a reset is appended.
pub fn decorate_color(s: String, color: AnsiColor) -> (r: String)
    ensures
        r@ == color_prefix(color) + strip(s@) + "\x1B[0m"@,
{
    let start = match color {
        AnsiColor::Black => "\x1B[30m",
        AnsiColor::Red => "\x1B[31m",
        AnsiColor::Green => "\x1B[32m",
        AnsiColor::Yellow => "\x1B[33m",
        AnsiColor::Blue => "\x1B[34m",
        AnsiColor::Purple => "\x1B[35m",
        AnsiColor::Cyan => "\x1B[36m",
        AnsiColor::White => "\x1B[37m",
        AnsiColor::BrightBlack => "\x1B[90m",
        AnsiColor::BrightRed => "\x1B[91m",
        AnsiColor::BrightGreen => "\x1B[92m",
        AnsiColor::BrightYellow => "\x1B[93m",
        AnsiColor::BrightBlue => "\x1B[94m",
        AnsiColor::BrightPurple => "\x1B[95m",
        AnsiColor::BrightCyan => "\x1B[96m",
        AnsiColor::BrightWhite => "\x1B[97m",
    };
    let mut r = start.to_owned();
    let cleared = clear_decoration(s);
    r.append(cleared.as_str());
    r.append("\x1B[0m");
    r
}

/// Decorate a string with a style: any existing decoration is cleared, the
/// style's escape sequence is put in front, and a reset is appended.
pub fn decorate_style(s: String, style: AnsiStyle) -> (r: String)
    ensures
        r@ == style_prefix(style) + strip(s@) + "\x1B[0m"@,
{
    let start = match style {
        AnsiStyle::Bold => "\x1B[1m",
        AnsiStyle::Strikethrough => "\x1B[9m",
        AnsiStyle::Underline => "\x1B[4m",
    };
    let mut r = start.to_owned();
    let cleared = clear_decoration(s);
    r.append(cleared.as_str());
    r.append("\x1B[0m");
    r
}

/// Decorate with a color and a style: the style's escape sequence is put in
/// front of the color-decorated string.
pub fn decorate(s: String, color: AnsiColor, style: AnsiStyle) -> (r: String)
    ensures
        r@ == style_prefix(style) + (color_prefix(color) + strip(s@) + "\x1B[0m"@),
{
    let start = match style {
        AnsiStyle::Bold => "\x1B[1m",
        AnsiStyle::Strikethrough => "\x1B[9m",
        AnsiStyle::Underline => "\x1B[4m",
    };
    let mut r = start.to_owned();
    let colored = decorate_color(s, color);
    r.append(colored.as_str());
    r
}

/// Decorate with a color and multiple styles: each style in turn puts its
/// escape sequence in front of the color-decorated string.
pub fn decorate_multiple(s: String, color: AnsiColor, styles: Vec<AnsiStyle>) -> (r: String)
    ensures
        r@ == styles_prefixed(styles@, color_prefix(color) + strip(s@) + "\x1B[0m"@),
{
    let mut result = decorate_color(s, color);
    let ghost base = result@;
    let mut i: usize = 0;
    proof {
        assert(styles@.take(0) =~= Seq::<AnsiStyle>::empty());
    }
    while i < styles.len()
        invariant
            i <= styles.len(),
            result@ == styles_prefixed(styles@.take(i as int), base),
        decreases styles.len() - i,
    {
        let start = match styles[i] {
            AnsiStyle::Bold => "\x1B[1m",
            AnsiStyle::Strikethrough => "\x1B[9m",
            AnsiStyle::Underline => "\x1B[4m",
        };
        let mut prefixed = start.to_owned();
        prefixed.append(result.as_str());
        result = prefixed;
        proof {
            assert(styles@.take(i as int + 1).drop_last() =~= styles@.take(i as int));
            assert(styles@.take(i as int + 1).last() == styles@[i as int]);
        }
        i += 1;
    }
    proof {
        assert(styles@.take(styles@.len() as int) =~= styles@);
    }
    result
}

} // verus!
