use vstd::prelude::*;
use vstd::string::StringExecFns;

verus! {

/// One of the terminal foreground colours this renderer ever emits.
///
/// `BrightRed` and `BrightPurple` are the 256-colour-palette entries 9 and 13;
/// the others are the classic named foreground colours 31-36.
#[derive(Clone, Copy, Debug, PartialEq, Eq)]
pub enum Color {
    Red,
    Green,
    Yellow,
    Blue,
    Purple,
    Cyan,
    BrightRed,
    BrightPurple,
}

/// An immutable set of style attributes: an optional foreground colour plus
/// bold/italic/underline flags. `fg == None` means "inherit the terminal's
/// default foreground".
#[derive(Clone, Copy, Debug, PartialEq, Eq)]
pub struct Style {
    pub fg: Option<Color>,
    pub bold: bool,
    pub italic: bool,
    pub underline: bool,
}

/// The style that applies no attribute at all.
pub open spec fn plain() -> Style {
    Style { fg: None, bold: false, italic: false, underline: false }
}

/// A plain style paints text without any escape codes.
pub open spec fn is_plain(s: Style) -> bool {
    s.fg is None && !s.bold && !s.italic && !s.underline
}

/// The SGR parameter selecting colour `c` as the foreground.
pub open spec fn fg_code(c: Color) -> Seq<char> {
    match c {
        Color::Red => "31"@,
        Color::Green => "32"@,
        Color::Yellow => "33"@,
        Color::Blue => "34"@,
        Color::Purple => "35"@,
        Color::Cyan => "36"@,
        Color::BrightRed => "38;5;9"@,
        Color::BrightPurple => "38;5;13"@,
    }
}

/// Appends one more SGR parameter, separating it from what is already there
/// with a semicolon.
pub open spec fn joined(acc: Seq<char>, code: Seq<char>) -> Seq<char> {
    if acc.len() == 0 {
        code
    } else {
        acc + ";"@ + code
    }
}

/// The semicolon-separated SGR parameter list of a style, in the order
/// bold, italic, underline, foreground colour.
pub open spec fn style_codes(s: Style) -> Seq<char> {
    let a = if s.bold {
        "1"@
    } else {
        Seq::<char>::empty()
    };
    let b = if s.italic {
        joined(a, "3"@)
    } else {
        a
    };
    let c = if s.underline {
        joined(b, "4"@)
    } else {
        b
    };
    match s.fg {
        Some(col) => joined(c, fg_code(col)),
        None => c,
    }
}

/// The escape sequence written before text in style `s`; empty when the style
/// is plain, so unstyled text carries no codes at all.
pub open spec fn style_prefix(s: Style) -> Seq<char> {
    if is_plain(s) {
        Seq::<char>::empty()
    } else {
        "\x1b["@ + style_codes(s) + "m"@
    }
}

/// The escape sequence written after text in style `s`: a full reset, or
/// nothing when the style is plain.
pub open spec fn style_suffix(s: Style) -> Seq<char> {
    if is_plain(s) {
        Seq::<char>::empty()
    } else {
        "\x1b[0m"@
    }
}

/// Text `text` rendered in style `s`: prefix, text, suffix.
pub open spec fn painted(s: Style, text: Seq<char>) -> Seq<char> {
    style_prefix(s) + text + style_suffix(s)
}

/// The "reset all styling" escape sequence that ends every successful render.
pub open spec fn reset_seq() -> Seq<char> {
    "\x1b[0m"@
}

impl Style {
    /// The style with no attributes set.
    pub fn new() -> (s: Style)
        ensures
            s == plain(),
    {
        Style { fg: None, bold: false, italic: false, underline: false }
    }
}

/// Painting with the plain style adds nothing around the text.
pub proof fn lemma_plain_paint_identity(text: Seq<char>)
    ensures
        painted(plain(), text) == text,
{
    assert(painted(plain(), text) =~= text);
}

fn append_fg_code(out: &mut String, c: Color)
    ensures
        final(out)@ == old(out)@ + fg_code(c),
{
    match c {
        Color::Red => out.append("31"),
        Color::Green => out.append("32"),
        Color::Yellow => out.append("33"),
        Color::Blue => out.append("34"),
        Color::Purple => out.append("35"),
        Color::Cyan => out.append("36"),
        Color::BrightRed => out.append("38;5;9"),
        Color::BrightPurple => out.append("38;5;13"),
    }
}

/// Appends `text` to `out` in style `style`: the style's escape prefix, the
/// text itself, then a reset, with nothing at all around unstyled text.
pub fn write_styled(out: &mut String, style: &Style, text: &str)
    ensures
        final(out)@ == old(out)@ + painted(*style, text@),
{
    proof {
        reveal_strlit("1");
        reveal_strlit("3");
        reveal_strlit("4");
        reveal_strlit(";");
        reveal_strlit("\x1b[");
        reveal_strlit("m");
        reveal_strlit("\x1b[0m");
        reveal_strlit("31");
        reveal_strlit("32");
        reveal_strlit("33");
        reveal_strlit("34");
        reveal_strlit("35");
        reveal_strlit("36");
        reveal_strlit("38;5;9");
        reveal_strlit("38;5;13");
    }
    let s = *style;
    if s.fg.is_none() && !s.bold && !s.italic && !s.underline {
        out.append(text);
        proof {
            lemma_plain_paint_identity(text@);
        }
        return;
    }
    let mut codes = String::new();
    let mut wrote: bool = false;
    let ghost a: Seq<char> = if s.bold {
        "1"@
    } else {
        Seq::<char>::empty()
    };
    if s.bold {
        codes.append("1");
        wrote = true;
    }
    assert(codes@ =~= a);
    assert(wrote == (a.len() != 0));
    let ghost b: Seq<char> = if s.italic {
        joined(a, "3"@)
    } else {
        a
    };
    if s.italic {
        if wrote {
            codes.append(";");
        }
        codes.append("3");
        wrote = true;
    }
    assert(codes@ =~= b);
    assert(wrote == (b.len() != 0));
    let ghost c: Seq<char> = if s.underline {
        joined(b, "4"@)
    } else {
        b
    };
    if s.underline {
        if wrote {
            codes.append(";");
        }
        codes.append("4");
        wrote = true;
    }
    assert(codes@ =~= c);
    assert(wrote == (c.len() != 0));
    match s.fg {
        Some(col) => {
            if wrote {
                codes.append(";");
            }
            append_fg_code(&mut codes, col);
        },
        None => {},
    }
    assert(codes@ =~= style_codes(s));
    out.append("\x1b[");
    out.append(codes.as_str());
    out.append("m");
    out.append(text);
    out.append("\x1b[0m");
    assert(out@ =~= old(out)@ + painted(s, text@));
}

} // verus!
