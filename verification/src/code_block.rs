use vstd::prelude::*;
use vstd::string::StringExecFns;
use syntect::highlighting::FontStyle;
use crate::error::{Error, ErrorV};
use crate::palette::{map_color, palette_spec};
use crate::style::{painted, reset_seq, write_styled, Style};

verus! {

#[verifier::external_type_specification]
#[verifier::external_body]
pub struct ExSyntaxSet(syntect::parsing::SyntaxSet);

#[verifier::external_type_specification]
#[verifier::external_body]
pub struct ExTheme(syntect::highlighting::Theme);

/// The fixed highlighting context: the default syntax definitions and the
/// Solarized (dark) theme, loaded once and then only read. Every render is
/// handed a reference to one of these; the fields are never mutated, so any
/// two engines behave alike.
pub struct Engine {
    syntaxes: syntect::parsing::SyntaxSet,
    theme: syntect::highlighting::Theme,
}

/// Relies on syntect's `ThemeSet::load_defaults` and
/// `SyntaxSet::load_defaults_newlines`: both unpack tables that are embedded
/// in the crate, so every engine holds the same fixed syntax definitions and
/// the same Solarized (dark) theme.
#[verifier::external_body]
pub fn load_engine() -> Engine {
    let mut themes = syntect::highlighting::ThemeSet::load_defaults();
    Engine {
        syntaxes: syntect::parsing::SyntaxSet::load_defaults_newlines(),
        theme: themes.themes.remove("Solarized (dark)").unwrap_or_default(),
    }
}

/// The mathematical value of a [`TokenSpan`].
pub struct SpanV {
    pub red: u8,
    pub green: u8,
    pub blue: u8,
    pub bold: bool,
    pub italic: bool,
    pub underline: bool,
    pub text: Seq<char>,
}

/// One highlighted fragment of a line of code: the token's 24-bit foreground
/// colour, its font flags, and the fragment text itself.
pub struct TokenSpan {
    pub red: u8,
    pub green: u8,
    pub blue: u8,
    pub bold: bool,
    pub italic: bool,
    pub underline: bool,
    pub text: String,
}

impl View for TokenSpan {
    type V = SpanV;

    open spec fn view(&self) -> SpanV {
        SpanV {
            red: self.red,
            green: self.green,
            blue: self.blue,
            bold: self.bold,
            italic: self.italic,
            underline: self.underline,
            text: self.text@,
        }
    }
}

impl DeepView for TokenSpan {
    type V = SpanV;

    open spec fn deep_view(&self) -> SpanV {
        self.view()
    }
}

impl TokenSpan {
    /// Packs one highlighted fragment into a span.
    pub fn new(
        red: u8,
        green: u8,
        blue: u8,
        bold: bool,
        italic: bool,
        underline: bool,
        text: &str,
    ) -> (s: TokenSpan)
        ensures
            s@ == (SpanV {
                red: red,
                green: green,
                blue: blue,
                bold: bold,
                italic: italic,
                underline: underline,
                text: text@,
            }),
    {
        TokenSpan {
            red: red,
            green: green,
            blue: blue,
            bold: bold,
            italic: italic,
            underline: underline,
            text: text.to_owned(),
        }
    }
}

/// The ordered token spans that the external tokenizer assigns to `source`
/// under the language token `lang`, for the fixed default syntax definitions
/// and theme.
pub uninterp spec fn spans_of(source: Seq<char>, lang: Seq<char>) -> Seq<SpanV>;

/// Relies on syntect's `SyntaxSet::find_syntax_by_token` (falling back to
/// `find_syntax_plain_text` for an unrecognized token) and
/// `HighlightLines::highlight`, entered from a fresh state and fed each line
/// of `source` with its line ending kept: since the engine always holds the
/// same fixed defaults, the spans depend on `source` and `lang` alone.
#[verifier::external_body]
fn highlight_spans(eng: &Engine, source: &str, lang: &str) -> (spans: Vec<TokenSpan>)
    ensures
        spans.deep_view() == spans_of(source@, lang@),
{
    let syn = eng.syntaxes.find_syntax_by_token(lang).unwrap_or_else(|| eng.syntaxes.find_syntax_plain_text());
    let mut h = syntect::easy::HighlightLines::new(syn, &eng.theme);
    let mut spans: Vec<TokenSpan> = Vec::new();
    for line in syntect::util::LinesWithEndings::from(source) {
        for (st, text) in h.highlight(line, &eng.syntaxes) {
            let (fg, fs) = (st.foreground, st.font_style);
            spans.push(TokenSpan::new(fg.r, fg.g, fg.b, fs.contains(FontStyle::BOLD),
                fs.contains(FontStyle::ITALIC), fs.contains(FontStyle::UNDERLINE), text));
        }
    }
    spans
}

/// Whether the span's colour triple is inside the fixed palette table.
pub open spec fn span_known(s: SpanV) -> bool {
    palette_spec(s.red, s.green, s.blue) is Some
}

/// The output style of a known span: the mapped foreground colour plus the
/// span's own font flags.
pub open spec fn span_style(s: SpanV) -> Style {
    Style {
        fg: palette_spec(s.red, s.green, s.blue)->Some_0,
        bold: s.bold,
        italic: s.italic,
        underline: s.underline,
    }
}

/// The styled output of the first `n` spans, each painted in its mapped
/// style.
pub open spec fn ansi_upto(spans: Seq<SpanV>, n: int) -> Seq<char>
    decreases n,
{
    if n <= 0 {
        Seq::<char>::empty()
    } else {
        ansi_upto(spans, n - 1) + painted(span_style(spans[n - 1]), spans[n - 1].text)
    }
}

/// The index of the first span whose colour is outside the palette, or the
/// length when every span is known.
pub open spec fn first_unknown(spans: Seq<SpanV>) -> int
    decreases spans.len(),
{
    if spans.len() == 0 {
        0
    } else if !span_known(spans[0]) {
        0
    } else {
        1 + first_unknown(spans.drop_first())
    }
}

/// `first_unknown` is exactly the position determined by a prefix of known
/// spans followed by an unknown one (or the end).
pub proof fn lemma_first_unknown_from(spans: Seq<SpanV>, i: int)
    requires
        0 <= i <= spans.len(),
        forall|j: int| 0 <= j < i ==> span_known(spans[j]),
        i < spans.len() ==> !span_known(spans[i]),
    ensures
        first_unknown(spans) == i,
    decreases spans.len(),
{
    if i == 0 {
        if spans.len() > 0 {
            assert(!span_known(spans[0]));
        }
    } else {
        assert(span_known(spans[0]));
        assert forall|j: int| 0 <= j < i - 1 implies span_known(spans.drop_first()[j]) by {
            assert(spans.drop_first()[j] == spans[j + 1]);
        }
        if i - 1 < spans.drop_first().len() {
            assert(spans.drop_first()[i - 1] == spans[i]);
        }
        lemma_first_unknown_from(spans.drop_first(), i - 1);
    }
}

/// Maps each span's colour through the palette and writes the styled
/// fragments to `out`, stopping at the first span whose colour is outside the
/// fixed table; that colour is fatal and is reported, never approximated.
pub fn write_as_ansi(out: &mut String, spans: &Vec<TokenSpan>) -> (res: Result<(), Error>)
    ensures
        ({
            let sv = spans.deep_view();
            let i = first_unknown(sv);
            match res {
                Ok(()) => i == sv.len() && final(out)@ == old(out)@ + ansi_upto(sv, i),
                Err(e) => i < sv.len() && final(out)@ == old(out)@ + ansi_upto(sv, i) && e@
                    == ErrorV::Palette(sv[i].red, sv[i].green, sv[i].blue),
            }
        }),
{
    let ghost sv = spans.deep_view();
    proof {
        assert(sv.len() == spans@.len());
    }
    let mut k: usize = 0;
    while k < spans.len()
        invariant
            0 <= k <= spans@.len(),
            sv == spans.deep_view(),
            sv.len() == spans@.len(),
            out@ == old(out)@ + ansi_upto(sv, k as int),
            forall|j: int| 0 <= j < k ==> span_known(sv[j]),
        decreases spans@.len() - k,
    {
        let sp = &spans[k];
        proof {
            assert(sv[k as int] == spans@[k as int]@);
        }
        match map_color(sp.red, sp.green, sp.blue) {
            Err(e) => {
                proof {
                    lemma_first_unknown_from(sv, k as int);
                }
                return Err(e);
            },
            Ok(fg) => {
                let st = Style { fg: fg, bold: sp.bold, italic: sp.italic, underline: sp.underline };
                write_styled(out, &st, sp.text.as_str());
                proof {
                    assert(st == span_style(sv[k as int]));
                    assert(out@ =~= old(out)@ + ansi_upto(sv, k as int + 1));
                }
            },
        }
        k += 1;
    }
    proof {
        lemma_first_unknown_from(sv, sv.len() as int);
    }
    Ok(())
}

/// The language token actually used for a code block: the fenced block's own
/// token, or the fixed fallback `"js"` for an indented block with no
/// language, which is then best-effort highlighted as that language.
pub open spec fn code_lang(lang: Option<Seq<char>>) -> Seq<char> {
    match lang {
        Some(l) => l,
        None => "js"@,
    }
}

/// What rendering a code block appends to the sink, and whether it fails:
/// every span painted in its mapped style followed by a final reset, or, on
/// the first unknown colour, the spans before it and the palette error.
pub open spec fn code_step(body: Seq<char>, lang: Seq<char>) -> (Seq<char>, Option<ErrorV>) {
    let spans = spans_of(body, lang);
    let i = first_unknown(spans);
    if i == spans.len() {
        (ansi_upto(spans, i) + reset_seq(), None)
    } else {
        (ansi_upto(spans, i), Some(ErrorV::Palette(spans[i].red, spans[i].green, spans[i].blue)))
    }
}

/// Highlights `source` under the language token `lang` and writes the styled
/// tokens to `out`, ending with a "reset all styling" escape sequence.
pub fn codeblock_ansi(eng: &Engine, source: &str, lang: &str, out: &mut String) -> (res: Result<
    (),
    Error,
>)
    ensures
        ({
            let so = code_step(source@, lang@);
            final(out)@ == old(out)@ + so.0 && match res {
                Ok(()) => so.1 is None,
                Err(e) => so.1 == Some(e@),
            }
        }),
{
    let spans = highlight_spans(eng, source, lang);
    match write_as_ansi(out, &spans) {
        Ok(()) => {
            out.append("\x1b[0m");
            proof {
                let spv = spans_of(source@, lang@);
                assert(out@ =~= old(out)@ + (ansi_upto(spv, first_unknown(spv)) + reset_seq()));
            }
            Ok(())
        },
        Err(e) => Err(e),
    }
}

} // verus!
