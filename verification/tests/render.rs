use md_term::code_block::{codeblock_ansi, load_engine, write_as_ansi, TokenSpan};
use md_term::error::Error;
use md_term::md_parse::{link, render_events, MdEvent, MdTag, StateStack};
use md_term::palette::map_color;
use md_term::style::{write_styled, Color, Style};
use md_term::markdown_terminal;

const RESET: &str = "\x1b[0m";

fn strip_ansi(s: &str) -> String {
    let mut out = String::new();
    let mut chars = s.chars();
    while let Some(c) = chars.next() {
        if c == '\x1b' {
            for d in chars.by_ref() {
                if d == 'm' {
                    break;
                }
            }
        } else {
            out.push(c);
        }
    }
    out
}

#[test]
fn second() {
    println!(
        "{}",
        markdown_terminal("```rust\nfn heap_size_of_children(&self) -> usize;\n```").unwrap()
    );
}

#[test]
fn reset_suffix_on_every_successful_render() {
    let inputs = [
        "hello",
        "",
        "**bold** and *emphasis*",
        "- one\n- two\n",
        "[click](http://example.com)",
        "`foo && bar`",
        "```rust\nfn main() {}\n```",
    ];
    for input in inputs {
        let out = markdown_terminal(input).unwrap();
        assert!(out.ends_with(RESET), "no reset at end of {:?}", out);
    }
}

#[test]
fn matched_tags_render_without_structural_error() {
    assert!(markdown_terminal("**hi** in a paragraph").is_ok());
    assert!(markdown_terminal("> quoted text").is_ok());
    assert!(markdown_terminal("# a heading").is_ok());
}

#[test]
fn heading_text_is_silently_dropped() {
    let out = markdown_terminal("# a heading").unwrap();
    assert_eq!(out, RESET);
}

#[test]
fn quoted_paragraph_inherits_green() {
    let out = markdown_terminal("> quoted text").unwrap();
    assert_eq!(out, "\x1b[32mquoted text\x1b[0m\x1b[0m");
}

#[test]
fn mismatched_end_fails_with_structural_error() {
    // A strikethrough start is an unrecognized tag and pushes nothing, so its
    // end event pops the enclosing paragraph and the kinds cannot match.
    match markdown_terminal("~~struck~~") {
        Err(Error::Unmatched(msg)) => assert_eq!(msg, "Unmatched pair found on stack"),
        other => panic!("expected the structural error, got {:?}", other),
    }
}

#[test]
fn pop_verifies_kind() {
    let mut stack = StateStack::default();
    stack.push_tag(MdTag::Strong);
    assert!(stack.pop_tag(MdTag::Strong).is_ok());

    let mut stack = StateStack::default();
    stack.push_tag(MdTag::Strong);
    assert!(matches!(stack.pop_tag(MdTag::Emphasis), Err(Error::Unmatched(_))));

    let mut empty = StateStack::default();
    assert!(matches!(empty.pop_tag(MdTag::Strong), Err(Error::Unmatched(_))));
}

#[test]
fn paragraph_inherits_strong_style() {
    let engine = load_engine();
    let events = vec![
        MdEvent::Start(MdTag::Strong),
        MdEvent::Start(MdTag::Paragraph),
        MdEvent::Text(String::from("hi")),
        MdEvent::End(MdTag::Paragraph),
        MdEvent::End(MdTag::Strong),
    ];
    let out = render_events(&engine, events).unwrap();
    assert_eq!(out, "\x1b[1mhi\x1b[0m\x1b[0m");
}

#[test]
fn paragraph_without_styled_ancestor_is_plain() {
    let engine = load_engine();
    let events = vec![
        MdEvent::Start(MdTag::Paragraph),
        MdEvent::Text(String::from("hi")),
        MdEvent::End(MdTag::Paragraph),
    ];
    let out = render_events(&engine, events).unwrap();
    assert_eq!(out, "hi\x1b[0m");
}

#[test]
fn list_spacing_two_items() {
    let out = markdown_terminal("- one\n- two\n").unwrap();
    assert_eq!(out, "\n\n * one\n * two\n\n\x1b[0m");
}

#[test]
fn link_renders_text_then_url_in_green() {
    let out = markdown_terminal("[click](http://example.com)").unwrap();
    assert_eq!(out, "\x1b[32mclick (http://example.com)\x1b[0m\x1b[0m");
}

#[test]
fn link_helper_joins_text_and_url() {
    assert_eq!(link("click", "http://example.com"), "click (http://example.com)");
}

#[test]
fn palette_maps_known_accent_colors() {
    assert_eq!(map_color(0xb5, 0x89, 0x00).unwrap(), Some(Color::Yellow));
    assert_eq!(map_color(0xcb, 0x4b, 0x16).unwrap(), Some(Color::BrightRed));
    assert_eq!(map_color(0xdc, 0x32, 0x2f).unwrap(), Some(Color::Red));
    assert_eq!(map_color(0xd3, 0x36, 0x82).unwrap(), Some(Color::Purple));
    assert_eq!(map_color(0x6c, 0x71, 0xc4).unwrap(), Some(Color::BrightPurple));
    assert_eq!(map_color(0x26, 0x8b, 0xd2).unwrap(), Some(Color::Blue));
    assert_eq!(map_color(0x2a, 0xa1, 0x98).unwrap(), Some(Color::Cyan));
    assert_eq!(map_color(0x85, 0x99, 0x00).unwrap(), Some(Color::Green));
}

#[test]
fn palette_maps_base_colors_to_terminal_default() {
    assert_eq!(map_color(0x00, 0x2b, 0x36).unwrap(), None);
    assert_eq!(map_color(0xfd, 0xf6, 0xe3).unwrap(), None);
}

#[test]
fn palette_unknown_color_is_fatal() {
    match map_color(1, 2, 3) {
        Err(Error::Palette(r, g, b)) => assert_eq!((r, g, b), (1, 2, 3)),
        other => panic!("expected the palette error, got {:?}", other),
    }
}

#[test]
fn unknown_span_color_aborts_with_palette_error() {
    let mut out = String::new();
    let spans = vec![TokenSpan::new(1, 2, 3, false, false, false, "x")];
    assert!(matches!(write_as_ansi(&mut out, &spans), Err(Error::Palette(1, 2, 3))));
    assert_eq!(out, "");
}

#[test]
fn known_span_color_paints_the_fragment() {
    let mut out = String::new();
    let spans = vec![TokenSpan::new(0xb5, 0x89, 0x00, false, false, false, "tok")];
    assert!(write_as_ansi(&mut out, &spans).is_ok());
    assert_eq!(out, "\x1b[33mtok\x1b[0m");
}

#[test]
fn indented_code_uses_fallback_language() {
    let indented = markdown_terminal("    let x = 1;\n").unwrap();
    let fenced_js = markdown_terminal("```js\nlet x = 1;\n```").unwrap();
    assert_eq!(indented, fenced_js);
}

#[test]
fn inline_code_is_yellow() {
    let out = markdown_terminal("`foo && bar`").unwrap();
    assert_eq!(out, "\x1b[33mfoo && bar\x1b[0m\x1b[0m");
}

#[test]
fn codeblock_output_keeps_source_text() {
    let engine = load_engine();
    let mut out = String::new();
    let source = "fn heap_size_of_children(&self) -> usize;\n";
    codeblock_ansi(&engine, source, "rust", &mut out).unwrap();
    assert!(out.ends_with(RESET));
    assert_eq!(strip_ansi(&out), source);
    assert_ne!(out, format!("{}{}", source, RESET), "no token was coloured");
}

#[test]
fn styled_output_matches_ansi_term() {
    let cases: [(Style, ansi_term::Style); 5] = [
        (
            Style { fg: Some(Color::Green), bold: false, italic: false, underline: false },
            ansi_term::Style::new().fg(ansi_term::Colour::Green),
        ),
        (
            Style { fg: None, bold: true, italic: false, underline: false },
            ansi_term::Style::new().bold(),
        ),
        (
            Style { fg: Some(Color::Yellow), bold: true, italic: true, underline: true },
            ansi_term::Style::new().bold().italic().underline().fg(ansi_term::Colour::Yellow),
        ),
        (
            Style { fg: Some(Color::BrightRed), bold: false, italic: true, underline: false },
            ansi_term::Style::new().italic().fg(ansi_term::Colour::Fixed(9)),
        ),
        (
            Style { fg: None, bold: false, italic: false, underline: false },
            ansi_term::Style::new(),
        ),
    ];
    for (ours, theirs) in cases {
        let mut out = String::new();
        write_styled(&mut out, &ours, "sample text");
        assert_eq!(out, theirs.paint("sample text").to_string());
    }
}

#[test]
fn custom_error_keeps_its_message() {
    let e = Error::custom(String::from("boom"));
    assert_eq!(e.message(), "boom");
}
