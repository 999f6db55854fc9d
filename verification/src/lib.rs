pub mod code_block;
pub mod error;
pub mod md_parse;
pub mod palette;
pub mod style;

pub use crate::error::Error;
pub use crate::md_parse::StateStack;

use vstd::prelude::*;
use crate::code_block::load_engine;
use crate::md_parse::{render_events, run_events, EventV};
use crate::style::reset_seq;

verus! {

#[verifier::external_type_specification]
#[verifier::external_body]
pub struct ExParserEvent<'a>(pulldown_cmark::Event<'a>);

#[verifier::external_type_specification]
#[verifier::external_body]
pub struct ExParserTag<'a>(pulldown_cmark::Tag<'a>);

/// The event sequence the external markup parser produces for `input`, with
/// the tasklist and strikethrough extensions enabled, mapped onto this
/// library's event type: a pure function of the input text.
pub uninterp spec fn parsed_events(input: Seq<char>) -> Seq<EventV>;

/// Maps one tag of pulldown_cmark onto the library's tag type, variant by
/// variant; tag kinds this renderer does not interpret become `MdTag::Other`.
#[verifier::external_body]
fn convert_tag(tag: pulldown_cmark::Tag<'_>) -> md_parse::MdTag {
    match tag {
        pulldown_cmark::Tag::Paragraph => md_parse::MdTag::Paragraph,
        pulldown_cmark::Tag::Heading(level) => md_parse::MdTag::Heading(level),
        pulldown_cmark::Tag::BlockQuote => md_parse::MdTag::BlockQuote,
        pulldown_cmark::Tag::CodeBlock(pulldown_cmark::CodeBlockKind::Fenced(lang)) => md_parse::MdTag::CodeBlock(Some(lang.into_string())),
        pulldown_cmark::Tag::CodeBlock(pulldown_cmark::CodeBlockKind::Indented) => md_parse::MdTag::CodeBlock(None),
        pulldown_cmark::Tag::List(first) => md_parse::MdTag::List(first),
        pulldown_cmark::Tag::Item => md_parse::MdTag::Item,
        pulldown_cmark::Tag::Emphasis => md_parse::MdTag::Emphasis,
        pulldown_cmark::Tag::Strong => md_parse::MdTag::Strong,
        pulldown_cmark::Tag::Link(_, url, title) => md_parse::MdTag::Link(url.into_string(), title.into_string()),
        _ => md_parse::MdTag::Other,
    }
}

/// Maps one event of pulldown_cmark onto the library's event type; event
/// kinds this renderer does not interpret become `MdEvent::Other`.
#[verifier::external_body]
fn convert_event(ev: pulldown_cmark::Event<'_>) -> md_parse::MdEvent {
    match ev {
        pulldown_cmark::Event::Start(tag) => md_parse::MdEvent::Start(convert_tag(tag)),
        pulldown_cmark::Event::End(tag) => md_parse::MdEvent::End(convert_tag(tag)),
        pulldown_cmark::Event::Text(body) => md_parse::MdEvent::Text(body.into_string()),
        pulldown_cmark::Event::Code(body) => md_parse::MdEvent::Code(body.into_string()),
        _ => md_parse::MdEvent::Other,
    }
}

/// Relies on pulldown_cmark's `Parser::new_ext`: parsing is deterministic,
/// so for fixed options (tasklists and strikethrough enabled) the typed
/// events depend on the input text alone.
#[verifier::external_body]
fn parse_events(input: &str) -> (events: Vec<md_parse::MdEvent>)
    ensures
        events.deep_view() == parsed_events(input@),
{
    let mut options = pulldown_cmark::Options::empty();
    options.insert(pulldown_cmark::Options::ENABLE_TASKLISTS);
    options.insert(pulldown_cmark::Options::ENABLE_STRIKETHROUGH);
    pulldown_cmark::Parser::new_ext(input, options).map(convert_event).collect()
}

/// Renders markup `input` to terminal-styled text: parses it into events,
/// drives every event through the dispatcher, and returns the styled output,
/// whose final bytes are always the "reset all styling" escape sequence. The
/// render aborts with the first structural or palette error.
pub fn markdown_terminal(input: &str) -> (res: Result<String, Error>)
    ensures
        ({
            let r = run_events(parsed_events(input@));
            match res {
                Ok(s) => r.err is None && s@ == r.out + reset_seq(),
                Err(e) => r.err == Some(e@),
            }
        }),
        res matches Ok(s) ==> s@.len() >= reset_seq().len() && s@.subrange(
            s@.len() - reset_seq().len(),
            s@.len() as int,
        ) == reset_seq(),
{
    let engine = load_engine();
    let events = parse_events(input);
    let res = render_events(&engine, events);
    proof {
        md_parse::lemma_reset_suffix(parsed_events(input@));
    }
    res
}

} // verus!
