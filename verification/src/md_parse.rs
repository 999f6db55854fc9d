use vstd::prelude::*;
use vstd::string::StringExecFns;
use crate::code_block::{code_lang, code_step, codeblock_ansi, Engine};
use crate::error::{Error, ErrorV};
use crate::style::{painted, plain, reset_seq, write_styled, Color, Style};

verus! {

/// The mathematical value of a [`MdTag`].
pub enum TagV {
    CodeBlock(Option<Seq<char>>),
    Link(Seq<char>, Seq<char>),
    Strong,
    Emphasis,
    Paragraph,
    List(Option<u64>),
    Item,
    Heading(u32),
    BlockQuote,
    Other,
}

/// A structural markup tag with its payload: the language token of a fenced
/// code block (`None` for an indented one), a link's url and title, an
/// ordered list's first ordinal, a heading's level. `Other` stands for every
/// tag kind this renderer does not interpret (tables, images, footnotes,
/// strikethrough, ...), which are tolerated, never fatal to open.
pub enum MdTag {
    CodeBlock(Option<String>),
    Link(String, String),
    Strong,
    Emphasis,
    Paragraph,
    List(Option<u64>),
    Item,
    Heading(u32),
    BlockQuote,
    Other,
}

impl View for MdTag {
    type V = TagV;

    open spec fn view(&self) -> TagV {
        match self {
            MdTag::CodeBlock(lang) => TagV::CodeBlock(lang.deep_view()),
            MdTag::Link(url, title) => TagV::Link(url@, title@),
            MdTag::Strong => TagV::Strong,
            MdTag::Emphasis => TagV::Emphasis,
            MdTag::Paragraph => TagV::Paragraph,
            MdTag::List(first) => TagV::List(*first),
            MdTag::Item => TagV::Item,
            MdTag::Heading(level) => TagV::Heading(*level),
            MdTag::BlockQuote => TagV::BlockQuote,
            MdTag::Other => TagV::Other,
        }
    }
}

impl DeepView for MdTag {
    type V = TagV;

    open spec fn deep_view(&self) -> TagV {
        self.view()
    }
}

/// The mathematical value of an [`MdEvent`].
pub enum EventV {
    Start(TagV),
    Text(Seq<char>),
    Code(Seq<char>),
    End(TagV),
    Other,
}

/// One structural markup event: a tag opens or closes, text appears inside
/// the innermost open tag, or an inline code span appears. `Other` stands for
/// the event kinds this renderer does not interpret, which are ignored.
pub enum MdEvent {
    Start(MdTag),
    Text(String),
    Code(String),
    End(MdTag),
    Other,
}

impl View for MdEvent {
    type V = EventV;

    open spec fn view(&self) -> EventV {
        match self {
            MdEvent::Start(tag) => EventV::Start(tag@),
            MdEvent::Text(body) => EventV::Text(body@),
            MdEvent::Code(body) => EventV::Code(body@),
            MdEvent::End(tag) => EventV::End(tag@),
            MdEvent::Other => EventV::Other,
        }
    }
}

impl DeepView for MdEvent {
    type V = EventV;

    open spec fn deep_view(&self) -> EventV {
        self.view()
    }
}

/// The mathematical value of a [`State`].
pub enum StateV {
    Link { style: Style, url: Seq<char>, title: Option<Seq<char>> },
    Strong { style: Style },
    Emphasis { style: Style },
    Paragraph { style: Style },
    Code { lang: Option<Seq<char>>, indented: bool },
    List { style: Style, first: Option<u64> },
    ListItem { style: Style },
    Heading { style: Style, level: u32 },
    BlockQuote { style: Style },
}

/// One active style context, pushed when its tag opens and popped when it
/// closes. Each variant except `Code` carries the style its text is painted
/// with; a link keeps its url and its title (present only when non-empty),
/// and a code block keeps its language token.
pub enum State {
    Link { style: Style, url: String, title: Option<String> },
    Strong { style: Style },
    Emphasis { style: Style },
    Paragraph { style: Style },
    Code { lang: Option<String>, indented: bool },
    List { style: Style, first: Option<u64> },
    ListItem { style: Style },
    Heading { style: Style, level: u32 },
    BlockQuote { style: Style },
}

impl View for State {
    type V = StateV;

    open spec fn view(&self) -> StateV {
        match self {
            State::Link { style, url, title } => StateV::Link {
                style: *style,
                url: url@,
                title: title.deep_view(),
            },
            State::Strong { style } => StateV::Strong { style: *style },
            State::Emphasis { style } => StateV::Emphasis { style: *style },
            State::Paragraph { style } => StateV::Paragraph { style: *style },
            State::Code { lang, indented } => StateV::Code {
                lang: lang.deep_view(),
                indented: *indented,
            },
            State::List { style, first } => StateV::List { style: *style, first: *first },
            State::ListItem { style } => StateV::ListItem { style: *style },
            State::Heading { style, level } => StateV::Heading { style: *style, level: *level },
            State::BlockQuote { style } => StateV::BlockQuote { style: *style },
        }
    }
}

impl DeepView for State {
    type V = StateV;

    open spec fn deep_view(&self) -> StateV {
        self.view()
    }
}

/// The fixed style of strong text and of headings: bold.
pub open spec fn bold_style() -> Style {
    Style { fg: None, bold: true, italic: false, underline: false }
}

/// The fixed style of emphasized text: italic.
pub open spec fn italic_style() -> Style {
    Style { fg: None, bold: false, italic: true, underline: false }
}

/// The fixed style of links and block quotes: green foreground.
pub open spec fn green_style() -> Style {
    Style { fg: Some(Color::Green), bold: false, italic: false, underline: false }
}

/// The fixed style of inline code spans: yellow foreground.
pub open spec fn yellow_style() -> Style {
    Style { fg: Some(Color::Yellow), bold: false, italic: false, underline: false }
}

/// The style a context exposes to nested paragraphs, if any. Code blocks
/// expose none; neither do headings, whose style stays their own.
pub open spec fn style_of(s: StateV) -> Option<Style> {
    match s {
        StateV::Emphasis { style } => Some(style),
        StateV::Strong { style } => Some(style),
        StateV::Paragraph { style } => Some(style),
        StateV::Link { style, .. } => Some(style),
        StateV::List { style, .. } => Some(style),
        StateV::ListItem { style } => Some(style),
        StateV::BlockQuote { style } => Some(style),
        StateV::Heading { .. } => None,
        StateV::Code { .. } => None,
    }
}

/// The style a paragraph inherits: the one exposed by the nearest enclosing
/// context, scanning the stack from its top, or no styling at all when no
/// ancestor exposes one.
pub open spec fn inherited_style(stack: Seq<StateV>) -> Style
    decreases stack.len(),
{
    if stack.len() == 0 {
        plain()
    } else {
        match style_of(stack.last()) {
            Some(st) => st,
            None => inherited_style(stack.drop_last()),
        }
    }
}

/// The context that opening tag `t` pushes onto `stack`, or `None` for a tag
/// kind this renderer ignores.
pub open spec fn state_for(stack: Seq<StateV>, t: TagV) -> Option<StateV> {
    match t {
        TagV::CodeBlock(lang) => Some(StateV::Code { lang: lang, indented: lang is None }),
        TagV::Link(url, title) => Some(
            StateV::Link {
                style: green_style(),
                url: url,
                title: if title.len() == 0 {
                    None
                } else {
                    Some(title)
                },
            },
        ),
        TagV::Strong => Some(StateV::Strong { style: bold_style() }),
        TagV::Emphasis => Some(StateV::Emphasis { style: italic_style() }),
        TagV::Paragraph => Some(StateV::Paragraph { style: inherited_style(stack) }),
        TagV::List(first) => Some(StateV::List { style: plain(), first: first }),
        TagV::Item => Some(StateV::ListItem { style: plain() }),
        TagV::Heading(level) => Some(StateV::Heading { style: bold_style(), level: level }),
        TagV::BlockQuote => Some(StateV::BlockQuote { style: green_style() }),
        TagV::Other => None,
    }
}

/// Whether closing tag `t` matches context `s`: exactly when their kinds
/// agree. A tag kind this renderer ignores matches nothing.
pub open spec fn kind_matches(t: TagV, s: StateV) -> bool {
    match (t, s) {
        (TagV::Paragraph, StateV::Paragraph { .. }) => true,
        (TagV::Emphasis, StateV::Emphasis { .. }) => true,
        (TagV::Strong, StateV::Strong { .. }) => true,
        (TagV::Link(_, _), StateV::Link { .. }) => true,
        (TagV::List(_), StateV::List { .. }) => true,
        (TagV::Item, StateV::ListItem { .. }) => true,
        (TagV::Heading(_), StateV::Heading { .. }) => true,
        (TagV::BlockQuote, StateV::BlockQuote { .. }) => true,
        (TagV::CodeBlock(_), StateV::Code { .. }) => true,
        _ => false,
    }
}

/// What rendering a text body in a non-code context appends to the sink:
/// the body painted with the context's style, decorated for list items and
/// links; lists and headings append nothing.
pub open spec fn rendered_plain(s: StateV, body: Seq<char>) -> Seq<char> {
    match s {
        StateV::Strong { style } => painted(style, body),
        StateV::Emphasis { style } => painted(style, body),
        StateV::BlockQuote { style } => painted(style, body),
        StateV::Paragraph { style } => painted(style, body),
        StateV::List { .. } => Seq::<char>::empty(),
        StateV::ListItem { style } => painted(style, " * "@ + body + "\n"@),
        StateV::Link { style, url, .. } => painted(style, body + " ("@ + url + ")"@),
        StateV::Heading { .. } => Seq::<char>::empty(),
        StateV::Code { .. } => Seq::<char>::empty(),
    }
}

/// What rendering a text body in context `s` appends to the sink, and
/// whether it fails: code blocks delegate to the code block renderer, every
/// other context appends `rendered_plain` and cannot fail.
pub open spec fn text_step(s: StateV, body: Seq<char>) -> (Seq<char>, Option<ErrorV>) {
    match s {
        StateV::Code { lang, .. } => code_step(body, code_lang(lang)),
        _ => (rendered_plain(s, body), None),
    }
}

/// Joins a link's text and url as `"<text> (<url>)"`.
pub fn link(text: &str, url: &str) -> (r: String)
    ensures
        r@ == text@ + " ("@ + url@ + ")"@,
{
    let mut r = text.to_owned();
    r.append(" (");
    r.append(url);
    r.append(")");
    r
}

/// The stack of active style contexts of one rendering pass, owned by that
/// pass alone: created empty, pushed on `Start`, popped on `End`, peeked on
/// text.
pub struct StateStack {
    stack: Vec<State>,
}

impl View for StateStack {
    type V = Seq<StateV>;

    closed spec fn view(&self) -> Seq<StateV> {
        self.stack.deep_view()
    }
}

impl Default for StateStack {
    /// An empty stack, ready for a fresh render.
    fn default() -> (s: StateStack)
        ensures
            s@ == Seq::<StateV>::empty(),
    {
        StateStack { stack: Vec::new() }
    }
}

impl State {
    /// The style this context exposes to nested paragraphs, if any.
    pub fn style(&self) -> (r: Option<Style>)
        ensures
            r == style_of(self@),
    {
        match self {
            State::Emphasis { style } => Some(*style),
            State::Strong { style } => Some(*style),
            State::Paragraph { style } => Some(*style),
            State::Link { style, .. } => Some(*style),
            State::List { style, .. } => Some(*style),
            State::ListItem { style } => Some(*style),
            State::BlockQuote { style } => Some(*style),
            _ => None,
        }
    }
}

impl StateStack {
    /// Whether no context is open.
    pub fn is_empty(&self) -> (b: bool)
        ensures
            b == (self@.len() == 0),
    {
        self.stack.len() == 0
    }

    /// The style the nearest enclosing context exposes, scanning from the top
    /// of the stack; no styling when none does.
    fn inherited(&self) -> (st: Style)
        ensures
            st == inherited_style(self@),
    {
        let mut i: usize = self.stack.len();
        proof {
            assert(self@.take(i as int) =~= self@);
        }
        while i > 0
            invariant
                i <= self.stack.len(),
                self@.len() == self.stack@.len(),
                inherited_style(self@) == inherited_style(self@.take(i as int)),
            decreases i,
        {
            i = i - 1;
            let found = self.stack[i].style();
            proof {
                assert(self@[i as int] == self.stack@[i as int]@);
                assert(self@.take(i as int + 1).last() == self@[i as int]);
                assert(self@.take(i as int + 1).drop_last() =~= self@.take(i as int));
            }
            match found {
                Some(st) => {
                    return st;
                },
                None => {},
            }
        }
        proof {
            assert(self@.take(0) =~= Seq::<StateV>::empty());
        }
        Style::new()
    }

    /// Pushes the context for opening tag `tag`, deriving its style from the
    /// fixed rules, or, for a paragraph, from the nearest enclosing context.
    /// A tag kind this renderer does not interpret is ignored.
    pub fn push_tag(&mut self, tag: MdTag)
        ensures
            final(self)@ == match state_for(old(self)@, tag@) {
                Some(s) => old(self)@.push(s),
                None => old(self)@,
            },
    {
        match tag {
            MdTag::CodeBlock(lang) => {
                let ghost lv = lang.deep_view();
                let indented = lang.is_none();
                self.stack.push(State::Code { lang: lang, indented: indented });
                proof {
                    assert(self@ =~= old(self)@.push(StateV::Code { lang: lv, indented: lv is None }));
                }
            },
            MdTag::Link(url, title) => {
                let ghost uv = url@;
                let ghost tv = title@;
                let title_opt: Option<String> = if title.as_str().is_empty() {
                    None
                } else {
                    Some(title)
                };
                let style = Style { fg: Some(Color::Green), bold: false, italic: false, underline: false };
                self.stack.push(State::Link { style: style, url: url, title: title_opt });
                proof {
                    assert(self@ =~= old(self)@.push(
                        StateV::Link {
                            style: green_style(),
                            url: uv,
                            title: if tv.len() == 0 {
                                None
                            } else {
                                Some(tv)
                            },
                        },
                    ));
                }
            },
            MdTag::Strong => {
                let style = Style { fg: None, bold: true, italic: false, underline: false };
                self.stack.push(State::Strong { style: style });
                proof {
                    assert(self@ =~= old(self)@.push(StateV::Strong { style: bold_style() }));
                }
            },
            MdTag::Emphasis => {
                let style = Style { fg: None, bold: false, italic: true, underline: false };
                self.stack.push(State::Emphasis { style: style });
                proof {
                    assert(self@ =~= old(self)@.push(StateV::Emphasis { style: italic_style() }));
                }
            },
            MdTag::Paragraph => {
                let style = self.inherited();
                self.stack.push(State::Paragraph { style: style });
                proof {
                    assert(self@ =~= old(self)@.push(
                        StateV::Paragraph { style: inherited_style(old(self)@) },
                    ));
                }
            },
            MdTag::List(first) => {
                let style = Style { fg: None, bold: false, italic: false, underline: false };
                self.stack.push(State::List { style: style, first: first });
                proof {
                    assert(self@ =~= old(self)@.push(StateV::List { style: plain(), first: first }));
                }
            },
            MdTag::Item => {
                let style = Style { fg: None, bold: false, italic: false, underline: false };
                self.stack.push(State::ListItem { style: style });
                proof {
                    assert(self@ =~= old(self)@.push(StateV::ListItem { style: plain() }));
                }
            },
            MdTag::Heading(level) => {
                let style = Style { fg: None, bold: true, italic: false, underline: false };
                self.stack.push(State::Heading { style: style, level: level });
                proof {
                    assert(self@ =~= old(self)@.push(
                        StateV::Heading { style: bold_style(), level: level },
                    ));
                }
            },
            MdTag::BlockQuote => {
                let style = Style { fg: Some(Color::Green), bold: false, italic: false, underline: false };
                self.stack.push(State::BlockQuote { style: style });
                proof {
                    assert(self@ =~= old(self)@.push(StateV::BlockQuote { style: green_style() }));
                }
            },
            MdTag::Other => {},
        }
    }

    /// Pops the top context and verifies that its kind matches the closing
    /// tag exactly. On a mismatch, or on an empty stack, the render's one
    /// structural error is returned; the top context is popped either way.
    pub fn pop_tag(&mut self, tag: MdTag) -> (res: Result<(), Error>)
        ensures
            final(self)@ == if old(self)@.len() > 0 {
                old(self)@.drop_last()
            } else {
                old(self)@
            },
            match res {
                Ok(()) => old(self)@.len() > 0 && kind_matches(tag@, old(self)@.last()),
                Err(e) => (old(self)@.len() == 0 || !kind_matches(tag@, old(self)@.last())) && e@
                    == ErrorV::Unmatched("Unmatched pair found on stack"@),
            },
    {
        let popped = self.stack.pop();
        proof {
            if old(self)@.len() > 0 {
                assert(self@ =~= old(self)@.drop_last());
                assert(old(self)@.last() == old(self).stack@.last()@);
            } else {
                assert(self@ =~= old(self)@);
            }
        }
        match (tag, popped) {
            (MdTag::Paragraph, Some(State::Paragraph { .. })) => Ok(()),
            (MdTag::Emphasis, Some(State::Emphasis { .. })) => Ok(()),
            (MdTag::Strong, Some(State::Strong { .. })) => Ok(()),
            (MdTag::Link(_, _), Some(State::Link { .. })) => Ok(()),
            (MdTag::List(_), Some(State::List { .. })) => Ok(()),
            (MdTag::Item, Some(State::ListItem { .. })) => Ok(()),
            (MdTag::Heading(_), Some(State::Heading { .. })) => Ok(()),
            (MdTag::BlockQuote, Some(State::BlockQuote { .. })) => Ok(()),
            (MdTag::CodeBlock(_), Some(State::Code { .. })) => Ok(()),
            _ => Err(Error::Unmatched("Unmatched pair found on stack".to_owned())),
        }
    }

    /// Renders `body` using the top-of-stack context. Calling this on an
    /// empty stack is a contract violation — a text event can only come from
    /// inside an open tag — so a non-empty stack is required.
    pub fn write_text(&mut self, eng: &Engine, body: &str, out: &mut String) -> (res: Result<
        (),
        Error,
    >)
        requires
            old(self)@.len() > 0,
        ensures
            final(self)@ == old(self)@,
            ({
                let so = text_step(old(self)@.last(), body@);
                final(out)@ == old(out)@ + so.0 && match res {
                    Ok(()) => so.1 is None,
                    Err(e) => so.1 == Some(e@),
                }
            }),
    {
        let i = self.stack.len() - 1;
        let state = &self.stack[i];
        proof {
            assert(self@[i as int] == self.stack@[i as int]@);
        }
        write_terminal(eng, out, body, state)
    }
}

/// Renders one text body using context `state`, appending the styled bytes
/// to `out`: plain contexts paint the body (with the list-item bullet and the
/// link's `(<url>)` decoration), code blocks run the code block renderer, and
/// lists and headings append nothing.
pub fn write_terminal(eng: &Engine, out: &mut String, body: &str, state: &State) -> (res: Result<
    (),
    Error,
>)
    ensures
        ({
            let so = text_step(state@, body@);
            final(out)@ == old(out)@ + so.0 && match res {
                Ok(()) => so.1 is None,
                Err(e) => so.1 == Some(e@),
            }
        }),
{
    match state {
        State::Strong { style } => {
            write_styled(out, style, body);
            Ok(())
        },
        State::Emphasis { style } => {
            write_styled(out, style, body);
            Ok(())
        },
        State::BlockQuote { style } => {
            write_styled(out, style, body);
            Ok(())
        },
        State::Paragraph { style } => {
            write_styled(out, style, body);
            Ok(())
        },
        State::List { .. } => {
            proof {
                assert(out@ =~= old(out)@ + Seq::<char>::empty());
            }
            Ok(())
        },
        State::ListItem { style } => {
            let mut t = " * ".to_owned();
            t.append(body);
            t.append("\n");
            write_styled(out, style, t.as_str());
            Ok(())
        },
        State::Link { style, url, .. } => {
            let t = link(body, url.as_str());
            write_styled(out, style, t.as_str());
            Ok(())
        },
        State::Heading { .. } => {
            proof {
                assert(out@ =~= old(out)@ + Seq::<char>::empty());
            }
            Ok(())
        },
        State::Code { lang, .. } => {
            match lang {
                Some(l) => codeblock_ansi(eng, body, l.as_str(), out),
                None => codeblock_ansi(eng, body, "js", out),
            }
        },
    }
}

/// The structural error: an `End` event did not match the context on top of
/// the stack.
pub open spec fn unmatched_err() -> ErrorV {
    ErrorV::Unmatched("Unmatched pair found on stack"@)
}

/// The error reported for a text event that arrives with no open context.
pub open spec fn stray_text_err() -> ErrorV {
    ErrorV::Custom("Text event before Start event"@)
}

/// One step of the dispatcher: the stack after the event, what the event
/// appends to the sink, and whether it fails. A list is set off by two line
/// breaks before it opens and one after it closes; inline code is painted
/// yellow with no stack interaction; event kinds this renderer does not
/// interpret change nothing.
pub open spec fn event_step(stack: Seq<StateV>, ev: EventV) -> (Seq<StateV>, Seq<char>, Option<
    ErrorV,
>) {
    match ev {
        EventV::Start(t) => {
            let o = if t is List {
                "\n"@ + "\n"@
            } else {
                Seq::<char>::empty()
            };
            match state_for(stack, t) {
                Some(s) => (stack.push(s), o, None),
                None => (stack, o, None),
            }
        },
        EventV::End(t) => {
            let o = if t is List {
                "\n"@
            } else {
                Seq::<char>::empty()
            };
            let stack2 = if stack.len() > 0 {
                stack.drop_last()
            } else {
                stack
            };
            if stack.len() > 0 && kind_matches(t, stack.last()) {
                (stack2, o, None)
            } else {
                (stack2, o, Some(unmatched_err()))
            }
        },
        EventV::Text(body) => {
            if stack.len() == 0 {
                (stack, Seq::<char>::empty(), Some(stray_text_err()))
            } else {
                let so = text_step(stack.last(), body);
                (stack, so.0, so.1)
            }
        },
        EventV::Code(body) => (stack, painted(yellow_style(), body), None),
        EventV::Other => (stack, Seq::<char>::empty(), None),
    }
}

/// Applies one event to the sink and the stack: `Start` pushes (after the
/// list spacing), `End` pops and verifies the match, text renders through the
/// top context, and an inline code span is painted yellow immediately. A text
/// event with no open context is fatal and reported as an error.
pub fn process_event(eng: &Engine, out: &mut String, event: MdEvent, state: StateStack) -> (res:
    Result<StateStack, Error>)
    ensures
        ({
            let so = event_step(state@, event@);
            final(out)@ == old(out)@ + so.1 && match res {
                Ok(s2) => so.2 is None && s2@ == so.0,
                Err(e) => so.2 == Some(e@),
            }
        }),
{
    let mut state = state;
    match event {
        MdEvent::Start(tag) => {
            if matches!(tag, MdTag::List(_)) {
                out.append("\n");
                out.append("\n");
                proof {
                    assert(out@ =~= old(out)@ + ("\n"@ + "\n"@));
                }
            } else {
                proof {
                    assert(out@ =~= old(out)@ + Seq::<char>::empty());
                }
            }
            state.push_tag(tag);
            Ok(state)
        },
        MdEvent::End(tag) => {
            if matches!(tag, MdTag::List(_)) {
                out.append("\n");
            } else {
                proof {
                    assert(out@ =~= old(out)@ + Seq::<char>::empty());
                }
            }
            match state.pop_tag(tag) {
                Ok(()) => Ok(state),
                Err(e) => Err(e),
            }
        },
        MdEvent::Text(body) => {
            if state.is_empty() {
                Err(Error::custom("Text event before Start event".to_owned()))
            } else {
                match state.write_text(eng, body.as_str(), out) {
                    Ok(()) => Ok(state),
                    Err(e) => Err(e),
                }
            }
        },
        MdEvent::Code(body) => {
            let style = Style { fg: Some(Color::Yellow), bold: false, italic: false, underline: false };
            write_styled(out, &style, body.as_str());
            Ok(state)
        },
        MdEvent::Other => {
            proof {
                assert(out@ =~= old(out)@ + Seq::<char>::empty());
            }
            Ok(state)
        },
    }
}

/// The outcome of running a sequence of events: the remaining stack, the
/// accumulated output, and the first error, if one stopped the run.
pub struct RunV {
    pub stack: Seq<StateV>,
    pub out: Seq<char>,
    pub err: Option<ErrorV>,
}

/// Folds the events over the dispatcher, starting from `stack` with `out`
/// already written, stopping at the first failing event.
pub open spec fn run_from(stack: Seq<StateV>, out: Seq<char>, events: Seq<EventV>) -> RunV
    decreases events.len(),
{
    if events.len() == 0 {
        RunV { stack: stack, out: out, err: None }
    } else {
        let so = event_step(stack, events[0]);
        if so.2 is Some {
            RunV { stack: so.0, out: out + so.1, err: so.2 }
        } else {
            run_from(so.0, out + so.1, events.drop_first())
        }
    }
}

/// Runs a whole event sequence from an empty stack and an empty sink.
pub open spec fn run_events(events: Seq<EventV>) -> RunV {
    run_from(Seq::<StateV>::empty(), Seq::<char>::empty(), events)
}

/// Drives every event through the dispatcher in order, then appends the
/// final "reset all styling" escape sequence, so a successful render's output
/// always ends with it; the first failing event aborts the render with its
/// error.
#[verifier::loop_isolation(false)]
pub fn render_events(eng: &Engine, events: Vec<MdEvent>) -> (res: Result<String, Error>)
    ensures
        ({
            let r = run_events(events.deep_view());
            match res {
                Ok(s) => r.err is None && s@ == r.out + reset_seq(),
                Err(e) => r.err == Some(e@),
            }
        }),
{
    let ghost evs = events.deep_view();
    let mut queue = events;
    let mut out = String::new();
    let mut state = StateStack::default();
    proof {
        assert(out@ =~= Seq::<char>::empty());
        assert(state@ =~= Seq::<StateV>::empty());
    }
    while queue.len() > 0
        invariant
            run_events(evs) == run_from(state@, out@, queue.deep_view()),
        decreases queue@.len(),
    {
        let ghost pre_events = queue.deep_view();
        let ghost pre_stack = state@;
        let ghost pre_out = out@;
        let ev = queue.remove(0);
        proof {
            assert(ev@ == pre_events[0]);
            assert(queue.deep_view() =~= pre_events.drop_first());
        }
        match process_event(eng, &mut out, ev, state) {
            Ok(s2) => {
                state = s2;
                proof {
                    let so = event_step(pre_stack, pre_events[0]);
                    assert(out@ =~= pre_out + so.1);
                }
            },
            Err(e) => {
                proof {
                    let so = event_step(pre_stack, pre_events[0]);
                    assert(run_from(pre_stack, pre_out, pre_events) == (RunV {
                        stack: so.0,
                        out: pre_out + so.1,
                        err: so.2,
                    }));
                }
                return Err(e);
            },
        }
    }
    proof {
        assert(queue.deep_view() =~= Seq::<EventV>::empty());
    }
    out.append("\x1b[0m");
    proof {
        assert(out@ =~= run_events(evs).out + reset_seq());
    }
    Ok(out)
}

/// Whether two tags are of the same kind, payloads aside.
pub open spec fn same_kind(a: TagV, b: TagV) -> bool {
    match (a, b) {
        (TagV::CodeBlock(_), TagV::CodeBlock(_)) => true,
        (TagV::Link(_, _), TagV::Link(_, _)) => true,
        (TagV::Strong, TagV::Strong) => true,
        (TagV::Emphasis, TagV::Emphasis) => true,
        (TagV::Paragraph, TagV::Paragraph) => true,
        (TagV::List(_), TagV::List(_)) => true,
        (TagV::Item, TagV::Item) => true,
        (TagV::Heading(_), TagV::Heading(_)) => true,
        (TagV::BlockQuote, TagV::BlockQuote) => true,
        _ => false,
    }
}

/// Whether the events are well formed given the already open tags
/// (innermost last): every `End` carries a recognized kind and closes the
/// innermost open tag of that same kind, and text only appears inside an
/// open tag.
pub open spec fn events_ok_from(events: Seq<EventV>, open_tags: Seq<TagV>) -> bool
    decreases events.len(),
{
    if events.len() == 0 {
        true
    } else {
        match events[0] {
            EventV::Start(t) => if t is Other {
                events_ok_from(events.drop_first(), open_tags)
            } else {
                events_ok_from(events.drop_first(), open_tags.push(t))
            },
            EventV::End(t) => !(t is Other) && open_tags.len() > 0 && same_kind(
                t,
                open_tags.last(),
            ) && events_ok_from(events.drop_first(), open_tags.drop_last()),
            EventV::Text(_) => open_tags.len() > 0 && events_ok_from(
                events.drop_first(),
                open_tags,
            ),
            EventV::Code(_) => events_ok_from(events.drop_first(), open_tags),
            EventV::Other => events_ok_from(events.drop_first(), open_tags),
        }
    }
}

/// Whether a whole event sequence is well formed and matched, from an empty
/// document start.
pub open spec fn events_ok(events: Seq<EventV>) -> bool {
    events_ok_from(events, Seq::<TagV>::empty())
}

/// The stack of contexts corresponds to the open tags, kind for kind.
pub open spec fn stack_matches_tags(open_tags: Seq<TagV>, stack: Seq<StateV>) -> bool {
    open_tags.len() == stack.len() && forall|i: int|
        0 <= i < open_tags.len() ==> #[trigger] kind_matches(open_tags[i], stack[i])
}

/// The tags still open after the events, given the tags open before them.
pub open spec fn open_tags_after(events: Seq<EventV>, open_tags: Seq<TagV>) -> Seq<TagV>
    decreases events.len(),
{
    if events.len() == 0 {
        open_tags
    } else {
        match events[0] {
            EventV::Start(t) => if t is Other {
                open_tags_after(events.drop_first(), open_tags)
            } else {
                open_tags_after(events.drop_first(), open_tags.push(t))
            },
            EventV::End(_) => open_tags_after(
                events.drop_first(),
                if open_tags.len() > 0 {
                    open_tags.drop_last()
                } else {
                    open_tags
                },
            ),
            EventV::Text(_) => open_tags_after(events.drop_first(), open_tags),
            EventV::Code(_) => open_tags_after(events.drop_first(), open_tags),
            EventV::Other => open_tags_after(events.drop_first(), open_tags),
        }
    }
}

/// Law (stack balance, general step): running well-formed events from a
/// stack that corresponds to the open tags never raises the structural
/// error; the only error such a run can surface is a palette error from
/// inside a code block.
pub proof fn lemma_balanced_run_from(
    events: Seq<EventV>,
    open_tags: Seq<TagV>,
    stack: Seq<StateV>,
    out: Seq<char>,
)
    requires
        events_ok_from(events, open_tags),
        stack_matches_tags(open_tags, stack),
    ensures
        match run_from(stack, out, events).err {
            None => stack_matches_tags(
                open_tags_after(events, open_tags),
                run_from(stack, out, events).stack,
            ),
            Some(e) => e is Palette,
        },
    decreases events.len(),
{
    if events.len() > 0 {
        let ev = events[0];
        let so = event_step(stack, ev);
        let rest = events.drop_first();
        match ev {
            EventV::Start(t) => {
                if t is Other {
                    lemma_balanced_run_from(rest, open_tags, stack, out + so.1);
                } else {
                    let s = state_for(stack, t)->Some_0;
                    assert(kind_matches(t, s));
                    assert(stack_matches_tags(open_tags.push(t), stack.push(s))) by {
                        assert(forall|i: int|
                            0 <= i < open_tags.len() ==> open_tags.push(t)[i] == open_tags[i]
                                && stack.push(s)[i] == stack[i]);
                        assert(open_tags.push(t)[open_tags.len() as int] == t);
                        assert(stack.push(s)[stack.len() as int] == s);
                    }
                    lemma_balanced_run_from(rest, open_tags.push(t), stack.push(s), out + so.1);
                }
            },
            EventV::End(t) => {
                assert(kind_matches(open_tags.last(), stack.last()));
                assert(kind_matches(t, stack.last()));
                assert(stack_matches_tags(open_tags.drop_last(), stack.drop_last())) by {
                    assert(forall|i: int|
                        0 <= i < open_tags.len() - 1 ==> open_tags.drop_last()[i] == open_tags[i]
                            && stack.drop_last()[i] == stack[i]);
                }
                lemma_balanced_run_from(rest, open_tags.drop_last(), stack.drop_last(), out + so.1);
            },
            EventV::Text(_) => {
                if so.2 is None {
                    lemma_balanced_run_from(rest, open_tags, stack, out + so.1);
                }
            },
            EventV::Code(_) => {
                lemma_balanced_run_from(rest, open_tags, stack, out + so.1);
            },
            EventV::Other => {
                lemma_balanced_run_from(rest, open_tags, stack, out + so.1);
            },
        }
    }
}

/// Law (stack balance, positive half): a run over events whose tags are well
/// formed and matched never fails with the structural error; at most a
/// palette error from inside a code block can stop it.
pub proof fn lemma_balanced_no_structural_error(events: Seq<EventV>)
    requires
        events_ok(events),
    ensures
        match run_events(events).err {
            None => true,
            Some(e) => e is Palette,
        },
{
    lemma_balanced_run_from(
        events,
        Seq::<TagV>::empty(),
        Seq::<StateV>::empty(),
        Seq::<char>::empty(),
    );
}

/// Law (stack balance, lifecycle): over a well-formed event sequence that
/// closes every tag it opens, a run that was not stopped by a palette error
/// ends with an empty stack — every context pushed for a start was popped by
/// exactly one matching end.
pub proof fn lemma_fully_matched_empties_stack(events: Seq<EventV>)
    requires
        events_ok(events),
        open_tags_after(events, Seq::<TagV>::empty()).len() == 0,
    ensures
        run_events(events).err is None ==> run_events(events).stack.len() == 0,
{
    lemma_balanced_run_from(
        events,
        Seq::<TagV>::empty(),
        Seq::<StateV>::empty(),
        Seq::<char>::empty(),
    );
}

/// Law (stack balance, negative half): closing a freshly opened recognized
/// tag with a recognized tag of another kind stops the run with the
/// structural error.
pub proof fn lemma_mismatched_pair(t1: TagV, t2: TagV)
    requires
        !(t1 is Other),
        !(t2 is Other),
        !same_kind(t2, t1),
    ensures
        run_events(seq![EventV::Start(t1), EventV::End(t2)]).err == Some(unmatched_err()),
{
    let events = seq![EventV::Start(t1), EventV::End(t2)];
    let empty_stack = Seq::<StateV>::empty();
    let none_written = Seq::<char>::empty();
    let s = state_for(empty_stack, t1)->Some_0;
    assert(!kind_matches(t2, s));
    assert(events[0] == EventV::Start(t1));
    let so = event_step(empty_stack, EventV::Start(t1));
    assert(so.2 is None);
    assert(run_from(empty_stack, none_written, events) == run_from(
        so.0,
        none_written + so.1,
        events.drop_first(),
    ));
    assert(events.drop_first() =~= seq![EventV::End(t2)]);
    assert(so.0.len() == 1 && so.0.last() == s);
    let so2 = event_step(so.0, EventV::End(t2));
    assert(so2.2 == Some(unmatched_err()));
    assert(run_from(so.0, none_written + so.1, events.drop_first()).err == Some(unmatched_err()));
}

/// Law (style inheritance, direct parent): a paragraph pushed directly
/// inside a context that exposes a style inherits exactly that style.
pub proof fn lemma_paragraph_inherits_parent(stack: Seq<StateV>, parent: StateV)
    requires
        style_of(parent) is Some,
    ensures
        state_for(stack.push(parent), TagV::Paragraph) == Some(
            StateV::Paragraph { style: style_of(parent)->Some_0 },
        ),
{
    assert(stack.push(parent).last() == parent);
}

/// Law (style inheritance, no styled ancestor): with no ancestor exposing a
/// style, a paragraph gets the plain style, and its text then renders with
/// no escape codes at all.
pub proof fn lemma_paragraph_no_styled_ancestor(stack: Seq<StateV>, body: Seq<char>)
    requires
        forall|i: int| 0 <= i < stack.len() ==> style_of(#[trigger] stack[i]) is None,
    ensures
        state_for(stack, TagV::Paragraph) == Some(StateV::Paragraph { style: plain() }),
        rendered_plain(StateV::Paragraph { style: plain() }, body) == body,
    decreases stack.len(),
{
    if stack.len() > 0 {
        assert(style_of(stack.last()) is None);
        assert(forall|i: int|
            0 <= i < stack.len() - 1 ==> stack.drop_last()[i] == stack[i]);
        lemma_paragraph_no_styled_ancestor(stack.drop_last(), body);
    }
    crate::style::lemma_plain_paint_identity(body);
}

/// Law (link rendering): text inside the context pushed for a link tag
/// renders as `"<text> (<url>)"` painted green, and cannot fail.
pub proof fn lemma_link_rendering(
    stack: Seq<StateV>,
    url: Seq<char>,
    title: Seq<char>,
    text: Seq<char>,
)
    ensures
        ({
            let s = state_for(stack, TagV::Link(url, title))->Some_0;
            text_step(s, text) == (
                painted(green_style(), text + " ("@ + url + ")"@),
                None::<ErrorV>,
            )
        }),
{
}

/// Law (code block default language): an indented code block with no
/// language renders exactly as a fenced block tagged with the fixed fallback
/// language `"js"` and the same source text.
pub proof fn lemma_indented_code_default(body: Seq<char>, indented: bool)
    ensures
        text_step(StateV::Code { lang: None, indented: indented }, body) == text_step(
            StateV::Code { lang: Some("js"@), indented: false },
            body,
        ),
{
}

/// Law (inline code): an inline code event paints its body yellow with no
/// other attribute, leaves the stack alone, and cannot fail, whatever the
/// current stack top is.
pub proof fn lemma_inline_code(stack: Seq<StateV>, body: Seq<char>)
    ensures
        event_step(stack, EventV::Code(body)) == (
            stack,
            painted(yellow_style(), body),
            None::<ErrorV>,
        ),
{
}

/// Law (list spacing): a list of two items renders as exactly two leading
/// line breaks, the two item lines each prefixed by `" * "` and ended by a
/// line break, and one trailing line break after the list closes.
pub proof fn lemma_list_spacing(a: Seq<char>, b: Seq<char>)
    ensures
        ({
            let events = seq![
                EventV::Start(TagV::List(None)),
                EventV::Start(TagV::Item),
                EventV::Text(a),
                EventV::End(TagV::Item),
                EventV::Start(TagV::Item),
                EventV::Text(b),
                EventV::End(TagV::Item),
                EventV::End(TagV::List(None)),
            ];
            let r = run_events(events);
            r.err is None && r.out == "\n"@ + "\n"@ + (" * "@ + a + "\n"@) + (" * "@ + b
                + "\n"@) + "\n"@
        }),
{
    let lst = StateV::List { style: plain(), first: None };
    let itm = StateV::ListItem { style: plain() };
    let e0 = seq![
        EventV::Start(TagV::List(None)),
        EventV::Start(TagV::Item),
        EventV::Text(a),
        EventV::End(TagV::Item),
        EventV::Start(TagV::Item),
        EventV::Text(b),
        EventV::End(TagV::Item),
        EventV::End(TagV::List(None)),
    ];
    let e1 = seq![
        EventV::Start(TagV::Item),
        EventV::Text(a),
        EventV::End(TagV::Item),
        EventV::Start(TagV::Item),
        EventV::Text(b),
        EventV::End(TagV::Item),
        EventV::End(TagV::List(None)),
    ];
    let e2 = seq![
        EventV::Text(a),
        EventV::End(TagV::Item),
        EventV::Start(TagV::Item),
        EventV::Text(b),
        EventV::End(TagV::Item),
        EventV::End(TagV::List(None)),
    ];
    let e3 = seq![
        EventV::End(TagV::Item),
        EventV::Start(TagV::Item),
        EventV::Text(b),
        EventV::End(TagV::Item),
        EventV::End(TagV::List(None)),
    ];
    let e4 = seq![
        EventV::Start(TagV::Item),
        EventV::Text(b),
        EventV::End(TagV::Item),
        EventV::End(TagV::List(None)),
    ];
    let e5 = seq![EventV::Text(b), EventV::End(TagV::Item), EventV::End(TagV::List(None))];
    let e6 = seq![EventV::End(TagV::Item), EventV::End(TagV::List(None))];
    let e7 = seq![EventV::End(TagV::List(None))];
    let s0 = Seq::<StateV>::empty();
    let o0 = Seq::<char>::empty();
    crate::style::lemma_plain_paint_identity(" * "@ + a + "\n"@);
    crate::style::lemma_plain_paint_identity(" * "@ + b + "\n"@);

    let so1 = event_step(s0, e0[0]);
    assert(so1.2 is None);
    assert(run_from(s0, o0, e0) == run_from(so1.0, o0 + so1.1, e0.drop_first()));
    assert(e0.drop_first() =~= e1);
    let s1 = so1.0;
    let o1 = o0 + so1.1;
    assert(s1 =~= seq![lst]);

    let so2 = event_step(s1, e1[0]);
    assert(so2.2 is None);
    assert(run_from(s1, o1, e1) == run_from(so2.0, o1 + so2.1, e1.drop_first()));
    assert(e1.drop_first() =~= e2);
    let s2 = so2.0;
    let o2 = o1 + so2.1;
    assert(s2 =~= seq![lst, itm]);
    assert(s2.last() == itm);

    let so3 = event_step(s2, e2[0]);
    assert(so3.1 == " * "@ + a + "\n"@);
    assert(so3.2 is None);
    assert(so3.0 == s2);
    assert(run_from(s2, o2, e2) == run_from(s2, o2 + so3.1, e2.drop_first()));
    assert(e2.drop_first() =~= e3);
    let o3 = o2 + so3.1;

    let so4 = event_step(s2, e3[0]);
    assert(kind_matches(TagV::Item, s2.last()));
    assert(so4.2 is None);
    assert(so4.0 == s2.drop_last());
    assert(s2.drop_last() =~= s1);
    assert(run_from(s2, o3, e3) == run_from(s1, o3 + so4.1, e3.drop_first()));
    assert(e3.drop_first() =~= e4);
    let o4 = o3 + so4.1;

    let so5 = event_step(s1, e4[0]);
    assert(so5.2 is None);
    assert(run_from(s1, o4, e4) == run_from(so5.0, o4 + so5.1, e4.drop_first()));
    assert(e4.drop_first() =~= e5);
    assert(so5.0 =~= s2);
    let o5 = o4 + so5.1;

    let so6 = event_step(s2, e5[0]);
    assert(so6.1 == " * "@ + b + "\n"@);
    assert(so6.2 is None);
    assert(so6.0 == s2);
    assert(run_from(s2, o5, e5) == run_from(s2, o5 + so6.1, e5.drop_first()));
    assert(e5.drop_first() =~= e6);
    let o6 = o5 + so6.1;

    let so7 = event_step(s2, e6[0]);
    assert(so7.2 is None);
    assert(so7.0 == s2.drop_last());
    assert(run_from(s2, o6, e6) == run_from(s1, o6 + so7.1, e6.drop_first()));
    assert(e6.drop_first() =~= e7);
    let o7 = o6 + so7.1;

    let so8 = event_step(s1, e7[0]);
    assert(s1.last() == lst);
    assert(kind_matches(TagV::List(None), s1.last()));
    assert(so8.2 is None);
    assert(run_from(s1, o7, e7) == run_from(s1.drop_last(), o7 + so8.1, e7.drop_first()));
    assert(e7.drop_first() =~= Seq::<EventV>::empty());
    let o8 = o7 + so8.1;
    assert(run_from(s1.drop_last(), o8, Seq::<EventV>::empty()).err is None);
    assert(run_from(s1.drop_last(), o8, Seq::<EventV>::empty()).out == o8);
    assert(o8 =~= "\n"@ + "\n"@ + (" * "@ + a + "\n"@) + (" * "@ + b + "\n"@) + "\n"@);
}

/// Law (round-trip style reset): whatever the events were, a successful
/// render's output ends with exactly the "reset all styling" escape
/// sequence.
pub proof fn lemma_reset_suffix(events: Seq<EventV>)
    ensures
        ({
            let o = run_events(events).out + reset_seq();
            o.len() >= reset_seq().len() && o.subrange(
                o.len() - reset_seq().len(),
                o.len() as int,
            ) == reset_seq()
        }),
{
    let o = run_events(events).out + reset_seq();
    assert(o.subrange(o.len() - reset_seq().len(), o.len() as int) =~= reset_seq());
}

} // verus!
