//! The document compiler: folds the tokenizer's event stream into a
//! `Document`, handling headers, code fences, lists, emphasis and malformed
//! or unterminated constructs without ever failing.

use vstd::prelude::*;

use pulldown_cmark::{CodeBlockKind, Event, Tag, TagEnd};

use crate::block::{Block, BlockModel, CodeBlock, CodeBlockModel};
use crate::document::{Document, Section, SectionModel};
use crate::events::MdEvent;
use crate::text::{
    buf_is_blank, chars_of, extend_chars, extend_vec, is_blank, string_from_chars, trim_chars,
    trim_end_chars, trim_end_spec, trim_spec,
};

verus! {

/// The fence marker a tagless code block is re-wrapped in when it is folded
/// back into the surrounding text.
pub open spec fn fence_seq() -> Seq<char> {
    seq!['`', '`', '`', '\n']
}

/// The bullet glyph a list item is rendered with.
pub open spec fn bullet_seq() -> Seq<char> {
    seq!['\u{2022}', ' ']
}

/// The full state of the compiler between two events: the sections already
/// emitted, the section being built, the two accumulation buffers, the mode
/// flags and the running source-line counter.
pub struct CompilerState {
    pub sections: Seq<SectionModel>,
    pub cur_header: Option<Seq<char>>,
    pub cur_level: Option<u32>,
    pub cur_blocks: Seq<BlockModel>,
    pub text_buf: Seq<char>,
    pub code_buf: Seq<char>,
    pub code_lang: Seq<char>,
    pub code_line: nat,
    pub line: nat,
    pub in_heading: bool,
    pub in_code: bool,
    pub heading_level: u32,
}

/// The state the compiler starts in: nothing emitted, everything empty,
/// the line counter at one.
pub open spec fn init_state() -> CompilerState {
    CompilerState {
        sections: Seq::empty(),
        cur_header: None,
        cur_level: None,
        cur_blocks: Seq::empty(),
        text_buf: Seq::empty(),
        code_buf: Seq::empty(),
        code_lang: Seq::empty(),
        code_line: 1,
        line: 1,
        in_heading: false,
        in_code: false,
        heading_level: 1,
    }
}

/// The line counter after one more source line; it sticks at the machine
/// limit rather than wrapping.
pub open spec fn bump_line(n: nat) -> nat {
    if n < usize::MAX as nat {
        n + 1
    } else {
        n
    }
}

/// Flush the text buffer into the section being built as a `Text` block,
/// if it holds anything beyond whitespace; a blank buffer is kept as is.
pub open spec fn flush_text(st: CompilerState) -> CompilerState {
    if !is_blank(st.text_buf) {
        CompilerState {
            cur_blocks: st.cur_blocks.push(BlockModel::Text(st.text_buf)),
            text_buf: Seq::empty(),
            ..st
        }
    } else {
        st
    }
}

/// The section currently being built, as it would be emitted.
pub open spec fn cur_section(st: CompilerState) -> SectionModel {
    SectionModel { header: st.cur_header, header_level: st.cur_level, blocks: st.cur_blocks }
}

/// Whether the section being built deserves to be emitted: it has a header
/// or at least one block.
pub open spec fn cur_has_content(st: CompilerState) -> bool {
    st.cur_blocks.len() > 0 || st.cur_header is Some
}

/// One step of the compiler: the state after consuming one event.
pub open spec fn step_event(st: CompilerState, ev: MdEvent) -> CompilerState {
    match ev {
        MdEvent::HeadingStart(level) => {
            let st1 = flush_text(st);
            CompilerState { in_heading: true, heading_level: level, ..st1 }
        },
        MdEvent::HeadingEnd => {
            let emitted = if cur_has_content(st) {
                st.sections.push(cur_section(st))
            } else {
                st.sections
            };
            CompilerState {
                sections: emitted,
                cur_header: Some(trim_spec(st.text_buf)),
                cur_level: Some(st.heading_level),
                cur_blocks: Seq::empty(),
                text_buf: Seq::empty(),
                in_heading: false,
                ..st
            }
        },
        MdEvent::CodeStart(lang) => {
            let st1 = flush_text(st);
            CompilerState { in_code: true, code_lang: lang@, code_line: st.line, ..st1 }
        },
        MdEvent::CodeEnd => {
            if st.code_lang.len() > 0 {
                CompilerState {
                    cur_blocks: st.cur_blocks.push(
                        BlockModel::Code(
                            CodeBlockModel {
                                language: st.code_lang,
                                content: trim_end_spec(st.code_buf),
                                line_number: st.code_line,
                            },
                        ),
                    ),
                    code_buf: Seq::empty(),
                    code_lang: Seq::empty(),
                    in_code: false,
                    ..st
                }
            } else if !is_blank(st.code_buf) {
                CompilerState {
                    text_buf: st.text_buf + fence_seq() + st.code_buf + fence_seq(),
                    code_buf: Seq::empty(),
                    code_lang: Seq::empty(),
                    in_code: false,
                    ..st
                }
            } else {
                CompilerState {
                    code_buf: Seq::empty(),
                    code_lang: Seq::empty(),
                    in_code: false,
                    ..st
                }
            }
        },
        MdEvent::Text(t) => {
            if st.in_code {
                CompilerState { code_buf: st.code_buf + t@, ..st }
            } else {
                CompilerState { text_buf: st.text_buf + t@, ..st }
            }
        },
        MdEvent::InlineCode(t) => {
            if st.in_code {
                st
            } else {
                CompilerState { text_buf: st.text_buf + seq!['`'] + t@ + seq!['`'], ..st }
            }
        },
        MdEvent::SoftBreak => {
            if st.in_code {
                CompilerState { code_buf: st.code_buf.push('\n'), line: bump_line(st.line), ..st }
            } else if !st.in_heading {
                CompilerState { text_buf: st.text_buf.push(' '), ..st }
            } else {
                st
            }
        },
        MdEvent::HardBreak => {
            if st.in_code {
                CompilerState { code_buf: st.code_buf.push('\n'), line: bump_line(st.line), ..st }
            } else {
                CompilerState { text_buf: st.text_buf.push('\n'), line: bump_line(st.line), ..st }
            }
        },
        MdEvent::ParagraphStart => {
            if st.text_buf.len() > 0 && st.text_buf.last() != '\n' {
                CompilerState { text_buf: st.text_buf.push('\n'), ..st }
            } else {
                st
            }
        },
        MdEvent::ParagraphEnd => CompilerState { text_buf: st.text_buf.push('\n'), ..st },
        MdEvent::ListStart => CompilerState { text_buf: st.text_buf.push('\n'), ..st },
        MdEvent::ListEnd => CompilerState { text_buf: st.text_buf.push('\n'), ..st },
        MdEvent::ItemStart => CompilerState { text_buf: st.text_buf + bullet_seq(), ..st },
        MdEvent::ItemEnd => CompilerState { text_buf: st.text_buf.push('\n'), ..st },
        MdEvent::EmphasisStart => CompilerState { text_buf: st.text_buf.push('*'), ..st },
        MdEvent::EmphasisEnd => CompilerState { text_buf: st.text_buf.push('*'), ..st },
        MdEvent::StrongStart => CompilerState { text_buf: st.text_buf + seq!['*', '*'], ..st },
        MdEvent::StrongEnd => CompilerState { text_buf: st.text_buf + seq!['*', '*'], ..st },
        MdEvent::Other => st,
    }
}

/// The compiler's state after the first `n` events.
pub open spec fn fold_events(events: Seq<MdEvent>, n: int) -> CompilerState
    decreases n,
{
    if n <= 0 {
        init_state()
    } else {
        step_event(fold_events(events, n - 1), events[n - 1])
    }
}

/// What remains after the stream ends: flush the text buffer, then emit the
/// section being built if it has a header or any block. A code buffer still
/// open at this point is dropped.
pub open spec fn finish_state(st: CompilerState) -> Seq<SectionModel> {
    let st1 = flush_text(st);
    if cur_has_content(st1) {
        st1.sections.push(cur_section(st1))
    } else {
        st1.sections
    }
}

/// The document the compiler produces from an event stream.
pub open spec fn compile_spec(events: Seq<MdEvent>) -> Seq<SectionModel> {
    finish_state(fold_events(events, events.len() as int))
}

/// Flush `buf` into `cur` as a `Text` block if it is not blank, clearing it;
/// a blank buffer leaves both untouched.
fn flush_text_into(cur: &mut Section, buf: &mut Vec<char>)
    ensures
        !is_blank(old(buf)@) ==> {
            &&& final(cur)@.blocks == old(cur)@.blocks.push(BlockModel::Text(old(buf)@))
            &&& final(buf)@ == Seq::<char>::empty()
        },
        is_blank(old(buf)@) ==> final(cur)@ == old(cur)@ && final(buf)@ == old(buf)@,
        final(cur)@.header == old(cur)@.header,
        final(cur)@.header_level == old(cur)@.header_level,
{
    if !buf_is_blank(buf) {
        let ghost preblocks = cur@.blocks;
        let s = string_from_chars(buf);
        cur.blocks.push(Block::Text(s));
        buf.clear();
        proof {
            assert(cur@.blocks =~= preblocks.push(BlockModel::Text(old(buf)@)));
        }
    }
}

/// Compile a tokenizer event stream into a document: fold the events
/// left-to-right, then flush what remains.
pub fn compile(events: &Vec<MdEvent>) -> (doc: Document)
    ensures
        doc@ == compile_spec(events@),
{
    let mut sections: Vec<Section> = Vec::new();
    let mut cur: Section = Section::new();
    let mut text_buf: Vec<char> = Vec::new();
    let mut code_buf: Vec<char> = Vec::new();
    let mut code_lang: String = String::new();
    let mut code_line: usize = 1;
    let mut line: usize = 1;
    let mut in_heading: bool = false;
    let mut in_code: bool = false;
    let mut heading_level: u32 = 1;

    let mut i: usize = 0;
    while i < events.len()
        invariant
            0 <= i <= events@.len(),
            ({
                let st = fold_events(events@, i as int);
                &&& st.sections == sections@.map_values(|s: Section| s@)
                &&& st.cur_header == cur@.header
                &&& st.cur_level == cur@.header_level
                &&& st.cur_blocks == cur@.blocks
                &&& st.text_buf == text_buf@
                &&& st.code_buf == code_buf@
                &&& st.code_lang == code_lang@
                &&& st.code_line == code_line as nat
                &&& st.line == line as nat
                &&& st.in_heading == in_heading
                &&& st.in_code == in_code
                &&& st.heading_level == heading_level
            }),
        decreases events@.len() - i,
    {
        let ghost pre = fold_events(events@, i as int);
        let ev = &events[i];
        proof {
            assert(fold_events(events@, i + 1 as int) == step_event(pre, events@[i as int]));
        }
        match ev {
            MdEvent::HeadingStart(level) => {
                flush_text_into(&mut cur, &mut text_buf);
                in_heading = true;
                heading_level = *level;
            },
            MdEvent::HeadingEnd => {
                in_heading = false;
                let ghost presecs = sections@.map_values(|s: Section| s@);
                let ghost curv = cur@;
                if cur.blocks.len() > 0 || cur.header.is_some() {
                    sections.push(cur);
                    proof {
                        assert(sections@.map_values(|s: Section| s@) =~= presecs.push(curv));
                        assert(curv == cur_section(pre));
                    }
                }
                let trimmed = trim_chars(&text_buf);
                let header = string_from_chars(&trimmed);
                cur = Section::with_header(header, heading_level);
                text_buf.clear();
            },
            MdEvent::CodeStart(lang) => {
                flush_text_into(&mut cur, &mut text_buf);
                in_code = true;
                code_lang = lang.clone();
                code_line = line;
            },
            MdEvent::CodeEnd => {
                in_code = false;
                if !code_lang.as_str().is_empty() {
                    let trimmed = trim_end_chars(&code_buf);
                    let content = string_from_chars(&trimmed);
                    let ghost preblocks = cur@.blocks;
                    let cb = CodeBlock { language: code_lang, content, line_number: code_line };
                    let ghost cbv = cb@;
                    cur.blocks.push(Block::Code(cb));
                    proof {
                        assert(cur@.blocks =~= preblocks.push(BlockModel::Code(cbv)));
                    }
                    code_buf.clear();
                    code_lang = String::new();
                } else {
                    if !buf_is_blank(&code_buf) {
                        push_fence(&mut text_buf);
                        extend_vec(&mut text_buf, &code_buf);
                        push_fence(&mut text_buf);
                    }
                    code_buf.clear();
                    code_lang = String::new();
                }
            },
            MdEvent::Text(t) => {
                if in_code {
                    extend_chars(&mut code_buf, t.as_str());
                } else {
                    extend_chars(&mut text_buf, t.as_str());
                }
            },
            MdEvent::InlineCode(t) => {
                if !in_code {
                    text_buf.push('`');
                    extend_chars(&mut text_buf, t.as_str());
                    text_buf.push('`');
                    proof {
                        assert(text_buf@ =~= pre.text_buf + seq!['`'] + t@ + seq!['`']);
                    }
                }
            },
            MdEvent::SoftBreak => {
                if in_code {
                    code_buf.push('\n');
                    if line < usize::MAX {
                        line = line + 1;
                    }
                } else if !in_heading {
                    text_buf.push(' ');
                }
            },
            MdEvent::HardBreak => {
                if in_code {
                    code_buf.push('\n');
                } else {
                    text_buf.push('\n');
                }
                if line < usize::MAX {
                    line = line + 1;
                }
            },
            MdEvent::ParagraphStart => {
                if text_buf.len() > 0 && text_buf[text_buf.len() - 1] != '\n' {
                    text_buf.push('\n');
                }
            },
            MdEvent::ParagraphEnd => {
                text_buf.push('\n');
            },
            MdEvent::ListStart => {
                text_buf.push('\n');
            },
            MdEvent::ListEnd => {
                text_buf.push('\n');
            },
            MdEvent::ItemStart => {
                text_buf.push('\u{2022}');
                text_buf.push(' ');
                proof {
                    assert(text_buf@ =~= pre.text_buf + bullet_seq());
                }
            },
            MdEvent::ItemEnd => {
                text_buf.push('\n');
            },
            MdEvent::EmphasisStart => {
                text_buf.push('*');
            },
            MdEvent::EmphasisEnd => {
                text_buf.push('*');
            },
            MdEvent::StrongStart => {
                text_buf.push('*');
                text_buf.push('*');
                proof {
                    assert(text_buf@ =~= pre.text_buf + seq!['*', '*']);
                }
            },
            MdEvent::StrongEnd => {
                text_buf.push('*');
                text_buf.push('*');
                proof {
                    assert(text_buf@ =~= pre.text_buf + seq!['*', '*']);
                }
            },
            MdEvent::Other => {},
        }
        i += 1;
    }

    flush_text_into(&mut cur, &mut text_buf);
    let ghost presecs = sections@.map_values(|s: Section| s@);
    let ghost curv = cur@;
    if cur.blocks.len() > 0 || cur.header.is_some() {
        sections.push(cur);
        proof {
            assert(sections@.map_values(|s: Section| s@) =~= presecs.push(curv));
        }
    }
    let doc = Document { sections };
    doc
}

/// The event stream the markdown tokenizer produces for a source text: a
/// function of the text alone.
pub uninterp spec fn events_of(s: Seq<char>) -> Seq<MdEvent>;

/// The tokenizer's event type, opaque to the library: values of it are
/// only carried into the translation below.
#[verifier::external_type_specification]
#[verifier::external_body]
pub struct ExEvent<'a>(Event<'a>);

/// The tokenizer's opening-tag type, opaque to the library.
#[verifier::external_type_specification]
#[verifier::external_body]
pub struct ExTag<'a>(Tag<'a>);

/// The tokenizer's closing-tag type, opaque to the library.
#[verifier::external_type_specification]
#[verifier::external_body]
pub struct ExTagEnd(TagEnd);

/// Translates one opening tag of `pulldown_cmark`, variant by variant;
/// kinds the compiler ignores map to `Other`.
#[verifier::external_body]
fn md_start(t: Tag) -> MdEvent {
    match t {
        Tag::Heading { level, .. } => MdEvent::HeadingStart(level as u32),
        Tag::CodeBlock(CodeBlockKind::Fenced(l)) => MdEvent::CodeStart(l.into_string()),
        Tag::CodeBlock(CodeBlockKind::Indented) => MdEvent::CodeStart(String::new()),
        Tag::Paragraph => MdEvent::ParagraphStart,
        Tag::List(_) => MdEvent::ListStart,
        Tag::Item => MdEvent::ItemStart,
        Tag::Emphasis => MdEvent::EmphasisStart,
        Tag::Strong => MdEvent::StrongStart,
        _ => MdEvent::Other,
    }
}

/// Translates one closing tag of `pulldown_cmark`, variant by variant;
/// kinds the compiler ignores map to `Other`.
#[verifier::external_body]
fn md_end(t: TagEnd) -> MdEvent {
    match t {
        TagEnd::Heading(_) => MdEvent::HeadingEnd,
        TagEnd::CodeBlock => MdEvent::CodeEnd,
        TagEnd::Paragraph => MdEvent::ParagraphEnd,
        TagEnd::List(_) => MdEvent::ListEnd,
        TagEnd::Item => MdEvent::ItemEnd,
        TagEnd::Emphasis => MdEvent::EmphasisEnd,
        TagEnd::Strong => MdEvent::StrongEnd,
        _ => MdEvent::Other,
    }
}

/// Translates one event of `pulldown_cmark`, variant by variant, moving
/// its text along; kinds the compiler ignores map to `Other`.
#[verifier::external_body]
fn md_event(e: Event) -> MdEvent {
    match e {
        Event::Start(t) => md_start(t),
        Event::End(t) => md_end(t),
        Event::Text(s) => MdEvent::Text(s.into_string()),
        Event::Code(s) => MdEvent::InlineCode(s.into_string()),
        Event::SoftBreak => MdEvent::SoftBreak,
        Event::HardBreak => MdEvent::HardBreak,
        _ => MdEvent::Other,
    }
}

/// Relies on `pulldown_cmark::Parser::new`: tokenizing a text yields a
/// deterministic sequence of structural events that depends on the text
/// alone, translated one-for-one by `md_event`.
#[verifier::external_body]
fn tokenize(content: &str) -> (r: Vec<MdEvent>)
    ensures
        r@ == events_of(content@),
{
    pulldown_cmark::Parser::new(content).map(md_event).collect()
}

/// The parser facade: tokenizes a source text and compiles the events.
pub struct SysadminParser;

/// A parse failure. The compiler is total, so `parse` never produces one;
/// the type only keeps the result shape callers expect.
#[derive(Debug, Clone, PartialEq)]
pub struct ParseError;

impl SysadminParser {
    /// Parse a runbook source text into a Document. Parsing is total: every
    /// input yields `Ok`, holding the compilation of the text's event stream.
    pub fn parse(content: &str) -> (r: Result<Document, ParseError>)
        ensures
            r is Ok,
            r->Ok_0@ == compile_spec(events_of(content@)),
    {
        let events = tokenize(content);
        Ok(compile(&events))
    }
}

/// Append the literal fence marker to `buf`.
fn push_fence(buf: &mut Vec<char>)
    ensures
        final(buf)@ == old(buf)@ + fence_seq(),
{
    buf.push('`');
    buf.push('`');
    buf.push('`');
    buf.push('\n');
    proof {
        assert(buf@ =~= old(buf)@ + fence_seq());
    }
}

}
