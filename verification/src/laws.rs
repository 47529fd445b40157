//! The properties the library stands behind, stated over the compiler's and
//! the navigation engine's models and proved once and for all.

use vstd::prelude::*;

use crate::block::BlockModel;
use crate::document::{section_code_blocks, steps_spec, SectionModel};
use crate::events::MdEvent;
use crate::parser::{
    bullet_seq, compile_spec, cur_has_content, cur_section, fence_seq, finish_state, flush_text,
    fold_events, init_state, step_event, CompilerState,
};
use crate::text::{is_blank, is_space_char};
use crate::tui::{advance_model, retreat_model, scroll_for_step, TuiAppModel};

verus! {

/// The compiler's state applied to a whole event suffix, front to back.
pub open spec fn apply_events(st: CompilerState, events: Seq<MdEvent>) -> CompilerState
    decreases events.len(),
{
    if events.len() == 0 {
        st
    } else {
        apply_events(step_event(st, events[0]), events.drop_first())
    }
}

/// How many code blocks an event stream closes while the language tag most
/// recently captured is non-empty — the fenced blocks that carry a tag —
/// starting from a given captured tag.
pub open spec fn tagged_count_from(events: Seq<MdEvent>, lang: Seq<char>) -> nat
    decreases events.len(),
{
    if events.len() == 0 {
        0
    } else {
        match events[0] {
            MdEvent::CodeStart(l) => tagged_count_from(events.drop_first(), l@),
            MdEvent::CodeEnd => (if lang.len() > 0 {
                1 as nat
            } else {
                0 as nat
            }) + tagged_count_from(events.drop_first(), Seq::empty()),
            _ => tagged_count_from(events.drop_first(), lang),
        }
    }
}

/// How many fenced code blocks with a non-empty language tag an event
/// stream holds.
pub open spec fn tagged_fence_count(events: Seq<MdEvent>) -> nat {
    tagged_count_from(events, Seq::empty())
}

/// The steps a compiler state already accounts for: those of the emitted
/// sections plus those of the section being built.
pub open spec fn steps_total(st: CompilerState) -> nat {
    steps_spec(st.sections).len() + section_code_blocks(st.cur_blocks).len()
}

/// Pushing a text block adds no step.
proof fn lemma_scb_push_text(blocks: Seq<BlockModel>, t: Seq<char>)
    ensures
        section_code_blocks(blocks.push(BlockModel::Text(t))) == section_code_blocks(blocks),
{
    assert(blocks.push(BlockModel::Text(t)).drop_last() =~= blocks);
}

/// Pushing a code block adds exactly that step.
proof fn lemma_scb_push_code(blocks: Seq<BlockModel>, c: crate::block::CodeBlockModel)
    ensures
        section_code_blocks(blocks.push(BlockModel::Code(c))) == section_code_blocks(blocks).push(
            c,
        ),
{
    assert(blocks.push(BlockModel::Code(c)).drop_last() =~= blocks);
}

/// Emitting a section moves its steps behind the step index unchanged.
proof fn lemma_steps_push(sections: Seq<SectionModel>, sec: SectionModel)
    ensures
        steps_spec(sections.push(sec)) == steps_spec(sections) + section_code_blocks(sec.blocks),
{
    assert(sections.push(sec).drop_last() =~= sections);
}

/// Flushing the text buffer changes no step and no captured language.
proof fn lemma_flush_total(st: CompilerState)
    ensures
        steps_total(flush_text(st)) == steps_total(st),
        flush_text(st).code_lang == st.code_lang,
        flush_text(st).sections == st.sections,
{
    if !is_blank(st.text_buf) {
        lemma_scb_push_text(st.cur_blocks, st.text_buf);
    }
}

/// Folding events onto a state accounts for exactly the tagged fences the
/// events close, on top of what the state already held.
proof fn lemma_count_events(st: CompilerState, events: Seq<MdEvent>)
    ensures
        steps_total(apply_events(st, events)) == steps_total(st) + tagged_count_from(
            events,
            st.code_lang,
        ),
    decreases events.len(),
{
    if events.len() > 0 {
        let e = events[0];
        let st1 = step_event(st, e);
        lemma_count_events(st1, events.drop_first());
        match e {
            MdEvent::HeadingStart(_) => {
                lemma_flush_total(st);
            },
            MdEvent::HeadingEnd => {
                if cur_has_content(st) {
                    lemma_steps_push(st.sections, cur_section(st));
                }
            },
            MdEvent::CodeStart(_) => {
                lemma_flush_total(st);
            },
            MdEvent::CodeEnd => {
                if st.code_lang.len() > 0 {
                    lemma_scb_push_code(
                        st.cur_blocks,
                        crate::block::CodeBlockModel {
                            language: st.code_lang,
                            content: crate::text::trim_end_spec(st.code_buf),
                            line_number: st.code_line,
                        },
                    );
                }
            },
            _ => {},
        }
    }
}

/// A prefix fold equals applying the prefix onto the initial state.
proof fn lemma_fold_is_apply(events: Seq<MdEvent>, n: int)
    requires
        0 <= n <= events.len(),
    ensures
        fold_events(events, n) == apply_events(init_state(), events.subrange(0, n)),
    decreases n,
{
    if n == 0 {
        assert(events.subrange(0, 0) =~= Seq::<MdEvent>::empty());
    } else {
        lemma_fold_is_apply(events, n - 1);
        lemma_apply_push(init_state(), events.subrange(0, n - 1), events[n - 1]);
        assert(events.subrange(0, n - 1).push(events[n - 1]) =~= events.subrange(0, n));
    }
}

/// Applying one more event is one more step of the machine.
proof fn lemma_apply_push(st: CompilerState, events: Seq<MdEvent>, e: MdEvent)
    ensures
        apply_events(st, events.push(e)) == step_event(apply_events(st, events), e),
    decreases events.len(),
{
    let ep = events.push(e);
    if events.len() == 0 {
        assert(ep.drop_first() =~= Seq::<MdEvent>::empty());
        assert(ep[0] == e);
        assert(apply_events(st, ep) == apply_events(step_event(st, ep[0]), ep.drop_first()));
        assert(apply_events(step_event(st, e), ep.drop_first()) == step_event(st, e));
        assert(apply_events(st, events) == st);
        assert(apply_events(st, ep) == step_event(apply_events(st, events), e));
    } else {
        assert(ep[0] == events[0]);
        assert(ep.drop_first() =~= events.drop_first().push(e));
        assert(apply_events(st, ep) == apply_events(step_event(st, ep[0]), ep.drop_first()));
        assert(apply_events(st, events) == apply_events(
            step_event(st, events[0]),
            events.drop_first(),
        ));
        lemma_apply_push(step_event(st, events[0]), events.drop_first(), e);
        assert(apply_events(step_event(st, events[0]), events.drop_first().push(e)) == step_event(
            apply_events(step_event(st, events[0]), events.drop_first()),
            e,
        ));
        assert(apply_events(st, ep) == step_event(apply_events(st, events), e));
    }
}

/// Finishing the stream emits exactly the steps the state accounts for.
proof fn lemma_finish_total(st: CompilerState)
    ensures
        steps_spec(finish_state(st)).len() == steps_total(st),
{
    lemma_flush_total(st);
    let st1 = flush_text(st);
    if cur_has_content(st1) {
        lemma_steps_push(st1.sections, cur_section(st1));
    }
}

/// The compiled document holds exactly one step per fenced code block whose
/// language tag is non-empty; untagged fences contribute none.
pub proof fn lemma_step_count_is_tagged_fences(events: Seq<MdEvent>)
    ensures
        steps_spec(compile_spec(events)).len() == tagged_fence_count(events),
{
    lemma_fold_is_apply(events, events.len() as int);
    assert(events.subrange(0, events.len() as int) =~= events);
    lemma_count_events(init_state(), events);
    lemma_finish_total(fold_events(events, events.len() as int));
    assert(steps_spec(init_state().sections).len() == 0);
    assert(section_code_blocks(init_state().cur_blocks).len() == 0);
}

/// Compiling an empty event stream yields zero sections and zero steps.
pub proof fn lemma_compile_empty()
    ensures
        compile_spec(Seq::<MdEvent>::empty()).len() == 0,
        steps_spec(compile_spec(Seq::<MdEvent>::empty())).len() == 0,
{
    let st = fold_events(Seq::<MdEvent>::empty(), 0);
    assert(st == init_state());
    assert(is_blank(st.text_buf));
    assert(compile_spec(Seq::<MdEvent>::empty()) == init_state().sections);
}

/// An event that carries nothing but whitespace into the compiler: blank
/// text, breaks, paragraph and list boundaries, item ends, and ignored
/// kinds. A whitespace-only source tokenizes to such events alone.
pub open spec fn is_inert_event(e: MdEvent) -> bool {
    match e {
        MdEvent::Text(t) => is_blank(t@),
        MdEvent::SoftBreak => true,
        MdEvent::HardBreak => true,
        MdEvent::ParagraphStart => true,
        MdEvent::ParagraphEnd => true,
        MdEvent::ListStart => true,
        MdEvent::ListEnd => true,
        MdEvent::ItemEnd => true,
        MdEvent::Other => true,
        _ => false,
    }
}

/// A state that has seen only whitespace: nothing emitted, nothing built,
/// a blank text buffer, and code mode off.
pub open spec fn inert_state(st: CompilerState) -> bool {
    &&& st.sections.len() == 0
    &&& st.cur_blocks.len() == 0
    &&& st.cur_header is None
    &&& is_blank(st.text_buf)
    &&& !st.in_code
}

proof fn lemma_inert_step(st: CompilerState, e: MdEvent)
    requires
        inert_state(st),
        is_inert_event(e),
    ensures
        inert_state(step_event(st, e)),
{
    match e {
        MdEvent::Text(t) => {
            assert(is_blank(st.text_buf + t@));
        },
        MdEvent::SoftBreak => {
            if !st.in_heading {
                assert(is_blank(st.text_buf.push(' ')));
            }
        },
        MdEvent::HardBreak => {
            assert(is_blank(st.text_buf.push('\n')));
        },
        MdEvent::ParagraphStart => {
            assert(is_blank(st.text_buf.push('\n')));
        },
        MdEvent::ParagraphEnd => {
            assert(is_blank(st.text_buf.push('\n')));
        },
        MdEvent::ListStart => {
            assert(is_blank(st.text_buf.push('\n')));
        },
        MdEvent::ListEnd => {
            assert(is_blank(st.text_buf.push('\n')));
        },
        MdEvent::ItemEnd => {
            assert(is_blank(st.text_buf.push('\n')));
        },
        _ => {},
    }
}

proof fn lemma_inert_fold(events: Seq<MdEvent>, n: int)
    requires
        0 <= n <= events.len(),
        forall|i: int| 0 <= i < events.len() ==> is_inert_event(#[trigger] events[i]),
    ensures
        inert_state(fold_events(events, n)),
    decreases n,
{
    if n > 0 {
        lemma_inert_fold(events, n - 1);
        lemma_inert_step(fold_events(events, n - 1), events[n - 1]);
    }
}

/// Compiling a stream of whitespace-only events yields zero sections: a
/// whitespace-only source produces an empty document.
pub proof fn lemma_compile_whitespace_only(events: Seq<MdEvent>)
    requires
        forall|i: int| 0 <= i < events.len() ==> is_inert_event(#[trigger] events[i]),
    ensures
        compile_spec(events).len() == 0,
{
    lemma_inert_fold(events, events.len() as int);
    let st = fold_events(events, events.len() as int);
    assert(flush_text(st) == st);
    assert(!cur_has_content(st));
}

/// A fenced block that closes without a language tag never becomes a step,
/// and its non-blank content survives verbatim inside the text buffer,
/// re-wrapped in fence markers.
pub proof fn lemma_untagged_fence_preserved(st: CompilerState)
    requires
        st.code_lang.len() == 0,
        !is_blank(st.code_buf),
    ensures
        steps_total(step_event(st, MdEvent::CodeEnd)) == steps_total(st),
        step_event(st, MdEvent::CodeEnd).text_buf.subrange(
            st.text_buf.len() as int + 4,
            st.text_buf.len() as int + 4 + st.code_buf.len() as int,
        ) == st.code_buf,
{
    let st1 = step_event(st, MdEvent::CodeEnd);
    assert(st1.text_buf.subrange(
        st.text_buf.len() as int + 4,
        st.text_buf.len() as int + 4 + st.code_buf.len() as int,
    ) =~= st.code_buf);
}

/// Whether `needle` occurs as a contiguous run inside `hay`.
pub open spec fn contains_seq(hay: Seq<char>, needle: Seq<char>) -> bool {
    exists|k: int|
        0 <= k && k + needle.len() <= hay.len() && #[trigger] hay.subrange(k, k + needle.len())
            == needle
}

/// A run survives anything appended after it.
proof fn lemma_contains_append(a: Seq<char>, b: Seq<char>, needle: Seq<char>)
    requires
        contains_seq(a, needle),
    ensures
        contains_seq(a + b, needle),
{
    let k = choose|k: int|
        0 <= k && k + needle.len() <= a.len() && #[trigger] a.subrange(k, k + needle.len())
            == needle;
    assert((a + b).subrange(k, k + needle.len() as int) =~= a.subrange(k, k + needle.len() as int));
}

/// A run survives one character pushed after it.
proof fn lemma_contains_push(a: Seq<char>, c: char, needle: Seq<char>)
    requires
        contains_seq(a, needle),
    ensures
        contains_seq(a.push(c), needle),
{
    assert(a.push(c) =~= a + seq![c]);
    lemma_contains_append(a, seq![c], needle);
}

/// Text that holds a non-blank run is itself non-blank.
proof fn lemma_contains_nonblank(hay: Seq<char>, needle: Seq<char>)
    requires
        contains_seq(hay, needle),
        !is_blank(needle),
    ensures
        !is_blank(hay),
{
    let k = choose|k: int|
        0 <= k && k + needle.len() <= hay.len() && #[trigger] hay.subrange(k, k + needle.len())
            == needle;
    let w = choose|w: int| 0 <= w < needle.len() && !is_space_char(needle[w]);
    assert(hay[k + w] == needle[w]);
}

/// Whether some text block among `blocks` holds `needle` as a run.
pub open spec fn blocks_hold(blocks: Seq<BlockModel>, needle: Seq<char>) -> bool {
    exists|j: int|
        0 <= j < blocks.len() && (#[trigger] blocks[j]) is Text && contains_seq(
            blocks[j]->Text_0,
            needle,
        )
}

/// Whether some text block of some section holds `needle` as a run.
pub open spec fn sections_hold(sections: Seq<SectionModel>, needle: Seq<char>) -> bool {
    exists|i: int| 0 <= i < sections.len() && blocks_hold((#[trigger] sections[i]).blocks, needle)
}

/// Whether the content is already lodged in a text block — of the section
/// being built or of an emitted one — where nothing dislodges it again.
pub open spec fn state_holds(st: CompilerState, needle: Seq<char>) -> bool {
    sections_hold(st.sections, needle) || blocks_hold(st.cur_blocks, needle)
}

proof fn lemma_blocks_hold_push(blocks: Seq<BlockModel>, b: BlockModel, needle: Seq<char>)
    requires
        blocks_hold(blocks, needle),
    ensures
        blocks_hold(blocks.push(b), needle),
{
    let j = choose|j: int|
        0 <= j < blocks.len() && (#[trigger] blocks[j]) is Text && contains_seq(
            blocks[j]->Text_0,
            needle,
        );
    assert(blocks.push(b)[j] == blocks[j]);
}

proof fn lemma_sections_hold_push(sections: Seq<SectionModel>, s: SectionModel, needle: Seq<char>)
    requires
        sections_hold(sections, needle),
    ensures
        sections_hold(sections.push(s), needle),
{
    let i = choose|i: int|
        0 <= i < sections.len() && blocks_hold((#[trigger] sections[i]).blocks, needle);
    assert(sections.push(s)[i] == sections[i]);
}

/// One compiler step keeps lodged content lodged, whatever the event.
proof fn lemma_state_holds_step(st: CompilerState, e: MdEvent, needle: Seq<char>)
    requires
        state_holds(st, needle),
    ensures
        state_holds(step_event(st, e), needle),
{
    let st1 = step_event(st, e);
    if sections_hold(st.sections, needle) {
        if st1.sections == st.sections {
        } else {
            assert(st1.sections == st.sections.push(cur_section(st)));
            lemma_sections_hold_push(st.sections, cur_section(st), needle);
        }
    } else {
        match e {
            MdEvent::HeadingStart(_) => {
                if !is_blank(st.text_buf) {
                    lemma_blocks_hold_push(st.cur_blocks, BlockModel::Text(st.text_buf), needle);
                }
            },
            MdEvent::HeadingEnd => {
                assert(st.cur_blocks.len() > 0);
                assert(cur_has_content(st));
                assert(st1.sections == st.sections.push(cur_section(st)));
                let i = st.sections.len() as int;
                assert(st1.sections[i] == cur_section(st));
                assert(blocks_hold(st1.sections[i].blocks, needle));
                assert(sections_hold(st1.sections, needle));
            },
            MdEvent::CodeStart(_) => {
                if !is_blank(st.text_buf) {
                    lemma_blocks_hold_push(st.cur_blocks, BlockModel::Text(st.text_buf), needle);
                }
            },
            MdEvent::CodeEnd => {
                if st.code_lang.len() > 0 {
                    lemma_blocks_hold_push(
                        st.cur_blocks,
                        BlockModel::Code(
                            crate::block::CodeBlockModel {
                                language: st.code_lang,
                                content: crate::text::trim_end_spec(st.code_buf),
                                line_number: st.code_line,
                            },
                        ),
                        needle,
                    );
                }
            },
            _ => {},
        }
    }
}

/// From the closing of an untagged, non-blank fence onward, its content is
/// either already lodged in a text block, or still sits in the text buffer
/// with no flush seen since the close.
proof fn lemma_survives_from(events: Seq<MdEvent>, p: int, q: int, needle: Seq<char>)
    requires
        0 <= p < q <= events.len(),
        events[p] == MdEvent::CodeEnd,
        fold_events(events, p).code_lang.len() == 0,
        !is_blank(fold_events(events, p).code_buf),
        needle == fold_events(events, p).code_buf,
        forall|h: int|
            p < h < events.len() && (#[trigger] events[h]) is HeadingEnd ==> exists|r: int|
                p < r < h && ((#[trigger] events[r]) is HeadingStart || events[r] is CodeStart),
    ensures
        state_holds(fold_events(events, q), needle) || {
            &&& contains_seq(fold_events(events, q).text_buf, needle)
            &&& !fold_events(events, q).in_code
            &&& forall|r: int|
                p < r < q ==> !((#[trigger] events[r]) is HeadingStart || events[r] is CodeStart)
        },
    decreases q - p,
{
    let st0 = fold_events(events, p);
    if q == p + 1 {
        let st1 = fold_events(events, q);
        assert(st1 == step_event(st0, events[p]));
        let k = st0.text_buf.len() as int + 4;
        assert(st1.text_buf.subrange(k, k + needle.len() as int) =~= needle);
        assert(contains_seq(st1.text_buf, needle));
    } else {
        lemma_survives_from(events, p, q - 1, needle);
        let st = fold_events(events, q - 1);
        let e = events[q - 1];
        let st1 = fold_events(events, q);
        assert(st1 == step_event(st, e));
        if state_holds(st, needle) {
            lemma_state_holds_step(st, e, needle);
        } else {
            match e {
                MdEvent::HeadingStart(_) => {
                    lemma_contains_nonblank(st.text_buf, needle);
                    let j = st.cur_blocks.len() as int;
                    assert(st1.cur_blocks[j] == BlockModel::Text(st.text_buf));
                    assert(blocks_hold(st1.cur_blocks, needle));
                },
                MdEvent::CodeStart(_) => {
                    lemma_contains_nonblank(st.text_buf, needle);
                    let j = st.cur_blocks.len() as int;
                    assert(st1.cur_blocks[j] == BlockModel::Text(st.text_buf));
                    assert(blocks_hold(st1.cur_blocks, needle));
                },
                MdEvent::HeadingEnd => {
                    assert(events[q - 1] is HeadingEnd);
                    let r = choose|r: int|
                        p < r < q - 1 && ((#[trigger] events[r]) is HeadingStart
                            || events[r] is CodeStart);
                    assert(false);
                },
                MdEvent::Text(t) => {
                    lemma_contains_append(st.text_buf, t@, needle);
                },
                MdEvent::InlineCode(t) => {
                    lemma_contains_append(st.text_buf, seq!['`'], needle);
                    lemma_contains_append(st.text_buf + seq!['`'], t@, needle);
                    lemma_contains_append(st.text_buf + seq!['`'] + t@, seq!['`'], needle);
                },
                MdEvent::SoftBreak => {
                    if !st.in_heading {
                        lemma_contains_push(st.text_buf, ' ', needle);
                    }
                },
                MdEvent::HardBreak => {
                    lemma_contains_push(st.text_buf, '\n', needle);
                },
                MdEvent::ParagraphStart => {
                    if st.text_buf.len() > 0 && st.text_buf.last() != '\n' {
                        lemma_contains_push(st.text_buf, '\n', needle);
                    }
                },
                MdEvent::ParagraphEnd => {
                    lemma_contains_push(st.text_buf, '\n', needle);
                },
                MdEvent::ListStart => {
                    lemma_contains_push(st.text_buf, '\n', needle);
                },
                MdEvent::ListEnd => {
                    lemma_contains_push(st.text_buf, '\n', needle);
                },
                MdEvent::ItemStart => {
                    lemma_contains_append(st.text_buf, bullet_seq(), needle);
                },
                MdEvent::ItemEnd => {
                    lemma_contains_push(st.text_buf, '\n', needle);
                },
                MdEvent::EmphasisStart => {
                    lemma_contains_push(st.text_buf, '*', needle);
                },
                MdEvent::EmphasisEnd => {
                    lemma_contains_push(st.text_buf, '*', needle);
                },
                MdEvent::StrongStart => {
                    lemma_contains_append(st.text_buf, seq!['*', '*'], needle);
                },
                MdEvent::StrongEnd => {
                    lemma_contains_append(st.text_buf, seq!['*', '*'], needle);
                },
                MdEvent::CodeEnd => {
                    if st.code_lang.len() > 0 {
                    } else if !is_blank(st.code_buf) {
                        lemma_contains_append(st.text_buf, fence_seq(), needle);
                        lemma_contains_append(st.text_buf + fence_seq(), st.code_buf, needle);
                        lemma_contains_append(
                            st.text_buf + fence_seq() + st.code_buf,
                            fence_seq(),
                            needle,
                        );
                    }
                },
                MdEvent::Other => {},
            }
        }
    }
}

/// A fenced block that closes without a language tag never becomes a step
/// (see `lemma_step_count_is_tagged_fences`), and its non-blank content
/// survives, re-wrapped in fence markers, into a text block of the compiled
/// document — provided every heading close after the fence is opened by a
/// heading or fence start in between, as any properly paired event stream
/// has it. On a stream where a bare heading close follows the fence, the
/// buffered text would become a section header instead.
pub proof fn lemma_untagged_fence_survives(events: Seq<MdEvent>, p: int)
    requires
        0 <= p < events.len(),
        events[p] == MdEvent::CodeEnd,
        fold_events(events, p).code_lang.len() == 0,
        !is_blank(fold_events(events, p).code_buf),
        forall|h: int|
            p < h < events.len() && (#[trigger] events[h]) is HeadingEnd ==> exists|r: int|
                p < r < h && ((#[trigger] events[r]) is HeadingStart || events[r] is CodeStart),
    ensures
        sections_hold(compile_spec(events), fold_events(events, p).code_buf),
{
    let needle = fold_events(events, p).code_buf;
    lemma_survives_from(events, p, events.len() as int, needle);
    let st = fold_events(events, events.len() as int);
    let st1 = flush_text(st);
    let doc = compile_spec(events);
    if sections_hold(st.sections, needle) {
        if cur_has_content(st1) {
            lemma_sections_hold_push(st1.sections, cur_section(st1), needle);
        }
    } else if blocks_hold(st.cur_blocks, needle) {
        if !is_blank(st.text_buf) {
            lemma_blocks_hold_push(st.cur_blocks, BlockModel::Text(st.text_buf), needle);
        }
        assert(blocks_hold(st1.cur_blocks, needle));
        assert(cur_has_content(st1));
        let i = st1.sections.len() as int;
        assert(doc[i] == cur_section(st1));
        assert(blocks_hold(doc[i].blocks, needle));
        assert(sections_hold(doc, needle));
    } else {
        lemma_contains_nonblank(st.text_buf, needle);
        let j = st.cur_blocks.len() as int;
        assert(st1.cur_blocks[j] == BlockModel::Text(st.text_buf));
        assert(blocks_hold(st1.cur_blocks, needle));
        assert(cur_has_content(st1));
        let i = st1.sections.len() as int;
        assert(doc[i] == cur_section(st1));
        assert(blocks_hold(doc[i].blocks, needle));
        assert(sections_hold(doc, needle));
    }
}

/// Advancing at the terminal step is idempotent: the current step stays at
/// the step count across repeated calls, and the end-of-sequence notice is
/// set at most once — a second advance changes nothing at all.
pub proof fn lemma_advance_terminal_idempotent(m: TuiAppModel)
    requires
        m.current_step == steps_spec(m.document).len(),
    ensures
        advance_model(m).current_step == m.current_step,
        advance_model(advance_model(m)) == advance_model(m),
{
}

/// Retreating at step 0 is idempotent: the state does not change at all,
/// however often `previous_step` is called.
pub proof fn lemma_retreat_zero_idempotent(m: TuiAppModel)
    requires
        m.current_step == 0,
    ensures
        retreat_model(m) == m,
        retreat_model(retreat_model(m)) == m,
{
}

/// Navigation never leaves the valid range: from any state with the current
/// step in 0..=step_count, advancing and retreating stay in that range.
pub proof fn lemma_navigation_stays_in_range(m: TuiAppModel)
    requires
        m.current_step <= steps_spec(m.document).len(),
    ensures
        advance_model(m).current_step <= steps_spec(m.document).len(),
        retreat_model(m).current_step <= steps_spec(m.document).len(),
{
}

/// Offset recomputation is deterministic and replay-stable: from any state
/// whose offset is what the replay gives for its step (the top of the
/// document at step 0), advancing below the last step and retreating
/// restores the state exactly, scroll offset included.
pub proof fn lemma_advance_then_retreat_restores(m: TuiAppModel)
    requires
        m.current_step < steps_spec(m.document).len(),
        m.current_step == 0 ==> m.scroll_offset == 0,
        m.current_step >= 1 ==> m.scroll_offset == scroll_for_step(m.document, m.current_step),
    ensures
        retreat_model(advance_model(m)) == m,
{
}

}
