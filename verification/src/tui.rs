//! The step-navigation engine: tracks the current step over the document's
//! step index, and keeps the scroll offset in sync by replaying the
//! document's rendered line layout.

use vstd::prelude::*;

use crate::block::{Block, BlockModel};
use crate::document::{
    lemma_section_code_blocks_first, lemma_steps_spec_first, section_code_blocks, steps_spec,
    Document, SectionModel,
};
use crate::text::{count_lines_chars, chars_of, line_count_spec};

verus! {

/// Addition that sticks at the machine limit instead of overflowing: the
/// layout replay sums line counts with it.
pub open spec fn sat_add(a: nat, b: nat) -> nat {
    if a + b >= usize::MAX as nat {
        usize::MAX as nat
    } else {
        a + b
    }
}

/// The layout lines one block contributes when the document is rendered:
/// a text block is its lines plus a separator; a code block is a step
/// header, its lines, and a separator.
pub open spec fn block_lines(b: BlockModel) -> nat {
    match b {
        BlockModel::Text(t) => sat_add(line_count_spec(t), 1),
        BlockModel::Code(c) => sat_add(2, line_count_spec(c.content)),
    }
}

/// The layout lines a section header contributes: blank, header, blank.
pub open spec fn header_lines(s: SectionModel) -> nat {
    if s.header is Some {
        3
    } else {
        0
    }
}

/// The layout lines of a whole block list.
pub open spec fn blocks_lines(blocks: Seq<BlockModel>) -> nat
    decreases blocks.len(),
{
    if blocks.len() == 0 {
        0
    } else {
        sat_add(block_lines(blocks[0]), blocks_lines(blocks.drop_first()))
    }
}

/// The layout lines accumulated strictly before the code block at 0-based
/// flat position `k` within one block list.
pub open spec fn lines_before_code(blocks: Seq<BlockModel>, k: int) -> nat
    decreases blocks.len(),
{
    if blocks.len() == 0 {
        0
    } else {
        match blocks[0] {
            BlockModel::Code(_) => if k <= 0 {
                0
            } else {
                sat_add(block_lines(blocks[0]), lines_before_code(blocks.drop_first(), k - 1))
            },
            BlockModel::Text(_) => sat_add(
                block_lines(blocks[0]),
                lines_before_code(blocks.drop_first(), k),
            ),
        }
    }
}

/// The layout lines accumulated strictly before the code block at 0-based
/// flat position `k` of the document, counting headers and earlier blocks.
pub open spec fn lines_before_step(sections: Seq<SectionModel>, k: int) -> nat
    decreases sections.len(),
{
    if sections.len() == 0 {
        0
    } else {
        let s0 = sections[0];
        let n0 = section_code_blocks(s0.blocks).len();
        if k < n0 {
            sat_add(header_lines(s0), lines_before_code(s0.blocks, k))
        } else {
            sat_add(
                sat_add(header_lines(s0), blocks_lines(s0.blocks)),
                lines_before_step(sections.drop_first(), k - n0),
            )
        }
    }
}

/// How many lines of preceding context are kept above the step a scroll
/// brings into view.
pub open spec fn scroll_lookback() -> nat {
    5
}

/// The scroll offset that brings 1-based step `step` into view: the lines
/// before it, less a small lookback, floored at zero.
pub open spec fn scroll_for_step(sections: Seq<SectionModel>, step: nat) -> nat {
    let before = lines_before_step(sections, step - 1);
    if before >= scroll_lookback() {
        (before - scroll_lookback()) as nat
    } else {
        0
    }
}

/// The notice surfaced when the operator advances past the last step.
pub open spec fn end_notice() -> Seq<char> {
    "You've reached the final step! Press 'q' to quit or 'p' to go back."@
}

/// The scrollable document viewer's session state.
pub struct TuiApp {
    /// The compiled document being browsed
    pub document: Document,
    /// The current step: 0 before the first step, N on step N
    pub current_step: usize,
    /// Rendered lines skipped from the top of the document
    pub scroll_offset: usize,
    /// A short-lived end-of-sequence notice, if one is up
    pub transient_message: Option<String>,
}

/// The mathematical model of a navigation session.
pub struct TuiAppModel {
    pub document: Seq<SectionModel>,
    pub current_step: nat,
    pub scroll_offset: nat,
    pub transient_message: Option<Seq<char>>,
}

impl View for TuiApp {
    type V = TuiAppModel;

    open spec fn view(&self) -> TuiAppModel {
        TuiAppModel {
            document: self.document@,
            current_step: self.current_step as nat,
            scroll_offset: self.scroll_offset as nat,
            transient_message: match self.transient_message {
                Some(m) => Some(m@),
                None => None,
            },
        }
    }
}

/// What `next_step` does: below the last step it moves one step forward and
/// recomputes the scroll offset; at the last step of a non-empty sequence it
/// surfaces the end notice if none is up; on an empty sequence it does
/// nothing.
pub open spec fn advance_model(m: TuiAppModel) -> TuiAppModel {
    let total = steps_spec(m.document).len();
    if m.current_step < total {
        TuiAppModel {
            current_step: (m.current_step + 1) as nat,
            scroll_offset: scroll_for_step(m.document, (m.current_step + 1) as nat),
            ..m
        }
    } else if total > 0 {
        TuiAppModel {
            transient_message: if m.transient_message is None {
                Some(end_notice())
            } else {
                m.transient_message
            },
            ..m
        }
    } else {
        m
    }
}

/// What `previous_step` does: above step 0 it moves one step back and
/// recomputes the scroll offset — back to the top of the document when the
/// new step is 0; at step 0 it does nothing.
pub open spec fn retreat_model(m: TuiAppModel) -> TuiAppModel {
    if m.current_step > 0 {
        let ns = (m.current_step - 1) as nat;
        TuiAppModel {
            current_step: ns,
            scroll_offset: if ns == 0 {
                0
            } else if ns <= steps_spec(m.document).len() {
                scroll_for_step(m.document, ns)
            } else {
                m.scroll_offset
            },
            ..m
        }
    } else {
        m
    }
}

impl TuiApp {
    pub fn new(document: Document) -> (r: TuiApp)
        ensures
            r@.document == document@,
            r@.current_step == 0,
            r@.scroll_offset == 0,
            r@.transient_message is None,
    {
        TuiApp { document, current_step: 0, scroll_offset: 0, transient_message: None }
    }

    /// Move to the next step, or surface the end-of-sequence notice when
    /// already past the last one.
    pub fn next_step(&mut self)
        ensures
            final(self)@ == advance_model(old(self)@),
    {
        let total = self.document.step_count();
        if self.current_step < total {
            self.current_step = self.current_step + 1;
            self.auto_scroll_to_current_step();
        } else if total > 0 {
            if self.transient_message.is_none() {
                self.transient_message = Some(
                    String::from_str(
                        "You've reached the final step! Press 'q' to quit or 'p' to go back.",
                    ),
                );
            }
        }
    }

    /// Move to the previous step; at step 0 this is a no-op.
    pub fn previous_step(&mut self)
        ensures
            final(self)@ == retreat_model(old(self)@),
    {
        if self.current_step > 0 {
            self.current_step = self.current_step - 1;
            self.auto_scroll_to_current_step();
        }
    }

    /// Override the scroll offset directly; manual scrolling does not move
    /// the current step.
    pub fn jump_to(&mut self, offset: usize)
        ensures
            final(self)@ == (TuiAppModel { scroll_offset: offset as nat, ..old(self)@ }),
    {
        self.scroll_offset = offset;
    }

    /// Recompute the scroll offset so the current step sits near the top of
    /// the viewport, by replaying the document's line layout; step 0 scrolls
    /// back to the top, a step past the count leaves the offset untouched.
    pub fn auto_scroll_to_current_step(&mut self)
        ensures
            final(self)@.document == old(self)@.document,
            final(self)@.current_step == old(self)@.current_step,
            final(self)@.transient_message == old(self)@.transient_message,
            old(self)@.current_step == 0 ==> final(self)@.scroll_offset == 0,
            1 <= old(self)@.current_step <= steps_spec(old(self)@.document).len()
                ==> final(self)@.scroll_offset == scroll_for_step(
                old(self)@.document,
                old(self)@.current_step,
            ),
            old(self)@.current_step > steps_spec(old(self)@.document).len()
                ==> final(self)@.scroll_offset == old(self)@.scroll_offset,
    {
        let total = self.document.step_count();
        if self.current_step == 0 {
            self.scroll_offset = 0;
            return ;
        }
        if self.current_step > total {
            return ;
        }
        let ghost doc = self.document@;
        let k = self.current_step - 1;
        let mut line_count: usize = 0;
        let mut seen: usize = 0;
        let mut i: usize = 0;
        proof {
            assert(doc.subrange(0, doc.len() as int) =~= doc);
        }
        while i < self.document.sections.len()
            invariant
                0 <= i <= self.document.sections@.len(),
                doc == self.document@,
                doc.len() == self.document.sections@.len(),
                forall|x: int| 0 <= x < doc.len() ==> doc[x] == self.document.sections@[x]@,
                k < steps_spec(doc).len(),
                seen <= k,
                k + 1 == old(self).current_step,
                self.current_step == old(self).current_step,
                self.scroll_offset == old(self).scroll_offset,
                self.transient_message == old(self).transient_message,
                self.document == old(self).document,
                lines_before_step(doc, k as int) == sat_add(
                    line_count as nat,
                    lines_before_step(doc.subrange(i as int, doc.len() as int), k - seen),
                ),
                seen as nat + steps_spec(doc.subrange(i as int, doc.len() as int)).len()
                    == steps_spec(doc).len(),
            decreases self.document.sections@.len() - i,
        {
            let ghost rest = doc.subrange(i as int, doc.len() as int);
            let ghost rest1 = doc.subrange(i + 1 as int, doc.len() as int);
            let section = &self.document.sections[i];
            let ghost blocks = section@.blocks;
            proof {
                assert(rest.len() > 0);
                assert(rest[0] == doc[i as int]);
                assert(rest.drop_first() =~= rest1);
                lemma_steps_spec_first(rest);
            }
            let header_add: usize = if section.header.is_some() {
                3
            } else {
                0
            };
            let new_count = sat_add_usize(line_count, header_add);
            line_count = new_count;
            let mut j: usize = 0;
            proof {
                assert(blocks.subrange(0, blocks.len() as int) =~= blocks);
                assert(rest[0].blocks == blocks);
                assert(header_add as nat == header_lines(rest[0]));
                assert(lines_before_step(rest, k - seen) == sat_add(
                    header_lines(rest[0]),
                    lines_before_code_mid(blocks, rest1, k - seen),
                ));
                assert(steps_spec(rest).len() == section_code_blocks(blocks).len() + steps_spec(
                    rest1,
                ).len());
            }
            while j < section.blocks.len()
                invariant
                    0 <= j <= section.blocks@.len(),
                    0 <= i < doc.len(),
                    doc == self.document@,
                    k < steps_spec(doc).len(),
                    blocks == section@.blocks,
                    blocks.len() == section.blocks@.len(),
                    forall|x: int| 0 <= x < blocks.len() ==> blocks[x] == section.blocks@[x]@,
                    seen <= k,
                    k + 1 == old(self).current_step,
                    self.current_step == old(self).current_step,
                    self.scroll_offset == old(self).scroll_offset,
                    self.transient_message == old(self).transient_message,
                    self.document == old(self).document,
                    lines_before_step(doc, k as int) == sat_add(
                        line_count as nat,
                        lines_before_code_mid(
                            blocks.subrange(j as int, blocks.len() as int),
                            doc.subrange(i + 1 as int, doc.len() as int),
                            k - seen,
                        ),
                    ),
                    seen as nat + section_code_blocks(
                        blocks.subrange(j as int, blocks.len() as int),
                    ).len() + steps_spec(doc.subrange(i + 1 as int, doc.len() as int)).len()
                        == steps_spec(doc).len(),
                decreases section.blocks@.len() - j,
            {
                let ghost brest = blocks.subrange(j as int, blocks.len() as int);
                let ghost brest1 = blocks.subrange(j + 1 as int, blocks.len() as int);
                proof {
                    assert(brest.len() > 0);
                    assert(brest[0] == blocks[j as int]);
                    assert(brest.drop_first() =~= brest1);
                    lemma_section_code_blocks_first(brest);
                }
                let ghost rest1 = doc.subrange(i + 1 as int, doc.len() as int);
                match &section.blocks[j] {
                    Block::Text(t) => {
                        proof {
                            assert(brest[0] == BlockModel::Text(t@));
                            assert(section_code_blocks(brest) == section_code_blocks(brest1));
                            assert(block_lines(brest[0]) == sat_add(line_count_spec(t@), 1));
                            assert(lines_before_code_mid(brest, rest1, k - seen) == sat_add(
                                block_lines(brest[0]),
                                lines_before_code_mid(brest1, rest1, k - seen),
                            ));
                        }
                        let cs = chars_of(t.as_str());
                        let tl = count_lines_chars(&cs);
                        let add = sat_add_usize(tl, 1);
                        line_count = sat_add_usize(line_count, add);
                    },
                    Block::Code(c) => {
                        proof {
                            assert(brest[0] == BlockModel::Code(c@));
                            assert(section_code_blocks(brest).len() == 1 + section_code_blocks(
                                brest1,
                            ).len());
                        }
                        if seen == k {
                            proof {
                                assert(lines_before_code(brest, 0) == 0);
                                assert(lines_before_code_mid(brest, rest1, 0) == 0);
                                assert(lines_before_step(doc, k as int) == line_count as nat);
                            }
                            self.scroll_offset = if line_count >= 5 {
                                line_count - 5
                            } else {
                                0
                            };
                            return ;
                        }
                        proof {
                            assert(k - seen >= 1);
                            assert(block_lines(brest[0]) == sat_add(2, line_count_spec(c@.content)));
                            assert(lines_before_code_mid(brest, rest1, k - seen) == sat_add(
                                block_lines(brest[0]),
                                lines_before_code_mid(brest1, rest1, k - seen - 1),
                            ));
                        }
                        let cs = chars_of(c.content.as_str());
                        let cl = count_lines_chars(&cs);
                        let add = sat_add_usize(2, cl);
                        line_count = sat_add_usize(line_count, add);
                        seen = seen + 1;
                    },
                }
                j += 1;
            }
            proof {
                assert(blocks.subrange(blocks.len() as int, blocks.len() as int)
                    =~= Seq::<BlockModel>::empty());
            }
            i += 1;
        }
        proof {
            assert(doc.subrange(doc.len() as int, doc.len() as int)
                =~= Seq::<SectionModel>::empty());
            assert(false);
        }
    }
}

/// The layout lines before flat code position `k`, counted from the middle
/// of a section: first the remaining blocks of the current section, then
/// the remaining sections.
pub open spec fn lines_before_code_mid(
    blocks: Seq<BlockModel>,
    rest: Seq<SectionModel>,
    k: int,
) -> nat {
    let nb = section_code_blocks(blocks).len();
    if k < nb {
        lines_before_code(blocks, k)
    } else {
        sat_add(blocks_lines(blocks), lines_before_step(rest, k - nb))
    }
}

/// Saturating add on machine words, agreeing with `sat_add`.
fn sat_add_usize(a: usize, b: usize) -> (r: usize)
    ensures
        r as nat == sat_add(a as nat, b as nat),
{
    if b > 0 && a >= usize::MAX - b + 1 {
        usize::MAX
    } else {
        a + b
    }
}

}
