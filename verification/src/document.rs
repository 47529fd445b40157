//! The document model: an ordered list of sections, each an ordered list of
//! blocks, plus the derived step index — the flat, document-ordered list of
//! executable code blocks.

use vstd::prelude::*;

use crate::block::{Block, BlockModel, CodeBlock, CodeBlockModel};

verus! {

/// A section of a document (could be text, code, or mixed).
#[derive(Debug, Clone, PartialEq)]
pub struct Section {
    /// Optional header for this section
    pub header: Option<String>,
    /// The level of the header (1-6 for h1-h6)
    pub header_level: Option<u32>,
    /// The blocks in this section
    pub blocks: Vec<Block>,
}

/// The mathematical model of a section.
pub struct SectionModel {
    pub header: Option<Seq<char>>,
    pub header_level: Option<u32>,
    pub blocks: Seq<BlockModel>,
}

impl View for Section {
    type V = SectionModel;

    open spec fn view(&self) -> SectionModel {
        SectionModel {
            header: match self.header {
                Some(h) => Some(h@),
                None => None,
            },
            header_level: self.header_level,
            blocks: self.blocks@.map_values(|b: Block| b@),
        }
    }
}

/// A parsed runbook document.
#[derive(Debug, Clone, PartialEq)]
pub struct Document {
    /// The sections of the document
    pub sections: Vec<Section>,
}

impl View for Document {
    type V = Seq<SectionModel>;

    open spec fn view(&self) -> Seq<SectionModel> {
        self.sections@.map_values(|s: Section| s@)
    }
}

/// The code blocks of one section's block list, in order.
pub open spec fn section_code_blocks(blocks: Seq<BlockModel>) -> Seq<CodeBlockModel>
    decreases blocks.len(),
{
    if blocks.len() == 0 {
        Seq::empty()
    } else {
        match blocks.last() {
            BlockModel::Code(c) => section_code_blocks(blocks.drop_last()).push(c),
            BlockModel::Text(_) => section_code_blocks(blocks.drop_last()),
        }
    }
}

/// The step index: all code blocks of the document, flattened in document
/// order. Step numbers are 1-based positions into this sequence.
pub open spec fn steps_spec(sections: Seq<SectionModel>) -> Seq<CodeBlockModel>
    decreases sections.len(),
{
    if sections.len() == 0 {
        Seq::empty()
    } else {
        steps_spec(sections.drop_last()) + section_code_blocks(sections.last().blocks)
    }
}

/// The code blocks of a block list, read off the front: the first block's
/// contribution followed by the rest's.
pub proof fn lemma_section_code_blocks_first(blocks: Seq<BlockModel>)
    requires
        blocks.len() > 0,
    ensures
        section_code_blocks(blocks) == (match blocks[0] {
            BlockModel::Code(c) => seq![c] + section_code_blocks(blocks.drop_first()),
            BlockModel::Text(_) => section_code_blocks(blocks.drop_first()),
        }),
    decreases blocks.len(),
{
    if blocks.len() == 1 {
        assert(blocks.drop_first() =~= Seq::<BlockModel>::empty());
        assert(blocks.drop_last() =~= Seq::<BlockModel>::empty());
        assert(blocks.last() == blocks[0]);
        match blocks[0] {
            BlockModel::Code(c) => {
                assert(section_code_blocks(blocks) == section_code_blocks(
                    blocks.drop_last(),
                ).push(c));
                assert(section_code_blocks(blocks) =~= seq![c] + section_code_blocks(
                    blocks.drop_first(),
                ));
            },
            BlockModel::Text(_) => {},
        }
    } else {
        let head = blocks.drop_last();
        let tail = blocks.drop_first();
        lemma_section_code_blocks_first(head);
        assert(head.drop_first() =~= tail.drop_last());
        assert(head[0] == blocks[0]);
        assert(tail.last() == blocks.last());
        assert(tail.len() > 0);
        match blocks.last() {
            BlockModel::Code(d) => {
                assert(section_code_blocks(blocks) == section_code_blocks(head).push(d));
                assert(section_code_blocks(tail) == section_code_blocks(tail.drop_last()).push(
                    d,
                ));
                match blocks[0] {
                    BlockModel::Code(c) => {
                        assert(section_code_blocks(head) == seq![c] + section_code_blocks(
                            head.drop_first(),
                        ));
                        assert((seq![c] + section_code_blocks(head.drop_first())).push(d)
                            =~= seq![c] + section_code_blocks(head.drop_first()).push(d));
                    },
                    BlockModel::Text(_) => {},
                }
            },
            BlockModel::Text(_) => {
                assert(section_code_blocks(blocks) == section_code_blocks(head));
                assert(section_code_blocks(tail) == section_code_blocks(tail.drop_last()));
            },
        }
    }
}

/// The step index of a section list, read off the front: the first
/// section's code blocks followed by the rest's.
pub proof fn lemma_steps_spec_first(sections: Seq<SectionModel>)
    requires
        sections.len() > 0,
    ensures
        steps_spec(sections) == section_code_blocks(sections[0].blocks) + steps_spec(
            sections.drop_first(),
        ),
    decreases sections.len(),
{
    if sections.len() == 1 {
        assert(sections.drop_first() =~= Seq::<SectionModel>::empty());
        assert(sections.last() == sections[0]);
        assert(steps_spec(sections) == steps_spec(sections.drop_last()) + section_code_blocks(
            sections.last().blocks,
        ));
        assert(steps_spec(sections) =~= section_code_blocks(sections[0].blocks) + steps_spec(
            sections.drop_first(),
        ));
    } else {
        let head = sections.drop_last();
        let tail = sections.drop_first();
        lemma_steps_spec_first(head);
        assert(head.drop_first() =~= tail.drop_last());
        assert(tail.last() == sections.last());
        assert(steps_spec(sections) == steps_spec(head) + section_code_blocks(
            sections.last().blocks,
        ));
        assert(steps_spec(tail) == steps_spec(tail.drop_last()) + section_code_blocks(
            tail.last().blocks,
        ));
        assert((section_code_blocks(sections[0].blocks) + steps_spec(head.drop_first()))
            + section_code_blocks(sections.last().blocks) =~= section_code_blocks(
            sections[0].blocks,
        ) + (steps_spec(head.drop_first()) + section_code_blocks(sections.last().blocks)));
    }
}

impl Document {
    pub fn new() -> (r: Document)
        ensures
            r@ == Seq::<SectionModel>::empty(),
    {
        let d = Document { sections: Vec::new() };
        proof {
            assert(d@ =~= Seq::<SectionModel>::empty());
        }
        d
    }

    /// Get all executable code blocks in order
    pub fn code_blocks(&self) -> (r: Vec<&CodeBlock>)
        ensures
            r@.map_values(|c: &CodeBlock| c@) == steps_spec(self@),
    {
        let mut r: Vec<&CodeBlock> = Vec::new();
        proof {
            assert(r@.map_values(|c: &CodeBlock| c@) =~= steps_spec(self@.subrange(0, 0)));
        }
        let mut i: usize = 0;
        while i < self.sections.len()
            invariant
                0 <= i <= self.sections@.len(),
                self@.len() == self.sections@.len(),
                forall|k: int| 0 <= k < self.sections@.len() ==> self@[k] == self.sections@[k]@,
                r@.map_values(|c: &CodeBlock| c@) == steps_spec(self@.subrange(0, i as int)),
            decreases self.sections@.len() - i,
        {
            let section = &self.sections[i];
            let ghost blocks = section@.blocks;
            proof {
                assert(r@.map_values(|c: &CodeBlock| c@) + section_code_blocks(
                    blocks.subrange(0, 0),
                ) =~= steps_spec(self@.subrange(0, i as int)));
            }
            let mut j: usize = 0;
            while j < section.blocks.len()
                invariant
                    0 <= j <= section.blocks@.len(),
                    blocks == section@.blocks,
                    blocks.len() == section.blocks@.len(),
                    forall|k: int| 0 <= k < blocks.len() ==> blocks[k] == section.blocks@[k]@,
                    r@.map_values(|c: &CodeBlock| c@) == steps_spec(self@.subrange(0, i as int))
                        + section_code_blocks(blocks.subrange(0, j as int)),
                decreases section.blocks@.len() - j,
            {
                proof {
                    assert(blocks.subrange(0, j + 1 as int).drop_last() =~= blocks.subrange(
                        0,
                        j as int,
                    ));
                }
                match &section.blocks[j] {
                    Block::Code(c) => {
                        let ghost pre = r@;
                        r.push(c);
                        proof {
                            assert(blocks.subrange(0, j + 1 as int).last()
                                == BlockModel::Code(c@));
                            assert(section_code_blocks(blocks.subrange(0, j + 1 as int))
                                == section_code_blocks(blocks.subrange(0, j as int)).push(c@));
                            assert(r@.map_values(|c: &CodeBlock| c@) =~= pre.map_values(
                                |c: &CodeBlock| c@,
                            ).push(c@));
                            assert(r@.map_values(|c: &CodeBlock| c@) =~= steps_spec(
                                self@.subrange(0, i as int),
                            ) + section_code_blocks(blocks.subrange(0, j + 1 as int)));
                        }
                    },
                    Block::Text(_) => {},
                }
                j += 1;
            }
            proof {
                assert(blocks.subrange(0, blocks.len() as int) =~= blocks);
                assert(self@.subrange(0, i + 1 as int).drop_last() =~= self@.subrange(0, i as int));
                assert(self@.subrange(0, i + 1 as int).last() == self@[i as int]);
            }
            i += 1;
        }
        proof {
            assert(self@.subrange(0, self@.len() as int) =~= self@);
        }
        r
    }

    /// Count total number of executable steps
    pub fn step_count(&self) -> (r: usize)
        ensures
            r == steps_spec(self@).len(),
    {
        self.code_blocks().len()
    }
}

impl Default for Document {
    fn default() -> (r: Document)
        ensures
            r@ == Seq::<SectionModel>::empty(),
    {
        Document::new()
    }
}

impl Section {
    pub fn new() -> (r: Section)
        ensures
            r@.header == Option::<Seq<char>>::None,
            r@.header_level == Option::<u32>::None,
            r@.blocks == Seq::<BlockModel>::empty(),
    {
        let s = Section { header: None, header_level: None, blocks: Vec::new() };
        proof {
            assert(s@.blocks =~= Seq::<BlockModel>::empty());
        }
        s
    }

    pub fn with_header(header: String, level: u32) -> (r: Section)
        ensures
            r@.header == Some(header@),
            r@.header_level == Some(level),
            r@.blocks == Seq::<BlockModel>::empty(),
    {
        let s = Section { header: Some(header), header_level: Some(level), blocks: Vec::new() };
        proof {
            assert(s@.blocks =~= Seq::<BlockModel>::empty());
        }
        s
    }
}

impl Default for Section {
    fn default() -> (r: Section)
        ensures
            r@.header == Option::<Seq<char>>::None,
            r@.header_level == Option::<u32>::None,
            r@.blocks == Seq::<BlockModel>::empty(),
    {
        Section::new()
    }
}

}
