//! The structural events the compiler consumes from the markdown tokenizer:
//! heading and code-block boundaries, text, breaks, and inline markers.

use vstd::prelude::*;

verus! {

/// One structural event of the tokenized source document.
#[derive(Debug, Clone, PartialEq)]
pub enum MdEvent {
    /// A heading opens, at the given level (1-6).
    HeadingStart(u32),
    /// The open heading closes.
    HeadingEnd,
    /// A code block opens; the string is its language tag, empty for a
    /// fenced block with no tag or an indented block.
    CodeStart(String),
    /// The open code block closes.
    CodeEnd,
    /// A run of plain text.
    Text(String),
    /// An inline code span.
    InlineCode(String),
    /// A soft line break.
    SoftBreak,
    /// A hard line break.
    HardBreak,
    /// A paragraph opens.
    ParagraphStart,
    /// The open paragraph closes.
    ParagraphEnd,
    /// A list opens.
    ListStart,
    /// The open list closes.
    ListEnd,
    /// A list item opens.
    ItemStart,
    /// The open list item closes.
    ItemEnd,
    /// Emphasis opens.
    EmphasisStart,
    /// Emphasis closes.
    EmphasisEnd,
    /// Strong emphasis opens.
    StrongStart,
    /// Strong emphasis closes.
    StrongEnd,
    /// Any other event kind; the compiler ignores it.
    Other,
}

}
