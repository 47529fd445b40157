//! The blocks a document is made of: plain documentation text, and
//! executable code blocks carrying a language tag.

use vstd::prelude::*;

use crate::text::str_eq;

verus! {

/// An executable code block.
#[derive(Debug, Clone, PartialEq)]
pub struct CodeBlock {
    /// Language/interpreter (bash, sh, python, etc.)
    pub language: String,
    /// The actual code content
    pub content: String,
    /// Line number where this block starts in the source file
    pub line_number: usize,
}

/// The mathematical model of a code block: its language and content as
/// character sequences, and its source line.
pub struct CodeBlockModel {
    pub language: Seq<char>,
    pub content: Seq<char>,
    pub line_number: nat,
}

impl View for CodeBlock {
    type V = CodeBlockModel;

    open spec fn view(&self) -> CodeBlockModel {
        CodeBlockModel {
            language: self.language@,
            content: self.content@,
            line_number: self.line_number as nat,
        }
    }
}

/// A block in the document.
#[derive(Debug, Clone, PartialEq)]
pub enum Block {
    /// Documentation/text content (markdown)
    Text(String),
    /// Executable code block
    Code(CodeBlock),
}

/// The mathematical model of a block.
pub enum BlockModel {
    Text(Seq<char>),
    Code(CodeBlockModel),
}

impl View for Block {
    type V = BlockModel;

    open spec fn view(&self) -> BlockModel {
        match self {
            Block::Text(s) => BlockModel::Text(s@),
            Block::Code(c) => BlockModel::Code(c@),
        }
    }
}

/// The interpreter command that runs a block with the given language tag:
/// known tags map to their interpreter, anything else falls back to bash.
pub open spec fn interpreter_spec(lang: Seq<char>) -> Seq<char> {
    if lang == "bash"@ {
        "bash"@
    } else if lang == "sh"@ {
        "sh"@
    } else if lang == "python"@ || lang == "python3"@ {
        "python3"@
    } else if lang == "ruby"@ {
        "ruby"@
    } else if lang == "perl"@ {
        "perl"@
    } else if lang == "zsh"@ {
        "zsh"@
    } else if lang == "fish"@ {
        "fish"@
    } else {
        "bash"@
    }
}

/// The language tags whose interpreter is an interactive shell.
pub open spec fn is_shell_spec(lang: Seq<char>) -> bool {
    lang == "bash"@ || lang == "sh"@ || lang == "zsh"@ || lang == "fish"@
}

impl CodeBlock {
    /// Get the interpreter command for this language
    pub fn interpreter(&self) -> (r: &str)
        ensures
            r@ == interpreter_spec(self.language@),
    {
        let l = self.language.as_str();
        if str_eq(l, "bash") {
            "bash"
        } else if str_eq(l, "sh") {
            "sh"
        } else if str_eq(l, "python") || str_eq(l, "python3") {
            "python3"
        } else if str_eq(l, "ruby") {
            "ruby"
        } else if str_eq(l, "perl") {
            "perl"
        } else if str_eq(l, "zsh") {
            "zsh"
        } else if str_eq(l, "fish") {
            "fish"
        } else {
            "bash"
        }
    }

    /// Check if this is a shell-like language
    pub fn is_shell(&self) -> (r: bool)
        ensures
            r == is_shell_spec(self.language@),
    {
        let l = self.language.as_str();
        str_eq(l, "bash") || str_eq(l, "sh") || str_eq(l, "zsh") || str_eq(l, "fish")
    }
}

}
