//! Tests pinning down the behaviors the library states as laws: step
//! counting, degenerate inputs, untagged fences, navigation at the
//! boundaries, and the scroll replay.

use sysadmin::cli::{Cli, Commands};
use sysadmin::events::MdEvent;
use sysadmin::parser::compile;
use sysadmin::renderer::Renderer;
use sysadmin::tui::TuiApp;
use sysadmin::{Block, CodeBlock, Document, Section, SysadminParser};

#[test]
fn step_count_counts_only_tagged_fences() {
    let content = "# T\n\n```bash\na\n```\n\n```\nuntagged\n```\n\n```python\nb\n```\n";
    let doc = SysadminParser::parse(content).unwrap();
    assert_eq!(doc.step_count(), 2);
}

#[test]
fn one_header_five_blocks_scenario() {
    let content = r#"# Basic Example

```bash
echo "one"
```

```bash
echo "two"
```

```bash
echo "three"
```

```bash
echo "four"
```

```python
print("five")
```
"#;
    let doc = SysadminParser::parse(content).unwrap();
    assert_eq!(doc.sections.len(), 1);
    assert_eq!(doc.sections[0].header, Some("Basic Example".to_string()));
    assert_eq!(doc.step_count(), 5);
    let steps = doc.code_blocks();
    assert_eq!(steps[0].language, "bash");
    assert_eq!(steps[4].language, "python");
}

#[test]
fn two_headers_two_levels_scenario() {
    let content = r#"# First

```bash
echo "a"
```

## Second

```bash
echo "b"
```
"#;
    let doc = SysadminParser::parse(content).unwrap();
    assert_eq!(doc.sections.len(), 2);
    assert_eq!(doc.step_count(), 2);
    assert_eq!(doc.sections[1].header_level, Some(2));
}

#[test]
fn unterminated_fence_contributes_no_step() {
    // An open-fence event that never sees its end: the section with the
    // header is still produced, the buffered code is dropped.
    let events = vec![
        MdEvent::HeadingStart(1),
        MdEvent::Text("Title".to_string()),
        MdEvent::HeadingEnd,
        MdEvent::Text("intro".to_string()),
        MdEvent::ParagraphEnd,
        MdEvent::CodeStart("bash".to_string()),
        MdEvent::Text("echo dropped".to_string()),
    ];
    let doc = compile(&events);
    assert_eq!(doc.sections.len(), 1);
    assert_eq!(doc.sections[0].header, Some("Title".to_string()));
    assert_eq!(doc.step_count(), 0);
}

#[test]
fn untagged_fence_content_stays_visible() {
    let content = "# T\n\nbefore\n\n```\nkeep this visible\n```\n\nafter\n";
    let doc = SysadminParser::parse(content).unwrap();
    assert_eq!(doc.step_count(), 0);
    let mut found = false;
    for section in &doc.sections {
        for block in &section.blocks {
            if let Block::Text(text) = block {
                if text.contains("keep this visible") && text.contains("```") {
                    found = true;
                }
            }
        }
    }
    assert!(found);
}

#[test]
fn untagged_fence_content_survives_into_earlier_section() {
    // The fence closes mid-stream; the next heading flushes the re-wrapped
    // content into the first section as documentation text.
    let content = "# One\n\n```\nkeep me around\n```\n\n# Two\n\n```bash\necho hi\n```\n";
    let doc = SysadminParser::parse(content).unwrap();
    assert_eq!(doc.step_count(), 1);
    assert_eq!(doc.sections.len(), 2);
    let mut found = false;
    for block in &doc.sections[0].blocks {
        if let Block::Text(text) = block {
            if text.contains("keep me around") && text.contains("```") {
                found = true;
            }
        }
    }
    assert!(found);
}

#[test]
fn code_line_number_is_recorded_at_fence_open() {
    let events = vec![
        MdEvent::HardBreak,
        MdEvent::HardBreak,
        MdEvent::CodeStart("bash".to_string()),
        MdEvent::Text("x\n".to_string()),
        MdEvent::CodeEnd,
    ];
    let doc = compile(&events);
    let steps = doc.code_blocks();
    assert_eq!(steps.len(), 1);
    assert_eq!(steps[0].line_number, 3);
    assert_eq!(steps[0].content, "x");
}

#[test]
fn compile_of_no_events_is_empty() {
    let events: Vec<MdEvent> = vec![];
    let doc = compile(&events);
    assert_eq!(doc.sections.len(), 0);
    assert_eq!(doc.step_count(), 0);
}

#[test]
fn interpreter_exact_values() {
    let mk = |lang: &str| CodeBlock {
        language: lang.to_string(),
        content: String::new(),
        line_number: 1,
    };
    assert_eq!(mk("bash").interpreter(), "bash");
    assert_eq!(mk("sh").interpreter(), "sh");
    assert_eq!(mk("python").interpreter(), "python3");
    assert_eq!(mk("python3").interpreter(), "python3");
    assert_eq!(mk("ruby").interpreter(), "ruby");
    assert_eq!(mk("perl").interpreter(), "perl");
    assert_eq!(mk("zsh").interpreter(), "zsh");
    assert_eq!(mk("fish").interpreter(), "fish");
    assert_eq!(mk("haskell").interpreter(), "bash");
    assert_eq!(mk("").interpreter(), "bash");
}

#[test]
fn is_shell_exact_values() {
    let mk = |lang: &str| CodeBlock {
        language: lang.to_string(),
        content: String::new(),
        line_number: 1,
    };
    assert!(mk("sh").is_shell());
    assert!(mk("zsh").is_shell());
    assert!(mk("fish").is_shell());
    assert!(!mk("perl").is_shell());
    assert!(!mk("").is_shell());
}

#[test]
fn advance_at_terminal_is_idempotent() {
    let content = "# T\n\n```bash\na\n```\n";
    let doc = SysadminParser::parse(content).unwrap();
    let mut app = TuiApp::new(doc);
    app.next_step();
    assert_eq!(app.current_step, 1);
    assert_eq!(app.transient_message, None);
    app.next_step();
    assert_eq!(app.current_step, 1);
    assert!(app.transient_message.is_some());
    let notice = app.transient_message.clone();
    app.next_step();
    assert_eq!(app.current_step, 1);
    assert_eq!(app.transient_message, notice);
}

#[test]
fn advance_on_empty_document_does_nothing() {
    let mut app = TuiApp::new(Document::new());
    app.next_step();
    assert_eq!(app.current_step, 0);
    assert_eq!(app.transient_message, None);
}

#[test]
fn retreat_at_zero_is_idempotent() {
    let content = "# T\n\n```bash\na\n```\n";
    let doc = SysadminParser::parse(content).unwrap();
    let mut app = TuiApp::new(doc);
    app.previous_step();
    assert_eq!(app.current_step, 0);
    app.previous_step();
    assert_eq!(app.current_step, 0);
    assert_eq!(app.scroll_offset, 0);
}

#[test]
fn scroll_replay_exact_offset() {
    // Header: 3 lines; text block of two lines: 2 + 1 separator;
    // 6 lines precede the code block, the lookback is 5, so the offset is 1.
    let mut doc = Document::new();
    let mut section = Section::with_header("H".to_string(), 1);
    section.blocks.push(Block::Text("line one\nline two".to_string()));
    section.blocks.push(Block::Code(CodeBlock {
        language: "bash".to_string(),
        content: "echo hi".to_string(),
        line_number: 1,
    }));
    doc.sections.push(section);

    let mut app = TuiApp::new(doc);
    app.next_step();
    assert_eq!(app.current_step, 1);
    assert_eq!(app.scroll_offset, 1);
}

#[test]
fn three_step_navigation_is_replay_stable() {
    let content = r#"# Steps

```bash
echo "one"
```

Some explanation line.

Another explanation line.

```bash
echo "two"
```

More prose in between the steps.

```bash
echo "three"
```
"#;
    let doc = SysadminParser::parse(content).unwrap();
    assert_eq!(doc.step_count(), 3);
    let mut app = TuiApp::new(doc);
    let offset_at_zero = app.scroll_offset;

    app.next_step();
    assert_eq!(app.current_step, 1);
    assert!(app.scroll_offset >= offset_at_zero);
    let offset_at_one = app.scroll_offset;

    app.next_step();
    let offset_at_two = app.scroll_offset;
    assert!(offset_at_two > offset_at_one);

    app.previous_step();
    assert_eq!(app.current_step, 1);
    assert_eq!(app.scroll_offset, offset_at_one);

    app.previous_step();
    assert_eq!(app.current_step, 0);
    assert_eq!(app.scroll_offset, offset_at_zero);
}

#[test]
fn retreat_to_zero_restores_top_offset() {
    // Header: 3 lines; text block of six lines: 6 + 1 separator;
    // 10 lines precede the code block, so step 1 sits at offset 5.
    let mut doc = Document::new();
    let mut section = Section::with_header("H".to_string(), 1);
    section.blocks.push(Block::Text("a\nb\nc\nd\ne\nf".to_string()));
    section.blocks.push(Block::Code(CodeBlock {
        language: "bash".to_string(),
        content: "echo hi".to_string(),
        line_number: 1,
    }));
    doc.sections.push(section);

    let mut app = TuiApp::new(doc);
    app.next_step();
    assert_eq!(app.current_step, 1);
    assert_eq!(app.scroll_offset, 5);

    app.previous_step();
    assert_eq!(app.current_step, 0);
    assert_eq!(app.scroll_offset, 0);
}

#[test]
fn renderer_advance_step_counts() {
    let mut renderer = Renderer::new();
    renderer.advance_step();
    renderer.advance_step();
    assert_eq!(renderer.current_step, 2);
    assert_eq!(renderer.total_steps, 0);
}

#[test]
fn jump_to_moves_only_the_offset() {
    let content = "# T\n\n```bash\na\n```\n";
    let doc = SysadminParser::parse(content).unwrap();
    let mut app = TuiApp::new(doc);
    app.jump_to(7);
    assert_eq!(app.scroll_offset, 7);
    assert_eq!(app.current_step, 0);
}

#[test]
fn cli_target_file_resolution() {
    let with_run = Cli {
        command: Some(Commands::Run { file: "a.sysadmin".to_string() }),
        file: None,
    };
    assert_eq!(with_run.target_file(), Some(&"a.sysadmin".to_string()));

    let bare = Cli { command: None, file: Some("b.sysadmin".to_string()) };
    assert_eq!(bare.target_file(), Some(&"b.sysadmin".to_string()));

    let neither = Cli { command: None, file: None };
    assert_eq!(neither.target_file(), None);

    let with_view = Cli {
        command: Some(Commands::View { file: "c.sysadmin".to_string() }),
        file: Some("ignored".to_string()),
    };
    assert_eq!(with_view.target_file(), Some(&"c.sysadmin".to_string()));
}

#[test]
fn tokenizer_really_tokenizes() {
    // A header and a fence must come back as structure, not as raw text.
    let doc = SysadminParser::parse("# Just A Header\n").unwrap();
    assert_eq!(doc.sections.len(), 1);
    assert_eq!(doc.sections[0].header, Some("Just A Header".to_string()));
    assert_eq!(doc.sections[0].blocks.len(), 0);
}

#[test]
fn code_content_trailing_whitespace_is_trimmed() {
    let doc = SysadminParser::parse("# T\n\n```bash\necho hi\n\n\n```\n").unwrap();
    let steps = doc.code_blocks();
    assert_eq!(steps.len(), 1);
    assert_eq!(steps[0].content, "echo hi");
}
