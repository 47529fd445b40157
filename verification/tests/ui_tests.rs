//! Unit tests for the walker and viewer state

use sysadmin::renderer::Renderer;
use sysadmin::tui::TuiApp;
use sysadmin::{Block, CodeBlock, Document, Section};

#[test]
fn test_renderer_new() {
    let renderer = Renderer::new();
    assert_eq!(renderer.current_step, 0);
    assert_eq!(renderer.total_steps, 0);
}

#[test]
fn test_renderer_set_total_steps() {
    let mut renderer = Renderer::new();
    renderer.set_total_steps(5);
    assert_eq!(renderer.total_steps, 5);
}

#[test]
fn test_tui_app_new() {
    let doc = Document::new();
    let app = TuiApp::new(doc);
    assert_eq!(app.current_step, 0);
    assert_eq!(app.scroll_offset, 0);
    assert_eq!(app.transient_message, None);
}

#[test]
fn test_tui_app_auto_scroll_to_current_step() {
    let mut doc = Document::new();
    let mut section = Section::with_header("Test Section".to_string(), 1);

    let code_block = CodeBlock {
        language: "bash".to_string(),
        content: "echo \"hello\"".to_string(),
        line_number: 1,
    };

    section.blocks.push(Block::Code(code_block));
    doc.sections.push(section);

    let mut app = TuiApp::new(doc);

    app.auto_scroll_to_current_step();
    assert_eq!(app.scroll_offset, 0);
}

#[test]
fn test_tui_app_next_step() {
    let mut doc = Document::new();
    let mut section = Section::with_header("Test Section".to_string(), 1);

    let code_block = CodeBlock {
        language: "bash".to_string(),
        content: "echo \"hello\"".to_string(),
        line_number: 1,
    };

    section.blocks.push(Block::Code(code_block));
    doc.sections.push(section);

    let mut app = TuiApp::new(doc);

    app.next_step();
    assert_eq!(app.current_step, 1);
}

#[test]
fn test_tui_app_previous_step() {
    let mut doc = Document::new();
    let mut section = Section::with_header("Test Section".to_string(), 1);

    let code_block = CodeBlock {
        language: "bash".to_string(),
        content: "echo \"hello\"".to_string(),
        line_number: 1,
    };

    section.blocks.push(Block::Code(code_block));
    doc.sections.push(section);

    let mut app = TuiApp::new(doc);

    app.previous_step();
    assert_eq!(app.current_step, 0);
}
