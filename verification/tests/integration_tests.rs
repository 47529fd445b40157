//! Integration tests over whole documents

use sysadmin::SysadminParser;

#[test]
fn test_integration_with_empty_file() {
    let content = "";
    
    // Parse the document
    let doc = SysadminParser::parse(content).unwrap();
    
    // Should have no sections
    assert_eq!(doc.sections.len(), 0);
    
    // Should have no code blocks
    let code_blocks = doc.code_blocks();
    assert_eq!(code_blocks.len(), 0);
}
