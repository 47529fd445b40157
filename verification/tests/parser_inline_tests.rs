//! Tests that sat beside the parser in its source file

use sysadmin::SysadminParser;

#[test]
    fn sysadmin_test_parse_simple_document() {
        let content = r#"# Test Document

This is some text.

```bash
echo "hello world"
```

More text here.
"#;

        let doc = SysadminParser::parse(content).unwrap();
        assert_eq!(doc.sections.len(), 1);
        assert_eq!(doc.sections[0].header, Some("Test Document".to_string()));

        let code_blocks = doc.code_blocks();
        assert_eq!(code_blocks.len(), 1);
        assert_eq!(code_blocks[0].content, "echo \"hello world\"");
        assert_eq!(code_blocks[0].language, "bash");
    }

#[test]
    fn sysadmin_test_parse_multiple_sections() {
        let content = r#"# Section One

Text in section one.

```bash
ls -la
```

## Section Two

Text in section two.

```python
print("hello")
```
"#;

        let doc = SysadminParser::parse(content).unwrap();
        assert_eq!(doc.sections.len(), 2);
        assert_eq!(doc.sections[0].header, Some("Section One".to_string()));
        assert_eq!(doc.sections[1].header, Some("Section Two".to_string()));
        assert_eq!(doc.code_blocks().len(), 2);
    }

#[test]
    fn sysadmin_test_parse_no_language_code_block() {
        let content = r#"# Test

Some text.

```
not executable
```

More text.
"#;

        let doc = SysadminParser::parse(content).unwrap();
        let code_blocks = doc.code_blocks();
        // Code blocks without language are not executable
        assert_eq!(code_blocks.len(), 0);
    }

#[test]
    fn sysadmin_test_empty_document() {
        let content = "";
        let doc = SysadminParser::parse(content).unwrap();
        assert_eq!(doc.sections.len(), 0);
    }
