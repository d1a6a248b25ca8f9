use ragkit::contents::{has_file_extension, segment, File, UnitKind};
use ragkit::lines::split_lines;

#[test]
fn lines_split_like_the_source_text() {
    assert_eq!(split_lines(""), Vec::<String>::new());
    assert_eq!(split_lines("a"), vec!["a"]);
    assert_eq!(split_lines("a\n"), vec!["a"]);
    assert_eq!(split_lines("a\n\nb"), vec!["a", "", "b"]);
    assert_eq!(split_lines("\n"), vec![""]);
    assert_eq!(split_lines("a\r\nb\r"), vec!["a", "b\r"]);
}

#[test]
fn carriage_return_line_endings_are_handled() {
    let units = segment("one\r\n\r\ntwo\r\n\r\n");
    assert_eq!(units.len(), 2);
    assert_eq!(units[0].text, "one\n");
    assert_eq!(units[1].text, "two\n");
}

#[test]
fn unterminated_metadata_swallows_the_rest() {
    let units = segment("---\ntitle: open\nbody\n\nmore\n\n");
    assert_eq!(units.len(), 0);
}

#[test]
fn empty_input_yields_no_units() {
    let units = segment("");
    assert_eq!(units.len(), 0);
}

#[test]
fn terminated_paragraphs_are_counted() {
    // Two blank-line-terminated paragraphs and one trailing unterminated one:
    // exactly the terminated ones come out.
    let units = segment("one one\n\ntwo\nstill two\n\ntrailing");
    assert_eq!(units.len(), 2);
    assert_eq!(units[0].text, "one one\n");
    assert_eq!(units[0].kind, UnitKind::Prose);
    assert_eq!(units[1].text, "two\nstill two\n");
    assert_eq!(units[1].kind, UnitKind::Prose);
}

#[test]
fn trailing_unterminated_paragraph_is_dropped() {
    let units = segment("kept\n\ndropped at end of input\n");
    assert_eq!(units.len(), 1);
    assert_eq!(units[0].text, "kept\n");
}

#[test]
fn fenced_block_is_one_code_unit() {
    let units = segment("```\ncode\n```\n\n");
    assert_eq!(units.len(), 1);
    assert_eq!(units[0].kind, UnitKind::CodeBlock);
    assert_eq!(units[0].text, "```\ncode\n```\n");
}

#[test]
fn code_block_keeps_blank_and_heading_lines() {
    let units = segment("```rust\nlet x = 1;\n\n# not a heading here\n```\n");
    assert_eq!(units.len(), 1);
    assert_eq!(units[0].kind, UnitKind::CodeBlock);
    assert_eq!(units[0].text, "```rust\nlet x = 1;\n\n# not a heading here\n```\n");
}

#[test]
fn unterminated_code_block_is_dropped() {
    let units = segment("```\nnever closed\n");
    assert_eq!(units.len(), 0);
}

#[test]
fn metadata_block_emits_nothing() {
    let with_meta = segment("---\ntitle: hidden\n---\nbody\n\n");
    let without = segment("body\n\n");
    assert_eq!(with_meta.len(), 1);
    assert_eq!(with_meta[0].text, "body\n");
    assert_eq!(without.len(), with_meta.len());
    assert_eq!(without[0].text, with_meta[0].text);
}

#[test]
fn heading_lines_reach_no_unit() {
    let units = segment("# Title\n\npara\n\n## Section\nafter heading\n\n");
    assert_eq!(units.len(), 2);
    assert_eq!(units[0].text, "para\n");
    // A heading marker starts the line after a prose line began: it is part
    // of nothing emitted here, only the idle-state headings are skipped.
    assert_eq!(units[1].text, "after heading\n");
    for u in &units {
        assert!(!u.text.starts_with('#'));
    }
}

#[test]
fn parse_fills_sentences_in_source_order() {
    let mut f = File::new(
        "doc.mdx".to_string(),
        "first\n\n```\nlet y = 2;\n```\nsecond\n\n".to_string(),
    );
    assert_eq!(f.sentences.len(), 0);
    f.parse();
    assert_eq!(f.path, "doc.mdx");
    assert_eq!(f.contents, "first\n\n```\nlet y = 2;\n```\nsecond\n\n");
    assert_eq!(
        f.sentences,
        vec![
            "first\n".to_string(),
            "```\nlet y = 2;\n```\n".to_string(),
            "second\n".to_string(),
        ]
    );
}

#[test]
fn file_extension_filter() {
    assert!(has_file_extension("kb/guide.mdx", ".mdx"));
    assert!(has_file_extension(".mdx", ".mdx"));
    assert!(!has_file_extension("kb/guide.md", ".mdx"));
    assert!(!has_file_extension("mdx", ".mdx"));
    assert!(has_file_extension("anything", ""));
}
