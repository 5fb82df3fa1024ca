use oncall_agent_rs::config::{AppConfig, EnvSnapshot, EnvValue};
use oncall_agent_rs::document_chunk::{
    markdown_heading_title, split_by_headings, split_by_paragraphs, DocumentChunkService,
};

fn service(max: &str, overlap: &str) -> DocumentChunkService {
    let env = EnvSnapshot {
        vars: vec![
            ("DOCUMENT_CHUNK_MAX_SIZE".to_string(), EnvValue::Present(max.to_string())),
            ("DOCUMENT_CHUNK_OVERLAP".to_string(), EnvValue::Present(overlap.to_string())),
        ],
    };
    DocumentChunkService::new(&AppConfig::from_env(&env).ok().expect("valid"))
}

#[test]
fn chunk_document_keeps_markdown_title() {
    let chunks = service("20", "5").chunk_document("# CPU\n\n第一段\n\n第二段", "runbook.md");
    assert_eq!(chunks[0].title, "CPU");
    assert!(chunks[0].content.contains("# CPU"));
}

#[test]
fn headings_split_sections_with_byte_offsets() {
    let sections = split_by_headings("intro\n# A\nalpha\n## B\nbeta\n");
    assert_eq!(sections.len(), 3);
    assert_eq!(sections[0].title, "");
    assert_eq!(sections[1].title, "A");
    assert_eq!(sections[1].start_index, 6);
    assert_eq!(sections[2].content, "## B\nbeta");
    assert_eq!(markdown_heading_title("### Title  "), Some("Title".to_string()));
    assert_eq!(markdown_heading_title("#######x"), None);
    assert_eq!(markdown_heading_title("#NoSpace"), None);
}

#[test]
fn paragraphs_are_trimmed_and_blank_ones_dropped() {
    assert_eq!(
        split_by_paragraphs(" a \n\n\n\n b\n\n"),
        vec!["a".to_string(), "b".to_string()]
    );
}

#[test]
fn long_sections_become_numbered_chunks() {
    let chunks = service("12", "3").chunk_document("aaaaaaaa\n\nbbbbbbbb\n\ncccc", "x.md");
    assert_eq!(chunks.len(), 3);
    assert_eq!(chunks[0].content, "aaaaaaaa");
    assert_eq!(chunks[0].chunk_index, 0);
    assert_eq!(chunks[0].start_index, 0);
    assert_eq!(chunks[0].end_index, 8);
    assert_eq!(chunks[1].chunk_index, 1);
    assert!(chunks[1].content.starts_with("aaa"));
    assert!(service("12", "3").chunk_document("   ", "x.md").is_empty());
}

#[test]
fn overlap_starts_after_a_late_sentence_end() {
    let s = service("10", "6");
    assert_eq!(s.get_overlap_text("abcdefgh"), "cdefgh");
    assert_eq!(s.get_overlap_text("xxxxab。cd"), "cd");
}

#[test]
fn chunks_are_numbered_across_sections_and_blank_text_has_none() {
    let chunks = service("20", "5").chunk_document(
        "intro text\n# A\n\n第一段第一段第一段\n\n第二段第二段第二段\n\n第三段\n## B\nshort",
        "doc.md",
    );
    assert!(chunks.len() >= 2);
    for (i, chunk) in chunks.iter().enumerate() {
        assert_eq!(chunk.chunk_index, i as i32);
    }
    assert!(service("20", "5").chunk_document(" \n\t\n ", "blank.md").is_empty());
    assert!(service("20", "5").chunk_document("", "empty.md").is_empty());
}

#[test]
fn every_chunk_carries_the_title_of_its_section() {
    let chunks = service("1000", "0").chunk_document("intro\n# A\nalpha\n## B  \nbeta\n", "doc.md");
    let titles: Vec<&str> = chunks.iter().map(|c| c.title.as_str()).collect();
    assert_eq!(titles, vec!["", "A", "B"]);
    let indices: Vec<i32> = chunks.iter().map(|c| c.chunk_index).collect();
    assert_eq!(indices, vec![0, 1, 2]);
}
