use oncall_agent_rs::indexing::{
    build_document_metadata, extension_part, file_name_of, index_entries, normalize_path,
    source_filter_expr,
};
use oncall_agent_rs::json::{field_str, to_json_string};
use oncall_agent_rs::model::DocumentChunk;

fn chunk(content: &str, index: i32, title: &str) -> DocumentChunk {
    DocumentChunk {
        content: content.to_string(),
        start_index: 0,
        end_index: content.len() as i32,
        chunk_index: index,
        title: title.to_string(),
    }
}

#[test]
fn paths_are_resolved_lexically() {
    assert_eq!(normalize_path("./docs/../data/uploads/a.md"), "data/uploads/a.md");
    assert_eq!(normalize_path("/srv//x/./y/../z.txt"), "/srv/x/z.txt");
    assert_eq!(normalize_path("../a"), "a");
    assert_eq!(normalize_path("/.."), "/");
    assert_eq!(normalize_path(""), "");
}

#[test]
fn file_names_and_extensions_follow_the_path_rules() {
    assert_eq!(file_name_of("dir/a.tar.gz").as_deref(), Some("a.tar.gz"));
    assert_eq!(file_name_of("dir/a.md/.").as_deref(), Some("a.md"));
    assert!(file_name_of("dir/..").is_none());
    assert!(file_name_of("/").is_none());
    assert_eq!(extension_part("a.tar.gz").as_deref(), Some("gz"));
    assert!(extension_part(".bashrc").is_none());
    assert_eq!(extension_part("foo.").as_deref(), Some(""));
    assert!(extension_part("README").is_none());
}

#[test]
fn metadata_names_the_source_and_place_of_a_chunk() {
    let meta = build_document_metadata("./data/uploads/guide.md", &chunk("text", 2, "安装"), 5);
    assert_eq!(
        to_json_string(&meta),
        "{\"_extension\":\".md\",\"_file_name\":\"guide.md\",\"_source\":\"data/uploads/guide.md\",\"chunkIndex\":2,\"doc_type\":\"document\",\"title\":\"安装\",\"totalChunks\":5}"
    );
    let untitled = build_document_metadata("notes", &chunk("text", 0, ""), 1);
    assert!(field_str(&untitled, "title").is_none());
    assert_eq!(field_str(&untitled, "_extension").as_deref(), Some(""));
}

#[test]
fn entries_carry_ids_text_and_sparse_vectors() {
    let chunks = vec![chunk("Aa", 0, ""), chunk("b", 1, "")];
    let entries = index_entries("./x/../doc.txt", &chunks);
    assert_eq!(entries.len(), 2);
    assert_eq!(entries[0].content, "Aa");
    assert_eq!(entries[0].sparse_vector, vec![(97, 2)]);
    assert_eq!(entries[0].id.len(), 36);
    assert_ne!(entries[0].id, entries[1].id);
    let again = index_entries("doc.txt", &chunks);
    assert_eq!(again[0].id, entries[0].id);
    assert_eq!(field_str(&entries[1].metadata, "_source").as_deref(), Some("doc.txt"));
}

#[test]
fn old_data_is_selected_by_source() {
    assert_eq!(
        source_filter_expr("a\"b"),
        "metadata[\"_source\"] == \"a\\\"b\""
    );
}
