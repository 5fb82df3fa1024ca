use oncall_agent_rs::json::parse_json;
use oncall_agent_rs::vector_search::{defensive_copy_top_k, embedding_slots, fallback_count, rerank_outcome, rerank_picks};
use oncall_agent_rs::vector_search::chat_memory_filter_expr;

#[test]
fn chat_memory_filter_escapes_session_id() {
    assert_eq!(
        chat_memory_filter_expr("session-\"1\""),
        "metadata[\"doc_type\"] == \"chat_memory\" && metadata[\"session_id\"] == \"session-\\\"1\\\"\""
    );
}

#[test]
fn rerank_requests_name_the_model_query_and_documents() {
    let request = oncall_agent_rs::vector_search::rerank_request(
        "gte-rerank-v2",
        "cpu",
        &vec!["a".to_string(), "b".to_string()],
        3,
    );
    let v: serde_json::Value =
        serde_json::from_str(&oncall_agent_rs::json::to_json_string(&request)).unwrap();
    assert_eq!(v["model"], "gte-rerank-v2");
    assert_eq!(v["input"]["query"], "cpu");
    assert_eq!(v["input"]["documents"][1], "b");
    assert_eq!(v["parameters"]["top_n"], 3);
    assert_eq!(v["parameters"]["return_documents"], false);
}

#[test]
fn rerank_answers_pick_valid_candidates_in_order() {
    let payload = parse_json(
        "{\"output\":{\"results\":[{\"index\":2,\"relevance_score\":0.9},{\"index\":7},{\"index\":\"x\"},{\"index\":0}]}}",
    )
    .unwrap();
    assert_eq!(rerank_picks(&payload, 3), Some(vec![2, 0]));
    assert_eq!(rerank_picks(&parse_json("{\"output\":{}}").unwrap(), 3), None);
    assert_eq!(fallback_count(2, 5), 2);
    assert_eq!(fallback_count(9, 5), 5);
}

#[derive(Debug, Clone, PartialEq)]
struct SearchResult {
    id: String,
    content: String,
    score: f32,
    metadata: String,
}

#[test]
fn defensive_copy_limits_to_top_k() {
    let results = vec![
        SearchResult {
            id: "1".to_string(),
            content: "a".to_string(),
            score: 0.1,
            metadata: "{}".to_string(),
        },
        SearchResult {
            id: "2".to_string(),
            content: "b".to_string(),
            score: 0.2,
            metadata: "{}".to_string(),
        },
    ];

    assert_eq!(defensive_copy_top_k(&results, 1), vec![results[0].clone()]);
    assert_eq!(defensive_copy_top_k(&results, 5), results);
    assert!(defensive_copy_top_k(&results, 0).is_empty());
}

#[test]
fn the_rerank_outcome_falls_back_to_the_first_candidates() {
    let picked = || parse_json("{\"output\":{\"results\":[{\"index\":2},{\"index\":9},{\"index\":0}]}}");
    assert_eq!(rerank_outcome(3, 2, true, Some((true, picked()))), vec![2, 0]);
    assert_eq!(rerank_outcome(0, 2, true, Some((true, picked()))), Vec::<usize>::new());
    assert_eq!(rerank_outcome(3, 2, false, None), vec![0, 1]);
    assert_eq!(rerank_outcome(3, 5, true, None), vec![0, 1, 2]);
    assert_eq!(rerank_outcome(3, 2, true, Some((false, picked()))), vec![0, 1]);
    assert_eq!(rerank_outcome(3, 2, true, Some((true, None))), vec![0, 1]);
    let none_valid = parse_json("{\"output\":{\"results\":[{\"index\":7}]}}");
    assert_eq!(rerank_outcome(3, 1, true, Some((true, none_valid))), vec![0]);
}

#[test]
fn embeddings_are_placed_by_their_text_index() {
    assert_eq!(embedding_slots(&vec![(Some(1), true), (Some(0), true)], 2), Ok(vec![1, 0]));
    assert_eq!(embedding_slots(&vec![(None, true), (None, true)], 2), Ok(vec![0, 1]));
    assert_eq!(embedding_slots(&vec![], 0), Err("embedding 响应 embeddings 为空".to_string()));
    assert_eq!(
        embedding_slots(&vec![(None, true)], 2),
        Err("批量 DashScope API 返回向量数量与输入数量不一致".to_string())
    );
    assert_eq!(
        embedding_slots(&vec![(Some(5), true), (None, true)], 2),
        Err("批量 DashScope API 返回无效 textIndex".to_string())
    );
    assert_eq!(
        embedding_slots(&vec![(Some(1), true), (None, true)], 2),
        Err("批量 DashScope API 返回重复 textIndex".to_string())
    );
    assert_eq!(
        embedding_slots(&vec![(None, false), (Some(9), true)], 2),
        Err("embedding 响应缺少向量".to_string())
    );
}
