use ragkit::contents::File;
use ragkit::error::NotAvailableError;
use ragkit::index::plan_upserts;
use ragkit::query::{
    advance_query, build_prompt, fallback_fragments, fallback_message, fragment_text,
    render_choices, resolve_context, QueryEvent, QueryStep,
};

fn corpus() -> Vec<File> {
    let mut a = File::new("A.md".to_string(), "The sky is blue.\n\n".to_string());
    let mut b = File::new("B.md".to_string(), "Bananas are yellow.\n\n".to_string());
    a.parse();
    b.parse();
    vec![a, b]
}

#[test]
fn plan_covers_every_unit_with_sequential_ids() {
    let mut a = File::new("A.md".to_string(), "one\n\ntwo\n\n".to_string());
    let mut b = File::new("B.md".to_string(), "three\n\n".to_string());
    a.parse();
    b.parse();
    let files = vec![a, b];
    let plan = plan_upserts(&files);
    assert_eq!(plan.len(), 3);
    for (i, p) in plan.iter().enumerate() {
        assert_eq!(p.point_id, i as u64);
    }
    assert_eq!(plan[0].document_id, "A.md");
    assert_eq!(plan[0].text, "one\n");
    assert_eq!(plan[1].document_id, "A.md");
    assert_eq!(plan[1].text, "two\n");
    assert_eq!(plan[2].document_id, "B.md");
    assert_eq!(plan[2].text, "three\n");
}

#[test]
fn plan_of_empty_corpus_is_empty() {
    let files: Vec<File> = Vec::new();
    assert_eq!(plan_upserts(&files).len(), 0);
}

#[test]
fn resolution_finds_the_owning_document() {
    let files = corpus();
    let hit = resolve_context(&files, &"A.md".to_string());
    assert_eq!(hit, Some("The sky is blue.\n\n".to_string()));
    let miss = resolve_context(&files, &"C.md".to_string());
    assert_eq!(miss, None);
}

#[test]
fn grounding_context_is_the_whole_raw_document() {
    // A search hit on "A.md" grounds the completion in exactly A's raw text.
    let files = corpus();
    let context = resolve_context(&files, &"A.md".to_string()).unwrap();
    assert_eq!(context, files[0].contents);
    let prompt = build_prompt(&context, "What color is the sky?");
    assert_eq!(
        prompt,
        "Given the following context:\nThe sky is blue.\n\n\n\nRespond to the following:\nWhat color is the sky?"
    );
}

#[test]
fn embedding_failure_falls_back() {
    let files = corpus();
    let next = advance_query(QueryStep::NeedEmbedding, QueryEvent::Embedded { ok: false }, &files);
    assert!(matches!(next, QueryStep::Fallback));
    let fragments = fallback_fragments();
    assert_eq!(fragments, vec!["Error with your prompt".to_string()]);
}

#[test]
fn successful_steps_walk_the_pipeline() {
    let files = corpus();
    let next = advance_query(QueryStep::NeedEmbedding, QueryEvent::Embedded { ok: true }, &files);
    assert!(matches!(next, QueryStep::NeedSearch));
    let next = advance_query(
        next,
        QueryEvent::Searched { document_id: Some("B.md".to_string()) },
        &files,
    );
    match &next {
        QueryStep::NeedStream { context } => assert_eq!(context, "Bananas are yellow.\n\n"),
        _ => panic!("expected a stream request"),
    }
    let started = advance_query(next, QueryEvent::StreamStarted { ok: true }, &files);
    assert!(matches!(started, QueryStep::Streaming));
}

#[test]
fn unusable_search_results_fall_back() {
    let files = corpus();
    let none = advance_query(QueryStep::NeedSearch, QueryEvent::Searched { document_id: None }, &files);
    assert!(matches!(none, QueryStep::Fallback));
    let unknown = advance_query(
        QueryStep::NeedSearch,
        QueryEvent::Searched { document_id: Some("missing.md".to_string()) },
        &files,
    );
    assert!(matches!(unknown, QueryStep::Fallback));
}

#[test]
fn stream_start_failure_falls_back() {
    let files = corpus();
    let next = advance_query(
        QueryStep::NeedStream { context: "ctx".to_string() },
        QueryEvent::StreamStarted { ok: false },
        &files,
    );
    assert!(matches!(next, QueryStep::Fallback));
}

#[test]
fn empty_delta_content_becomes_a_newline() {
    assert_eq!(fragment_text(&Some("token".to_string())), "token");
    assert_eq!(fragment_text(&None), "\n");
    let choices = vec![Some("Hel".to_string()), None, Some("lo".to_string())];
    assert_eq!(render_choices(&choices), "Hel\nlo");
    assert_eq!(render_choices(&Vec::new()), "");
}

#[test]
fn fallback_message_is_fixed() {
    assert_eq!(fallback_message(), "Error with your prompt");
}

#[test]
fn not_available_error_message() {
    let e = NotAvailableError;
    assert_eq!(e.message(), "File 'not available' error");
}
