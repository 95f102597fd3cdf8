use nuphus::agent::{
    inject_memory_snapshot, session_row, session_row_at, store_turn_memory, usage_events,
    WorkflowAgent,
};
use nuphus::config::{ModelEntry, ModelRegistry};
use nuphus::workflow::StepRecord;

fn registry() -> ModelRegistry {
    ModelRegistry {
        models: vec![ModelEntry {
            provider: "p".to_string(),
            id: "seeing".to_string(),
            supports_vision: true,
        }],
        model: "seeing".to_string(),
        provider_hint: None,
        vision: String::new(),
        vision_provider: String::new(),
    }
}

fn agent() -> WorkflowAgent {
    WorkflowAgent::new(
        "seeing".to_string(),
        "User".to_string(),
        "Nu".to_string(),
        false,
        Some(&registry()),
    )
}

#[test]
fn names_are_brought_up_to_date_before_a_run() {
    let mut a = agent();
    assert!(a.supports_vision);
    a.cached_prompt = Some("old".to_string());
    a.sync_before_run("User", "Nu");
    assert_eq!(a.cached_prompt.as_deref(), Some("old"));
    a.sync_before_run("Someone", "Nu");
    assert_eq!(a.user_label, "Someone");
    assert_eq!(a.cached_prompt, None);
    a.set_model_label("blind".to_string(), Some(&registry()));
    assert_eq!(a.model_label(), "blind");
    assert!(!a.supports_vision);
    a.set_enhanced_mode(true);
    assert!(a.enhanced_mode());
    a.inc_refine_count();
    assert_eq!(a.refine_count(), 1);
}

#[test]
fn memory_is_shown_to_an_empty_session_only() {
    assert_eq!(inject_memory_snapshot(false, Some("tail"), "s", "/m"), None);
    assert_eq!(inject_memory_snapshot(true, None, "s", "/m"), None);
    let shown = inject_memory_snapshot(true, Some("tail"), "s", "/m").unwrap();
    assert!(shown.contains("tail") && shown.contains("/m"));
}

fn step(i: usize) -> StepRecord {
    StepRecord {
        tool: format!("t{i}"),
        params: "{}".to_string(),
        text: "out".to_string(),
        success: true,
        duration_ms: 1,
    }
}

#[test]
fn turns_are_remembered_with_their_first_steps() {
    let steps: Vec<StepRecord> = (0..25).map(step).collect();
    let entry = store_turn_memory(
        "s",
        3,
        "do it",
        "done",
        true,
        &vec!["read".to_string()],
        &steps,
        &vec!["files".to_string()],
    )
    .unwrap();
    assert_eq!(entry.session_id, "s");
    assert!(entry.success);
    assert_eq!(entry.execution_steps.len(), 20);
    assert_eq!(entry.user_message.text, "do it");
}

#[test]
fn session_is_begun_and_continued() {
    let first = session_row_at(None, "s", "t0".to_string(), "hello", "hi");
    assert_eq!((first.created_at.as_str(), first.updated_at.as_str()), ("t0", "t0"));
    let before = first.message_count;
    let next = session_row_at(Some(first), "s", "t1".to_string(), "more", "yes");
    assert_eq!((next.created_at.as_str(), next.updated_at.as_str()), ("t0", "t1"));
    assert!(next.message_count > before);
    assert!(session_row(None, "s", "a", "b").updated_at.contains('T'));
}

#[test]
fn usage_is_told() {
    let events = usage_events(Some((10, 4)), Some(3), 99);
    assert_eq!(events[0].input_tokens, 10);
    assert_eq!(events[0].output_tokens, 4);
    assert_eq!(events[0].cache_hit_tokens, Some(3));
}
