use todo_ai::ai::AIAssistant;
use todo_ai::task::Priority;

const NOW: i64 = 1_000_000;

#[test]
fn offline_urgent_tomorrow() {
    let engine = AIAssistant::new(String::new());
    let t = engine.parse_task("urgent buy milk tomorrow", None, NOW);
    assert_eq!(t.priority, Priority::High);
    assert_eq!(t.due_date, Some(NOW + 86_400));
    assert_eq!(t.title, "buy milk");
}

#[test]
fn offline_empty_input_still_yields_a_draft() {
    let engine = AIAssistant::new(String::new());
    let t = engine.parse_task("", None, NOW);
    assert_eq!(t.priority, Priority::Medium);
    assert_eq!(t.due_date, None);
    assert_eq!(t.title, "");
    assert!(!t.done);
    assert_eq!(t.created_at, NOW);
    assert_eq!(t.updated_at, NOW);
}

#[test]
fn offline_is_deterministic() {
    let engine = AIAssistant::new(String::new());
    let a = engine.offline_parse("low water the plants week", NOW);
    let b = engine.offline_parse("low water the plants week", NOW);
    assert_eq!(a.priority, b.priority);
    assert_eq!(a.due_date, b.due_date);
    assert_eq!(a.title, b.title);
    assert_eq!(a.priority, Priority::Low);
    assert_eq!(a.due_date, Some(NOW + 604_800));
    assert_eq!(a.title, "water the plants");
}

#[test]
fn offline_keyword_bites_into_unrelated_words() {
    let engine = AIAssistant::new(String::new());
    let t = engine.offline_parse("lowercase stuff", NOW);
    assert_eq!(t.priority, Priority::Low);
    assert_eq!(t.title, "ercase stuff");
}

#[test]
fn offline_search_folds_case_but_removes_original_text() {
    let engine = AIAssistant::new(String::new());
    let t = engine.offline_parse("URGENT call the bank Today", NOW);
    assert_eq!(t.priority, Priority::High);
    assert_eq!(t.due_date, Some(NOW));
    assert_eq!(t.title, "call the bank");
}

#[test]
fn answer_with_code_fences_decodes() {
    let engine = AIAssistant::new(String::new());
    let answer = "```json\n{\"title\": \"Do the thing\", \"priority\": \"high\", \"due_days\": 2}\n```";
    let t = engine.parse_task("ignored", Some(answer), NOW);
    assert_eq!(t.title, "Do the thing");
    assert_eq!(t.priority, Priority::High);
    assert_eq!(t.due_date, Some(NOW + 2 * 86_400));
}

#[test]
fn repeated_code_fences_are_all_shed() {
    let engine = AIAssistant::new(String::new());
    let answer = "```json```json{\"title\": \"X\"}``````";
    let t = engine.parse_task("ignored", Some(answer), NOW);
    assert_eq!(t.title, "X");
}

#[test]
fn answer_without_due_days_or_priority_defaults() {
    let engine = AIAssistant::new(String::new());
    let answer = "{\"title\": \"Plain\"}";
    let t = engine.parse_task("ignored", Some(answer), NOW);
    assert_eq!(t.title, "Plain");
    assert_eq!(t.priority, Priority::Medium);
    assert_eq!(t.due_date, None);
}

#[test]
fn unknown_priority_word_means_medium() {
    let engine = AIAssistant::new(String::new());
    let answer = "{\"title\": \"X\", \"priority\": \"soon\"}";
    let t = engine.parse_task("ignored", Some(answer), NOW);
    assert_eq!(t.priority, Priority::Medium);
}

#[test]
fn unusable_answer_falls_back_to_offline() {
    let engine = AIAssistant::new(String::new());
    let t = engine.parse_task("low fix the sink", Some("this is not json"), NOW);
    assert_eq!(t.priority, Priority::Low);
    assert_eq!(t.title, "fix the sink");
}

#[test]
fn answer_missing_title_falls_back_to_offline() {
    let engine = AIAssistant::new(String::new());
    let t = engine.parse_task("high thing", Some("{\"priority\": \"low\"}"), NOW);
    assert_eq!(t.priority, Priority::High);
    assert_eq!(t.title, "thing");
}

#[test]
fn prompt_embeds_the_input() {
    let engine = AIAssistant::new(String::new());
    let p = engine.build_prompt("walk the dog");
    assert!(p.contains("Input: \"walk the dog\""));
    assert!(p.starts_with("Read one line of task text"));
    assert!(p.ends_with("Answer with the JSON object and nothing more."));
}

#[test]
fn huge_due_days_stays_in_range() {
    let engine = AIAssistant::new(String::new());
    let answer = "{\"title\": \"far\", \"due_days\": 99999999999}";
    let t = engine.parse_task("ignored", Some(answer), NOW);
    let due = t.due_date.expect("a due date");
    assert!(due <= 253_402_300_799);
}
