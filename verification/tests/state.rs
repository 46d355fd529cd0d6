use todo_ai::cache::TaskCache;
use todo_ai::clock::{clamp_timestamp, now_timestamp, TS_MAX};
use todo_ai::config::Config;
use todo_ai::sync::{SyncCoordinator, SyncPhase};
use todo_ai::task::{title_is_valid, validate_task, Priority, Task, ValidationError};
use todo_ai::ui::{AppState, Mode};

fn task(id: &str, title: &str, position: i32) -> Task {
    Task {
        id: id.to_string(),
        title: title.to_string(),
        description: String::new(),
        done: false,
        priority: Priority::Medium,
        due_date: None,
        tags: vec![],
        created_at: 1_000,
        updated_at: 1_000,
        position,
    }
}

#[test]
fn fresh_tasks_have_defaults_and_a_full_id() {
    let t = Task::new("Buy milk".to_string());
    assert_eq!(t.id.len(), 36);
    assert_eq!(t.title, "Buy milk");
    assert_eq!(t.priority, Priority::Medium);
    assert!(!t.done);
    assert_eq!(t.due_date, None);
    assert!(t.tags.is_empty());
    assert_eq!(t.created_at, t.updated_at);
    let u = Task::new("Another".to_string());
    assert_ne!(t.id, u.id);
}

#[test]
fn titles_must_have_substance() {
    assert!(title_is_valid("Buy milk"));
    assert!(title_is_valid("  padded  "));
    assert!(!title_is_valid(""));
    assert!(!title_is_valid("   \t "));
    let mut t = task("a", "ok", 0);
    assert_eq!(validate_task(&t), Ok(()));
    t.title = "  ".to_string();
    assert_eq!(validate_task(&t), Err(ValidationError::EmptyTitle));
}

#[test]
fn timestamps_clamp_into_range() {
    assert_eq!(clamp_timestamp(-5), 0);
    assert_eq!(clamp_timestamp(12), 12);
    assert_eq!(clamp_timestamp(TS_MAX + 100), TS_MAX);
    let now = now_timestamp();
    assert!((0..=TS_MAX).contains(&now));
}

#[test]
fn cache_keys_by_id_and_replaces() {
    let mut cache = TaskCache::new();
    cache.insert(task("a", "one", 0));
    cache.insert(task("b", "two", 1));
    cache.insert(task("a", "one again", 5));
    assert_eq!(cache.get("a").map(|t| t.title.as_str()), Some("one again"));
    assert_eq!(cache.get("b").map(|t| t.title.as_str()), Some("two"));
    assert_eq!(cache.get("c").map(|t| t.title.as_str()), None);
    cache.remove("a");
    assert!(cache.get("a").is_none());
    cache.clear();
    assert!(cache.get("b").is_none());
}

#[test]
fn update_all_replaces_wholesale_and_keeps_the_last_duplicate() {
    let mut cache = TaskCache::new();
    cache.insert(task("old", "stale", 0));
    cache.update_all(vec![
        task("a", "first", 0),
        task("b", "second", 1),
        task("a", "first replaced", 2),
    ]);
    assert!(cache.get("old").is_none());
    assert_eq!(cache.get("a").map(|t| t.title.as_str()), Some("first replaced"));
    assert_eq!(cache.get("b").map(|t| t.title.as_str()), Some("second"));
}

#[test]
fn coordinator_round_ends_idle_with_a_fresh_mirror() {
    let mut c = SyncCoordinator::new();
    assert_eq!(c.phase, SyncPhase::Idle);
    c.begin_mutation();
    assert_eq!(c.phase, SyncPhase::Mutating);
    c.mutation_done(true);
    assert_eq!(c.phase, SyncPhase::Refreshing);
    c.refresh_done(vec![task("a", "A", 0)]);
    assert_eq!(c.phase, SyncPhase::Idle);
    assert_eq!(c.cache.get("a").map(|t| t.title.as_str()), Some("A"));
}

#[test]
fn read_only_round_refreshes_the_mirror() {
    let mut c = SyncCoordinator::new();
    c.begin_refresh();
    assert_eq!(c.phase, SyncPhase::Refreshing);
    c.refresh_done(vec![task("a", "A", 0)]);
    assert_eq!(c.phase, SyncPhase::Idle);
    assert_eq!(c.cache.get("a").map(|t| t.title.as_str()), Some("A"));
}

#[test]
fn failed_mutation_ends_the_round_without_touching_the_mirror() {
    let mut c = SyncCoordinator::new();
    c.begin_mutation();
    c.mutation_done(false);
    assert_eq!(c.phase, SyncPhase::Idle);
    assert!(c.cache.get("a").is_none());
}

#[test]
fn failed_refresh_keeps_the_old_mirror() {
    let mut c = SyncCoordinator::new();
    c.begin_mutation();
    c.mutation_done(true);
    c.refresh_done(vec![task("a", "A", 0)]);
    c.begin_mutation();
    c.mutation_done(true);
    c.refresh_failed();
    assert_eq!(c.phase, SyncPhase::Idle);
    assert_eq!(c.cache.get("a").map(|t| t.title.as_str()), Some("A"));
}

#[test]
fn selection_wraps_in_both_directions() {
    let mut s = AppState::new(Config::default());
    assert_eq!(s.mode, Mode::Normal);
    s.next();
    assert_eq!(s.selected, 0);
    s.tasks = vec![task("a", "A", 0), task("b", "B", 1), task("c", "C", 2)];
    s.next();
    assert_eq!(s.selected, 1);
    s.next();
    s.next();
    assert_eq!(s.selected, 0);
    s.previous();
    assert_eq!(s.selected, 2);
    s.previous();
    assert_eq!(s.selected, 1);
}

#[test]
fn status_lines_expire_after_two_seconds() {
    let mut s = AppState::new(Config::default());
    s.set_status("saved".to_string(), 100);
    s.clear_old_status(101);
    assert_eq!(s.status_message.as_deref(), Some("saved"));
    s.clear_old_status(102);
    assert_eq!(s.status_message.as_deref(), Some("saved"));
    s.clear_old_status(103);
    assert_eq!(s.status_message, None);
    assert_eq!(s.status_timer, None);
}
