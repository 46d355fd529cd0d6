use todo_ai::db::{SupabaseTask, SupabaseClient, RequestBody};
use todo_ai::task::{Priority, Task};

fn sample_task() -> Task {
    Task {
        id: "task-1".to_string(),
        title: "Water the plants".to_string(),
        description: "the ones on the balcony".to_string(),
        done: false,
        priority: Priority::Low,
        due_date: Some(86_400),
        tags: vec!["home".to_string(), "garden".to_string()],
        created_at: 1_000,
        updated_at: 2_000,
        position: 5,
    }
}

#[test]
fn priority_wire_values() {
    assert_eq!(Priority::Low.to_wire(), 1);
    assert_eq!(Priority::Medium.to_wire(), 2);
    assert_eq!(Priority::High.to_wire(), 3);
}

#[test]
fn low_priority_round_trips_through_wire_value_one() {
    let w = Priority::Low.to_wire();
    assert_eq!(w, 1);
    assert_eq!(Priority::from_wire(w), Priority::Low);
}

#[test]
fn every_priority_round_trips() {
    for p in [Priority::Low, Priority::Medium, Priority::High] {
        assert_eq!(Priority::from_wire(p.to_wire()), p);
    }
}

#[test]
fn invalid_wire_priority_decodes_to_medium() {
    assert_eq!(Priority::from_wire(9), Priority::Medium);
    assert_eq!(Priority::from_wire(0), Priority::Medium);
    assert_eq!(Priority::from_wire(-5), Priority::Medium);
    assert_eq!(Priority::from_wire(2), Priority::Medium);
}

#[test]
fn task_encodes_with_ordinal_priority_and_timestamp_text() {
    let w = SupabaseTask::from_task(&sample_task(), "user-9");
    assert_eq!(w.id, "task-1");
    assert_eq!(w.user_id, "user-9");
    assert_eq!(w.priority, 1);
    assert_eq!(w.position, 5);
    assert_eq!(w.created_at, "1970-01-01T00:16:40+00:00");
    assert_eq!(w.due_date.as_deref(), Some("1970-01-02T00:00:00+00:00"));
    assert_eq!(w.tags, vec!["home".to_string(), "garden".to_string()]);
}

#[test]
fn task_round_trips_through_the_wire() {
    let original = sample_task();
    let w = SupabaseTask::from_task(&original, "user-9");
    let back = w.to_task();
    assert_eq!(back.id, original.id);
    assert_eq!(back.title, original.title);
    assert_eq!(back.description, original.description);
    assert_eq!(back.done, original.done);
    assert_eq!(back.priority, original.priority);
    assert_eq!(back.due_date, original.due_date);
    assert_eq!(back.tags, original.tags);
    assert_eq!(back.created_at, original.created_at);
    assert_eq!(back.updated_at, original.updated_at);
    assert_eq!(back.position, original.position);
}

#[test]
fn unreadable_timestamps_decode_without_failing() {
    let w = SupabaseTask {
        id: "x".to_string(),
        user_id: "u".to_string(),
        title: "t".to_string(),
        description: String::new(),
        done: true,
        priority: 9,
        due_date: Some("not a date".to_string()),
        tags: vec![],
        created_at: "garbage".to_string(),
        updated_at: "garbage".to_string(),
        position: 0,
    };
    let t = w.to_task();
    assert_eq!(t.priority, Priority::Medium);
    assert_eq!(t.due_date, None);
    assert_eq!(t.created_at, 0);
    assert_eq!(t.updated_at, 0);
    assert!(t.done);
}

#[test]
fn update_request_stamps_the_given_time() {
    let client = SupabaseClient::new("http://store".to_string(), "key".to_string());
    let req = client.update_task(&sample_task(), 3_000);
    assert_eq!(req.url, "http://store/rest/v1/tasks");
    assert_eq!(req.query, vec![("id".to_string(), "eq.task-1".to_string())]);
    match req.body {
        RequestBody::TaskPatch { priority, updated_at, position, .. } => {
            assert_eq!(priority, 1);
            assert_eq!(updated_at, "1970-01-01T00:50:00+00:00");
            assert_eq!(position, 5);
        }
        other => panic!("unexpected body: {:?}", other),
    }
}

#[test]
fn list_request_orders_by_position() {
    let client = SupabaseClient::new("http://store".to_string(), "key".to_string());
    let req = client.get_tasks("user-9");
    assert_eq!(req.url, "http://store/rest/v1/tasks");
    assert_eq!(
        req.query,
        vec![
            ("user_id".to_string(), "eq.user-9".to_string()),
            ("order".to_string(), "position.asc".to_string()),
        ]
    );
}
