use todo_ai::db::{RequestBody, SupabaseClient, SupabaseTask};
use todo_ai::model::StoreModel;
use todo_ai::sync::{applied_prefix, plan_reorder};
use todo_ai::task::{Priority, Task};

fn task(id: &str, title: &str, position: i32) -> Task {
    Task {
        id: id.to_string(),
        title: title.to_string(),
        description: String::new(),
        done: false,
        priority: Priority::Medium,
        due_date: None,
        tags: vec![],
        created_at: 1_000,
        updated_at: 1_000,
        position,
    }
}

#[test]
fn create_then_list_shows_the_record() {
    let mut store = StoreModel::new();
    let t = task("t1", "Buy milk", 0);
    store.create_row(SupabaseTask::from_task(&t, "u1"));
    let listed = store.list_for("u1");
    assert_eq!(listed.len(), 1);
    let back = listed[0].to_task();
    assert_eq!(back.id, t.id);
    assert_eq!(back.title, t.title);
    assert_eq!(back.priority, t.priority);
    assert_eq!(back.due_date, t.due_date);
    assert_eq!(back.created_at, t.created_at);
}

#[test]
fn listing_is_scoped_to_the_owner() {
    let mut store = StoreModel::new();
    store.create_row(SupabaseTask::from_task(&task("t1", "mine", 0), "u1"));
    store.create_row(SupabaseTask::from_task(&task("t2", "theirs", 0), "u2"));
    let listed = store.list_for("u1");
    assert_eq!(listed.len(), 1);
    assert_eq!(listed[0].id, "t1");
}

#[test]
fn listing_orders_by_position_not_creation() {
    let mut store = StoreModel::new();
    store.create_row(SupabaseTask::from_task(&task("t1", "third", 2), "u1"));
    store.create_row(SupabaseTask::from_task(&task("t2", "first", 0), "u1"));
    store.create_row(SupabaseTask::from_task(&task("t3", "second", 1), "u1"));
    let listed = store.list_for("u1");
    let ids: Vec<&str> = listed.iter().map(|w| w.id.as_str()).collect();
    assert_eq!(ids, vec!["t2", "t3", "t1"]);
}

#[test]
fn reorder_then_list_returns_submitted_order() {
    let mut store = StoreModel::new();
    let a = task("a", "A", 0);
    let b = task("b", "B", 1);
    let c = task("c", "C", 2);
    for t in [&a, &b, &c] {
        store.create_row(SupabaseTask::from_task(t, "u1"));
    }
    // move B in front of A: [A, B, C] becomes [B, A, C]
    let submitted = plan_reorder(vec![a, b, c], 1, 0);
    let submitted_ids: Vec<&str> = submitted.iter().map(|t| t.id.as_str()).collect();
    assert_eq!(submitted_ids, vec!["b", "a"]);
    assert_eq!(submitted[0].position, 0);
    assert_eq!(submitted[1].position, 1);
    for t in &submitted {
        store.patch_position(t.id.as_str(), t.position, "1970-01-01T01:00:00+00:00");
    }
    let listed = store.list_for("u1");
    let ids: Vec<&str> = listed.iter().map(|w| w.id.as_str()).collect();
    assert_eq!(ids, vec!["b", "a", "c"]);
}

#[test]
fn reorder_moving_down_recomputes_the_whole_range() {
    let tasks = vec![
        task("a", "A", 0),
        task("b", "B", 1),
        task("c", "C", 2),
        task("d", "D", 3),
    ];
    // move A to the third slot: [B, C, A, D]
    let submitted = plan_reorder(tasks, 0, 2);
    let ids: Vec<&str> = submitted.iter().map(|t| t.id.as_str()).collect();
    assert_eq!(ids, vec!["b", "c", "a"]);
    let positions: Vec<i32> = submitted.iter().map(|t| t.position).collect();
    assert_eq!(positions, vec![0, 1, 2]);
}

#[test]
fn toggle_twice_restores_the_done_flag() {
    let mut store = StoreModel::new();
    let t = task("t1", "Buy milk", 0);
    store.create_row(SupabaseTask::from_task(&t, "u1"));
    let client = SupabaseClient::new("http://store".to_string(), "key".to_string());

    let first = client.toggle_done("t1", false, 2_000);
    let flips_to = match first.body {
        RequestBody::DonePatch { done, .. } => done,
        other => panic!("unexpected body: {:?}", other),
    };
    assert!(flips_to);
    store.patch_done("t1", flips_to, "stamp1");
    assert!(store.list_for("u1")[0].done);

    let second = client.toggle_done("t1", flips_to, 3_000);
    let flips_back = match second.body {
        RequestBody::DonePatch { done, .. } => done,
        other => panic!("unexpected body: {:?}", other),
    };
    assert!(!flips_back);
    store.patch_done("t1", flips_back, "stamp2");
    assert!(!store.list_for("u1")[0].done);
}

#[test]
fn full_record_update_keeps_identity_owner_and_creation_time() {
    let mut store = StoreModel::new();
    let original = task("t1", "Before", 0);
    store.create_row(SupabaseTask::from_task(&original, "u1"));
    let wire_before = store.list_for("u1").remove(0);

    let mut changed = original.clone();
    changed.title = "After".to_string();
    changed.done = true;
    changed.priority = Priority::High;
    changed.position = 7;
    let client = SupabaseClient::new("http://store".to_string(), "key".to_string());
    let req = client.update_task(&changed, 5_000);
    let patch_row = match req.body {
        RequestBody::TaskPatch {
            title,
            description,
            done,
            priority,
            due_date,
            tags,
            updated_at,
            position,
        } => SupabaseTask {
            id: String::new(),
            user_id: String::new(),
            title,
            description,
            done,
            priority,
            due_date,
            tags,
            created_at: String::new(),
            updated_at,
            position,
        },
        other => panic!("unexpected body: {:?}", other),
    };
    store.patch_task("t1", &patch_row);

    let after = store.list_for("u1").remove(0);
    assert_eq!(after.title, "After");
    assert!(after.done);
    assert_eq!(after.priority, 3);
    assert_eq!(after.position, 7);
    assert_eq!(after.updated_at, "1970-01-01T01:23:20+00:00");
    assert_eq!(after.id, wire_before.id);
    assert_eq!(after.user_id, wire_before.user_id);
    assert_eq!(after.created_at, wire_before.created_at);
}

#[test]
fn delete_removes_the_row() {
    let mut store = StoreModel::new();
    store.create_row(SupabaseTask::from_task(&task("t1", "x", 0), "u1"));
    store.create_row(SupabaseTask::from_task(&task("t2", "y", 1), "u1"));
    store.delete_row("t1");
    let listed = store.list_for("u1");
    assert_eq!(listed.len(), 1);
    assert_eq!(listed[0].id, "t2");
}

#[test]
fn update_positions_plans_one_patch_per_record() {
    let client = SupabaseClient::new("http://store".to_string(), "key".to_string());
    let tasks = vec![task("a", "A", 0), task("b", "B", 1)];
    let reqs = client.update_positions(&tasks, 5_000);
    assert_eq!(reqs.len(), 2);
    for (req, t) in reqs.iter().zip(tasks.iter()) {
        assert_eq!(req.query, vec![("id".to_string(), format!("eq.{}", t.id))]);
        match &req.body {
            RequestBody::PositionPatch { position, .. } => assert_eq!(*position, t.position),
            other => panic!("unexpected body: {:?}", other),
        }
    }
}

#[test]
fn applied_prefix_reports_partial_success() {
    assert_eq!(applied_prefix(&vec![true, true, false, true]), 2);
    assert_eq!(applied_prefix(&vec![true, true]), 2);
    assert_eq!(applied_prefix(&vec![false]), 0);
    assert_eq!(applied_prefix(&vec![]), 0);
}
