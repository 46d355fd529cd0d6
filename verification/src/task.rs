//! The task record model: ordinal priority with its wire codec, and the
//! canonical in-memory task representation.

use crate::clock::{now_timestamp, ts_in_range};
use crate::text::trim_text;
use vstd::prelude::*;
use vstd::string::*;

verus! {

/// Ordinal priority of a task. On the wire it travels as the integers
/// 1 (low), 2 (medium), 3 (high).
#[derive(Clone, Copy, Debug, PartialEq, Eq, Structural)]
pub enum Priority {
    Low,
    Medium,
    High,
}

/// Wire integer for a priority: Low is 1, Medium 2, High 3.
pub open spec fn priority_wire(p: Priority) -> i32 {
    match p {
        Priority::Low => 1,
        Priority::Medium => 2,
        Priority::High => 3,
    }
}

/// Total decode of a wire integer: 1 is Low, 3 is High, everything else
/// (2 included) is Medium. Never an error.
pub open spec fn wire_priority(w: i32) -> Priority {
    if w == 1 {
        Priority::Low
    } else if w == 3 {
        Priority::High
    } else {
        Priority::Medium
    }
}

impl Priority {
    /// Encode this priority as its wire integer.
    pub fn to_wire(self) -> (w: i32)
        ensures
            w == priority_wire(self),
    {
        match self {
            Priority::Low => 1,
            Priority::Medium => 2,
            Priority::High => 3,
        }
    }

    /// Decode a wire integer; out-of-range values default to Medium.
    pub fn from_wire(w: i32) -> (p: Priority)
        ensures
            p == wire_priority(w),
    {
        if w == 1 {
            Priority::Low
        } else if w == 3 {
            Priority::High
        } else {
            Priority::Medium
        }
    }
}

/// Every priority survives the trip onto the wire and back.
pub proof fn lemma_priority_roundtrip(p: Priority)
    ensures
        wire_priority(priority_wire(p)) == p,
{
}

/// The canonical in-memory representation of a task. Instants are whole
/// seconds since the Unix epoch; `position` defines the user's manual
/// display order, distinct from creation time.
#[derive(Clone, Debug)]
pub struct Task {
    pub id: String,
    pub title: String,
    pub description: String,
    pub done: bool,
    pub priority: Priority,
    pub due_date: Option<i64>,
    pub tags: Vec<String>,
    pub created_at: i64,
    pub updated_at: i64,
    pub position: i32,
}

/// A usable task title: non-empty once whitespace is trimmed away.
pub open spec fn valid_title(s: Seq<char>) -> bool {
    trim_text(s).len() > 0
}

impl Task {
    /// Well-formedness: timestamps lie in the accepted range, and a task is
    /// never updated before it was created.
    pub open spec fn wf(self) -> bool {
        &&& ts_in_range(self.created_at)
        &&& ts_in_range(self.updated_at)
        &&& self.created_at <= self.updated_at
        &&& match self.due_date {
            Some(d) => ts_in_range(d),
            None => true,
        }
    }

    /// A fresh task: new identifier, medium priority, not done, no due date,
    /// no tags, created and updated now.
    pub fn new(title: String) -> (t: Task)
        ensures
            t.id@.len() == 36,
            t.title == title,
            t.description@ == Seq::<char>::empty(),
            !t.done,
            t.priority == Priority::Medium,
            t.due_date.is_none(),
            t.tags@ == Seq::<String>::empty(),
            t.created_at == t.updated_at,
            t.position == 0,
            t.wf(),
    {
        let now = now_timestamp();
        Task {
            id: fresh_task_id(),
            title,
            description: String::new(),
            done: false,
            priority: Priority::Medium,
            due_date: None,
            tags: Vec::new(),
            created_at: now,
            updated_at: now,
            position: 0,
        }
    }
}

/// Whether `title` is usable for a task.
pub fn title_is_valid(title: &str) -> (ok: bool)
    ensures
        ok == valid_title(title@),
{
    let trimmed = crate::text::trim_str(title);
    !trimmed.as_str().is_empty()
}

/// Rejection of malformed local input, found before any request is made.
#[derive(Clone, Copy, Debug, PartialEq, Eq, Structural)]
pub enum ValidationError {
    /// The title is empty once whitespace is trimmed away.
    EmptyTitle,
}

/// Check a draft before it is submitted: a task must carry a usable title;
/// everything else about a draft is already constrained by construction.
pub fn validate_task(t: &Task) -> (r: Result<(), ValidationError>)
    ensures
        r is Ok <==> valid_title(t.title@),
        !valid_title(t.title@) ==> r == Result::<(), ValidationError>::Err(
            ValidationError::EmptyTitle,
        ),
{
    if title_is_valid(t.title.as_str()) {
        Result::Ok(())
    } else {
        Result::Err(ValidationError::EmptyTitle)
    }
}

/// Relies on `uuid::Uuid::new_v4` and its hyphenated `Display`: a freshly
/// drawn random identifier, rendered as the 36-character hyphenated form.
/// The draw is random, so nothing more is assumed of the value.
#[verifier::external_body]
pub(crate) fn fresh_task_id() -> (r: String)
    ensures
        r@.len() == 36,
{
    uuid::Uuid::new_v4().to_string()
}

} // verus!
