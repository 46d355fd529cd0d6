//! The ingestion engine: free text in, a task draft out — always. The
//! preferred path decodes the JSON answer of a hosted completion call; any
//! trouble on that path (no answer, unusable answer) degrades to a
//! deterministic keyword heuristic, so parsing is total.

use crate::clock::{clamp_ts, clamp_timestamp, ts_in_range};
use crate::task::{Priority, Task};
use crate::text::{
    contains_ci, remove_ci, strip_prefix_all, strip_suffix_all, text_contains_ci, trim_str,
    trim_text,
};
use vstd::prelude::*;
use vstd::string::*;

verus! {

/// Priority the offline fallback reads out of the text: "urgent" or "high"
/// anywhere (up to case) means High, otherwise "low" means Low, otherwise
/// Medium.
pub open spec fn offline_priority(s: Seq<char>) -> Priority {
    if contains_ci(s, "urgent"@) || contains_ci(s, "high"@) {
        Priority::High
    } else if contains_ci(s, "low"@) {
        Priority::Low
    } else {
        Priority::Medium
    }
}

/// Due date the offline fallback reads out of the text: "today" is now,
/// "tomorrow" one day out, "week" seven days out, otherwise none.
pub open spec fn offline_due(s: Seq<char>, now: i64) -> Option<i64> {
    if contains_ci(s, "today"@) {
        Option::Some(now)
    } else if contains_ci(s, "tomorrow"@) {
        Option::Some(clamp_ts((now + 86400) as i64))
    } else if contains_ci(s, "week"@) {
        Option::Some(clamp_ts((now + 604800) as i64))
    } else {
        Option::None
    }
}

/// The offline fallback's title: each checked keyword is removed in turn —
/// found up to ASCII case, removed from the original-case text — and the
/// rest is trimmed. This can bite into unrelated words that happen to
/// contain a keyword (say, "lowercase"); that is the heuristic's known
/// behaviour, kept as it is.
pub open spec fn offline_title(s: Seq<char>) -> Seq<char> {
    trim_text(
        remove_ci(
            remove_ci(
                remove_ci(
                    remove_ci(remove_ci(remove_ci(s, "urgent"@), "high"@), "low"@),
                    "today"@,
                ),
                "tomorrow"@,
            ),
            "week"@,
        ),
    )
}

/// What the offline fallback promises of a draft for input `s` at time
/// `now`: the priority, due date and title are exactly the ones the three
/// functions above compute — the same input always yields the same triple.
pub open spec fn offline_draft(t: Task, s: Seq<char>, now: i64) -> bool {
    &&& t.priority == offline_priority(s)
    &&& t.due_date == offline_due(s, now)
    &&& t.title@ == offline_title(s)
}

/// The offline fallback is deterministic: two drafts built from the same
/// input at the same time carry the same priority, the same due date and
/// the same title.
pub proof fn lemma_offline_deterministic(t1: Task, t2: Task, s: Seq<char>, now: i64)
    requires
        offline_draft(t1, s, now),
        offline_draft(t2, s, now),
    ensures
        t1.priority == t2.priority,
        t1.due_date == t2.due_date,
        t1.title@ == t2.title@,
{
}

/// What every draft the engine produces looks like apart from the parsed
/// triple: empty description, not done, no tags, position unset, both
/// timestamps `now`.
pub open spec fn fresh_draft(t: Task, now: i64) -> bool {
    &&& t.id@.len() == 36
    &&& t.description@ == Seq::<char>::empty()
    &&& !t.done
    &&& t.tags@ == Seq::<String>::empty()
    &&& t.created_at == now
    &&& t.updated_at == now
    &&& t.position == 0
}

/// The decode of a completion answer into its three fields — title,
/// priority word, days until due — as a function of the answer text alone.
pub uninterp spec fn draft_fields_of(s: Seq<char>) -> Option<
    (Seq<char>, Option<Seq<char>>, Option<i64>),
>;

/// The fields of the decoded answer, seen at the spec level.
pub open spec fn fields_view(r: Option<(String, Option<String>, Option<i64>)>) -> Option<
    (Seq<char>, Option<Seq<char>>, Option<i64>),
> {
    match r {
        Option::Some((t, p, d)) => Option::Some(
            (
                t@,
                match p {
                    Option::Some(ps) => Option::Some(ps@),
                    Option::None => Option::None,
                },
                d,
            ),
        ),
        Option::None => Option::None,
    }
}

/// Relies on `serde_json::from_str` and the `Value` accessors: the JSON
/// object `{title, priority?, due_days?}` read out of the answer text, a
/// function of that text alone; `None` when the text is not such an object.
#[verifier::external_body]
fn decode_draft_json(s: &str) -> (r: Option<(String, Option<String>, Option<i64>)>)
    ensures
        fields_view(r) == draft_fields_of(s@),
{
    let v: serde_json::Value = match serde_json::from_str(s) {
        Ok(v) => v,
        Err(_) => return None,
    };
    let title = match v.get("title").and_then(|t| t.as_str()) {
        Some(t) => t.to_string(),
        None => return None,
    };
    let priority = v.get("priority").and_then(|p| p.as_str()).map(|p| p.to_string());
    let due_days = v.get("due_days").and_then(|d| d.as_i64());
    Some((title, priority, due_days))
}

/// Priority named by the answer's priority field: "high" and "low" mean
/// what they say, anything else — other words, or no field — is Medium.
pub open spec fn field_priority(p: Option<Seq<char>>) -> Priority {
    match p {
        Option::Some(s) => if s == "high"@ {
            Priority::High
        } else if s == "low"@ {
            Priority::Low
        } else {
            Priority::Medium
        },
        Option::None => Priority::Medium,
    }
}

/// Days clamped to a span the timestamp arithmetic always bears.
pub open spec fn clamp_days(days: i64) -> i64 {
    if days < -3000000 {
        -3000000i64
    } else if days > 3000000 {
        3000000i64
    } else {
        days
    }
}

/// Due date named by the answer's due-days field: `now` plus that many
/// days, forced into the accepted timestamp range.
pub open spec fn field_due(d: Option<i64>, now: i64) -> Option<i64> {
    match d {
        Option::Some(days) => Option::Some(
            clamp_ts((now + clamp_days(days) * 86400) as i64),
        ),
        Option::None => Option::None,
    }
}

/// What the preferred path promises of a draft built from decoded fields
/// `f` at time `now`.
pub open spec fn fields_draft(
    t: Task,
    f: (Seq<char>, Option<Seq<char>>, Option<i64>),
    now: i64,
) -> bool {
    &&& t.title@ == f.0
    &&& t.priority == field_priority(f.1)
    &&& t.due_date == field_due(f.2, now)
}

/// The answer text after shedding Markdown code fences: trimmed, the
/// leading "```json" fences and the trailing "```" fences stripped, trimmed
/// again.
pub open spec fn cleaned_answer(s: Seq<char>) -> Seq<char> {
    trim_text(strip_suffix_all(strip_prefix_all(trim_text(s), "```json"@), "```"@))
}

/// Shed Markdown code fences from a completion answer.
fn clean_answer(s: &str) -> (r: String)
    ensures
        r@ == cleaned_answer(s@),
{
    proof {
        reveal_strlit("```json");
        reveal_strlit("```");
    }
    let t1 = trim_str(s);
    let t2 = crate::text::strip_prefix_all_str(t1.as_str(), "```json");
    let t3 = crate::text::strip_suffix_all_str(t2.as_str(), "```");
    trim_str(t3.as_str())
}

/// The text-to-task engine. It holds the credential of the hosted
/// completion endpoint; a caller makes the completion call itself and hands
/// the answer (or its absence) back in.
pub struct AIAssistant {
    pub api_key: String,
}

impl AIAssistant {
    /// An engine that will authenticate with `api_key`.
    pub fn new(api_key: String) -> (a: AIAssistant)
        ensures
            a.api_key == api_key,
    {
        AIAssistant { api_key }
    }

    /// The instruction text the completion call sends: a fixed template
    /// with the free text embedded.
    pub fn build_prompt(&self, input: &str) -> (p: String)
        ensures
            p@ == prompt_text(input@),
    {
        let mut p = String::from_str(
            "Read one line of task text and answer with a single JSON object holding these fields:\n- title: the main task (string)\n- priority: \"low\", \"medium\", or \"high\" (string, optional)\n- due_days: days from now for the due date (number, optional)\n\nInput: \"",
        );
        p.append(input);
        p.append("\"\n\nAnswer with the JSON object and nothing more.");
        p
    }

    /// The deterministic keyword heuristic: scan for priority and due-date
    /// keywords up to case, then strip every checked keyword out of the
    /// original-case text for the title.
    pub fn offline_parse(&self, input: &str, now: i64) -> (t: Task)
        requires
            ts_in_range(now),
        ensures
            offline_draft(t, input@, now),
            fresh_draft(t, now),
            t.wf(),
    {
        proof {
            reveal_strlit("urgent");
            reveal_strlit("high");
            reveal_strlit("low");
            reveal_strlit("today");
            reveal_strlit("tomorrow");
            reveal_strlit("week");
        }
        let priority = if text_contains_ci(input, "urgent") || text_contains_ci(input, "high") {
            Priority::High
        } else if text_contains_ci(input, "low") {
            Priority::Low
        } else {
            Priority::Medium
        };
        let due_date = if text_contains_ci(input, "today") {
            Option::Some(now)
        } else if text_contains_ci(input, "tomorrow") {
            Option::Some(clamp_timestamp(now + 86400))
        } else if text_contains_ci(input, "week") {
            Option::Some(clamp_timestamp(now + 604800))
        } else {
            Option::None
        };
        let title = offline_strip_title(input);
        Task {
            id: crate::task::fresh_task_id(),
            title,
            description: String::new(),
            done: false,
            priority,
            due_date,
            tags: Vec::new(),
            created_at: now,
            updated_at: now,
            position: 0,
        }
    }

    /// Turn free text into a task draft. Total: when `answer` is absent or
    /// does not decode, the offline heuristic decides, so a draft is always
    /// produced, for any input text whatsoever.
    pub fn parse_task(&self, input: &str, answer: Option<&str>, now: i64) -> (t: Task)
        requires
            ts_in_range(now),
        ensures
            match answer {
                Option::Some(a) => match draft_fields_of(cleaned_answer(a@)) {
                    Option::Some(f) => fields_draft(t, f, now),
                    Option::None => offline_draft(t, input@, now),
                },
                Option::None => offline_draft(t, input@, now),
            },
            fresh_draft(t, now),
            t.wf(),
    {
        if let Option::Some(a) = answer {
            let cleaned = clean_answer(a);
            if let Option::Some((title, priority_word, due_days)) = decode_draft_json(
                cleaned.as_str(),
            ) {
                proof {
                    reveal_strlit("high");
                    reveal_strlit("low");
                }
                let priority = match &priority_word {
                    Option::Some(w) => {
                        if crate::text::str_eq(w.as_str(), "high") {
                            Priority::High
                        } else if crate::text::str_eq(w.as_str(), "low") {
                            Priority::Low
                        } else {
                            Priority::Medium
                        }
                    },
                    Option::None => Priority::Medium,
                };
                let due_date = match due_days {
                    Option::Some(days) => {
                        let d: i64 = if days < -3000000 {
                            -3000000
                        } else if days > 3000000 {
                            3000000
                        } else {
                            days
                        };
                        Option::Some(clamp_timestamp(now + d * 86400))
                    },
                    Option::None => Option::None,
                };
                return Task {
                    id: crate::task::fresh_task_id(),
                    title,
                    description: String::new(),
                    done: false,
                    priority,
                    due_date,
                    tags: Vec::new(),
                    created_at: now,
                    updated_at: now,
                    position: 0,
                };
            }
            return self.offline_parse(input, now);
        }
        self.offline_parse(input, now)
    }
}

/// The instruction template with `input` embedded.
pub open spec fn prompt_text(input: Seq<char>) -> Seq<char> {
    "Read one line of task text and answer with a single JSON object holding these fields:\n- title: the main task (string)\n- priority: \"low\", \"medium\", or \"high\" (string, optional)\n- due_days: days from now for the due date (number, optional)\n\nInput: \""@
        + input + "\"\n\nAnswer with the JSON object and nothing more."@
}

/// Strip every checked keyword (found up to case) out of the original-case
/// text and trim the rest: the offline title.
fn offline_strip_title(input: &str) -> (r: String)
    ensures
        r@ == offline_title(input@),
{
    proof {
        reveal_strlit("urgent");
        reveal_strlit("high");
        reveal_strlit("low");
        reveal_strlit("today");
        reveal_strlit("tomorrow");
        reveal_strlit("week");
    }
    let t1 = crate::text::remove_all_ci(input, "urgent");
    let t2 = crate::text::remove_all_ci(t1.as_str(), "high");
    let t3 = crate::text::remove_all_ci(t2.as_str(), "low");
    let t4 = crate::text::remove_all_ci(t3.as_str(), "today");
    let t5 = crate::text::remove_all_ci(t4.as_str(), "tomorrow");
    let t6 = crate::text::remove_all_ci(t5.as_str(), "week");
    trim_str(t6.as_str())
}

} // verus!
