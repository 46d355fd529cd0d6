//! The remote store client. All task and user rows reach the authoritative
//! datastore over REST; this module holds the verified compute of that
//! client: the wire codec for task rows, the request plans every operation
//! sends, password hashing and checking for the authentication flow, and the
//! interpretation of responses. The transport itself is not here: a caller
//! performs each [`StoreRequest`] and hands the plain response values back.

use crate::clock::{clamp_timestamp, clamp_ts, format_timestamp, parse_timestamp, ts_in_range, ts_parse_of, ts_text_of};
use crate::task::{priority_wire, wire_priority, Priority, Task};
use crate::text::views_of;
use vstd::prelude::*;
use vstd::string::*;

verus! {

/// A user row as the remote store returns it.
#[derive(Clone, Debug)]
pub struct SupabaseUser {
    pub id: String,
    pub username: String,
    pub email: String,
    pub password_hash: String,
    pub created_at: String,
}

/// The abstract value of a user row: every text by content.
pub struct UserView {
    pub id: Seq<char>,
    pub username: Seq<char>,
    pub email: Seq<char>,
    pub password_hash: Seq<char>,
    pub created_at: Seq<char>,
}

impl View for SupabaseUser {
    type V = UserView;

    open spec fn view(&self) -> UserView {
        UserView {
            id: self.id@,
            username: self.username@,
            email: self.email@,
            password_hash: self.password_hash@,
            created_at: self.created_at@,
        }
    }
}

/// A task row as it travels on the wire: the priority as its ordinal
/// integer, the timestamps as their textual encoding, the due date optional.
#[derive(Clone, Debug)]
pub struct SupabaseTask {
    pub id: String,
    pub user_id: String,
    pub title: String,
    pub description: String,
    pub done: bool,
    pub priority: i32,
    pub due_date: Option<String>,
    pub tags: Vec<String>,
    pub created_at: String,
    pub updated_at: String,
    pub position: i32,
}

/// The abstract value of a wire task row: every text by content.
pub struct RowView {
    pub id: Seq<char>,
    pub user_id: Seq<char>,
    pub title: Seq<char>,
    pub description: Seq<char>,
    pub done: bool,
    pub priority: i32,
    pub due_date: Option<Seq<char>>,
    pub tags: Seq<Seq<char>>,
    pub created_at: Seq<char>,
    pub updated_at: Seq<char>,
    pub position: i32,
}

impl View for SupabaseTask {
    type V = RowView;

    open spec fn view(&self) -> RowView {
        RowView {
            id: self.id@,
            user_id: self.user_id@,
            title: self.title@,
            description: self.description@,
            done: self.done,
            priority: self.priority,
            due_date: match self.due_date {
                Option::Some(s) => Option::Some(s@),
                Option::None => Option::None,
            },
            tags: views_of(self.tags@),
            created_at: self.created_at@,
            updated_at: self.updated_at@,
            position: self.position,
        }
    }
}

/// All fields of two tasks agree, texts compared by content.
pub open spec fn task_fields_match(a: Task, b: Task) -> bool {
    &&& a.id@ == b.id@
    &&& a.title@ == b.title@
    &&& a.description@ == b.description@
    &&& a.done == b.done
    &&& a.priority == b.priority
    &&& a.due_date == b.due_date
    &&& views_of(a.tags@) == views_of(b.tags@)
    &&& a.created_at == b.created_at
    &&& a.updated_at == b.updated_at
    &&& a.position == b.position
}

impl SupabaseUser {
    /// A field-for-field copy of this row.
    pub fn duplicate(&self) -> (r: SupabaseUser)
        ensures
            r == *self,
    {
        SupabaseUser {
            id: self.id.clone(),
            username: self.username.clone(),
            email: self.email.clone(),
            password_hash: self.password_hash.clone(),
            created_at: self.created_at.clone(),
        }
    }
}

impl SupabaseTask {
    /// This row is the wire encoding of task `t` owned by `user_id`.
    pub open spec fn encodes(self, t: Task, user_id: Seq<char>) -> bool {
        &&& self.id@ == t.id@
        &&& self.user_id@ == user_id
        &&& self.title@ == t.title@
        &&& self.description@ == t.description@
        &&& self.done == t.done
        &&& self.priority == priority_wire(t.priority)
        &&& match (self.due_date, t.due_date) {
            (Option::Some(s), Option::Some(d)) => s@ == ts_text_of(d),
            (Option::None, Option::None) => true,
            _ => false,
        }
        &&& views_of(self.tags@) == views_of(t.tags@)
        &&& self.created_at@ == ts_text_of(t.created_at)
        &&& self.updated_at@ == ts_text_of(t.updated_at)
        &&& self.position == t.position
    }

    /// Encode `task`, owned by `user_id`, for the wire.
    pub fn from_task(task: &Task, user_id: &str) -> (w: SupabaseTask)
        requires
            task.wf(),
        ensures
            w.encodes(*task, user_id@),
    {
        let due_text = match &task.due_date {
            Option::Some(d) => Option::Some(format_timestamp(*d)),
            Option::None => Option::None,
        };
        let tags = clone_strings(&task.tags);
        SupabaseTask {
            id: task.id.clone(),
            user_id: String::from_str(user_id),
            title: task.title.clone(),
            description: task.description.clone(),
            done: task.done,
            priority: task.priority.to_wire(),
            due_date: due_text,
            tags,
            created_at: format_timestamp(task.created_at),
            updated_at: format_timestamp(task.updated_at),
            position: task.position,
        }
    }

    /// What decoding a wire row pins down: the plain fields are copied, the
    /// priority decodes totally (unknown values to Medium), every timestamp
    /// field is exactly the named parse of its text — present and clamped
    /// when the text parses, dropped (for the due date) or the epoch (for
    /// the stamps) when it does not — and in particular any text the
    /// encoder wrote reads back as the instant it encoded.
    pub open spec fn decodes_to(self, t: Task) -> bool {
        &&& t.id@ == self.id@
        &&& t.title@ == self.title@
        &&& t.description@ == self.description@
        &&& t.done == self.done
        &&& t.priority == wire_priority(self.priority)
        &&& views_of(t.tags@) == views_of(self.tags@)
        &&& t.position == self.position
        &&& t.created_at == (match ts_parse_of(self.created_at@) {
            Option::Some(u) => clamp_ts(u),
            Option::None => 0i64,
        })
        &&& t.updated_at == (match ts_parse_of(self.updated_at@) {
            Option::Some(u) => clamp_ts(u),
            Option::None => 0i64,
        })
        &&& match self.due_date {
            Option::Some(s) => t.due_date == (match ts_parse_of(s@) {
                Option::Some(u) => Option::Some(clamp_ts(u)),
                Option::None => Option::None,
            }),
            Option::None => t.due_date.is_none(),
        }
        &&& forall|u: i64|
            ts_in_range(u) && self.created_at@ == ts_text_of(u) ==> t.created_at == u
        &&& forall|u: i64|
            ts_in_range(u) && self.updated_at@ == ts_text_of(u) ==> t.updated_at == u
        &&& match self.due_date {
            Option::Some(s) => forall|u: i64|
                ts_in_range(u) && s@ == ts_text_of(u) ==> t.due_date == Option::Some(u),
            Option::None => true,
        }
        &&& ts_in_range(t.created_at)
        &&& ts_in_range(t.updated_at)
        &&& match t.due_date {
            Option::Some(d) => ts_in_range(d),
            Option::None => true,
        }
    }

    /// A copy of this row with the same abstract value.
    pub fn duplicate(&self) -> (r: SupabaseTask)
        ensures
            r@ == self@,
    {
        SupabaseTask {
            id: self.id.clone(),
            user_id: self.user_id.clone(),
            title: self.title.clone(),
            description: self.description.clone(),
            done: self.done,
            priority: self.priority,
            due_date: match &self.due_date {
                Option::Some(s) => Option::Some(s.clone()),
                Option::None => Option::None,
            },
            tags: clone_strings(&self.tags),
            created_at: self.created_at.clone(),
            updated_at: self.updated_at.clone(),
            position: self.position,
        }
    }

    /// Decode this row into a task. Total: a wire priority outside the known
    /// range becomes Medium, an unreadable timestamp text becomes the epoch,
    /// an unreadable due date is dropped.
    pub fn to_task(&self) -> (t: Task)
        ensures
            self.decodes_to(t),
    {
        let created_at = match parse_timestamp(self.created_at.as_str()) {
            Option::Some(u) => clamp_timestamp(u),
            Option::None => 0,
        };
        let updated_at = match parse_timestamp(self.updated_at.as_str()) {
            Option::Some(u) => clamp_timestamp(u),
            Option::None => 0,
        };
        let due_date = match &self.due_date {
            Option::Some(s) => match parse_timestamp(s.as_str()) {
                Option::Some(u) => Option::Some(clamp_timestamp(u)),
                Option::None => Option::None,
            },
            Option::None => Option::None,
        };
        Task {
            id: self.id.clone(),
            title: self.title.clone(),
            description: self.description.clone(),
            done: self.done,
            priority: Priority::from_wire(self.priority),
            due_date,
            tags: clone_strings(&self.tags),
            created_at,
            updated_at,
            position: self.position,
        }
    }
}

/// Encoding then decoding a well-formed task gives back all of its fields:
/// the priority ordinal and the timestamp texts lose nothing.
pub proof fn lemma_task_codec_roundtrip(w: SupabaseTask, t0: Task, user_id: Seq<char>, t: Task)
    requires
        t0.wf(),
        w.encodes(t0, user_id),
        w.decodes_to(t),
    ensures
        task_fields_match(t, t0),
{
    crate::task::lemma_priority_roundtrip(t0.priority);
}

/// Failures of the authentication flow.
#[derive(Clone, Copy, Debug, PartialEq, Eq, Structural)]
pub enum AuthError {
    /// No user row matches the username.
    NotFound,
    /// The password does not match the stored hash.
    InvalidCredentials,
    /// The adaptive hash library refused the operation (malformed stored
    /// hash, or hashing failed locally).
    Hashing,
}

/// Failures of a remote store operation, as the client sees them.
#[derive(Clone, Debug)]
pub enum StoreError {
    /// Non-success response from the remote store; carries the response
    /// body verbatim.
    Rejected(String),
    /// A success response that did not carry the expected row.
    MissingRow,
}

/// Whether `password` matches the adaptive hash `hashtext`. The comparison
/// rereads cost and salt from `hashtext` and recomputes, so the answer is a
/// function of the two texts alone.
pub uninterp spec fn bcrypt_matches(password: Seq<char>, hashtext: Seq<char>) -> bool;

/// Whether `hashtext` is a well-formed bcrypt hash: sixty ASCII characters
/// in the `$2?$` shape, an allowed cost, valid base64 salt and digest.
/// Verification reads exactly this much out of the text before it compares,
/// so whether it can answer at all is a function of the text alone.
pub uninterp spec fn bcrypt_hash_wf(hashtext: Seq<char>) -> bool;

/// Relies on `bcrypt::hash` with the default cost: the salt is drawn
/// randomly, so nothing is assumed of the produced text itself, only what
/// bcrypt guarantees of every outcome: the hash it returns is a well-formed
/// bcrypt hash that verifies against the password it was made from.
#[verifier::external_body]
fn hash_password(password: &str) -> (r: Option<String>)
    ensures
        match r {
            Option::Some(h) => bcrypt_matches(password@, h@) && bcrypt_hash_wf(h@),
            Option::None => true,
        },
{
    bcrypt::hash(password, bcrypt::DEFAULT_COST).ok()
}

/// Relies on `bcrypt::verify`: whether `password` matches the bcrypt hash
/// `hashtext`, deterministic in its two arguments. It answers exactly when
/// the stored hash is well formed — its only failures come from reading
/// cost, salt and digest out of the hash text.
#[verifier::external_body]
fn verify_password(password: &str, hashtext: &str) -> (r: Option<bool>)
    ensures
        r is Some <==> bcrypt_hash_wf(hashtext@),
        match r {
            Option::Some(b) => b == bcrypt_matches(password@, hashtext@),
            Option::None => true,
        },
{
    bcrypt::verify(password, hashtext).ok()
}

/// How a request reaches the remote store.
#[derive(Clone, Copy, Debug, PartialEq, Eq, Structural)]
pub enum HttpMethod {
    Get,
    Post,
    Patch,
    Delete,
}

/// The JSON payload a request carries; a caller serializes it as the field
/// set of each variant.
#[derive(Clone, Debug)]
pub enum RequestBody {
    Empty,
    /// A new user row; the store assigns id and creation time.
    NewUser { username: String, email: String, password_hash: String },
    /// A full new task row.
    NewTask(SupabaseTask),
    /// A full-record update matched by id; never touches id, owner or
    /// creation time.
    TaskPatch {
        title: String,
        description: String,
        done: bool,
        priority: i32,
        due_date: Option<String>,
        tags: Vec<String>,
        updated_at: String,
        position: i32,
    },
    /// Writes only the new position.
    PositionPatch { position: i32, updated_at: String },
    /// Writes only the new done flag.
    DonePatch { done: bool, updated_at: String },
}

/// One planned call against the remote store: everything a transport needs,
/// as plain values.
#[derive(Clone, Debug)]
pub struct StoreRequest {
    pub method: HttpMethod,
    pub url: String,
    pub query: Vec<(String, String)>,
    pub api_key: String,
    pub want_representation: bool,
    pub body: RequestBody,
}

/// A `field=eq.value` filter pair.
pub open spec fn eq_filter(q: (String, String), field: Seq<char>, value: Seq<char>) -> bool {
    q.0@ == field && q.1@ == "eq."@ + value
}

/// Build the single `field=eq.value` filter for a request.
fn eq_query(field: &str, value: &str) -> (q: Vec<(String, String)>)
    ensures
        q@.len() == 1,
        eq_filter(q@[0], field@, value@),
{
    let mut v = String::from_str("eq.");
    v.append(value);
    let mut q: Vec<(String, String)> = Vec::new();
    q.push((String::from_str(field), v));
    q
}

/// The authenticated REST client for the remote store. It holds the
/// endpoint and the static service credential; every operation is planned
/// here and carried out by the caller.
pub struct SupabaseClient {
    pub base_url: String,
    pub api_key: String,
}

impl SupabaseClient {
    /// A client for the store at `base_url`, sending `api_key` with every
    /// request.
    pub fn new(base_url: String, api_key: String) -> (c: SupabaseClient)
        ensures
            c.base_url == base_url,
            c.api_key == api_key,
    {
        SupabaseClient { base_url, api_key }
    }

    /// The URL of a resource under this store.
    fn resource_url(&self, path: &str) -> (u: String)
        ensures
            u@ == self.base_url@ + path@,
    {
        let mut u = self.base_url.clone();
        u.append(path);
        u
    }

    /// Plan the registration of a new user: hash the password, then POST the
    /// row, asking for the created row to be echoed back. Fails only when
    /// hashing fails; a duplicate username is reported by the store, not
    /// detected here.
    pub fn register(&self, username: &str, email: &str, password: &str) -> (r: Result<
        StoreRequest,
        AuthError,
    >)
        ensures
            match r {
                Result::Ok(req) => {
                    &&& req.method == HttpMethod::Post
                    &&& req.url@ == self.base_url@ + "/rest/v1/users"@
                    &&& req.query@.len() == 0
                    &&& req.api_key@ == self.api_key@
                    &&& req.want_representation
                    &&& match req.body {
                        RequestBody::NewUser { username: u, email: e, password_hash: h } => {
                            &&& u@ == username@
                            &&& e@ == email@
                            &&& bcrypt_matches(password@, h@)
                            &&& bcrypt_hash_wf(h@)
                        },
                        _ => false,
                    }
                },
                Result::Err(e) => e == AuthError::Hashing,
            },
    {
        let password_hash = match hash_password(password) {
            Option::Some(h) => h,
            Option::None => {
                return Result::Err(AuthError::Hashing);
            },
        };
        Result::Ok(StoreRequest {
            method: HttpMethod::Post,
            url: self.resource_url("/rest/v1/users"),
            query: Vec::new(),
            api_key: self.api_key.clone(),
            want_representation: true,
            body: RequestBody::NewUser {
                username: String::from_str(username),
                email: String::from_str(email),
                password_hash,
            },
        })
    }

    /// Interpret the registration response: a rejected request carries the
    /// body verbatim, a success must echo the created row back.
    pub fn register_outcome(&self, success: bool, body: String, mut rows: Vec<SupabaseUser>) -> (r:
        Result<SupabaseUser, StoreError>)
        ensures
            !success ==> (r matches Result::Err(StoreError::Rejected(b)) && b == body),
            success && rows@.len() == 0 ==> r matches Result::Err(StoreError::MissingRow),
            success && rows@.len() > 0 ==> (r matches Result::Ok(u) && u == rows@[0]),
    {
        if !success {
            return Result::Err(StoreError::Rejected(body));
        }
        if rows.len() == 0 {
            return Result::Err(StoreError::MissingRow);
        }
        Result::Ok(rows.remove(0))
    }

    /// Plan the user-row fetch of the login flow: GET the rows whose
    /// username matches.
    pub fn login(&self, username: &str) -> (req: StoreRequest)
        ensures
            req.method == HttpMethod::Get,
            req.url@ == self.base_url@ + "/rest/v1/users"@,
            req.query@.len() == 1,
            eq_filter(req.query@[0], "username"@, username@),
            req.api_key@ == self.api_key@,
            !req.want_representation,
            req.body is Empty,
    {
        StoreRequest {
            method: HttpMethod::Get,
            url: self.resource_url("/rest/v1/users"),
            query: eq_query("username", username),
            api_key: self.api_key.clone(),
            want_representation: false,
            body: RequestBody::Empty,
        }
    }

    /// Decide the login from the fetched rows, a complete case analysis: no
    /// row is `NotFound`; a row whose well-formed hash the password matches
    /// is success, returning that row; a mismatch on a well-formed hash is
    /// `InvalidCredentials` — so a wrong password for an existing username
    /// is never reported as `NotFound` — and a malformed stored hash, which
    /// registration never writes, is the `Hashing` failure.
    pub fn login_outcome(&self, rows: Vec<SupabaseUser>, password: &str) -> (r: Result<
        SupabaseUser,
        AuthError,
    >)
        ensures
            (r matches Result::Err(e) && e == AuthError::NotFound) <==> rows@.len() == 0,
            r is Ok <==> rows@.len() > 0 && bcrypt_hash_wf(rows@[0].password_hash@)
                && bcrypt_matches(password@, rows@[0].password_hash@),
            r matches Result::Ok(u) ==> u == rows@[0],
            (r matches Result::Err(e) && e == AuthError::InvalidCredentials) <==> (rows@.len() > 0
                && bcrypt_hash_wf(rows@[0].password_hash@) && !bcrypt_matches(
                password@,
                rows@[0].password_hash@,
            )),
            (r matches Result::Err(e) && e == AuthError::Hashing) <==> (rows@.len() > 0
                && !bcrypt_hash_wf(rows@[0].password_hash@)),
    {
        if rows.len() == 0 {
            return Result::Err(AuthError::NotFound);
        }
        let user = &rows[0];
        match verify_password(password, user.password_hash.as_str()) {
            Option::Some(true) => Result::Ok(user.duplicate()),
            Option::Some(false) => Result::Err(AuthError::InvalidCredentials),
            Option::None => Result::Err(AuthError::Hashing),
        }
    }

    /// Plan the creation of `task` for `user_id`: POST the full wire row.
    pub fn create_task(&self, task: &Task, user_id: &str) -> (req: StoreRequest)
        requires
            task.wf(),
        ensures
            req.method == HttpMethod::Post,
            req.url@ == self.base_url@ + "/rest/v1/tasks"@,
            req.query@.len() == 0,
            req.api_key@ == self.api_key@,
            !req.want_representation,
            req.body matches RequestBody::NewTask(w) && w.encodes(*task, user_id@),
    {
        StoreRequest {
            method: HttpMethod::Post,
            url: self.resource_url("/rest/v1/tasks"),
            query: Vec::new(),
            api_key: self.api_key.clone(),
            want_representation: false,
            body: RequestBody::NewTask(SupabaseTask::from_task(task, user_id)),
        }
    }

    /// Plan the list fetch for `user_id`: GET the owner's rows, ordered by
    /// position ascending — the user's manual order, not creation time.
    pub fn get_tasks(&self, user_id: &str) -> (req: StoreRequest)
        ensures
            req.method == HttpMethod::Get,
            req.url@ == self.base_url@ + "/rest/v1/tasks"@,
            req.query@.len() == 2,
            eq_filter(req.query@[0], "user_id"@, user_id@),
            req.query@[1].0@ == "order"@,
            req.query@[1].1@ == "position.asc"@,
            req.api_key@ == self.api_key@,
            !req.want_representation,
            req.body is Empty,
    {
        let mut query = eq_query("user_id", user_id);
        query.push((String::from_str("order"), String::from_str("position.asc")));
        StoreRequest {
            method: HttpMethod::Get,
            url: self.resource_url("/rest/v1/tasks"),
            query,
            api_key: self.api_key.clone(),
            want_representation: false,
            body: RequestBody::Empty,
        }
    }

    /// Decode the rows a list fetch returned, in order.
    pub fn decode_tasks(&self, rows: &Vec<SupabaseTask>) -> (tasks: Vec<Task>)
        ensures
            tasks@.len() == rows@.len(),
            forall|i: int| 0 <= i < rows@.len() ==> rows@[i].decodes_to(#[trigger] tasks@[i]),
    {
        let mut tasks: Vec<Task> = Vec::new();
        let n = rows.len();
        let mut i: usize = 0;
        while i < n
            invariant
                n == rows@.len(),
                0 <= i <= n,
                tasks@.len() == i,
                forall|j: int| 0 <= j < i ==> rows@[j].decodes_to(#[trigger] tasks@[j]),
            decreases n - i,
        {
            tasks.push(rows[i].to_task());
            i = i + 1;
        }
        tasks
    }

    /// Plan a full-record update matched by id, stamping `updated_at` with
    /// the caller's current time `now` (the client's clock, not the
    /// server's).
    pub fn update_task(&self, task: &Task, now: i64) -> (req: StoreRequest)
        requires
            task.wf(),
            ts_in_range(now),
        ensures
            req.method == HttpMethod::Patch,
            req.url@ == self.base_url@ + "/rest/v1/tasks"@,
            req.query@.len() == 1,
            eq_filter(req.query@[0], "id"@, task.id@),
            req.api_key@ == self.api_key@,
            !req.want_representation,
            match req.body {
                RequestBody::TaskPatch {
                    title,
                    description,
                    done,
                    priority,
                    due_date,
                    tags,
                    updated_at,
                    position,
                } => {
                    &&& title@ == task.title@
                    &&& description@ == task.description@
                    &&& done == task.done
                    &&& priority == priority_wire(task.priority)
                    &&& match (due_date, task.due_date) {
                        (Option::Some(s), Option::Some(d)) => s@ == ts_text_of(d),
                        (Option::None, Option::None) => true,
                        _ => false,
                    }
                    &&& tags@ == task.tags@
                    &&& updated_at@ == ts_text_of(now)
                    &&& position == task.position
                },
                _ => false,
            },
    {
        let due_text = match &task.due_date {
            Option::Some(d) => Option::Some(format_timestamp(*d)),
            Option::None => Option::None,
        };
        StoreRequest {
            method: HttpMethod::Patch,
            url: self.resource_url("/rest/v1/tasks"),
            query: eq_query("id", task.id.as_str()),
            api_key: self.api_key.clone(),
            want_representation: false,
            body: RequestBody::TaskPatch {
                title: task.title.clone(),
                description: task.description.clone(),
                done: task.done,
                priority: task.priority.to_wire(),
                due_date: due_text,
                tags: clone_strings(&task.tags),
                updated_at: format_timestamp(now),
                position: task.position,
            },
        }
    }

    /// Plan one position write per task, in the order given. The writes are
    /// not transactional: a caller performs them in sequence and stops at
    /// the first failure, leaving the preceding writes applied.
    pub fn update_positions(&self, tasks: &Vec<Task>, now: i64) -> (reqs: Vec<StoreRequest>)
        requires
            ts_in_range(now),
        ensures
            reqs@.len() == tasks@.len(),
            forall|i: int|
                0 <= i < tasks@.len() ==> {
                    let req = #[trigger] reqs@[i];
                    &&& req.method == HttpMethod::Patch
                    &&& req.url@ == self.base_url@ + "/rest/v1/tasks"@
                    &&& req.query@.len() == 1
                    &&& eq_filter(req.query@[0], "id"@, tasks@[i].id@)
                    &&& req.api_key@ == self.api_key@
                    &&& !req.want_representation
                    &&& req.body matches RequestBody::PositionPatch { position, updated_at }
                        && position == tasks@[i].position && updated_at@ == ts_text_of(now)
                },
    {
        let mut reqs: Vec<StoreRequest> = Vec::new();
        let n = tasks.len();
        let mut i: usize = 0;
        while i < n
            invariant
                n == tasks@.len(),
                ts_in_range(now),
                0 <= i <= n,
                reqs@.len() == i,
                forall|j: int|
                    0 <= j < i ==> {
                        let req = #[trigger] reqs@[j];
                        &&& req.method == HttpMethod::Patch
                        &&& req.url@ == self.base_url@ + "/rest/v1/tasks"@
                        &&& req.query@.len() == 1
                        &&& eq_filter(req.query@[0], "id"@, tasks@[j].id@)
                        &&& req.api_key@ == self.api_key@
                        &&& !req.want_representation
                        &&& req.body matches RequestBody::PositionPatch { position, updated_at }
                            && position == tasks@[j].position && updated_at@ == ts_text_of(now)
                    },
            decreases n - i,
        {
            let task = &tasks[i];
            reqs.push(StoreRequest {
                method: HttpMethod::Patch,
                url: self.resource_url("/rest/v1/tasks"),
                query: eq_query("id", task.id.as_str()),
                api_key: self.api_key.clone(),
                want_representation: false,
                body: RequestBody::PositionPatch {
                    position: task.position,
                    updated_at: format_timestamp(now),
                },
            });
            i = i + 1;
        }
        reqs
    }

    /// Plan the deletion of the task row with `task_id`.
    pub fn delete_task(&self, task_id: &str) -> (req: StoreRequest)
        ensures
            req.method == HttpMethod::Delete,
            req.url@ == self.base_url@ + "/rest/v1/tasks"@,
            req.query@.len() == 1,
            eq_filter(req.query@[0], "id"@, task_id@),
            req.api_key@ == self.api_key@,
            !req.want_representation,
            req.body is Empty,
    {
        StoreRequest {
            method: HttpMethod::Delete,
            url: self.resource_url("/rest/v1/tasks"),
            query: eq_query("id", task_id),
            api_key: self.api_key.clone(),
            want_representation: false,
            body: RequestBody::Empty,
        }
    }

    /// Plan a toggle of the done flag: the new value is computed here, on
    /// the client, as the negation of `current_status` — last write wins.
    pub fn toggle_done(&self, task_id: &str, current_status: bool, now: i64) -> (req: StoreRequest)
        requires
            ts_in_range(now),
        ensures
            req.method == HttpMethod::Patch,
            req.url@ == self.base_url@ + "/rest/v1/tasks"@,
            req.query@.len() == 1,
            eq_filter(req.query@[0], "id"@, task_id@),
            req.api_key@ == self.api_key@,
            !req.want_representation,
            req.body matches RequestBody::DonePatch { done, updated_at } && done
                == !current_status && updated_at@ == ts_text_of(now),
    {
        StoreRequest {
            method: HttpMethod::Patch,
            url: self.resource_url("/rest/v1/tasks"),
            query: eq_query("id", task_id),
            api_key: self.api_key.clone(),
            want_representation: false,
            body: RequestBody::DonePatch { done: !current_status, updated_at: format_timestamp(now) },
        }
    }

    /// Interpret a response that carries no representation: success is `Ok`,
    /// anything else surfaces the body verbatim, with no retry.
    pub fn plain_outcome(&self, success: bool, body: String) -> (r: Result<(), StoreError>)
        ensures
            success <==> r is Ok,
            !success ==> (r matches Result::Err(StoreError::Rejected(b)) && b == body),
    {
        if success {
            Result::Ok(())
        } else {
            Result::Err(StoreError::Rejected(body))
        }
    }
}

/// A field-for-field copy of a vector of strings.
fn clone_strings(v: &Vec<String>) -> (r: Vec<String>)
    ensures
        r@ == v@,
{
    let mut r: Vec<String> = Vec::new();
    let n = v.len();
    let mut i: usize = 0;
    while i < n
        invariant
            n == v@.len(),
            0 <= i <= n,
            r@ =~= v@.take(i as int),
        decreases n - i,
    {
        r.push(v[i].clone());
        proof {
            assert(r@ =~= v@.take(i + 1));
        }
        i = i + 1;
    }
    proof {
        assert(v@.take(n as int) =~= v@);
    }
    r
}

} // verus!
