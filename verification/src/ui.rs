//! The interface's state: the task list on display, the selection, the
//! input modes and the transient status line. Drawing it is a caller's
//! concern; this module holds the state and the rules that move it.

use crate::clock::ts_in_range;
use crate::config::{CommandHistory, Config};
use crate::db::{SupabaseClient, SupabaseUser};
use crate::task::Task;
use vstd::prelude::*;
use vstd::string::*;

verus! {

/// What the keyboard currently drives.
#[derive(Clone, Copy, Debug, PartialEq, Eq, Structural)]
pub enum Mode {
    Normal,
    Command,
    Edit,
    Login,
    Register,
}

/// Everything the interface shows and edits.
pub struct AppState {
    pub tasks: Vec<Task>,
    pub selected: usize,
    pub mode: Mode,
    pub command_input: String,
    pub show_help: bool,
    pub editing_task: Option<String>,
    pub current_user: Option<SupabaseUser>,
    pub config: Config,
    pub command_history: CommandHistory,
    pub status_message: Option<String>,
    pub supabase: Option<SupabaseClient>,
    pub status_timer: Option<i64>,
}

/// A status stamped at `t` has outstayed its two seconds by `now`.
pub open spec fn status_expired(t: i64, now: i64) -> bool {
    0 <= t && t < now && now - t > 2
}

impl AppState {
    /// A fresh state: nothing listed, nothing selected, normal mode, the
    /// given configuration.
    pub fn new(config: Config) -> (s: AppState)
        ensures
            s.tasks@ == Seq::<Task>::empty(),
            s.selected == 0,
            s.mode == Mode::Normal,
            s.command_input@ == Seq::<char>::empty(),
            !s.show_help,
            s.editing_task is None,
            s.current_user is None,
            s.config == config,
            s.command_history@ == Seq::<Seq<char>>::empty(),
            s.command_history.cursor() is None,
            s.command_history.wf(),
            s.status_message is None,
            s.supabase is None,
            s.status_timer is None,
    {
        AppState {
            tasks: Vec::new(),
            selected: 0,
            mode: Mode::Normal,
            command_input: String::new(),
            show_help: false,
            editing_task: Option::None,
            current_user: Option::None,
            config,
            command_history: CommandHistory::new(),
            status_message: Option::None,
            supabase: Option::None,
            status_timer: Option::None,
        }
    }

    /// Step the selection down, wrapping past the end.
    pub fn next(&mut self)
        requires
            old(self).selected < usize::MAX,
        ensures
            final(self).selected == (if old(self).tasks@.len() == 0 {
                old(self).selected as int
            } else {
                (old(self).selected + 1) % (old(self).tasks@.len() as int)
            }),
            final(self).tasks == old(self).tasks,
            final(self).mode == old(self).mode,
    {
        if self.tasks.len() > 0 {
            self.selected = (self.selected + 1) % self.tasks.len();
        }
    }

    /// Step the selection up, wrapping past the start.
    pub fn previous(&mut self)
        ensures
            final(self).selected == (if old(self).tasks@.len() == 0 {
                old(self).selected as int
            } else if old(self).selected > 0 {
                old(self).selected - 1
            } else {
                old(self).tasks@.len() - 1
            }),
            final(self).tasks == old(self).tasks,
            final(self).mode == old(self).mode,
    {
        if self.tasks.len() > 0 {
            if self.selected > 0 {
                self.selected = self.selected - 1;
            } else {
                self.selected = self.tasks.len() - 1;
            }
        }
    }

    /// Show a transient status line, stamped `now`.
    pub fn set_status(&mut self, message: String, now: i64)
        ensures
            final(self).status_message matches Option::Some(m) && m == message,
            final(self).status_timer == Option::Some(now),
            final(self).tasks == old(self).tasks,
            final(self).selected == old(self).selected,
            final(self).mode == old(self).mode,
    {
        self.status_message = Option::Some(message);
        self.status_timer = Option::Some(now);
    }

    /// Drop the status line once it has been shown for two seconds.
    pub fn clear_old_status(&mut self, now: i64)
        requires
            ts_in_range(now),
        ensures
            match old(self).status_timer {
                Option::Some(t) => if status_expired(t, now) {
                    final(self).status_message is None && final(self).status_timer is None
                } else {
                    final(self).status_message == old(self).status_message
                        && final(self).status_timer == old(self).status_timer
                },
                Option::None => final(self).status_message == old(self).status_message
                    && final(self).status_timer == old(self).status_timer,
            },
            final(self).tasks == old(self).tasks,
            final(self).selected == old(self).selected,
            final(self).mode == old(self).mode,
    {
        if let Option::Some(t) = self.status_timer {
            if 0 <= t && t < now && now - t > 2 {
                self.status_message = Option::None;
                self.status_timer = Option::None;
            }
        }
    }
}

} // verus!
