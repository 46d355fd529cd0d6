//! Local configuration: key bindings, theme and ingestion settings, with
//! the command history and the command palette of the colon-prefixed
//! command line. Reading and writing the configuration file is a caller's
//! concern; this module holds the data and its rules.

use crate::text::{contains_ci, starts_with_str, starts_with_text, str_eq, text_contains_ci};
use vstd::prelude::*;
use vstd::string::*;

verus! {

/// The abstract value of a binding table: action and key of each entry.
pub open spec fn pair_views(s: Seq<(String, String)>) -> Seq<(Seq<char>, Seq<char>)> {
    s.map_values(|p: (String, String)| (p.0@, p.1@))
}

/// First-match lookup of `action` in a binding table.
pub open spec fn binding_of(s: Seq<(Seq<char>, Seq<char>)>, action: Seq<char>) -> Option<
    Seq<char>,
>
    decreases s.len(),
{
    if s.len() == 0 {
        Option::None
    } else if s[0].0 == action {
        Option::Some(s[0].1)
    } else {
        binding_of(s.skip(1), action)
    }
}

/// A binding table with the first `action` entry rewritten to `key`, or
/// the pair appended when no entry matches.
pub open spec fn with_binding(
    s: Seq<(Seq<char>, Seq<char>)>,
    action: Seq<char>,
    key: Seq<char>,
) -> Seq<(Seq<char>, Seq<char>)>
    decreases s.len(),
{
    if s.len() == 0 {
        seq![(action, key)]
    } else if s[0].0 == action {
        seq![(action, key)] + s.skip(1)
    } else {
        seq![s[0]] + with_binding(s.skip(1), action, key)
    }
}

/// Colours of the interface.
#[derive(Clone, Debug)]
pub struct Theme {
    pub primary_color: String,
    pub secondary_color: String,
    pub accent_color: String,
}

/// Switches of the ingestion engine.
#[derive(Clone, Copy, Debug, PartialEq, Eq, Structural)]
pub struct AISettings {
    pub auto_parse: bool,
    pub offline_fallback: bool,
}

/// The persisted configuration: key bindings, theme, ingestion settings.
#[derive(Clone, Debug)]
pub struct Config {
    pub keybindings: Vec<(String, String)>,
    pub theme: Theme,
    pub ai_settings: AISettings,
}

impl Config {
    /// The key bound to `action`, taking the first matching entry.
    pub fn get_key(&self, action: &str) -> (r: Option<String>)
        ensures
            match r {
                Option::Some(k) => binding_of(pair_views(self.keybindings@), action@)
                    == Option::Some(k@),
                Option::None => binding_of(pair_views(self.keybindings@), action@) is None,
            },
    {
        let n = self.keybindings.len();
        let ghost whole = pair_views(self.keybindings@);
        let mut i: usize = 0;
        proof {
            assert(whole.skip(0) =~= whole);
        }
        while i < n
            invariant
                n == self.keybindings@.len(),
                whole == pair_views(self.keybindings@),
                0 <= i <= n,
                binding_of(whole.skip(i as int), action@) == binding_of(whole, action@),
            decreases n - i,
        {
            proof {
                assert(whole.skip(i as int)[0] == whole[i as int]);
                assert(whole.skip(i as int).skip(1) =~= whole.skip(i + 1));
            }
            if str_eq(self.keybindings[i].0.as_str(), action) {
                return Option::Some(self.keybindings[i].1.clone());
            }
            i = i + 1;
        }
        proof {
            assert(whole.skip(n as int) =~= Seq::<(Seq<char>, Seq<char>)>::empty());
        }
        Option::None
    }

    /// Bind `action` to `key`: rewrite the first matching entry, or append
    /// a new one.
    pub fn set_key(&mut self, action: &str, key: &str)
        ensures
            pair_views(final(self).keybindings@) == with_binding(
                pair_views(old(self).keybindings@),
                action@,
                key@,
            ),
            final(self).theme == old(self).theme,
            final(self).ai_settings == old(self).ai_settings,
    {
        let n = self.keybindings.len();
        let ghost whole = pair_views(old(self).keybindings@);
        let mut i: usize = 0;
        while i < n
            invariant
                n == self.keybindings@.len(),
                self.keybindings@ == old(self).keybindings@,
                whole == pair_views(self.keybindings@),
                self.theme == old(self).theme,
                self.ai_settings == old(self).ai_settings,
                0 <= i <= n,
                forall|j: int| 0 <= j < i ==> whole[j].0 != action@,
            decreases n - i,
        {
            if str_eq(self.keybindings[i].0.as_str(), action) {
                self.keybindings.set(i, (String::from_str(action), String::from_str(key)));
                proof {
                    lemma_with_binding_at(whole, action@, key@, i as int);
                    assert(pair_views(self.keybindings@) =~= whole.take(i as int) + seq![
                        (action@, key@),
                    ] + whole.skip(i + 1));
                }
                return ;
            }
            i = i + 1;
        }
        self.keybindings.push((String::from_str(action), String::from_str(key)));
        proof {
            lemma_with_binding_at(whole, action@, key@, n as int);
            assert(whole.take(n as int) =~= whole);
            assert(whole.skip(n as int) =~= Seq::<(Seq<char>, Seq<char>)>::empty());
            assert(pair_views(self.keybindings@) =~= whole.take(n as int) + seq![(action@, key@)]
                + whole.skip(n as int));
        }
    }
}

impl Default for Config {
    /// The configuration a first run starts from: the standard bindings,
    /// the standard colours, ingestion switched on with its fallback.
    fn default() -> (c: Config)
        ensures
            c.keybindings@.len() == 13,
            pair_views(c.keybindings@) == default_bindings(),
            c.theme.primary_color@ == "Cyan"@,
            c.theme.secondary_color@ == "Yellow"@,
            c.theme.accent_color@ == "Green"@,
            c.ai_settings.auto_parse,
            c.ai_settings.offline_fallback,
    {
        let mut keybindings: Vec<(String, String)> = Vec::new();
        keybindings.push((String::from_str("move_down"), String::from_str("j")));
        keybindings.push((String::from_str("move_up"), String::from_str("k")));
        keybindings.push((String::from_str("goto_top"), String::from_str("gg")));
        keybindings.push((String::from_str("goto_bottom"), String::from_str("G")));
        keybindings.push((String::from_str("toggle_done"), String::from_str("space")));
        keybindings.push((String::from_str("delete_task"), String::from_str("d")));
        keybindings.push((String::from_str("edit_task"), String::from_str("e")));
        keybindings.push((String::from_str("priority_low"), String::from_str("1")));
        keybindings.push((String::from_str("priority_medium"), String::from_str("2")));
        keybindings.push((String::from_str("priority_high"), String::from_str("3")));
        keybindings.push((String::from_str("command_mode"), String::from_str(":")));
        keybindings.push((String::from_str("help"), String::from_str("?")));
        keybindings.push((String::from_str("quit"), String::from_str("q")));
        proof {
            assert(pair_views(keybindings@) =~= default_bindings());
        }
        Config {
            keybindings,
            theme: Theme {
                primary_color: String::from_str("Cyan"),
                secondary_color: String::from_str("Yellow"),
                accent_color: String::from_str("Green"),
            },
            ai_settings: AISettings { auto_parse: true, offline_fallback: true },
        }
    }
}

/// The standard binding table, action and key each.
pub open spec fn default_bindings() -> Seq<(Seq<char>, Seq<char>)> {
    seq![
        ("move_down"@, "j"@),
        ("move_up"@, "k"@),
        ("goto_top"@, "gg"@),
        ("goto_bottom"@, "G"@),
        ("toggle_done"@, "space"@),
        ("delete_task"@, "d"@),
        ("edit_task"@, "e"@),
        ("priority_low"@, "1"@),
        ("priority_medium"@, "2"@),
        ("priority_high"@, "3"@),
        ("command_mode"@, ":"@),
        ("help"@, "?"@),
        ("quit"@, "q"@),
    ]
}

/// The command line's history: earlier commands, and a cursor that walks
/// them.
pub struct CommandHistory {
    history: Vec<String>,
    current_index: Option<usize>,
}

impl CommandHistory {
    /// The remembered commands, oldest first.
    pub closed spec fn view(self) -> Seq<Seq<char>> {
        crate::text::views_of(self.history@)
    }

    /// Where the walk stands, if one is under way.
    pub closed spec fn cursor(self) -> Option<int> {
        match self.current_index {
            Option::Some(i) => Option::Some(i as int),
            Option::None => Option::None,
        }
    }

    /// A cursor, when set, points into the history.
    pub closed spec fn wf(self) -> bool {
        match self.current_index {
            Option::Some(i) => i < self.history@.len(),
            Option::None => true,
        }
    }

    /// An empty history.
    pub fn new() -> (h: CommandHistory)
        ensures
            h@ == Seq::<Seq<char>>::empty(),
            h.cursor() is None,
            h.wf(),
    {
        let h = CommandHistory { history: Vec::new(), current_index: Option::None };
        proof {
            assert(h@ =~= Seq::<Seq<char>>::empty());
        }
        h
    }

    /// Remember `command`, unless it is empty or repeats the newest entry;
    /// either way the walk ends.
    pub fn add(&mut self, command: String)
        requires
            old(self).wf(),
        ensures
            final(self)@ == (if command@.len() > 0 && (old(self)@.len() == 0 || old(self)@.last()
                != command@) {
                old(self)@.push(command@)
            } else {
                old(self)@
            }),
            final(self).cursor() is None,
            final(self).wf(),
    {
        let n = self.history.len();
        if !command.as_str().is_empty() && (n == 0 || !str_eq(
            self.history[n - 1].as_str(),
            command.as_str(),
        )) {
            self.history.push(command);
            proof {
                assert(self@ =~= old(self)@.push(self.history@.last()@));
            }
        }
        self.current_index = Option::None;
    }

    /// Step backwards: to the newest entry when no walk is under way, else
    /// one entry older, stopping at the oldest.
    pub fn previous(&mut self) -> (r: Option<String>)
        requires
            old(self).wf(),
        ensures
            final(self)@ == old(self)@,
            final(self).wf(),
            ({
                let h = old(self)@;
                if h.len() == 0 {
                    r is None && final(self).cursor() == old(self).cursor()
                } else {
                    match old(self).cursor() {
                        Option::None => (r matches Option::Some(s) && s@ == h.last()
                            && final(self).cursor() == Option::Some(h.len() - 1)),
                        Option::Some(i) => if i > 0 {
                            r matches Option::Some(s) && s@ == h[i - 1] && final(self).cursor()
                                == Option::Some(i - 1)
                        } else {
                            r is None && final(self).cursor() == old(self).cursor()
                        },
                    }
                }
            }),
    {
        let n = self.history.len();
        if n == 0 {
            return Option::None;
        }
        let index = match self.current_index {
            Option::Some(i) => {
                if i > 0 {
                    i - 1
                } else {
                    return Option::None;
                }
            },
            Option::None => n - 1,
        };
        self.current_index = Option::Some(index);
        proof {
            assert(self.history@[index as int]@ == old(self)@[index as int]);
        }
        Option::Some(self.history[index].clone())
    }

    /// Step forwards: one entry newer, or nothing once the walk stands at
    /// the newest entry or no walk is under way.
    pub fn next(&mut self) -> (r: Option<String>)
        requires
            old(self).wf(),
        ensures
            final(self)@ == old(self)@,
            final(self).wf(),
            ({
                let h = old(self)@;
                match old(self).cursor() {
                    Option::Some(i) => if i + 1 < h.len() {
                        r matches Option::Some(s) && s@ == h[i + 1] && final(self).cursor()
                            == Option::Some(i + 1)
                    } else {
                        r is None && final(self).cursor() == old(self).cursor()
                    },
                    Option::None => r is None && final(self).cursor() == old(self).cursor(),
                }
            }),
    {
        let n = self.history.len();
        let index = match self.current_index {
            Option::Some(i) => {
                if i + 1 < n {
                    i + 1
                } else {
                    return Option::None;
                }
            },
            Option::None => {
                return Option::None;
            },
        };
        self.current_index = Option::Some(index);
        proof {
            assert(self.history@[index as int]@ == old(self)@[index as int]);
        }
        Option::Some(self.history[index].clone())
    }

    /// End the walk.
    pub fn reset(&mut self)
        ensures
            final(self)@ == old(self)@,
            final(self).cursor() is None,
            final(self).wf(),
    {
        self.current_index = Option::None;
    }
}

/// One entry of the command palette.
#[derive(Clone, Debug)]
pub struct Command {
    pub name: String,
    pub description: String,
    pub usage: String,
}

/// The abstract value of a palette entry.
pub struct CommandView {
    pub name: Seq<char>,
    pub description: Seq<char>,
    pub usage: Seq<char>,
}

impl View for Command {
    type V = CommandView;

    open spec fn view(&self) -> CommandView {
        CommandView { name: self.name@, description: self.description@, usage: self.usage@ }
    }
}

impl Command {
    /// A copy of this entry with the same abstract value.
    pub fn duplicate(&self) -> (r: Command)
        ensures
            r@ == self@,
    {
        Command {
            name: self.name.clone(),
            description: self.description.clone(),
            usage: self.usage.clone(),
        }
    }
}

/// The abstract values of the entries of `s`.
pub open spec fn views_cmds(s: Seq<Command>) -> Seq<CommandView> {
    s.map_values(|c: Command| c@)
}

/// An entry answers `query` when its name starts with it (case matters) or
/// its description contains it up to case.
pub open spec fn search_hit(c: CommandView, query: Seq<char>) -> bool {
    starts_with_text(c.name, query) || contains_ci(c.description, query)
}

/// The palette of colon commands.
pub struct CommandPalette {
    commands: Vec<Command>,
}

impl CommandPalette {
    /// The entries, in palette order.
    pub closed spec fn view(self) -> Seq<CommandView> {
        views_cmds(self.commands@)
    }

    /// The standard palette: add, done, sync, quit.
    pub fn new() -> (p: CommandPalette)
        ensures
            p@.len() == 4,
            p@[0].name == "add"@ && p@[0].description == "Add a new task"@ && p@[0].usage
                == ":add <task description>"@,
            p@[1].name == "done"@ && p@[1].description == "Mark selected task as done"@
                && p@[1].usage == ":done"@,
            p@[2].name == "sync"@ && p@[2].description == "Sync tasks with server"@ && p@[2].usage
                == ":sync"@,
            p@[3].name == "quit"@ && p@[3].description == "Quit the application"@ && p@[3].usage
                == ":quit or :q"@,
    {
        let mut commands: Vec<Command> = Vec::new();
        commands.push(
            Command {
                name: String::from_str("add"),
                description: String::from_str("Add a new task"),
                usage: String::from_str(":add <task description>"),
            },
        );
        commands.push(
            Command {
                name: String::from_str("done"),
                description: String::from_str("Mark selected task as done"),
                usage: String::from_str(":done"),
            },
        );
        commands.push(
            Command {
                name: String::from_str("sync"),
                description: String::from_str("Sync tasks with server"),
                usage: String::from_str(":sync"),
            },
        );
        commands.push(
            Command {
                name: String::from_str("quit"),
                description: String::from_str("Quit the application"),
                usage: String::from_str(":quit or :q"),
            },
        );
        CommandPalette { commands }
    }

    /// The entries that answer `query`, in palette order. An empty query
    /// answers with every entry.
    pub fn search(&self, query: &str) -> (r: Vec<Command>)
        ensures
            views_cmds(r@) == self@.filter(|c: CommandView| search_hit(c, query@)),
    {
        let n = self.commands.len();
        let mut hits: Vec<Command> = Vec::new();
        let mut i: usize = 0;
        proof {
            reveal(Seq::filter);
            assert(self@.take(0) =~= Seq::<CommandView>::empty());
            assert(views_cmds(hits@) =~= self@.take(0).filter(
                |c: CommandView| search_hit(c, query@),
            ));
        }
        while i < n
            invariant
                n == self.commands@.len(),
                0 <= i <= n,
                views_cmds(hits@) =~= self@.take(i as int).filter(
                    |c: CommandView| search_hit(c, query@),
                ),
            decreases n - i,
        {
            let cmd = &self.commands[i];
            if starts_with_str(cmd.name.as_str(), query) || text_contains_ci(
                cmd.description.as_str(),
                query,
            ) {
                hits.push(cmd.duplicate());
            }
            proof {
                reveal(Seq::filter);
                assert(self@.take(i + 1).drop_last() =~= self@.take(i as int));
                assert(self@.take(i + 1).last() == self@[i as int]);
                assert(self@[i as int] == self.commands@[i as int]@);
            }
            i = i + 1;
        }
        proof {
            assert(self@.take(n as int) =~= self@);
        }
        hits
    }

    /// Every entry, in palette order.
    pub fn get_all(&self) -> (r: Vec<Command>)
        ensures
            views_cmds(r@) == self@,
    {
        let n = self.commands.len();
        let mut all: Vec<Command> = Vec::new();
        let mut i: usize = 0;
        while i < n
            invariant
                n == self.commands@.len(),
                0 <= i <= n,
                views_cmds(all@) =~= self@.take(i as int),
            decreases n - i,
        {
            let ghost all0 = all@;
            proof {
                assert(views_cmds(all0).len() == all0.len());
                assert(all0.len() == i as int);
            }
            all.push(self.commands[i].duplicate());
            proof {
                assert(all@ == all0.push(all@.last()));
                assert(self@[i as int] == self.commands@[i as int]@);
                assert(all@.last()@ == self@[i as int]);
                assert(views_cmds(all@) =~= self@.take(i + 1));
            }
            i = i + 1;
        }
        proof {
            assert(self@.take(n as int) =~= self@);
        }
        all
    }
}

/// Unfold `with_binding` at the first match (or at the end, when nothing
/// matches): the entry lands at index `k`, everything after the match is
/// kept.
proof fn lemma_with_binding_at(s: Seq<(Seq<char>, Seq<char>)>, action: Seq<char>, key: Seq<char>, k: int)
    requires
        0 <= k <= s.len(),
        forall|j: int| 0 <= j < k ==> s[j].0 != action,
        k < s.len() ==> s[k].0 == action,
    ensures
        with_binding(s, action, key) == s.take(k) + seq![(action, key)] + s.skip(
            if k < s.len() {
                k + 1
            } else {
                k
            },
        ),
    decreases k,
{
    if k == 0 {
        if s.len() == 0 {
            assert(with_binding(s, action, key) =~= s.take(0) + seq![(action, key)] + s.skip(0));
        } else {
            assert(with_binding(s, action, key) =~= s.take(0) + seq![(action, key)] + s.skip(1));
        }
    } else {
        let t = s.skip(1);
        assert(forall|j: int| 0 <= j < t.len() ==> t[j] == s[j + 1]);
        lemma_with_binding_at(t, action, key, k - 1);
        if k < s.len() {
            assert(seq![s[0]] + (t.take(k - 1) + seq![(action, key)] + t.skip(k)) =~= s.take(k)
                + seq![(action, key)] + s.skip(k + 1));
        } else {
            assert(seq![s[0]] + (t.take(k - 1) + seq![(action, key)] + t.skip(k - 1)) =~= s.take(
                k,
            ) + seq![(action, key)] + s.skip(k));
        }
    }
}

} // verus!
