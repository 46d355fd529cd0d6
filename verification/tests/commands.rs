use todo_ai::config::{CommandHistory, CommandPalette, Config};
use todo_ai::sync::{parse_command, UserCommand};

#[test]
fn add_joins_the_rest_of_the_line() {
    match parse_command("add buy milk") {
        UserCommand::Add(text) => assert_eq!(text, "buy milk"),
        other => panic!("unexpected command: {:?}", other),
    }
}

#[test]
fn add_normalizes_whitespace() {
    match parse_command("  add   a \t b ") {
        UserCommand::Add(text) => assert_eq!(text, "a b"),
        other => panic!("unexpected command: {:?}", other),
    }
}

#[test]
fn bare_add_does_nothing() {
    assert!(matches!(parse_command("add"), UserCommand::Nothing));
}

#[test]
fn simple_commands_parse() {
    assert!(matches!(parse_command("done"), UserCommand::Done));
    assert!(matches!(parse_command("sync"), UserCommand::Sync));
    assert!(matches!(parse_command("quit"), UserCommand::Quit));
    assert!(matches!(parse_command("q"), UserCommand::Quit));
    assert!(matches!(parse_command("config"), UserCommand::ShowConfig));
}

#[test]
fn config_with_action_and_key_sets_a_binding() {
    match parse_command("config move_down n") {
        UserCommand::SetKey(action, key) => {
            assert_eq!(action, "move_down");
            assert_eq!(key, "n");
        }
        other => panic!("unexpected command: {:?}", other),
    }
}

#[test]
fn odd_config_arity_and_unknown_words_do_nothing() {
    assert!(matches!(parse_command("config move_down"), UserCommand::Nothing));
    assert!(matches!(parse_command("frobnicate"), UserCommand::Nothing));
    assert!(matches!(parse_command(""), UserCommand::Nothing));
    assert!(matches!(parse_command("   "), UserCommand::Nothing));
}

#[test]
fn default_config_binds_the_standard_keys() {
    let config = Config::default();
    assert_eq!(config.get_key("move_down").as_deref(), Some("j"));
    assert_eq!(config.get_key("move_up").as_deref(), Some("k"));
    assert_eq!(config.get_key("toggle_done").as_deref(), Some("space"));
    assert_eq!(config.get_key("quit").as_deref(), Some("q"));
    assert_eq!(config.get_key("unknown_action"), None);
    assert_eq!(config.keybindings.len(), 13);
    assert!(config.ai_settings.auto_parse);
    assert!(config.ai_settings.offline_fallback);
    assert_eq!(config.theme.primary_color, "Cyan");
}

#[test]
fn set_key_rewrites_or_appends() {
    let mut config = Config::default();
    config.set_key("move_down", "n");
    assert_eq!(config.get_key("move_down").as_deref(), Some("n"));
    assert_eq!(config.keybindings.len(), 13);
    config.set_key("brand_new", "x");
    assert_eq!(config.get_key("brand_new").as_deref(), Some("x"));
    assert_eq!(config.keybindings.len(), 14);
}

#[test]
fn history_walks_backwards_and_forwards() {
    let mut h = CommandHistory::new();
    h.add("first".to_string());
    h.add("second".to_string());
    assert_eq!(h.previous().as_deref(), Some("second"));
    assert_eq!(h.previous().as_deref(), Some("first"));
    assert_eq!(h.previous(), None);
    assert_eq!(h.next().as_deref(), Some("second"));
    assert_eq!(h.next(), None);
    h.reset();
    assert_eq!(h.next(), None);
    assert_eq!(h.previous().as_deref(), Some("second"));
}

#[test]
fn history_skips_empty_and_repeated_commands() {
    let mut h = CommandHistory::new();
    h.add(String::new());
    assert_eq!(h.previous(), None);
    h.add("same".to_string());
    h.add("same".to_string());
    assert_eq!(h.previous().as_deref(), Some("same"));
    assert_eq!(h.previous(), None);
}

#[test]
fn palette_lists_the_four_commands() {
    let palette = CommandPalette::new();
    let all = palette.get_all();
    let names: Vec<&str> = all.iter().map(|c| c.name.as_str()).collect();
    assert_eq!(names, vec!["add", "done", "sync", "quit"]);
}

#[test]
fn palette_search_matches_name_prefixes() {
    let palette = CommandPalette::new();
    let hits = palette.search("ad");
    assert_eq!(hits.len(), 1);
    assert_eq!(hits[0].name, "add");
}

#[test]
fn palette_search_matches_descriptions_up_to_case() {
    let palette = CommandPalette::new();
    let hits = palette.search("SERVER");
    assert_eq!(hits.len(), 1);
    assert_eq!(hits[0].name, "sync");
}

#[test]
fn palette_search_with_empty_query_returns_everything() {
    let palette = CommandPalette::new();
    assert_eq!(palette.search("").len(), 4);
}
