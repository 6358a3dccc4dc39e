//! Tests of the command tree, resolver, binder, argument map, dispatcher
//! and renderer.

use rustic_notes::args_map::{get_arguments_map, ArgumentMap};
use rustic_notes::binder::{collect_arguments, missing_required_child, retain_binder_tokens};
use rustic_notes::cli_command::{
    search_command, search_command_options, search_for_help_flag, search_for_version_flag,
    select_command, CliCommand, CliCommandBuilder, CliCommandOption,
};
use rustic_notes::dispatch::{dispatch, CliOutcome};

type Action = i32;

fn strings(items: &[&str]) -> Vec<String> {
    items.iter().map(|s| s.to_string()).collect()
}

fn tag_option() -> CliCommandOption {
    CliCommandOption {
        name: "tag".to_string(),
        short_name: Some("t".to_string()),
        is_flag: false,
        description: Some("Add a tag to the note".to_string()),
    }
}

fn verbose_flag() -> CliCommandOption {
    CliCommandOption {
        name: "verbose".to_string(),
        short_name: Some("v".to_string()),
        is_flag: true,
        description: None,
    }
}

/// The tree used by the scenario tests: root `app` with a required child
/// `new` that has one positional slot `note` and the `tag` option.
fn app_tree() -> CliCommand<Action> {
    let new_cmd = CliCommandBuilder::<Action>::default()
        .set_name("new")
        .add_alias("add")
        .set_description("Create a new note")
        .add_argument("note")
        .add_option(tag_option())
        .set_action(1)
        .build();
    CliCommandBuilder::<Action>::default()
        .set_name("app")
        .set_version("0.1.0")
        .set_description("A simplistic tool for managing notes")
        .add_subcommand(new_cmd)
        .build()
}

#[test]
fn builder_accumulates_every_field() {
    let cmd = CliCommandBuilder::<Action>::default()
        .set_name("app")
        .add_alias("application")
        .set_description("desc")
        .set_version("2.0")
        .set_optional(true)
        .add_argument("slot")
        .add_option(tag_option())
        .set_action(7)
        .build();
    assert_eq!(cmd.name, "app");
    assert_eq!(cmd.aliases, vec!["application".to_string()]);
    assert_eq!(cmd.description.as_deref(), Some("desc"));
    assert_eq!(cmd.version.as_deref(), Some("2.0"));
    assert!(cmd.optional);
    assert_eq!(cmd.arguments, vec!["slot".to_string()]);
    assert_eq!(cmd.options.len(), 1);
    assert_eq!(cmd.options[0].name, "tag");
    assert_eq!(cmd.action, Some(7));
    assert!(cmd.subcommands.is_empty());
}

#[test]
fn resolver_returns_root_when_nothing_matches() {
    let root = app_tree();
    let picked = select_command(&strings(&["foo", "bar", "baz"]), &root);
    assert_eq!(picked.name, "app");
}

#[test]
fn resolver_descends_by_name_and_alias() {
    let root = app_tree();
    assert_eq!(select_command(&strings(&["new"]), &root).name, "new");
    assert_eq!(select_command(&strings(&["add"]), &root).name, "new");
}

#[test]
fn resolver_skips_dash_tokens_and_unknown_tokens() {
    let root = app_tree();
    // `-new` is a dash token, never a subcommand name
    assert_eq!(select_command(&strings(&["-new"]), &root).name, "app");
    // an unknown token is skipped; a later token may still match
    assert_eq!(select_command(&strings(&["junk", "new"]), &root).name, "new");
}

#[test]
fn resolver_ignores_the_roots_own_name() {
    let root = app_tree();
    // only children are searched, never the node itself
    assert_eq!(select_command(&strings(&["app"]), &root).name, "app");
}

#[test]
fn search_command_finds_direct_children_only() {
    let grandchild = CliCommandBuilder::<Action>::default().set_name("deep").build();
    let child = CliCommandBuilder::<Action>::default()
        .set_name("mid")
        .add_subcommand(grandchild)
        .build();
    let root = CliCommandBuilder::<Action>::default()
        .set_name("top")
        .add_subcommand(child)
        .build();
    assert!(search_command("mid", &root).is_some());
    assert!(search_command("deep", &root).is_none());
    assert!(search_command("top", &root).is_none());
}

#[test]
fn positional_tokens_bind_slot_names_in_declared_order() {
    let cmd = CliCommandBuilder::<Action>::default()
        .set_name("c")
        .add_argument("first")
        .add_argument("second")
        .build();
    let bound = collect_arguments(strings(&["x", "y"]), &cmd);
    assert_eq!(
        bound,
        vec![
            ("first".to_string(), Some("x".to_string())),
            ("second".to_string(), Some("y".to_string())),
        ]
    );
}

#[test]
fn surplus_positionals_are_dropped_silently() {
    let cmd = CliCommandBuilder::<Action>::default().set_name("c").add_argument("only").build();
    let bound = collect_arguments(strings(&["x", "y", "z"]), &cmd);
    assert_eq!(bound, vec![("only".to_string(), Some("x".to_string()))]);
}

#[test]
fn unknown_options_are_dropped_without_state_change() {
    let cmd = CliCommandBuilder::<Action>::default()
        .set_name("c")
        .add_option(tag_option())
        .build();
    // the unknown --zzz changes nothing: the open slot of --tag still
    // takes the next plain token
    let bound = collect_arguments(strings(&["--tag", "--zzz", "x"]), &cmd);
    assert_eq!(bound, vec![("tag".to_string(), Some("x".to_string()))]);
}

#[test]
fn flag_option_never_consumes_the_next_token() {
    let cmd = CliCommandBuilder::<Action>::default()
        .set_name("c")
        .add_argument("pos")
        .add_option(verbose_flag())
        .build();
    let bound = collect_arguments(strings(&["--verbose", "value"]), &cmd);
    assert_eq!(
        bound,
        vec![
            ("verbose".to_string(), Some("true".to_string())),
            ("pos".to_string(), Some("value".to_string())),
        ]
    );
}

#[test]
fn value_option_left_open_at_end_binds_nothing() {
    let cmd = CliCommandBuilder::<Action>::default()
        .set_name("c")
        .add_option(tag_option())
        .build();
    let bound = collect_arguments(strings(&["--tag"]), &cmd);
    assert_eq!(bound, vec![("tag".to_string(), None)]);
    // the map defaults the missing value to the empty string
    let map = get_arguments_map(bound);
    assert_eq!(map.get("tag"), Some(&vec!["".to_string()]));
}

#[test]
fn value_option_interrupted_by_another_option_binds_nothing() {
    let cmd = CliCommandBuilder::<Action>::default()
        .set_name("c")
        .add_option(tag_option())
        .add_option(verbose_flag())
        .build();
    let bound = collect_arguments(strings(&["--tag", "--verbose", "x"]), &cmd);
    assert_eq!(
        bound,
        vec![
            ("tag".to_string(), None),
            ("verbose".to_string(), Some("true".to_string())),
        ]
    );
}

#[test]
fn short_and_long_forms_bind_the_same_key() {
    let cmd = CliCommandBuilder::<Action>::default()
        .set_name("c")
        .add_option(tag_option())
        .build();
    let by_long = collect_arguments(strings(&["--tag", "x"]), &cmd);
    let by_short = collect_arguments(strings(&["-t", "x"]), &cmd);
    assert_eq!(by_long, by_short);
    assert_eq!(by_long[0].0, "tag");
}

#[test]
fn long_token_does_not_match_a_short_name() {
    let cmd = CliCommandBuilder::<Action>::default()
        .set_name("c")
        .add_option(tag_option())
        .build();
    // `--t` looks up long names only, and `-tag` short names only
    assert_eq!(collect_arguments(strings(&["--t", "x"]), &cmd), vec![]);
    assert_eq!(collect_arguments(strings(&["-tag", "x"]), &cmd), vec![]);
}

#[test]
fn search_command_options_matches_either_form() {
    let cmd = CliCommandBuilder::<Action>::default()
        .set_name("c")
        .add_option(tag_option())
        .build();
    assert!(search_command_options("tag", &cmd).is_some());
    assert!(search_command_options("t", &cmd).is_some());
    assert!(search_command_options("x", &cmd).is_none());
}

#[test]
fn flag_searches_find_the_universal_flags_anywhere() {
    assert!(search_for_help_flag(&strings(&["new", "--help"])));
    assert!(search_for_help_flag(&strings(&["-h"])));
    assert!(!search_for_help_flag(&strings(&["--helpful"])));
    assert!(search_for_version_flag(&strings(&["--version"])));
    assert!(search_for_version_flag(&strings(&["x", "-V"])));
    assert!(!search_for_version_flag(&strings(&["-v"])));
}

#[test]
fn retained_tokens_keep_options_and_what_follows_the_command_name() {
    let kept = retain_binder_tokens(&strings(&["--tag", "x", "new", "hello"]), "new");
    // dash tokens stay wherever they are; plain tokens stay only after
    // the command's own name token
    assert_eq!(kept, strings(&["--tag", "hello"]));
}

#[test]
fn retained_tokens_without_the_name_keep_dash_tokens_and_later_tokens() {
    // the name is absent: its position defaults to zero
    let kept = retain_binder_tokens(&strings(&["a", "b", "-c"]), "missing");
    assert_eq!(kept, strings(&["b", "-c"]));
}

#[test]
fn argument_map_collects_values_in_encounter_order() {
    let mut map = ArgumentMap::new();
    map.append_value("k".to_string(), "1".to_string());
    map.append_value("other".to_string(), "x".to_string());
    map.append_value("k".to_string(), "2".to_string());
    assert_eq!(map.len(), 2);
    assert_eq!(map.get("k"), Some(&vec!["1".to_string(), "2".to_string()]));
    assert_eq!(map.get("other"), Some(&vec!["x".to_string()]));
    assert_eq!(map.get("absent"), None);
    assert!(map.contains_key("k"));
    assert!(!map.contains_key("absent"));
}

#[test]
fn missing_required_child_names_the_first_one() {
    let sub = CliCommandBuilder::<Action>::default().set_name("sub").build();
    let extra = CliCommandBuilder::<Action>::default().set_name("extra").build();
    let maybe = CliCommandBuilder::<Action>::default().set_name("maybe").set_optional(true).build();
    let root = CliCommandBuilder::<Action>::default()
        .set_name("app")
        .add_subcommand(sub)
        .add_subcommand(maybe)
        .add_subcommand(extra)
        .build();
    let none_bound: Vec<(String, Option<String>)> = vec![];
    assert_eq!(missing_required_child(&root, &none_bound), Some("sub".to_string()));
    let sub_bound = vec![("sub".to_string(), None)];
    assert_eq!(missing_required_child(&root, &sub_bound), Some("extra".to_string()));
    let both = vec![("sub".to_string(), None), ("extra".to_string(), None)];
    assert_eq!(missing_required_child(&root, &both), None);
}

#[test]
fn scenario_new_note_with_positional_and_option() {
    let root = app_tree();
    let tokens = strings(&["new", "hello", "--tag", "x"]);
    let (active, outcome) = dispatch(&root, &tokens);
    assert_eq!(active.name, "new");
    match outcome {
        CliOutcome::RunAction { map } => {
            assert_eq!(map.len(), 2);
            assert_eq!(map.get("note"), Some(&vec!["hello".to_string()]));
            assert_eq!(map.get("tag"), Some(&vec!["x".to_string()]));
        }
        other => panic!("expected RunAction, got {:?}", other),
    }
}

#[test]
fn scenario_repeated_option_without_positional() {
    let root = app_tree();
    let tokens = strings(&["new", "--tag", "x", "--tag", "y"]);
    let (active, outcome) = dispatch(&root, &tokens);
    assert_eq!(active.name, "new");
    match outcome {
        CliOutcome::RunAction { map } => {
            assert_eq!(map.len(), 1);
            assert_eq!(map.get("tag"), Some(&vec!["x".to_string(), "y".to_string()]));
            assert!(!map.contains_key("note"));
        }
        other => panic!("expected RunAction, got {:?}", other),
    }
}

#[test]
fn scenario_missing_required_child_fails_naming_it() {
    let sub = CliCommandBuilder::<Action>::default().set_name("sub").build();
    let root = CliCommandBuilder::<Action>::default()
        .set_name("app")
        .set_action(1)
        .add_subcommand(sub)
        .build();
    let (_, outcome) = dispatch(&root, &strings(&["unrelated"]));
    match outcome {
        CliOutcome::MissingRequired { name } => assert_eq!(name, "sub"),
        other => panic!("expected MissingRequired, got {:?}", other),
    }
}

#[test]
fn scenario_version_flag_prints_banner_and_binds_nothing() {
    let root = app_tree();
    let (_, outcome) = dispatch(&root, &strings(&["--version"]));
    match outcome {
        CliOutcome::ShowVersion { banner } => assert_eq!(banner, "app 0.1.0"),
        other => panic!("expected ShowVersion, got {:?}", other),
    }
}

#[test]
fn version_banner_keeps_the_space_when_version_is_unset() {
    let root = CliCommandBuilder::<Action>::default().set_name("bare").build();
    assert_eq!(root.get_version(), "bare ");
}

#[test]
fn help_flag_short_circuits_before_binding_and_handler() {
    let root = app_tree();
    // --help anywhere wins, even with a resolvable command and bindable
    // tokens present
    let (active, outcome) = dispatch(&root, &strings(&["new", "hello", "--help"]));
    assert_eq!(active.name, "new");
    match outcome {
        CliOutcome::ShowHelp { banner, help } => {
            assert_eq!(banner, "app 0.1.0");
            assert_eq!(help, active.get_help());
        }
        other => panic!("expected ShowHelp, got {:?}", other),
    }
}

#[test]
fn command_without_handler_falls_back_to_its_help() {
    let sub = CliCommandBuilder::<Action>::default().set_name("sub").set_optional(true).build();
    let root = CliCommandBuilder::<Action>::default()
        .set_name("app")
        .add_subcommand(sub)
        .build();
    let (active, outcome) = dispatch(&root, &strings(&["sub"]));
    assert_eq!(active.name, "sub");
    match outcome {
        CliOutcome::ShowCommandHelp { help } => assert_eq!(help, active.get_help()),
        other => panic!("expected ShowCommandHelp, got {:?}", other),
    }
}

#[test]
fn help_text_renders_every_section_in_order() {
    let child = CliCommandBuilder::<Action>::default()
        .set_name("new")
        .set_description("Create")
        .build();
    let root = CliCommandBuilder::<Action>::default()
        .set_name("app")
        .set_description("A tool")
        .add_subcommand(child)
        .add_option(tag_option())
        .build();
    let expected = "\nDESCRIPTION\n    A tool\n\
         \nUSAGE\n    $ app [COMMAND] [OPTIONS]\n\
         \nCOMMANDS\n    new - Create\n\
         \n    Use \"app COMMAND --help\" for more information about a command.\n\
         \nOPTIONS\n    -t, --tag <value>, Add a tag to the note\n";
    assert_eq!(root.get_help(), expected);
}

#[test]
fn help_lists_each_declaration_exactly_once() {
    let root = app_tree();
    let help = root.get_help();
    assert_eq!(help.matches("new - Create a new note").count(), 1);
    assert_eq!(help.matches("--tag <value>").count(), 0);
    let new_help = select_command(&strings(&["new"]), &root).get_help();
    assert_eq!(new_help.matches("--tag <value>").count(), 1);
}

#[test]
fn help_pads_labels_to_the_longest_and_brackets_optional_children() {
    let long = CliCommandBuilder::<Action>::default()
        .set_name("longest")
        .set_description("a")
        .build();
    let short = CliCommandBuilder::<Action>::default()
        .set_name("ls")
        .set_description("b")
        .set_optional(true)
        .build();
    let root = CliCommandBuilder::<Action>::default()
        .set_name("app")
        .set_action(9)
        .add_subcommand(long)
        .add_subcommand(short)
        .build();
    let help = root.get_help();
    // width is the longest label ("longest", 7): "[ls]" is padded to it
    assert!(help.contains("\n    longest - a\n"));
    assert!(help.contains("\n    [ls]    - b\n"));
    // the root has a handler, so the COMMAND slot is not bracketed
    assert!(help.contains("\nUSAGE\n    $ app COMMAND\n"));
}

#[test]
fn usage_line_of_a_leaf_without_options_is_bare() {
    let leaf = CliCommandBuilder::<Action>::default().set_name("leaf").build();
    assert_eq!(leaf.get_help(), "\nUSAGE\n    $ leaf\n");
}

#[test]
fn empty_token_list_resolves_the_root_and_falls_back_to_help() {
    let sub = CliCommandBuilder::<Action>::default().set_name("sub").set_optional(true).build();
    let root = CliCommandBuilder::<Action>::default()
        .set_name("app")
        .add_subcommand(sub)
        .build();
    let (active, outcome) = dispatch(&root, &vec![]);
    assert_eq!(active.name, "app");
    match outcome {
        CliOutcome::ShowCommandHelp { help } => assert_eq!(help, root.get_help()),
        other => panic!("expected ShowCommandHelp, got {:?}", other),
    }
}

#[test]
fn repeated_positionals_for_one_slot_collect_degenerately() {
    // two slots sharing one name: both bind, and the map collects both
    // values under that single key
    let cmd = CliCommandBuilder::<Action>::default()
        .set_name("c")
        .add_argument("item")
        .add_argument("item")
        .build();
    let bound = collect_arguments(strings(&["a", "b"]), &cmd);
    let map = get_arguments_map(bound);
    assert_eq!(map.len(), 1);
    assert_eq!(map.get("item"), Some(&vec!["a".to_string(), "b".to_string()]));
}
