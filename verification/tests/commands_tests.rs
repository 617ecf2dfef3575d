//! Command metadata, lookup and parse errors.

use brp_tool::commands::{
    commands_by_category, extract_command_from_error, find_command_by_name, normalize_command_name,
    parse_command_string, parse_entity_arg, CommandCategory, CommandParseError, CommandTemplate,
    Commands,
};

#[test]
fn test_names_and_primary() {
    let cmd = Commands::List;
    assert_eq!(cmd.names(), vec!["bevy/list", "list"]);
    assert_eq!(cmd.primary_name(), "bevy/list");
    assert_eq!(cmd.brief_description(), "List all component types in the world");
    assert_eq!(Commands::Ready.names(), vec!["ready"]);
    assert_eq!(Commands::Shutdown.primary_name(), "brp_tool/shutdown");
}

#[test]
fn test_categories() {
    assert_eq!(Commands::List.category(), CommandCategory::BevyEntity);
    assert_eq!(
        Commands::ListResources.category(),
        CommandCategory::BevyResource
    );
    assert_eq!(
        Commands::ListWatch { entity: 0 }.category(),
        CommandCategory::BevyWatch
    );
    assert_eq!(Commands::Shutdown.category(), CommandCategory::BrpTool);
    assert_eq!(Commands::Ready.category(), CommandCategory::Special);
}

#[test]
fn test_template_to_command() {
    assert_eq!(
        CommandTemplate::Destroy.to_command(),
        Some(Commands::Destroy { entity: 0 })
    );
    assert_eq!(CommandTemplate::List.to_command(), Some(Commands::List));
}

#[test]
fn test_normalize_command_name() {
    assert_eq!(normalize_command_name("list"), "bevy/list");
    assert_eq!(normalize_command_name("screenshot"), "brp_tool/screenshot");
    assert_eq!(normalize_command_name("schema"), "bevy/registry/schema");
    assert_eq!(normalize_command_name("bevy/list"), "bevy/list");
    assert_eq!(normalize_command_name("ready"), "ready");
    assert_eq!(normalize_command_name("no_such_command"), "no_such_command");
}

#[test]
fn test_find_command_by_name() {
    assert_eq!(find_command_by_name("list"), Some(Commands::List));
    assert_eq!(find_command_by_name("bevy/list"), Some(Commands::List));
    assert_eq!(
        find_command_by_name("get"),
        Some(Commands::Get {
            entity: 0,
            component: String::new()
        })
    );
    assert_eq!(find_command_by_name("no_such_command"), None);
}

#[test]
fn test_commands_by_category_shape() {
    let cats = commands_by_category();
    assert_eq!(cats.len(), 5);
    assert_eq!(cats[0].0, CommandCategory::BevyEntity);
    assert_eq!(cats[0].1.len(), 12);
    // alphabetical by short name within the category
    assert_eq!(cats[0].1[0], Commands::Destroy { entity: 0 });
    assert_eq!(cats[0].1[11].primary_name(), "bevy/spawn");
    assert_eq!(cats[1].0, CommandCategory::BevyResource);
    assert_eq!(cats[1].1.len(), 5);
    assert_eq!(cats[2].0, CommandCategory::BevyWatch);
    assert_eq!(cats[2].1.len(), 2);
    assert_eq!(cats[3].0, CommandCategory::BrpTool);
    assert_eq!(cats[3].1.len(), 2);
    assert_eq!(cats[4].0, CommandCategory::Special);
    assert_eq!(cats[4].1.len(), 3);
}

#[test]
fn test_parse_errors() {
    assert_eq!(parse_command_string(""), Err(CommandParseError::Empty));
    assert_eq!(parse_command_string("   "), Err(CommandParseError::Empty));
    assert_eq!(
        parse_command_string("destroy"),
        Err(CommandParseError::MissingArgs)
    );
    assert_eq!(
        parse_command_string("destroy abc"),
        Err(CommandParseError::InvalidEntityId)
    );
    assert_eq!(
        parse_command_string("invalid-command"),
        Err(CommandParseError::UnknownCommand)
    );
    assert_eq!(
        parse_command_string("get 5"),
        Err(CommandParseError::MissingArgs)
    );
}

#[test]
fn test_parse_joins_json_arguments() {
    assert_eq!(
        parse_command_string(r#"spawn {"a": 1,  "b": 2}"#),
        Ok(Commands::Spawn {
            components: r#"{"a": 1, "b": 2}"#.to_string()
        })
    );
}

#[test]
fn test_parse_schema_flags() {
    assert_eq!(
        parse_command_string("schema --with-crates bevy my_game --without-types Component"),
        Ok(Commands::Schema {
            with_crates: Some(vec!["bevy".to_string(), "my_game".to_string()]),
            without_crates: None,
            with_types: None,
            without_types: Some(vec!["Component".to_string()]),
        })
    );
    assert_eq!(
        parse_command_string("schema"),
        Ok(Commands::Schema {
            with_crates: None,
            without_crates: None,
            with_types: None,
            without_types: None,
        })
    );
}

#[test]
fn test_parse_entity_arg() {
    assert_eq!(parse_entity_arg(&["12345"]), Ok(12345));
    assert_eq!(parse_entity_arg(&["+7", "rest"]), Ok(7));
    assert_eq!(
        parse_entity_arg(&["not-a-number"]),
        Err(CommandParseError::InvalidEntityId)
    );
    assert_eq!(
        parse_entity_arg(&["18446744073709551616"]),
        Err(CommandParseError::InvalidEntityId)
    );
}

#[test]
fn test_extract_command_from_error() {
    let msg = "error: the following required arguments were not provided\nUsage: brp get <ENTITY_ID> <COMPONENT_TYPE>\n";
    assert_eq!(extract_command_from_error(msg), Some("get".to_string()));
    let msg = "Usage: brp list\nmore";
    assert_eq!(extract_command_from_error(msg), Some("list".to_string()));
    assert_eq!(extract_command_from_error("nothing relevant"), None);
}

#[test]
fn test_detailed_help_mentions_command() {
    let help = Commands::GetWatch {
        entity: 0,
        components: Vec::new(),
    }
    .detailed_help();
    assert!(help.contains("bevy/get+watch"));
    assert!(help.contains("Watch"));
}

#[test]
fn test_get_command_args_table() {
    let args = brp_tool::commands::get_command_args("get");
    assert_eq!(args.len(), 2);
    assert_eq!(
        args[0],
        ("<ENTITY_ID>".to_string(), "u64".to_string(), "12345".to_string())
    );
    assert_eq!(args[1].0, "<COMPONENT_TYPE>");
    assert!(brp_tool::commands::get_command_args("list").is_empty());
    assert!(brp_tool::commands::get_command_args("nonsense").is_empty());
}

#[test]
fn test_parse_error_messages() {
    assert_eq!(CommandParseError::Empty.message(), "Empty command");
    assert_eq!(
        CommandParseError::MissingArgs.message(),
        "missing required arguments"
    );
    assert_eq!(
        CommandParseError::InvalidEntityId.message(),
        "invalid entity ID: expected a u64 integer"
    );
    assert_eq!(
        CommandParseError::UnknownCommand.message(),
        "Unknown command. Use 'raw <method>' for direct method calls"
    );
}

#[test]
fn test_schema_round_trip_through_text() {
    let cmd = Commands::Schema {
        with_crates: Some(vec!["bevy".to_string(), "my_game".to_string()]),
        without_crates: None,
        with_types: Some(vec!["Component".to_string()]),
        without_types: None,
    };
    let formatted = brp_tool::commands::format_command(cmd.clone());
    assert_eq!(
        formatted,
        "schema --with-crates bevy my_game --with-types Component"
    );
    assert_eq!(parse_command_string(&formatted), Ok(cmd));
}
