use zap::notebook_embedding::{is_embed_accessible, Space};
use zap::omp_commands::{
    all_omp_commands, builtin_items, custom_command_item, parse_frontmatter_description,
    resolve_focus_terminal_after_submit, OmpCommandDefinition, OmpCommandItem, OmpCommandSource,
    OmpCommandsFile,
};

fn command(name: &str, focus: bool) -> OmpCommandDefinition {
    OmpCommandDefinition {
        name: name.to_string(),
        description: "d".to_string(),
        group: "top".to_string(),
        focus_terminal_after_submit: focus,
    }
}

#[test]
fn test_parse_frontmatter_description() {
    let md = r#"---
description: Code-review a file or diff
---
Some content"#;
    assert_eq!(
        parse_frontmatter_description(md),
        Some("Code-review a file or diff".to_owned())
    );
}

#[test]
fn test_parse_frontmatter_no_description() {
    let md = r#"---
other: value
---
Content"#;
    assert!(parse_frontmatter_description(md).is_none());
}

#[test]
fn test_parse_frontmatter_no_frontmatter() {
    let md = "Just content";
    assert!(parse_frontmatter_description(md).is_none());
}

#[test]
fn frontmatter_description_strips_quotes() {
    let md = "---\ndescription: \"Quoted text\"\n---\nbody";
    assert_eq!(parse_frontmatter_description(md), Some("Quoted text".to_owned()));
}

#[test]
fn test_resolve_focus_terminal_after_submit_per_command() {
    let file = OmpCommandsFile {
        version: Some(1),
        commands: vec![
            command("/resume", true),
            command("/plan", false),
            command("/model", false),
        ],
    };
    assert!(resolve_focus_terminal_after_submit(Some(&file), "/resume"));
    assert!(!resolve_focus_terminal_after_submit(Some(&file), "/plan"));
    assert!(!resolve_focus_terminal_after_submit(Some(&file), "/model"));
    assert!(resolve_focus_terminal_after_submit(Some(&file), "/resume 019fbc91-a15f"));
    assert!(resolve_focus_terminal_after_submit(Some(&file), "  /resume"));
    assert!(!resolve_focus_terminal_after_submit(Some(&file), "fix the bug"));
}

#[test]
fn test_resolve_focus_terminal_after_submit_defaults_false_on_failure() {
    assert!(!resolve_focus_terminal_after_submit(None, "/resume"));
    let empty = OmpCommandsFile { version: Some(1), commands: Vec::new() };
    assert!(!resolve_focus_terminal_after_submit(Some(&empty), "/resume"));
}

#[test]
fn custom_commands_fall_back_to_a_generic_description() {
    let item = custom_command_item("review", "no front matter");
    assert_eq!(item.text, "/review");
    assert_eq!(item.description, "Custom OMP command: /review");
    assert_eq!(item.source, OmpCommandSource::Custom);
    let item = custom_command_item("fix", "---\ndescription: Fix it\n---\n");
    assert_eq!(item.description, "Fix it");
}

#[test]
fn all_commands_keep_builtin_custom_skill_order() {
    let file = OmpCommandsFile { version: None, commands: vec![command("/plan", false)] };
    let builtin = builtin_items(&file);
    assert_eq!(builtin.len(), 1);
    assert_eq!(builtin[0].text, "/plan");
    assert_eq!(builtin[0].source, OmpCommandSource::Builtin);
    let skill = OmpCommandItem {
        text: "/skill:x".to_string(),
        description: "s".to_string(),
        source: OmpCommandSource::Skill,
    };
    let all = all_omp_commands(builtin, vec![custom_command_item("c", "")], vec![skill]);
    let texts: Vec<&str> = all.iter().map(|item| item.text.as_str()).collect();
    assert_eq!(texts, vec!["/plan", "/c", "/skill:x"]);
}

#[test]
fn test_embed_in_personal_object() {
    assert!(is_embed_accessible(Space::Personal, "current-user"));
}

#[test]
fn test_embed_in_shared_object() {
    assert!(!is_embed_accessible(Space::Shared, "current-user"));
}
