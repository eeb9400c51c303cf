use launch_core::manifest::{
    merge_version_jsons, ArgumentValue, Arguments, Library, VersionJson,
};

fn lib(name: &str) -> Library {
    Library {
        name: name.to_string(),
        downloads: None,
        rules: None,
        natives: None,
        extract: None,
        url: None,
        checksums: None,
        serverreq: None,
        clientreq: None,
    }
}

fn simple(s: &str) -> ArgumentValue {
    ArgumentValue::Simple(s.to_string())
}

fn arg_text(a: &ArgumentValue) -> &str {
    match a {
        ArgumentValue::Simple(s) => s.as_str(),
        ArgumentValue::Conditional { .. } => panic!("expected a literal argument"),
    }
}

fn manifest(id: &str) -> VersionJson {
    VersionJson {
        id: id.to_string(),
        inherits_from: None,
        main_class: "mainClass".to_string(),
        libraries: Vec::new(),
        arguments: None,
        minecraft_arguments: None,
        asset_index: None,
        assets: None,
        version_type: None,
        time: None,
        release_time: None,
        minimum_launcher_version: None,
        compliance_level: None,
        java_version: None,
    }
}

#[test]
fn merge_keeps_child_libraries_first() {
    let mut child = manifest("child");
    child.inherits_from = Some("base".to_string());
    child.libraries = vec![lib("c:one:1"), lib("c:two:1")];
    let mut parent = manifest("base");
    parent.libraries = vec![lib("p:one:1"), lib("p:two:1")];

    let (merged, _) = merge_version_jsons(child, Some(parent));
    let names: Vec<&str> = merged.libraries.iter().map(|l| l.name.as_str()).collect();
    assert_eq!(names, vec!["c:one:1", "c:two:1", "p:one:1", "p:two:1"]);
}

#[test]
fn merge_prepends_parent_vm_arguments_and_appends_parent_game_arguments() {
    let mut child = manifest("child");
    child.arguments = Some(Arguments {
        game: vec![simple("childGame")],
        jvm: vec![simple("childJvm")],
    });
    let mut parent = manifest("base");
    parent.arguments = Some(Arguments {
        game: vec![simple("baseGame")],
        jvm: vec![simple("baseJvm")],
    });

    let (merged, _) = merge_version_jsons(child, Some(parent));
    let merged_args = merged.arguments.expect("merged arguments");
    let jvm: Vec<&str> = merged_args.jvm.iter().map(arg_text).collect();
    let game: Vec<&str> = merged_args.game.iter().map(arg_text).collect();
    assert_eq!(jvm, vec!["baseJvm", "childJvm"]);
    assert_eq!(game, vec!["childGame", "baseGame"]);
}

#[test]
fn merge_assets_prefers_child_then_parent_then_child_id() {
    let mut child = manifest("child");
    child.assets = Some("5".to_string());
    let (_, assets) = merge_version_jsons(child, Some(manifest("base")));
    assert_eq!(assets, "5");

    let child = manifest("child");
    let mut parent = manifest("base");
    parent.assets = Some("3".to_string());
    let (_, assets) = merge_version_jsons(child, Some(parent));
    assert_eq!(assets, "3");

    let child = manifest("child");
    let (_, assets) = merge_version_jsons(child, Some(manifest("base")));
    assert_eq!(assets, "child");
}

#[test]
fn merge_legacy_arguments_fall_back_to_parent() {
    let child = manifest("child");
    let mut parent = manifest("base");
    parent.minecraft_arguments = Some("--old args".to_string());
    let (merged, _) = merge_version_jsons(child, Some(parent));
    assert_eq!(merged.minecraft_arguments, Some("--old args".to_string()));

    let mut child = manifest("child");
    child.minecraft_arguments = Some("--mine".to_string());
    let mut parent = manifest("base");
    parent.minecraft_arguments = Some("--theirs".to_string());
    let (merged, _) = merge_version_jsons(child, Some(parent));
    assert_eq!(merged.minecraft_arguments, Some("--mine".to_string()));
}

#[test]
fn merge_without_parent_keeps_child_fields() {
    let mut child = manifest("solo");
    child.libraries = vec![lib("a:b:1")];
    let (merged, assets) = merge_version_jsons(child, None);
    assert_eq!(merged.id, "solo");
    assert_eq!(merged.libraries.len(), 1);
    assert_eq!(assets, "solo");
    assert!(merged.inherits_from.is_none());
    assert_eq!(merged.assets, Some("solo".to_string()));
    assert_eq!(merged.version_type, Some("release".to_string()));
}
