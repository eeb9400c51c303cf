use launch_core::args::{
    build_launch_args, extract_arguments, fabric_launch_args, forge_launch_args,
    process_argument_value, substitute_forge_variables, substitute_variables,
    vanilla_launch_args, LaunchConfig, LaunchError,
};
use launch_core::manifest::{
    ArgumentValue, Arguments, Library, StringOrVec, VersionJson,
};
use launch_core::rules::{OsRule, Platform, Rule};

fn config() -> LaunchConfig {
    LaunchConfig::new(
        "steve".to_string(),
        "uuid-1234".to_string(),
        "token-abc".to_string(),
        "1.20.1".to_string(),
        "fabric-1.20.1".to_string(),
        "/home/user/launcher".to_string(),
    )
}

fn platform(os: &str) -> Platform {
    Platform {
        os_name: os.to_string(),
        arch: "x86_64".to_string(),
        features: Vec::new(),
    }
}

#[test]
fn launch_config_derives_its_directories() {
    let c = config();
    assert_eq!(c.game_dir, "/home/user/launcher");
    assert_eq!(c.assets_dir, "/home/user/launcher/assets");
    assert_eq!(c.libraries_dir, "/home/user/launcher/libraries");
    assert_eq!(c.natives_dir, "/home/user/launcher/natives/1.20.1");
    assert_eq!(c.min_memory, "512M");
    assert_eq!(c.max_memory, "4G");
    assert_eq!(c.window_width, 1280);
    assert_eq!(c.window_height, 720);
}

#[test]
fn base_jvm_args_are_pinned() {
    let args = config().base_jvm_args();
    assert_eq!(
        args,
        vec![
            "-Xms512M".to_string(),
            "-Xmx4G".to_string(),
            "-Djava.library.path=/home/user/launcher/natives/1.20.1".to_string(),
            "-Dminecraft.launcher.brand=CustomLauncher".to_string(),
            "-Dminecraft.launcher.version=1.0".to_string(),
        ]
    );
}

#[test]
fn known_placeholders_are_expanded() {
    let c = config();
    let out = substitute_variables(
        "--name ${auth_player_name} --token ${auth_access_token} --assets ${assets_index_name}",
        &c,
        "cp",
        "5",
        false,
    );
    assert_eq!(out, "--name steve --token token-abc --assets 5");
    assert_eq!(
        substitute_variables("${classpath}", &c, "a.jar:b.jar", "5", false),
        "a.jar:b.jar"
    );
    assert_eq!(
        substitute_variables("${classpath_separator}", &c, "", "", true),
        ";"
    );
    assert_eq!(
        substitute_variables("${user_type}/${version_type}", &c, "", "", false),
        "msa/release"
    );
}

#[test]
fn unknown_placeholders_stay_verbatim() {
    let c = config();
    assert_eq!(
        substitute_variables("--x ${mystery_token}", &c, "", "", false),
        "--x ${mystery_token}"
    );
}

#[test]
fn loader_placeholders_are_expanded_too() {
    let c = config();
    assert_eq!(
        substitute_forge_variables(
            "${primary_jar_name} ${resolution_width}x${resolution_height} [${auth_xuid}]",
            &c,
            "",
            "",
            false,
        ),
        "client.jar 1280x720 []"
    );
}

#[test]
fn conditional_arguments_follow_their_rules() {
    let c = config();
    let arg = ArgumentValue::Conditional {
        rules: vec![Rule {
            action: "allow".to_string(),
            os: Some(OsRule {
                name: Some("osx".to_string()),
                arch: None,
                version: None,
            }),
            features: None,
        }],
        value: StringOrVec::Multiple(vec![
            "-XstartOnFirstThread".to_string(),
            "${auth_player_name}".to_string(),
        ]),
    };
    let on_mac = process_argument_value(&arg, &c, "", "", &platform("osx"));
    assert_eq!(
        on_mac,
        vec!["-XstartOnFirstThread".to_string(), "steve".to_string()]
    );
    let arg = ArgumentValue::Conditional {
        rules: vec![Rule {
            action: "allow".to_string(),
            os: Some(OsRule {
                name: Some("osx".to_string()),
                arch: None,
                version: None,
            }),
            features: None,
        }],
        value: StringOrVec::Single("-XstartOnFirstThread".to_string()),
    };
    let on_linux = process_argument_value(&arg, &c, "", "", &platform("linux"));
    assert!(on_linux.is_empty());

    let simple = ArgumentValue::Simple("--gameDir ${game_directory}".to_string());
    assert_eq!(
        process_argument_value(&simple, &c, "", "", &platform("linux")),
        vec!["--gameDir /home/user/launcher".to_string()]
    );
}

#[test]
fn classpath_flag_is_added_unless_present() {
    let c = config();
    let args = build_launch_args(&c, Vec::new(), vec!["--demo".to_string()], "cp.jar", "Main");
    let tail: Vec<&str> = args.iter().map(|s| s.as_str()).skip(5).collect();
    assert_eq!(tail, vec!["-cp", "cp.jar", "Main", "--demo"]);

    let args = build_launch_args(
        &c,
        vec!["-cp".to_string(), "given.jar".to_string()],
        Vec::new(),
        "cp.jar",
        "Main",
    );
    assert_eq!(args.iter().filter(|a| a.as_str() == "-cp").count(), 1);
    assert!(!args.contains(&"cp.jar".to_string()));
}

fn manifest(main_class: &str) -> VersionJson {
    VersionJson {
        id: "1.20.1".to_string(),
        inherits_from: None,
        main_class: main_class.to_string(),
        libraries: Vec::new(),
        arguments: None,
        minecraft_arguments: None,
        asset_index: None,
        assets: None,
        version_type: None,
        time: None,
        release_time: None,
        minimum_launcher_version: None,
        compliance_level: None,
        java_version: None,
    }
}

fn lib(name: &str) -> Library {
    Library {
        name: name.to_string(),
        downloads: None,
        rules: None,
        natives: None,
        extract: None,
        url: None,
        checksums: None,
        serverreq: None,
        clientreq: None,
    }
}

#[test]
fn vanilla_launch_assembles_arguments_and_assets_id() {
    let mut version = manifest("net.minecraft.client.main.Main");
    version.libraries = vec![lib("a:b:1")];
    version.assets = Some("5".to_string());
    version.arguments = Some(Arguments {
        game: vec![ArgumentValue::Simple("--assetIndex".to_string()),
                   ArgumentValue::Simple("${assets_index_name}".to_string())],
        jvm: Vec::new(),
    });
    let c = config();
    let jar = "/home/user/launcher/libraries/a/b/1/b-1.jar".to_string();
    let client = "/home/user/launcher/versions/1.20.1/1.20.1.jar";
    let present = vec![jar.clone(), client.to_string()];
    let (args, assets_id) =
        vanilla_launch_args(&version, &c, &present, client, &platform("linux")).unwrap();
    assert_eq!(assets_id, "5");
    let expected_cp = format!("{}:{}", jar, client);
    assert!(args.contains(&expected_cp));
    assert!(args.contains(&"net.minecraft.client.main.Main".to_string()));
    let last = args.last().unwrap();
    assert_eq!(last, "5");
}

#[test]
fn legacy_arguments_split_at_any_whitespace() {
    let mut version = manifest("--legacy");
    version.minecraft_arguments =
        Some("--one\ttwo\n--three  ${user_type}".to_string());
    let c = config();
    let (jvm, game) = extract_arguments(&version, &c, "", "5", &platform("linux"));
    assert!(jvm.is_empty());
    assert_eq!(
        game,
        vec![
            "--one".to_string(),
            "two".to_string(),
            "--three".to_string(),
            "msa".to_string()
        ]
    );
}

#[test]
fn vanilla_launch_fails_without_entry_point() {
    let version = manifest("");
    let c = config();
    let err = vanilla_launch_args(&version, &c, &Vec::new(), "x.jar", &platform("linux"))
        .unwrap_err();
    assert_eq!(err, LaunchError::MissingEntryPoint);
}

#[test]
fn vanilla_launch_fails_on_empty_classpath() {
    let version = manifest("Main");
    let c = config();
    let err = vanilla_launch_args(&version, &c, &Vec::new(), "absent.jar", &platform("linux"))
        .unwrap_err();
    assert_eq!(err, LaunchError::EmptyClasspath);
    assert_eq!(err.message(), "classpath is empty");
}

#[test]
fn forge_launch_drops_unresolved_placeholders() {
    let c = config();
    let jvm = vec![
        "-Dok=1".to_string(),
        "-Dbad=${unresolved}".to_string(),
    ];
    let game = vec!["--ok".to_string(), "${also_bad}".to_string()];
    let args = forge_launch_args(&c, "forge.Main", &jvm, &game);
    assert_eq!(
        args,
        vec![
            "-Xms512M".to_string(),
            "-Xmx4G".to_string(),
            "-Dok=1".to_string(),
            "forge.Main".to_string(),
            "--ok".to_string(),
        ]
    );
}

#[test]
fn fabric_launch_vector_is_fixed() {
    let c = config();
    let jars = vec!["a.jar".to_string(), "b.jar".to_string()];
    let args = fabric_launch_args(&c, &jars, "game.jar", false);
    assert_eq!(args[0], "-Xms512M");
    assert_eq!(args[6], "-cp");
    assert_eq!(args[7], "a.jar:b.jar:game.jar");
    assert_eq!(args[8], "-Dfabric.gameJarPath=game.jar");
    assert_eq!(args[9], "net.fabricmc.loader.impl.launch.knot.KnotClient");
    assert_eq!(args[10], "--username");
    assert_eq!(args[11], "steve");
    assert_eq!(args.len(), 30);
    assert_eq!(args[28], "--versionType");
    assert_eq!(args[29], "release");
}
