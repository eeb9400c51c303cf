use launch_core::classpath::{
    build_classpath, build_forge_classpath, extract_artifact_name, get_classpath_separator,
    maven_to_path,
};
use launch_core::manifest::{merge_version_jsons, Artifact, Downloads, Library, VersionJson};
use launch_core::rules::Platform;

fn platform(os: &str) -> Platform {
    Platform {
        os_name: os.to_string(),
        arch: "x86_64".to_string(),
        features: Vec::new(),
    }
}

fn lib(name: &str) -> Library {
    Library {
        name: name.to_string(),
        downloads: None,
        rules: None,
        natives: None,
        extract: None,
        url: None,
        checksums: None,
        serverreq: None,
        clientreq: None,
    }
}

fn lib_with_path(name: &str, path: &str) -> Library {
    let mut l = lib(name);
    l.downloads = Some(Downloads {
        artifact: Some(Artifact {
            path: path.to_string(),
            sha1: None,
            size: None,
            url: None,
        }),
        classifiers: None,
    });
    l
}

#[test]
fn maven_coordinate_resolves_to_repository_path() {
    assert_eq!(
        maven_to_path("com.google.guava:guava:31.1"),
        Some("com/google/guava/guava/31.1/guava-31.1.jar".to_string())
    );
    assert_eq!(
        maven_to_path("org.lwjgl:lwjgl:3.3.1:natives-linux"),
        Some("org/lwjgl/lwjgl/3.3.1/lwjgl-3.3.1-natives-linux.jar".to_string())
    );
    assert_eq!(maven_to_path("only:two"), None);
    assert_eq!(maven_to_path("bare"), None);
}

#[test]
fn artifact_name_is_second_coordinate_part() {
    assert_eq!(extract_artifact_name("org.ow2.asm:asm:9.7"), "asm");
    assert_eq!(extract_artifact_name("solo"), "solo");
}

#[test]
fn separator_is_platform_specific() {
    assert_eq!(get_classpath_separator(true), ';');
    assert_eq!(get_classpath_separator(false), ':');
}

#[test]
fn duplicate_artifact_identity_keeps_first_occurrence() {
    let libs = vec![
        lib("org.ow2.asm:asm:9.7"),
        lib("org.ow2.asm:asm:9.5"),
    ];
    let p97 = "libs/org/ow2/asm/asm/9.7/asm-9.7.jar".to_string();
    let p95 = "libs/org/ow2/asm/asm/9.5/asm-9.5.jar".to_string();
    let present = vec![p97.clone(), p95.clone()];
    let cp = build_classpath(&libs, "libs", "absent.jar", &present, &platform("linux"));
    assert_eq!(cp, p97);
}

#[test]
fn missing_library_is_skipped_not_fatal() {
    let libs = vec![lib("a:here:1"), lib("a:gone:1")];
    let here = "libs/a/here/1/here-1.jar".to_string();
    let present = vec![here.clone(), "client.jar".to_string()];
    let cp = build_classpath(&libs, "libs", "client.jar", &present, &platform("linux"));
    assert_eq!(cp, format!("{}:client.jar", here));
}

#[test]
fn declared_artifact_path_wins_over_derived_path() {
    let libs = vec![lib_with_path("a:b:1", "custom/location/b.jar")];
    let present = vec!["libs/custom/location/b.jar".to_string()];
    let cp = build_classpath(&libs, "libs", "absent.jar", &present, &platform("linux"));
    assert_eq!(cp, "libs/custom/location/b.jar");
}

#[test]
fn forge_classpath_keeps_client_out_of_the_scan_and_appends_it_last() {
    let libs = vec![lib("a:b:1"), lib_with_path("c:client:1", "the/client.jar")];
    let b = "libs/a/b/1/b-1.jar".to_string();
    let client = "libs/the/client.jar".to_string();
    let present = vec![b.clone(), client.clone()];
    let cp = build_forge_classpath(&libs, "libs", &client, &present, &platform("linux"));
    // The library scan skips the main artifact; it comes once, last.
    assert_eq!(cp, format!("{}:{}", b, client));
}

#[test]
fn one_declared_path_under_two_identities_is_listed_once() {
    // Different (group, artifact) identities, one artifact path: the
    // path string appears only once in the classpath.
    let libs = vec![
        lib_with_path("a:b:1", "shared/one.jar"),
        lib_with_path("c:d:1", "shared/one.jar"),
    ];
    let shared = "libs/shared/one.jar".to_string();
    let present = vec![shared.clone()];
    let cp = build_classpath(&libs, "libs", "absent.jar", &present, &platform("linux"));
    assert_eq!(cp, shared);
}

fn manifest(id: &str) -> VersionJson {
    VersionJson {
        id: id.to_string(),
        inherits_from: None,
        main_class: "net.minecraft.client.main.Main".to_string(),
        libraries: Vec::new(),
        arguments: None,
        minecraft_arguments: None,
        asset_index: None,
        assets: None,
        version_type: None,
        time: None,
        release_time: None,
        minimum_launcher_version: None,
        compliance_level: None,
        java_version: None,
    }
}

#[test]
fn two_node_chain_dedups_to_loader_version_with_main_jar_last() {
    // A loader manifest inheriting from its base: one library present at
    // different versions in both, one library only in the parent.
    let mut loader = manifest("loader-x");
    loader.inherits_from = Some("1.20.1".to_string());
    loader.libraries = vec![lib("org.ow2.asm:asm:9.7")];
    let mut base = manifest("1.20.1");
    base.libraries = vec![lib("org.ow2.asm:asm:9.3"), lib("com.mojang:brigadier:1.1")];

    let (merged, _) = merge_version_jsons(loader, Some(base));

    let asm97 = "libs/org/ow2/asm/asm/9.7/asm-9.7.jar".to_string();
    let asm93 = "libs/org/ow2/asm/asm/9.3/asm-9.3.jar".to_string();
    let brig = "libs/com/mojang/brigadier/1.1/brigadier-1.1.jar".to_string();
    let main_jar = "versions/1.20.1/1.20.1.jar".to_string();
    let present = vec![asm97.clone(), asm93, brig.clone(), main_jar.clone()];

    let cp = build_classpath(
        &merged.libraries,
        "libs",
        &main_jar,
        &present,
        &platform("linux"),
    );
    assert_eq!(cp, format!("{}:{}:{}", asm97, brig, main_jar));
}
