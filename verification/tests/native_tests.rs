use std::io::Write;

use launch_core::manifest::{Artifact, Downloads, ExtractRules, Library};
use launch_core::native::{
    extract_natives_from_archive, find_version_url, get_current_os, get_native_suffixes_for_os,
    is_native_jar, is_native_library_for_current_os, plan_asset_download, plan_asset_downloads,
    plan_version_downloads, should_exclude, AssetObject, VersionInfo,
};
use launch_core::rules::Platform;

#[test]
fn target_os_maps_to_manifest_family() {
    assert_eq!(get_current_os("windows"), "windows");
    assert_eq!(get_current_os("macos"), "osx");
    assert_eq!(get_current_os("linux"), "linux");
    assert_eq!(get_current_os("freebsd"), "unknown");
}

#[test]
fn native_suffixes_per_family() {
    assert_eq!(
        get_native_suffixes_for_os("windows"),
        vec![
            "natives-windows".to_string(),
            "natives-windows-x86".to_string(),
            "natives-windows-arm64".to_string()
        ]
    );
    assert!(get_native_suffixes_for_os("unknown").is_empty());
}

#[test]
fn native_library_classification() {
    assert!(is_native_library_for_current_os(
        "org.lwjgl:lwjgl:3.3.1:natives-linux",
        "linux"
    ));
    assert!(!is_native_library_for_current_os(
        "org.lwjgl:lwjgl:3.3.1:natives-windows",
        "linux"
    ));
    // A plain bytecode library belongs everywhere.
    assert!(is_native_library_for_current_os("com.mojang:brigadier:1.1", "linux"));
    assert!(is_native_jar("org.lwjgl:lwjgl:3.3.1:natives-linux"));
    assert!(!is_native_jar("com.mojang:brigadier:1.1"));
}

#[test]
fn exclude_prefixes_trim_trailing_slash() {
    let rules = Some(vec!["META-INF/".to_string(), "data".to_string()]);
    assert!(should_exclude("META-INF/MANIFEST.MF", &rules));
    assert!(should_exclude("data/bar.txt", &rules));
    assert!(!should_exclude("natives/foo.dll", &rules));
    assert!(!should_exclude("anything", &None));
}

fn build_archive(entries: &[(&str, &[u8])]) -> Vec<u8> {
    let cursor = std::io::Cursor::new(Vec::new());
    let mut writer = zip::ZipWriter::new(cursor);
    let options = zip::write::SimpleFileOptions::default();
    for (name, data) in entries {
        writer.start_file(*name, options).unwrap();
        writer.write_all(data).unwrap();
    }
    writer.finish().unwrap().into_inner()
}

#[test]
fn extraction_keeps_only_native_entries_outside_excluded_prefixes() {
    let bytes = build_archive(&[
        ("natives/foo.dll", b"dll bytes"),
        ("META-INF/x", b"meta"),
        ("data/bar.txt", b"text"),
    ]);
    let excludes = Some(vec!["data".to_string()]);
    let extracted = extract_natives_from_archive(&bytes, &excludes, "windows").unwrap();
    assert_eq!(extracted.len(), 1);
    assert_eq!(extracted[0].name, "foo.dll");
    assert_eq!(extracted[0].data, b"dll bytes".to_vec());
}

#[test]
fn extraction_recognizes_only_the_platform_familys_suffixes() {
    let bytes = build_archive(&[
        ("a/deep/dir/lib.so", b"so"),
        ("a/deep/dir/readme.txt", b"no"),
        ("liblwjgl.dylib", b"dylib"),
        ("win/thing.dll", b"dll"),
    ]);
    let on_linux = extract_natives_from_archive(&bytes, &None, "linux").unwrap();
    let names: Vec<&str> = on_linux.iter().map(|e| e.name.as_str()).collect();
    assert_eq!(names, vec!["lib.so"]);

    let on_osx = extract_natives_from_archive(&bytes, &None, "osx").unwrap();
    let names: Vec<&str> = on_osx.iter().map(|e| e.name.as_str()).collect();
    assert_eq!(names, vec!["liblwjgl.dylib"]);

    let on_windows = extract_natives_from_archive(&bytes, &None, "windows").unwrap();
    let names: Vec<&str> = on_windows.iter().map(|e| e.name.as_str()).collect();
    assert_eq!(names, vec!["thing.dll"]);
}

#[test]
fn unreadable_archive_reports_open_failure() {
    let garbage = vec![1u8, 2, 3, 4];
    assert!(extract_natives_from_archive(&garbage, &None, "linux").is_err());
}

fn platform(os: &str) -> Platform {
    Platform {
        os_name: os.to_string(),
        arch: "x86_64".to_string(),
        features: Vec::new(),
    }
}

fn artifact(path: &str, url: &str) -> Artifact {
    Artifact {
        path: path.to_string(),
        sha1: None,
        size: None,
        url: Some(url.to_string()),
    }
}

#[test]
fn version_plan_downloads_native_jar_and_schedules_extraction() {
    let lib = Library {
        name: "org.lwjgl:lwjgl:3.3.1:natives-linux".to_string(),
        downloads: Some(Downloads {
            artifact: Some(artifact("org/lwjgl/lwjgl.jar", "http://host/lwjgl.jar")),
            classifiers: None,
        }),
        rules: None,
        natives: None,
        extract: Some(ExtractRules {
            exclude: Some(vec!["META-INF/".to_string()]),
        }),
        url: None,
        checksums: None,
        serverreq: None,
        clientreq: None,
    };
    let (downloads, jobs) = plan_version_downloads(&vec![lib], &platform("linux"), "64");
    assert_eq!(downloads.len(), 1);
    assert_eq!(downloads[0].url, "http://host/lwjgl.jar");
    assert_eq!(downloads[0].dest_rel, "libraries/org/lwjgl/lwjgl.jar");
    assert_eq!(jobs.len(), 1);
    assert_eq!(jobs[0].jar_rel, "libraries/org/lwjgl/lwjgl.jar");
    assert_eq!(jobs[0].excludes, Some(vec!["META-INF/".to_string()]));
}

#[test]
fn version_plan_resolves_classifier_natives_with_arch_token() {
    let lib = Library {
        name: "org.lwjgl:lwjgl:2.9".to_string(),
        downloads: Some(Downloads {
            artifact: Some(artifact("org/lwjgl/lwjgl-2.9.jar", "http://host/lwjgl-2.9.jar")),
            classifiers: Some(vec![(
                "natives-linux-64".to_string(),
                artifact("org/lwjgl/lwjgl-natives.jar", "http://host/natives.jar"),
            )]),
        }),
        rules: None,
        natives: Some(vec![("linux".to_string(), "natives-linux-${arch}".to_string())]),
        extract: None,
        url: None,
        checksums: None,
        serverreq: None,
        clientreq: None,
    };
    let (downloads, jobs) = plan_version_downloads(&vec![lib], &platform("linux"), "64");
    let urls: Vec<&str> = downloads.iter().map(|d| d.url.as_str()).collect();
    assert_eq!(urls, vec!["http://host/lwjgl-2.9.jar", "http://host/natives.jar"]);
    assert_eq!(jobs.len(), 1);
    assert_eq!(jobs[0].jar_rel, "libraries/org/lwjgl/lwjgl-natives.jar");
}

#[test]
fn version_plan_skips_other_platform_libraries() {
    let lib = Library {
        name: "org.lwjgl:lwjgl:3.3.1:natives-windows".to_string(),
        downloads: Some(Downloads {
            artifact: Some(artifact("x.jar", "http://host/x.jar")),
            classifiers: None,
        }),
        rules: None,
        natives: None,
        extract: None,
        url: None,
        checksums: None,
        serverreq: None,
        clientreq: None,
    };
    let (downloads, jobs) = plan_version_downloads(&vec![lib], &platform("linux"), "64");
    assert!(downloads.is_empty());
    assert!(jobs.is_empty());
}

#[test]
fn version_index_lookup_finds_the_requested_id() {
    let versions = vec![
        VersionInfo {
            id: "1.20.1".to_string(),
            version_type: "release".to_string(),
            url: "http://host/1.20.1.json".to_string(),
            time: String::new(),
            release_time: String::new(),
        },
        VersionInfo {
            id: "1.19".to_string(),
            version_type: "release".to_string(),
            url: "http://host/1.19.json".to_string(),
            time: String::new(),
            release_time: String::new(),
        },
    ];
    assert_eq!(
        find_version_url(&versions, "1.19"),
        Some("http://host/1.19.json".to_string())
    );
    assert_eq!(find_version_url(&versions, "1.8"), None);
}

#[test]
fn asset_objects_are_content_addressed() {
    let d = plan_asset_download("ab12cd");
    assert_eq!(
        d.url,
        "https://resources.download.minecraft.net/ab/ab12cd"
    );
    assert_eq!(d.dest_rel, "assets/objects/ab/ab12cd");

    let objects = vec![(
        "minecraft/sounds/x.ogg".to_string(),
        AssetObject {
            hash: "00ff11".to_string(),
            size: 10,
        },
    )];
    let plan = plan_asset_downloads(&objects);
    assert_eq!(plan.len(), 1);
    assert_eq!(
        plan[0].url,
        "https://resources.download.minecraft.net/00/00ff11"
    );
}
