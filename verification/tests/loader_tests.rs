use launch_core::fabric::{
    fabric_install_plan, plan_fabric_library_downloads, ComponentVersion, FabricError,
    LibraryFabric, LoaderVersion,
};
use launch_core::forge::{forge_install_plan, pick_forge_version_dir, ForgeError};

fn loader(version: &str, stable: bool) -> LoaderVersion {
    LoaderVersion {
        loader: ComponentVersion {
            version: version.to_string(),
            stable,
        },
    }
}

#[test]
fn fabric_plan_takes_the_first_loader_version() {
    let loaders = vec![loader("0.16.5", true), loader("0.16.4", true)];
    let plan = fabric_install_plan(&loaders, "1.20.1").unwrap();
    assert_eq!(plan.version_id, "fabric-loader-0.16.5-1.20.1");
    assert_eq!(
        plan.json_url,
        "https://meta.fabricmc.net/v2/versions/loader/1.20.1/0.16.5/profile/json"
    );
    assert_eq!(
        plan.jar_url,
        "https://maven.fabricmc.net/net/fabricmc/fabric-loader/0.16.5/fabric-loader-0.16.5.jar"
    );
    assert_eq!(plan.version_dir, "fabric/fabric-loader-0.16.5-1.20.1");
    assert_eq!(
        plan.json_dest,
        "fabric/fabric-loader-0.16.5-1.20.1/fabric-loader-0.16.5-1.20.1.json"
    );
    assert_eq!(
        plan.jar_dest,
        "fabric/fabric-loader-0.16.5-1.20.1/fabric-loader-0.16.5-1.20.1.jar"
    );
}

#[test]
fn fabric_plan_fails_without_loader_versions() {
    let err = fabric_install_plan(&Vec::new(), "1.20.1").unwrap_err();
    assert_eq!(err, FabricError::NoLoaderVersions);
}

fn fabric_lib(name: &str, url: &str) -> LibraryFabric {
    LibraryFabric {
        name: name.to_string(),
        url: url.to_string(),
        sha1: None,
        size: None,
        md5: None,
        sha256: None,
        sha512: None,
        extract: None,
        natives: None,
        rules: None,
    }
}

#[test]
fn fabric_library_downloads_follow_the_maven_layout() {
    let libs = vec![
        fabric_lib("net.fabricmc:tiny-mappings-parser:0.3.0", "https://maven.fabricmc.net/"),
        fabric_lib("no.url:here:1.0", ""),
        fabric_lib("malformed:coordinate", "https://maven.fabricmc.net/"),
    ];
    let plan = plan_fabric_library_downloads(&libs);
    assert_eq!(plan.len(), 1);
    assert_eq!(
        plan[0].url,
        "https://maven.fabricmc.net/net/fabricmc/tiny-mappings-parser/0.3.0/tiny-mappings-parser-0.3.0.jar"
    );
    assert_eq!(
        plan[0].dest_rel,
        "libraries/net/fabricmc/tiny-mappings-parser/0.3.0/tiny-mappings-parser-0.3.0.jar"
    );
}

#[test]
fn forge_plan_prefers_recommended_then_latest() {
    let promos = vec![
        ("1.20.1-latest".to_string(), "47.4.10".to_string()),
        ("1.20.1-recommended".to_string(), "47.4.0".to_string()),
    ];
    let plan = forge_install_plan(&promos, "1.20.1").unwrap();
    assert_eq!(plan.forge_version, "47.4.0");
    assert_eq!(plan.full_version, "1.20.1-47.4.0");
    assert_eq!(
        plan.installer_url,
        "https://maven.minecraftforge.net/net/minecraftforge/forge/1.20.1-47.4.0/forge-1.20.1-47.4.0-installer.jar"
    );
    assert_eq!(plan.installer_dest, "forge-installer.jar");

    let promos = vec![("1.20.1-latest".to_string(), "47.4.10".to_string())];
    let plan = forge_install_plan(&promos, "1.20.1").unwrap();
    assert_eq!(plan.forge_version, "47.4.10");
}

#[test]
fn forge_plan_fails_without_a_build_for_the_game_version() {
    let promos = vec![("1.19-recommended".to_string(), "41.1.0".to_string())];
    let err = forge_install_plan(&promos, "1.20.1").unwrap_err();
    assert_eq!(err, ForgeError::NoVersionForGame);
}

#[test]
fn forge_version_dir_picks_the_greatest_matching_name() {
    let names = vec![
        "1.20.1".to_string(),
        "1.20.1-forge-47.4.10".to_string(),
        "1.20.1-forge-47.4.10-b".to_string(),
        "other".to_string(),
    ];
    let picked = pick_forge_version_dir(&names, "1.20.1", "47.4.10").unwrap();
    assert_eq!(picked, "1.20.1-forge-47.4.10-b");

    let names = vec!["installer-forge-1.20.1-47.4.10".to_string()];
    let picked = pick_forge_version_dir(&names, "1.20.1", "47.4.10").unwrap();
    assert_eq!(picked, "installer-forge-1.20.1-47.4.10");

    assert!(pick_forge_version_dir(&vec!["1.19".to_string()], "1.20.1", "47.4.10").is_none());
}
