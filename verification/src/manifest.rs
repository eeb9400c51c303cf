//! The version manifest data model and the inheritance merge: a child
//! manifest that names a parent is flattened into one manifest. The
//! child's libraries come first, the parent's game arguments are appended
//! after the child's, and the parent's VM arguments are prepended before
//! the child's, so loader-injected flags apply before base flags.
use vstd::prelude::*;

verus! {

use crate::rules::Rule;

/// The Java runtime requirement a manifest declares.
pub struct JavaVersion {
    pub component: Option<String>,
    pub major_version: Option<i32>,
}

/// One argument template: a literal, or a value guarded by rules.
pub enum ArgumentValue {
    Simple(String),
    Conditional { rules: Vec<Rule>, value: StringOrVec },
}

/// The value of a conditional argument: one string or several.
pub enum StringOrVec {
    Single(String),
    Multiple(Vec<String>),
}

/// The two argument template lists of a manifest: one for the
/// application layer and one for the VM layer.
pub struct Arguments {
    pub game: Vec<ArgumentValue>,
    pub jvm: Vec<ArgumentValue>,
}

/// A downloadable artifact: its path relative to the libraries root, and
/// what is known about its content.
pub struct Artifact {
    pub path: String,
    pub sha1: Option<String>,
    pub size: Option<u64>,
    pub url: Option<String>,
}

/// The downloads of a library: a primary artifact and per-classifier
/// native artifacts, keyed by classifier name.
pub struct Downloads {
    pub artifact: Option<Artifact>,
    pub classifiers: Option<Vec<(String, Artifact)>>,
}

/// The extraction rules of a native-bearing library: entry-name prefixes
/// to leave inside the archive.
pub struct ExtractRules {
    pub exclude: Option<Vec<String>>,
}

/// One library of a manifest.
pub struct Library {
    pub name: String,
    pub downloads: Option<Downloads>,
    pub rules: Option<Vec<Rule>>,
    pub natives: Option<Vec<(String, String)>>,
    pub extract: Option<ExtractRules>,
    pub url: Option<String>,
    pub checksums: Option<Vec<String>>,
    pub serverreq: Option<bool>,
    pub clientreq: Option<bool>,
}

/// The asset-index reference of a manifest.
pub struct AssetIndex {
    pub id: String,
    pub sha1: Option<String>,
    pub size: Option<u64>,
    pub total_size: Option<u64>,
    pub url: Option<String>,
}

/// One version manifest, as fetched or as flattened by the merge.
pub struct VersionJson {
    pub id: String,
    pub inherits_from: Option<String>,
    pub main_class: String,
    pub libraries: Vec<Library>,
    pub arguments: Option<Arguments>,
    pub minecraft_arguments: Option<String>,
    pub asset_index: Option<AssetIndex>,
    pub assets: Option<String>,
    pub version_type: Option<String>,
    pub time: Option<String>,
    pub release_time: Option<String>,
    pub minimum_launcher_version: Option<i32>,
    pub compliance_level: Option<i32>,
    pub java_version: Option<JavaVersion>,
}

/// How the argument lists of child and parent combine: an absent side
/// falls back to the other; when both are present the game list is child
/// then parent, and the VM list parent then child.
pub open spec fn args_merged_spec(
    c: Option<Arguments>,
    p: Option<Arguments>,
    m: Option<Arguments>,
) -> bool {
    match (c, p) {
        (Option::None, Option::None) => m is None,
        (Option::None, Option::Some(pa)) => m == Option::Some(pa),
        (Option::Some(ca), Option::None) => m == Option::Some(ca),
        (Option::Some(ca), Option::Some(pa)) => match m {
            Option::Some(ma) => ma.game@ == ca.game@ + pa.game@ && ma.jvm@ == pa.jvm@ + ca.jvm@,
            Option::None => false,
        },
    }
}

/// The asset-index id of the merged manifest: the child's `assets` field,
/// else the parent's, else the child's own id.
pub open spec fn merged_assets_id_spec(child: VersionJson, parent: Option<VersionJson>) -> Seq<
    char,
> {
    match child.assets {
        Option::Some(a) => a@,
        Option::None => match parent {
            Option::Some(p) => match p.assets {
                Option::Some(a) => a@,
                Option::None => child.id@,
            },
            Option::None => child.id@,
        },
    }
}

/// Flattens `child` onto its optional `parent` manifest and returns the
/// merged manifest together with the resolved asset-index id.
///
/// The merged library list is the child's libraries followed by the
/// parent's; the merged game arguments are the child's followed by the
/// parent's; the merged VM arguments are the parent's followed by the
/// child's. These two orderings are intentionally asymmetric.
pub fn merge_version_jsons(child: VersionJson, parent: Option<VersionJson>) -> (r: (
    VersionJson,
    String,
))
    ensures
        r.0.id@ == child.id@,
        r.0.inherits_from is None,
        r.0.main_class@ == child.main_class@,
        (match parent {
            Option::None => r.0.libraries@ == child.libraries@ && args_merged_spec(
                child.arguments,
                Option::None,
                r.0.arguments,
            ) && r.0.minecraft_arguments == child.minecraft_arguments,
            Option::Some(p) => r.0.libraries@ == child.libraries@ + p.libraries@
                && args_merged_spec(child.arguments, p.arguments, r.0.arguments) && (match child
                .minecraft_arguments {
                Option::Some(m) => r.0.minecraft_arguments == Option::Some(m),
                Option::None => r.0.minecraft_arguments == p.minecraft_arguments,
            }),
        }),
        r.1@ == merged_assets_id_spec(child, parent),
        (match r.0.assets {
            Option::Some(a) => a@ == r.1@,
            Option::None => false,
        }),
        (match r.0.version_type {
            Option::Some(t) => t@ == "release"@,
            Option::None => false,
        }),
        r.0.asset_index is None,
        r.0.java_version is None,
{
    let VersionJson {
        id,
        inherits_from: _,
        main_class,
        libraries,
        arguments,
        minecraft_arguments,
        asset_index: _,
        assets,
        version_type: _,
        time: _,
        release_time: _,
        minimum_launcher_version: _,
        compliance_level: _,
        java_version: _,
    } = child;
    let mut all_libraries = libraries;
    let mut combined_arguments = arguments;
    let mut merged_minecraft_arguments = minecraft_arguments;
    let mut assets_source = assets;
    if let Option::Some(p) = parent {
        let VersionJson {
            id: _,
            inherits_from: _,
            main_class: _,
            libraries: mut parent_libraries,
            arguments: parent_arguments,
            minecraft_arguments: parent_minecraft_arguments,
            asset_index: _,
            assets: parent_assets,
            version_type: _,
            time: _,
            release_time: _,
            minimum_launcher_version: _,
            compliance_level: _,
            java_version: _,
        } = p;
        all_libraries.append(&mut parent_libraries);
        combined_arguments = match (combined_arguments, parent_arguments) {
            (Option::None, pa) => pa,
            (ca, Option::None) => ca,
            (Option::Some(ca), Option::Some(pa)) => {
                let mut game = ca.game;
                let mut parent_game = pa.game;
                game.append(&mut parent_game);
                let mut jvm = pa.jvm;
                let mut child_jvm = ca.jvm;
                jvm.append(&mut child_jvm);
                Option::Some(Arguments { game, jvm })
            },
        };
        if merged_minecraft_arguments.is_none() {
            merged_minecraft_arguments = parent_minecraft_arguments;
        }
        if assets_source.is_none() {
            assets_source = parent_assets;
        }
    }
    let assets_id = match assets_source {
        Option::Some(a) => a,
        Option::None => id.clone(),
    };
    let merged = VersionJson {
        id,
        inherits_from: Option::None,
        main_class,
        libraries: all_libraries,
        arguments: combined_arguments,
        minecraft_arguments: merged_minecraft_arguments,
        asset_index: Option::None,
        assets: Option::Some(assets_id.clone()),
        version_type: Option::Some("release".to_owned()),
        time: Option::None,
        release_time: Option::None,
        minimum_launcher_version: Option::None,
        compliance_level: Option::None,
        java_version: Option::None,
    };
    (merged, assets_id)
}

} // verus!
