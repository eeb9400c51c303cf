//! The Fabric loader data model and installation planning: which loader
//! version to take, where its profile and jar come from and go to, and
//! which library downloads a profile requires. Fetching is the caller's
//! part.
use vstd::prelude::*;
use vstd::string::*;

verus! {

use crate::native::{PlannedDownload, lemma_planned_views_push, planned_views};
use crate::strutil::{from_chars, push_all, replace_chars, replace_seq, split_chars, split_seq, to_chars, views_of};

/// One loader version descriptor of the loader metadata endpoint.
pub struct LoaderVersion {
    pub loader: ComponentVersion,
}

/// A versioned component: its version string and stability flag.
pub struct ComponentVersion {
    pub version: String,
    pub stable: bool,
}

/// The Java requirement of a loader profile.
pub struct JavaVersion {
    pub component: String,
    pub major_version: i32,
}

/// The argument lists of a loader profile.
pub struct Arguments {
    pub game: Vec<String>,
    pub jvm: Vec<String>,
}

/// The OS filter of a loader profile rule.
pub struct RuleOs {
    pub name: Option<String>,
    pub version: Option<String>,
    pub arch: Option<String>,
}

/// One rule of a loader profile.
pub struct Rule {
    pub action: String,
    pub os: Option<RuleOs>,
    pub features: Vec<(String, bool)>,
}

/// The asset-index reference of a loader profile.
pub struct AssetIndexFabric {
    pub id: String,
    pub sha1: String,
    pub size: i64,
    pub url: String,
    pub total_size: i64,
}

/// One downloadable endpoint of a loader profile.
pub struct DownloadLink {
    pub sha1: String,
    pub size: i64,
    pub url: String,
}

/// The client and server downloads of a loader profile.
pub struct DownloadsFabric {
    pub client: DownloadLink,
    pub server: DownloadLink,
}

/// One artifact of a loader library.
pub struct ArtifactFabric {
    pub path: String,
    pub url: String,
    pub sha1: String,
    pub size: i64,
}

/// The downloads of a loader library.
pub struct LibDownloadsFabric {
    pub artifact: Option<ArtifactFabric>,
    pub classifiers: Option<Vec<(String, ArtifactFabric)>>,
}

/// The extraction rules of a loader library.
pub struct Extract {
    pub exclude: Vec<String>,
}

/// One library of a loader profile: a Maven coordinate and the
/// repository it is served from.
pub struct LibraryFabric {
    pub name: String,
    pub url: String,
    pub sha1: Option<String>,
    pub size: Option<i64>,
    pub md5: Option<String>,
    pub sha256: Option<String>,
    pub sha512: Option<String>,
    pub extract: Option<Extract>,
    pub natives: Option<Vec<(String, String)>>,
    pub rules: Option<Vec<Rule>>,
}

/// The log-configuration file of a loader profile.
pub struct LoggingFile {
    pub id: String,
    pub sha1: String,
    pub size: i64,
    pub url: String,
}

/// One logging entry of a loader profile.
pub struct LoggingEntry {
    pub argument: String,
    pub file: LoggingFile,
    pub entry_type: String,
}

/// The logging section of a loader profile.
pub struct Logging {
    pub client: Option<LoggingEntry>,
}

/// A whole loader profile: a manifest-shaped document.
pub struct FabricProfile {
    pub id: String,
    pub time: String,
    pub release_time: String,
    pub profile_type: String,
    pub main_class: String,
    pub java_version: Option<JavaVersion>,
    pub arguments: Option<Arguments>,
    pub minimum_launcher_version: Option<i32>,
    pub inherits_from: Option<String>,
    pub asset_index: Option<AssetIndexFabric>,
    pub assets: Option<String>,
    pub downloads: Option<DownloadsFabric>,
    pub libraries: Vec<LibraryFabric>,
    pub logging: Option<Logging>,
}

/// No loader version is offered for the requested game version.
#[derive(Debug, Clone, Copy, PartialEq, Eq, Structural)]
pub enum FabricError {
    NoLoaderVersions,
}

/// Where the chosen loader's profile and jar come from and go to,
/// relative to the launcher root.
#[derive(Debug)]
pub struct FabricInstallPlan {
    pub version_id: String,
    pub json_url: String,
    pub jar_url: String,
    pub version_dir: String,
    pub json_dest: String,
    pub jar_dest: String,
}

/// Plans the loader installation: the first offered loader version is
/// taken as the latest. Fails exactly when no version is offered.
pub fn fabric_install_plan(loaders: &Vec<LoaderVersion>, mc_version: &str) -> (r: Result<
    FabricInstallPlan,
    FabricError,
>)
    ensures
        (match r {
            Result::Ok(p) => loaders@.len() > 0 && ({
                let lv = loaders@[0].loader.version@;
                let vid = "fabric-loader-"@ + lv + "-"@ + mc_version@;
                &&& p.version_id@ == vid
                &&& p.json_url@ == "https://meta.fabricmc.net/v2/versions/loader/"@ + mc_version@
                    + "/"@ + lv + "/profile/json"@
                &&& p.jar_url@ == "https://maven.fabricmc.net/net/fabricmc/fabric-loader/"@ + lv
                    + "/fabric-loader-"@ + lv + ".jar"@
                &&& p.version_dir@ == "fabric/"@ + vid
                &&& p.json_dest@ == "fabric/"@ + vid + "/"@ + vid + ".json"@
                &&& p.jar_dest@ == "fabric/"@ + vid + "/"@ + vid + ".jar"@
            }),
            Result::Err(e) => loaders@.len() == 0 && e == FabricError::NoLoaderVersions,
        }),
{
    if loaders.len() == 0 {
        return Result::Err(FabricError::NoLoaderVersions);
    }
    let lv = loaders[0].loader.version.as_str();
    let version_id = "fabric-loader-".to_owned().concat(lv).concat("-").concat(mc_version);
    let json_url = "https://meta.fabricmc.net/v2/versions/loader/".to_owned().concat(
        mc_version,
    ).concat("/").concat(lv).concat("/profile/json");
    let jar_url = "https://maven.fabricmc.net/net/fabricmc/fabric-loader/".to_owned().concat(
        lv,
    ).concat("/fabric-loader-").concat(lv).concat(".jar");
    let version_dir = "fabric/".to_owned().concat(version_id.as_str());
    let json_dest = version_dir.clone().concat("/").concat(version_id.as_str()).concat(".json");
    let jar_dest = version_dir.clone().concat("/").concat(version_id.as_str()).concat(".jar");
    Result::Ok(
        FabricInstallPlan { version_id, json_url, jar_url, version_dir, json_dest, jar_dest },
    )
}

/// The library download one loader library requires: nothing when its
/// repository URL is empty or its coordinate does not have exactly
/// three parts; else the jar under the Maven layout, from that
/// repository and into `libraries/`.
pub open spec fn fabric_lib_dl_spec(lib: LibraryFabric) -> Option<(Seq<char>, Seq<char>)> {
    if lib.url@.len() == 0 {
        Option::None
    } else {
        let parts = split_seq(lib.name@, ':');
        if parts.len() != 3 {
            Option::None
        } else {
            let group_path = replace_seq(parts[0], seq!['.'], seq!['/']);
            let file = parts[1] + seq!['-'] + parts[2] + ".jar"@;
            let tail = group_path + seq!['/'] + parts[1] + seq!['/'] + parts[2] + seq!['/'] + file;
            Option::Some((lib.url@ + tail, "libraries/"@ + tail))
        }
    }
}

/// Plans the download of one loader library, when one is owed.
fn plan_fabric_library(lib: &LibraryFabric) -> (r: Option<PlannedDownload>)
    ensures
        (match r {
            Option::Some(d) => fabric_lib_dl_spec(*lib) matches Option::Some(q) && d.url@ == q.0
                && d.dest_rel@ == q.1,
            Option::None => fabric_lib_dl_spec(*lib) is None,
        }),
{
    if lib.url.as_str().is_empty() {
        return Option::None;
    }
    let name_chars = to_chars(lib.name.as_str());
    let parts = split_chars(&name_chars, ':');
    if parts.len() != 3 {
        return Option::None;
    }
    proof {
        assert(views_of(parts@)[0] == parts@[0]@);
        assert(views_of(parts@)[1] == parts@[1]@);
        assert(views_of(parts@)[2] == parts@[2]@);
    }
    let mut dot: Vec<char> = Vec::new();
    dot.push('.');
    let mut slash: Vec<char> = Vec::new();
    slash.push('/');
    let group_path = replace_chars(&parts[0], &dot, &slash);
    let mut jar_ext: Vec<char> = Vec::new();
    jar_ext.push('.');
    jar_ext.push('j');
    jar_ext.push('a');
    jar_ext.push('r');
    proof {
        reveal_strlit(".jar");
        assert(jar_ext@ =~= ".jar"@);
    }
    let mut tail: Vec<char> = Vec::new();
    push_all(&mut tail, &group_path);
    tail.push('/');
    push_all(&mut tail, &parts[1]);
    tail.push('/');
    push_all(&mut tail, &parts[2]);
    tail.push('/');
    push_all(&mut tail, &parts[1]);
    tail.push('-');
    push_all(&mut tail, &parts[2]);
    push_all(&mut tail, &jar_ext);
    let mut url = to_chars(lib.url.as_str());
    push_all(&mut url, &tail);
    let mut rel = to_chars("libraries/");
    push_all(&mut rel, &tail);
    proof {
        assert(url@ =~= fabric_lib_dl_spec(*lib)->Some_0.0);
        assert(rel@ =~= fabric_lib_dl_spec(*lib)->Some_0.1);
    }
    Option::Some(PlannedDownload { url: from_chars(&url), dest_rel: from_chars(&rel) })
}

/// The downloads of a whole loader library list, in order; libraries
/// without a repository URL or with a malformed coordinate are skipped.
pub open spec fn fabric_plan_spec(libs: Seq<LibraryFabric>) -> Seq<(Seq<char>, Seq<char>)>
    decreases libs.len(),
{
    if libs.len() == 0 {
        Seq::empty()
    } else {
        (match fabric_lib_dl_spec(libs[0]) {
            Option::Some(d) => seq![d],
            Option::None => Seq::empty(),
        }) + fabric_plan_spec(libs.skip(1))
    }
}

/// Plans the download of every library of a loader profile.
pub fn plan_fabric_library_downloads(libs: &Vec<LibraryFabric>) -> (r: Vec<PlannedDownload>)
    ensures
        planned_views(r@) == fabric_plan_spec(libs@),
{
    let mut out: Vec<PlannedDownload> = Vec::new();
    let mut i: usize = 0;
    proof {
        assert(libs@.skip(0) =~= libs@);
        assert(planned_views(out@) =~= Seq::<(Seq<char>, Seq<char>)>::empty());
        assert(planned_views(out@) + fabric_plan_spec(libs@) =~= fabric_plan_spec(libs@));
    }
    while i < libs.len()
        invariant
            i <= libs@.len(),
            fabric_plan_spec(libs@) == planned_views(out@) + fabric_plan_spec(
                libs@.skip(i as int),
            ),
        decreases libs@.len() - i,
    {
        proof {
            assert(libs@.skip(i as int)[0] == libs@[i as int]);
            assert(libs@.skip(i as int).skip(1) =~= libs@.skip(i + 1));
        }
        if let Option::Some(d) = plan_fabric_library(&libs[i]) {
            let ghost old_vec = out@;
            let ghost old_views = planned_views(out@);
            out.push(d);
            proof {
                assert(out@.take(out@.len() - 1) =~= old_vec);
                lemma_planned_views_push(out@, old_views);
                assert(planned_views(out@) + fabric_plan_spec(libs@.skip(i + 1)) =~= old_views + (
                seq![(out@[out@.len() - 1].url@, out@[out@.len() - 1].dest_rel@)]
                    + fabric_plan_spec(libs@.skip(i + 1))));
            }
        }
        i += 1;
    }
    proof {
        assert(libs@.skip(i as int) =~= Seq::<LibraryFabric>::empty());
        assert(planned_views(out@) + Seq::<(Seq<char>, Seq<char>)>::empty() =~= planned_views(
            out@,
        ));
    }
    out
}

} // verus!
