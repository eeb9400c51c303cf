//! Launch-argument assembly: placeholder substitution over argument
//! templates, conditional argument processing, legacy flat argument
//! strings, and the final argument vector. Unknown placeholders are left
//! verbatim; they surface in the emitted argument rather than failing.
use vstd::prelude::*;
use vstd::string::*;

verus! {

use crate::classpath::{build_classpath, classpath_entries_spec, present_spec};
use crate::manifest::{ArgumentValue, StringOrVec, VersionJson};
use crate::rules::{Platform, eval_rules_spec, is_rule_allowed};
use crate::strutil::{
    contains_chars,
    contains_seq,
    from_chars,
    join_chars,
    join_seq,
    replace_chars,
    replace_seq,
    split_chars,
    split_seq,
    str_eq,
    string_views,
    to_chars,
    views_of,
};

/// The resolved, immutable context of one launch attempt. Directories
/// are modelled as strings joined with `/`.
pub struct LaunchConfig {
    pub username: String,
    pub uuid: String,
    pub access_token: String,
    pub mc_version: String,
    pub loader_version: String,
    pub game_dir: String,
    pub assets_dir: String,
    pub libraries_dir: String,
    pub natives_dir: String,
    pub min_memory: String,
    pub max_memory: String,
    pub window_width: u32,
    pub window_height: u32,
}

impl LaunchConfig {
    /// Builds the launch context under `base_dir`: assets, libraries and
    /// per-version natives directories, default memory bounds and window
    /// geometry. Creating the directories on disk is the caller's part.
    pub fn new(
        username: String,
        uuid: String,
        access_token: String,
        mc_version: String,
        loader_version: String,
        base_dir: String,
    ) -> (r: LaunchConfig)
        ensures
            r.username@ == username@,
            r.uuid@ == uuid@,
            r.access_token@ == access_token@,
            r.mc_version@ == mc_version@,
            r.loader_version@ == loader_version@,
            r.game_dir@ == base_dir@,
            r.assets_dir@ == base_dir@ + "/assets"@,
            r.libraries_dir@ == base_dir@ + "/libraries"@,
            r.natives_dir@ == base_dir@ + "/natives/"@ + mc_version@,
            r.min_memory@ == "512M"@,
            r.max_memory@ == "4G"@,
            r.window_width == 1280u32,
            r.window_height == 720u32,
    {
        let assets_dir = base_dir.clone().concat("/assets");
        let libraries_dir = base_dir.clone().concat("/libraries");
        let natives_dir = base_dir.clone().concat("/natives/").concat(mc_version.as_str());
        LaunchConfig {
            username,
            uuid,
            access_token,
            mc_version,
            loader_version,
            game_dir: base_dir,
            assets_dir,
            libraries_dir,
            natives_dir,
            min_memory: "512M".to_owned(),
            max_memory: "4G".to_owned(),
            window_width: 1280,
            window_height: 720,
        }
    }

    /// The base VM arguments of every launch: memory bounds, native
    /// library path and launcher identity.
    pub fn base_jvm_args(&self) -> (r: Vec<String>)
        ensures
            string_views(r@) == base_jvm_args_spec(*self),
    {
        let mut r: Vec<String> = Vec::new();
        r.push("-Xms".to_owned().concat(self.min_memory.as_str()));
        r.push("-Xmx".to_owned().concat(self.max_memory.as_str()));
        r.push("-Djava.library.path=".to_owned().concat(self.natives_dir.as_str()));
        r.push("-Dminecraft.launcher.brand=CustomLauncher".to_owned());
        r.push("-Dminecraft.launcher.version=1.0".to_owned());
        proof {
            assert(string_views(r@) =~= base_jvm_args_spec(*self));
        }
        r
    }
}

/// The five base VM arguments of a launch context.
pub open spec fn base_jvm_args_spec(c: LaunchConfig) -> Seq<Seq<char>> {
    seq![
        "-Xms"@ + c.min_memory@,
        "-Xmx"@ + c.max_memory@,
        "-Djava.library.path="@ + c.natives_dir@,
        "-Dminecraft.launcher.brand=CustomLauncher"@,
        "-Dminecraft.launcher.version=1.0"@,
    ]
}

/// `arg` with every known placeholder replaced from the context, in a
/// fixed order; unknown placeholders stay verbatim.
pub open spec fn substitute_spec(
    arg: Seq<char>,
    c: LaunchConfig,
    classpath: Seq<char>,
    assets_index: Seq<char>,
    windows: bool,
) -> Seq<char> {
    let s = replace_seq(arg, "${auth_player_name}"@, c.username@);
    let s = replace_seq(s, "${version_name}"@, c.loader_version@);
    let s = replace_seq(s, "${game_directory}"@, c.game_dir@);
    let s = replace_seq(s, "${assets_root}"@, c.assets_dir@);
    let s = replace_seq(s, "${assets_index_name}"@, assets_index);
    let s = replace_seq(s, "${auth_uuid}"@, c.uuid@);
    let s = replace_seq(s, "${auth_access_token}"@, c.access_token@);
    let s = replace_seq(s, "${user_type}"@, "msa"@);
    let s = replace_seq(s, "${version_type}"@, "release"@);
    let s = replace_seq(s, "${natives_directory}"@, c.natives_dir@);
    let s = replace_seq(s, "${launcher_name}"@, "CustomLauncher"@);
    let s = replace_seq(s, "${launcher_version}"@, "1.0"@);
    let s = replace_seq(s, "${classpath}"@, classpath);
    let s = replace_seq(s, "${library_directory}"@, c.libraries_dir@);
    replace_seq(
        s,
        "${classpath_separator}"@,
        if windows {
            ";"@
        } else {
            ":"@
        },
    )
}

/// `arg` with the loader-specific placeholders replaced as well: the
/// primary jar name, the window geometry, and empty strings for the
/// online-service fields unused in offline mode.
pub open spec fn substitute_forge_spec(
    arg: Seq<char>,
    c: LaunchConfig,
    classpath: Seq<char>,
    assets_index: Seq<char>,
    windows: bool,
) -> Seq<char> {
    let s = substitute_spec(arg, c, classpath, assets_index, windows);
    let s = replace_seq(s, "${primary_jar_name}"@, "client.jar"@);
    let s = replace_seq(s, "${resolution_width}"@, "1280"@);
    let s = replace_seq(s, "${resolution_height}"@, "720"@);
    let s = replace_seq(s, "${clientid}"@, ""@);
    let s = replace_seq(s, "${auth_xuid}"@, ""@);
    let s = replace_seq(s, "${quickPlayPath}"@, ""@);
    let s = replace_seq(s, "${quickPlaySingleplayer}"@, ""@);
    let s = replace_seq(s, "${quickPlayMultiplayer}"@, ""@);
    replace_seq(s, "${quickPlayRealms}"@, ""@)
}

/// One replacement step over character vectors, from string literals.
fn replace_str(s: Vec<char>, from: &str, to: &str) -> (r: Vec<char>)
    ensures
        r@ == replace_seq(s@, from@, to@),
{
    let f = to_chars(from);
    let t = to_chars(to);
    replace_chars(&s, &f, &t)
}

/// Expands the known placeholders of `arg` from the launch context.
pub fn substitute_variables(
    arg: &str,
    config: &LaunchConfig,
    classpath: &str,
    assets_index: &str,
    windows: bool,
) -> (r: String)
    ensures
        r@ == substitute_spec(arg@, *config, classpath@, assets_index@, windows),
{
    let s = to_chars(arg);
    let s = replace_str(s, "${auth_player_name}", config.username.as_str());
    let s = replace_str(s, "${version_name}", config.loader_version.as_str());
    let s = replace_str(s, "${game_directory}", config.game_dir.as_str());
    let s = replace_str(s, "${assets_root}", config.assets_dir.as_str());
    let s = replace_str(s, "${assets_index_name}", assets_index);
    let s = replace_str(s, "${auth_uuid}", config.uuid.as_str());
    let s = replace_str(s, "${auth_access_token}", config.access_token.as_str());
    let s = replace_str(s, "${user_type}", "msa");
    let s = replace_str(s, "${version_type}", "release");
    let s = replace_str(s, "${natives_directory}", config.natives_dir.as_str());
    let s = replace_str(s, "${launcher_name}", "CustomLauncher");
    let s = replace_str(s, "${launcher_version}", "1.0");
    let s = replace_str(s, "${classpath}", classpath);
    let s = replace_str(s, "${library_directory}", config.libraries_dir.as_str());
    let s = replace_str(
        s,
        "${classpath_separator}",
        if windows {
            ";"
        } else {
            ":"
        },
    );
    from_chars(&s)
}

/// Expands the known and loader-specific placeholders of `arg`.
pub fn substitute_forge_variables(
    arg: &str,
    config: &LaunchConfig,
    classpath: &str,
    assets_index: &str,
    windows: bool,
) -> (r: String)
    ensures
        r@ == substitute_forge_spec(arg@, *config, classpath@, assets_index@, windows),
{
    let base = substitute_variables(arg, config, classpath, assets_index, windows);
    let s = to_chars(base.as_str());
    let s = replace_str(s, "${primary_jar_name}", "client.jar");
    let s = replace_str(s, "${resolution_width}", "1280");
    let s = replace_str(s, "${resolution_height}", "720");
    let s = replace_str(s, "${clientid}", "");
    let s = replace_str(s, "${auth_xuid}", "");
    let s = replace_str(s, "${quickPlayPath}", "");
    let s = replace_str(s, "${quickPlaySingleplayer}", "");
    let s = replace_str(s, "${quickPlayMultiplayer}", "");
    let s = replace_str(s, "${quickPlayRealms}", "");
    from_chars(&s)
}

/// The expansions of a list of template strings, in order.
pub open spec fn subst_list_spec(
    vs: Seq<String>,
    c: LaunchConfig,
    classpath: Seq<char>,
    assets_index: Seq<char>,
    windows: bool,
    forge: bool,
) -> Seq<Seq<char>>
    decreases vs.len(),
{
    if vs.len() == 0 {
        Seq::empty()
    } else {
        seq![
            if forge {
                substitute_forge_spec(vs[0]@, c, classpath, assets_index, windows)
            } else {
                substitute_spec(vs[0]@, c, classpath, assets_index, windows)
            },
        ] + subst_list_spec(vs.skip(1), c, classpath, assets_index, windows, forge)
    }
}

/// The strings an argument template emits: a literal emits its expansion,
/// a conditional emits its value's expansions when its rules allow and
/// nothing otherwise.
pub open spec fn process_arg_spec(
    arg: ArgumentValue,
    c: LaunchConfig,
    classpath: Seq<char>,
    assets_index: Seq<char>,
    os_name: Seq<char>,
    arch: Seq<char>,
    flags: Seq<(String, bool)>,
    forge: bool,
) -> Seq<Seq<char>> {
    let windows = os_name == "windows"@;
    match arg {
        ArgumentValue::Simple(s) => seq![
            if forge {
                substitute_forge_spec(s@, c, classpath, assets_index, windows)
            } else {
                substitute_spec(s@, c, classpath, assets_index, windows)
            },
        ],
        ArgumentValue::Conditional { rules, value } => {
            if eval_rules_spec(rules@, os_name, arch, flags) {
                match value {
                    StringOrVec::Single(s) => seq![
                        if forge {
                            substitute_forge_spec(s@, c, classpath, assets_index, windows)
                        } else {
                            substitute_spec(s@, c, classpath, assets_index, windows)
                        },
                    ],
                    StringOrVec::Multiple(vs) => subst_list_spec(
                        vs@,
                        c,
                        classpath,
                        assets_index,
                        windows,
                        forge,
                    ),
                }
            } else {
                Seq::empty()
            }
        },
    }
}

/// Expands one argument template against the platform and context.
pub fn process_argument_value(
    arg: &ArgumentValue,
    config: &LaunchConfig,
    classpath: &str,
    assets_index: &str,
    platform: &Platform,
) -> (r: Vec<String>)
    ensures
        string_views(r@) == process_arg_spec(
            *arg,
            *config,
            classpath@,
            assets_index@,
            platform.os_name@,
            platform.arch@,
            platform.features@,
            false,
        ),
{
    process_argument_impl(arg, config, classpath, assets_index, platform, false)
}

/// Expands one argument template with the loader-specific placeholders.
pub fn process_forge_argument(
    arg: &ArgumentValue,
    config: &LaunchConfig,
    classpath: &str,
    assets_index: &str,
    platform: &Platform,
) -> (r: Vec<String>)
    ensures
        string_views(r@) == process_arg_spec(
            *arg,
            *config,
            classpath@,
            assets_index@,
            platform.os_name@,
            platform.arch@,
            platform.features@,
            true,
        ),
{
    process_argument_impl(arg, config, classpath, assets_index, platform, true)
}

/// Expands one argument template, with or without the loader-specific
/// placeholders.
fn process_argument_impl(
    arg: &ArgumentValue,
    config: &LaunchConfig,
    classpath: &str,
    assets_index: &str,
    platform: &Platform,
    forge: bool,
) -> (r: Vec<String>)
    ensures
        string_views(r@) == process_arg_spec(
            *arg,
            *config,
            classpath@,
            assets_index@,
            platform.os_name@,
            platform.arch@,
            platform.features@,
            forge,
        ),
{
    let windows = str_eq(platform.os_name.as_str(), "windows");
    let mut out: Vec<String> = Vec::new();
    match arg {
        ArgumentValue::Simple(s) => {
            let e = if forge {
                substitute_forge_variables(s.as_str(), config, classpath, assets_index, windows)
            } else {
                substitute_variables(s.as_str(), config, classpath, assets_index, windows)
            };
            out.push(e);
            proof {
                assert(string_views(out@) =~= process_arg_spec(
                    *arg,
                    *config,
                    classpath@,
                    assets_index@,
                    platform.os_name@,
                    platform.arch@,
                    platform.features@,
                    forge,
                ));
            }
        },
        ArgumentValue::Conditional { rules, value } => {
            if is_rule_allowed(rules, platform) {
                match value {
                    StringOrVec::Single(s) => {
                        let e = if forge {
                            substitute_forge_variables(
                                s.as_str(),
                                config,
                                classpath,
                                assets_index,
                                windows,
                            )
                        } else {
                            substitute_variables(s.as_str(), config, classpath, assets_index, windows)
                        };
                        out.push(e);
                    },
                    StringOrVec::Multiple(vs) => {
                        let mut i: usize = 0;
                        proof {
                            assert(vs@.skip(0) =~= vs@);
                            assert(string_views(out@) + subst_list_spec(
                                vs@,
                                *config,
                                classpath@,
                                assets_index@,
                                windows,
                                forge,
                            ) =~= subst_list_spec(
                                vs@,
                                *config,
                                classpath@,
                                assets_index@,
                                windows,
                                forge,
                            ));
                        }
                        while i < vs.len()
                            invariant
                                i <= vs@.len(),
                                windows == (platform.os_name@ == "windows"@),
                                subst_list_spec(
                                    vs@,
                                    *config,
                                    classpath@,
                                    assets_index@,
                                    windows,
                                    forge,
                                ) == string_views(out@) + subst_list_spec(
                                    vs@.skip(i as int),
                                    *config,
                                    classpath@,
                                    assets_index@,
                                    windows,
                                    forge,
                                ),
                            decreases vs@.len() - i,
                        {
                            proof {
                                assert(vs@.skip(i as int)[0] == vs@[i as int]);
                                assert(vs@.skip(i as int).skip(1) =~= vs@.skip(i + 1));
                            }
                            let e = if forge {
                                substitute_forge_variables(
                                    vs[i].as_str(),
                                    config,
                                    classpath,
                                    assets_index,
                                    windows,
                                )
                            } else {
                                substitute_variables(
                                    vs[i].as_str(),
                                    config,
                                    classpath,
                                    assets_index,
                                    windows,
                                )
                            };
                            let ghost old_out = out@;
                            out.push(e);
                            i += 1;
                            proof {
                                assert(string_views(out@) =~= string_views(old_out).push(
                                    out@[out@.len() - 1]@,
                                ));
                                assert(subst_list_spec(
                                    vs@,
                                    *config,
                                    classpath@,
                                    assets_index@,
                                    windows,
                                    forge,
                                ) =~= string_views(out@) + subst_list_spec(
                                    vs@.skip(i as int),
                                    *config,
                                    classpath@,
                                    assets_index@,
                                    windows,
                                    forge,
                                ));
                            }
                        }
                        proof {
                            assert(vs@.skip(i as int) =~= Seq::<String>::empty());
                            assert(string_views(out@) + Seq::<Seq<char>>::empty() =~= string_views(
                                out@,
                            ));
                        }
                    },
                }
            }
            proof {
                assert(string_views(out@) =~= process_arg_spec(
                    *arg,
                    *config,
                    classpath@,
                    assets_index@,
                    platform.os_name@,
                    platform.arch@,
                    platform.features@,
                    forge,
                ));
            }
        },
    }
    out
}


/// The expansions of a list of argument templates, concatenated in order.
pub open spec fn process_list_spec(
    args: Seq<ArgumentValue>,
    c: LaunchConfig,
    classpath: Seq<char>,
    assets_index: Seq<char>,
    os_name: Seq<char>,
    arch: Seq<char>,
    flags: Seq<(String, bool)>,
    forge: bool,
) -> Seq<Seq<char>>
    decreases args.len(),
{
    if args.len() == 0 {
        Seq::empty()
    } else {
        process_arg_spec(args[0], c, classpath, assets_index, os_name, arch, flags, forge)
            + process_list_spec(
            args.skip(1),
            c,
            classpath,
            assets_index,
            os_name,
            arch,
            flags,
            forge,
        )
    }
}

/// The expansions of the non-empty pieces of a legacy argument string,
/// already split at spaces.
pub open spec fn legacy_tokens_spec(
    ps: Seq<Seq<char>>,
    c: LaunchConfig,
    classpath: Seq<char>,
    assets_index: Seq<char>,
    windows: bool,
    forge: bool,
) -> Seq<Seq<char>>
    decreases ps.len(),
{
    if ps.len() == 0 {
        Seq::empty()
    } else if ps[0].len() == 0 {
        legacy_tokens_spec(ps.skip(1), c, classpath, assets_index, windows, forge)
    } else {
        seq![
            if forge {
                substitute_forge_spec(ps[0], c, classpath, assets_index, windows)
            } else {
                substitute_spec(ps[0], c, classpath, assets_index, windows)
            },
        ] + legacy_tokens_spec(ps.skip(1), c, classpath, assets_index, windows, forge)
    }
}

/// `s` with every tab, carriage return and line feed turned into a
/// space, so that splitting at spaces splits at any whitespace.
pub open spec fn normalize_ws_spec(s: Seq<char>) -> Seq<char> {
    let s = replace_seq(s, seq!['\t'], seq![' ']);
    let s = replace_seq(s, seq!['\r'], seq![' ']);
    replace_seq(s, seq!['\n'], seq![' '])
}

/// The application arguments a legacy flat argument string contributes:
/// its whitespace-separated words, each expanded.
pub open spec fn legacy_args_spec(
    m: Option<String>,
    c: LaunchConfig,
    classpath: Seq<char>,
    assets_index: Seq<char>,
    windows: bool,
    forge: bool,
) -> Seq<Seq<char>> {
    match m {
        Option::None => Seq::empty(),
        Option::Some(s) => legacy_tokens_spec(
            split_seq(normalize_ws_spec(s@), ' '),
            c,
            classpath,
            assets_index,
            windows,
            forge,
        ),
    }
}

/// The VM-layer argument expansions of a manifest.
pub open spec fn jvm_args_spec(
    v: VersionJson,
    c: LaunchConfig,
    classpath: Seq<char>,
    assets_index: Seq<char>,
    os_name: Seq<char>,
    arch: Seq<char>,
    flags: Seq<(String, bool)>,
    forge: bool,
) -> Seq<Seq<char>> {
    match v.arguments {
        Option::Some(a) => process_list_spec(
            a.jvm@,
            c,
            classpath,
            assets_index,
            os_name,
            arch,
            flags,
            forge,
        ),
        Option::None => Seq::empty(),
    }
}

/// The application-layer argument expansions of a manifest, the legacy
/// flat string included.
pub open spec fn game_args_spec(
    v: VersionJson,
    c: LaunchConfig,
    classpath: Seq<char>,
    assets_index: Seq<char>,
    os_name: Seq<char>,
    arch: Seq<char>,
    flags: Seq<(String, bool)>,
    forge: bool,
) -> Seq<Seq<char>> {
    (match v.arguments {
        Option::Some(a) => process_list_spec(
            a.game@,
            c,
            classpath,
            assets_index,
            os_name,
            arch,
            flags,
            forge,
        ),
        Option::None => Seq::empty(),
    }) + legacy_args_spec(
        v.minecraft_arguments,
        c,
        classpath,
        assets_index,
        os_name == "windows"@,
        forge,
    )
}

/// Appends the expansions of the templates of `args` to `out`.
fn extend_processed(
    out: &mut Vec<String>,
    args: &Vec<ArgumentValue>,
    config: &LaunchConfig,
    classpath: &str,
    assets_index: &str,
    platform: &Platform,
    forge: bool,
)
    ensures
        string_views(final(out)@) == string_views(old(out)@) + process_list_spec(
            args@,
            *config,
            classpath@,
            assets_index@,
            platform.os_name@,
            platform.arch@,
            platform.features@,
            forge,
        ),
{
    let mut i: usize = 0;
    proof {
        assert(args@.skip(0) =~= args@);
        assert(string_views(out@) + Seq::<Seq<char>>::empty() =~= string_views(out@));
    }
    while i < args.len()
        invariant
            i <= args@.len(),
            string_views(old(out)@) + process_list_spec(
                args@,
                *config,
                classpath@,
                assets_index@,
                platform.os_name@,
                platform.arch@,
                platform.features@,
                forge,
            ) == string_views(out@) + process_list_spec(
                args@.skip(i as int),
                *config,
                classpath@,
                assets_index@,
                platform.os_name@,
                platform.arch@,
                platform.features@,
                forge,
            ),
        decreases args@.len() - i,
    {
        proof {
            assert(args@.skip(i as int)[0] == args@[i as int]);
            assert(args@.skip(i as int).skip(1) =~= args@.skip(i + 1));
        }
        let mut chunk = process_argument_impl(
            &args[i],
            config,
            classpath,
            assets_index,
            platform,
            forge,
        );
        let ghost old_views = string_views(out@);
        let ghost chunk_views = string_views(chunk@);
        out.append(&mut chunk);
        i += 1;
        proof {
            assert(string_views(out@) =~= old_views + chunk_views);
            assert(string_views(out@) + process_list_spec(
                args@.skip(i as int),
                *config,
                classpath@,
                assets_index@,
                platform.os_name@,
                platform.arch@,
                platform.features@,
                forge,
            ) =~= old_views + (chunk_views + process_list_spec(
                args@.skip(i as int),
                *config,
                classpath@,
                assets_index@,
                platform.os_name@,
                platform.arch@,
                platform.features@,
                forge,
            )));
        }
    }
    proof {
        assert(args@.skip(i as int) =~= Seq::<ArgumentValue>::empty());
        assert(string_views(out@) + Seq::<Seq<char>>::empty() =~= string_views(out@));
    }
}

/// Appends the expanded non-empty words of a legacy argument string.
fn extend_legacy(
    out: &mut Vec<String>,
    legacy: &String,
    config: &LaunchConfig,
    classpath: &str,
    assets_index: &str,
    windows: bool,
    forge: bool,
)
    ensures
        string_views(final(out)@) == string_views(old(out)@) + legacy_tokens_spec(
            split_seq(normalize_ws_spec(legacy@), ' '),
            *config,
            classpath@,
            assets_index@,
            windows,
            forge,
        ),
{
    let chars = to_chars(legacy.as_str());
    let mut space: Vec<char> = Vec::new();
    space.push(' ');
    let mut tab: Vec<char> = Vec::new();
    tab.push('\t');
    let mut cr: Vec<char> = Vec::new();
    cr.push('\r');
    let mut lf: Vec<char> = Vec::new();
    lf.push('\n');
    let chars = replace_chars(&chars, &tab, &space);
    let chars = replace_chars(&chars, &cr, &space);
    let chars = replace_chars(&chars, &lf, &space);
    let tokens = split_chars(&chars, ' ');
    let ghost toks = split_seq(normalize_ws_spec(legacy@), ' ');
    let mut i: usize = 0;
    proof {
        assert(toks.skip(0) =~= toks);
        assert(string_views(out@) + Seq::<Seq<char>>::empty() =~= string_views(out@));
    }
    while i < tokens.len()
        invariant
            toks == views_of(tokens@),
            i <= tokens@.len(),
            string_views(old(out)@) + legacy_tokens_spec(
                toks,
                *config,
                classpath@,
                assets_index@,
                windows,
                forge,
            ) == string_views(out@) + legacy_tokens_spec(
                toks.skip(i as int),
                *config,
                classpath@,
                assets_index@,
                windows,
                forge,
            ),
        decreases tokens@.len() - i,
    {
        proof {
            assert(toks.skip(i as int)[0] == toks[i as int]);
            assert(toks[i as int] == tokens@[i as int]@);
            assert(toks.skip(i as int).skip(1) =~= toks.skip(i + 1));
        }
        if tokens[i].len() > 0 {
            let token = from_chars(&tokens[i]);
            let e = if forge {
                substitute_forge_variables(token.as_str(), config, classpath, assets_index, windows)
            } else {
                substitute_variables(token.as_str(), config, classpath, assets_index, windows)
            };
            let ghost old_views = string_views(out@);
            out.push(e);
            proof {
                assert(string_views(out@) =~= old_views.push(out@[out@.len() - 1]@));
                assert(string_views(out@) + legacy_tokens_spec(
                    toks.skip(i + 1),
                    *config,
                    classpath@,
                    assets_index@,
                    windows,
                    forge,
                ) =~= old_views + legacy_tokens_spec(
                    toks.skip(i as int),
                    *config,
                    classpath@,
                    assets_index@,
                    windows,
                    forge,
                ));
            }
        }
        i += 1;
    }
    proof {
        assert(toks.skip(i as int) =~= Seq::<Seq<char>>::empty());
        assert(string_views(out@) + Seq::<Seq<char>>::empty() =~= string_views(out@));
    }
}

/// Extracts the VM-layer and application-layer arguments of a manifest,
/// expanded against the context; the legacy flat string contributes its
/// words to the application layer.
pub fn extract_arguments(
    version: &VersionJson,
    config: &LaunchConfig,
    classpath: &str,
    assets_index: &str,
    platform: &Platform,
) -> (r: (Vec<String>, Vec<String>))
    ensures
        string_views(r.0@) == jvm_args_spec(
            *version,
            *config,
            classpath@,
            assets_index@,
            platform.os_name@,
            platform.arch@,
            platform.features@,
            false,
        ),
        string_views(r.1@) == game_args_spec(
            *version,
            *config,
            classpath@,
            assets_index@,
            platform.os_name@,
            platform.arch@,
            platform.features@,
            false,
        ),
{
    extract_arguments_impl(version, config, classpath, assets_index, platform, false)
}

/// Extracts both argument layers with or without the loader-specific
/// placeholders.
fn extract_arguments_impl(
    version: &VersionJson,
    config: &LaunchConfig,
    classpath: &str,
    assets_index: &str,
    platform: &Platform,
    forge: bool,
) -> (r: (Vec<String>, Vec<String>))
    ensures
        string_views(r.0@) == jvm_args_spec(
            *version,
            *config,
            classpath@,
            assets_index@,
            platform.os_name@,
            platform.arch@,
            platform.features@,
            forge,
        ),
        string_views(r.1@) == game_args_spec(
            *version,
            *config,
            classpath@,
            assets_index@,
            platform.os_name@,
            platform.arch@,
            platform.features@,
            forge,
        ),
{
    let mut jvm_args: Vec<String> = Vec::new();
    let mut game_args: Vec<String> = Vec::new();
    proof {
        assert(string_views(jvm_args@) =~= Seq::<Seq<char>>::empty());
        assert(string_views(game_args@) =~= Seq::<Seq<char>>::empty());
    }
    if let Option::Some(arguments) = &version.arguments {
        proof {
            assert(version.arguments == Option::Some(*arguments));
        }
        extend_processed(&mut jvm_args, &arguments.jvm, config, classpath, assets_index, platform, forge);
        extend_processed(
            &mut game_args,
            &arguments.game,
            config,
            classpath,
            assets_index,
            platform,
            forge,
        );
        proof {
            assert(Seq::<Seq<char>>::empty() + process_list_spec(
                arguments.jvm@,
                *config,
                classpath@,
                assets_index@,
                platform.os_name@,
                platform.arch@,
                platform.features@,
                forge,
            ) =~= process_list_spec(
                arguments.jvm@,
                *config,
                classpath@,
                assets_index@,
                platform.os_name@,
                platform.arch@,
                platform.features@,
                forge,
            ));
        }
    }
    let windows = str_eq(platform.os_name.as_str(), "windows");
    let ghost game_before_legacy = string_views(game_args@);
    if let Option::Some(legacy) = &version.minecraft_arguments {
        proof {
            assert(version.minecraft_arguments == Option::Some(*legacy));
        }
        extend_legacy(&mut game_args, legacy, config, classpath, assets_index, windows, forge);
    }
    proof {
        assert(string_views(game_args@) =~= game_args_spec(
            *version,
            *config,
            classpath@,
            assets_index@,
            platform.os_name@,
            platform.arch@,
            platform.features@,
            forge,
        ));
    }
    (jvm_args, game_args)
}

/// Some argument among `args` is a classpath flag.
pub open spec fn has_cp_flag(args: Seq<Seq<char>>) -> bool {
    exists|i: int| 0 <= i < args.len() && (args[i] == "-cp"@ || args[i] == "-classpath"@)
}

/// Decides whether `args` already holds a classpath flag.
fn contains_cp_flag(args: &Vec<String>) -> (b: bool)
    ensures
        b == has_cp_flag(string_views(args@)),
{
    let mut i: usize = 0;
    while i < args.len()
        invariant
            i <= args@.len(),
            forall|k: int|
                0 <= k < i ==> !(string_views(args@)[k] == "-cp"@ || string_views(args@)[k]
                    == "-classpath"@),
        decreases args@.len() - i,
    {
        if str_eq(args[i].as_str(), "-cp") || str_eq(args[i].as_str(), "-classpath") {
            proof {
                assert(string_views(args@)[i as int] == args@[i as int]@);
            }
            return true;
        }
        i += 1;
    }
    false
}

/// The final argument vector: base VM arguments, the manifest's VM
/// arguments, a classpath flag unless one is already present, the
/// entry-point class, then the application arguments.
pub open spec fn launch_args_spec(
    c: LaunchConfig,
    jvm: Seq<Seq<char>>,
    game: Seq<Seq<char>>,
    classpath: Seq<char>,
    main_class: Seq<char>,
) -> Seq<Seq<char>> {
    let pre = base_jvm_args_spec(c) + jvm;
    pre + (if has_cp_flag(pre) {
        Seq::<Seq<char>>::empty()
    } else {
        seq!["-cp"@, classpath]
    }) + seq![main_class] + game
}

/// Assembles the final argument vector from the expanded layers.
pub fn build_launch_args(
    config: &LaunchConfig,
    jvm_args: Vec<String>,
    game_args: Vec<String>,
    classpath: &str,
    main_class: &str,
) -> (r: Vec<String>)
    ensures
        string_views(r@) == launch_args_spec(
            *config,
            string_views(jvm_args@),
            string_views(game_args@),
            classpath@,
            main_class@,
        ),
{
    let ghost jvm_views = string_views(jvm_args@);
    let ghost game_views = string_views(game_args@);
    let mut full_args = config.base_jvm_args();
    let mut jvm_args = jvm_args;
    full_args.append(&mut jvm_args);
    proof {
        assert(string_views(full_args@) =~= base_jvm_args_spec(*config) + jvm_views);
    }
    let ghost pre = string_views(full_args@);
    if !contains_cp_flag(&full_args) {
        full_args.push("-cp".to_owned());
        full_args.push(classpath.to_owned());
        proof {
            assert(string_views(full_args@) =~= pre + seq!["-cp"@, classpath@]);
        }
    } else {
        proof {
            assert(string_views(full_args@) =~= pre + Seq::<Seq<char>>::empty());
        }
    }
    full_args.push(main_class.to_owned());
    let ghost with_main = string_views(full_args@);
    let mut game_args = game_args;
    full_args.append(&mut game_args);
    proof {
        assert(with_main =~= pre + (if has_cp_flag(pre) {
            Seq::<Seq<char>>::empty()
        } else {
            seq!["-cp"@, classpath@]
        }) + seq![main_class@]);
        assert(string_views(full_args@) =~= with_main + game_views);
        assert(string_views(full_args@) =~= launch_args_spec(
            *config,
            jvm_views,
            game_views,
            classpath@,
            main_class@,
        ));
    }
    full_args
}


/// The VM arguments every loader launch needs before the manifest's own.
pub open spec fn essential_forge_jvm_args_spec() -> Seq<Seq<char>> {
    seq![
        "--add-modules=ALL-MODULE-PATH"@,
        "--add-opens=java.base/java.util.jar=cpw.mods.securejarhandler"@,
        "--add-opens=java.base/java.lang.invoke=cpw.mods.securejarhandler"@,
        "--add-exports=java.base/sun.security.util=cpw.mods.securejarhandler"@,
        "--add-exports=jdk.naming.dns/com.sun.jndi.dns=java.naming"@,
    ]
}

/// Extracts both argument layers of a merged loader manifest: the
/// essential module-system flags come first in the VM layer, and the
/// loader-specific placeholders are expanded.
pub fn extract_forge_arguments(
    version: &VersionJson,
    config: &LaunchConfig,
    classpath: &str,
    assets_index: &str,
    platform: &Platform,
) -> (r: (Vec<String>, Vec<String>))
    ensures
        string_views(r.0@) == essential_forge_jvm_args_spec() + jvm_args_spec(
            *version,
            *config,
            classpath@,
            assets_index@,
            platform.os_name@,
            platform.arch@,
            platform.features@,
            true,
        ),
        string_views(r.1@) == game_args_spec(
            *version,
            *config,
            classpath@,
            assets_index@,
            platform.os_name@,
            platform.arch@,
            platform.features@,
            true,
        ),
{
    let (mut jvm, game) = extract_arguments_impl(
        version,
        config,
        classpath,
        assets_index,
        platform,
        true,
    );
    let mut out: Vec<String> = Vec::new();
    out.push("--add-modules=ALL-MODULE-PATH".to_owned());
    out.push("--add-opens=java.base/java.util.jar=cpw.mods.securejarhandler".to_owned());
    out.push("--add-opens=java.base/java.lang.invoke=cpw.mods.securejarhandler".to_owned());
    out.push("--add-exports=java.base/sun.security.util=cpw.mods.securejarhandler".to_owned());
    out.push("--add-exports=jdk.naming.dns/com.sun.jndi.dns=java.naming".to_owned());
    let ghost jvm_views = string_views(jvm@);
    out.append(&mut jvm);
    proof {
        assert(string_views(out@) =~= essential_forge_jvm_args_spec() + jvm_views);
    }
    (out, game)
}

/// The arguments of `args` that hold no unresolved `${` placeholder, in
/// order.
pub open spec fn keep_plain_spec(args: Seq<Seq<char>>) -> Seq<Seq<char>>
    decreases args.len(),
{
    if args.len() == 0 {
        Seq::empty()
    } else if contains_seq(args[0], "${"@) {
        keep_plain_spec(args.skip(1))
    } else {
        seq![args[0]] + keep_plain_spec(args.skip(1))
    }
}

/// Keeps the arguments without an unresolved `${` placeholder.
fn filter_plain(args: &Vec<String>) -> (r: Vec<String>)
    ensures
        string_views(r@) == keep_plain_spec(string_views(args@)),
{
    let marker = to_chars("${");
    let mut out: Vec<String> = Vec::new();
    let mut i: usize = 0;
    proof {
        assert(string_views(args@).skip(0) =~= string_views(args@));
        assert(string_views(out@) + keep_plain_spec(string_views(args@)) =~= keep_plain_spec(
            string_views(args@),
        ));
    }
    while i < args.len()
        invariant
            marker@ == "${"@,
            i <= args@.len(),
            keep_plain_spec(string_views(args@)) == string_views(out@) + keep_plain_spec(
                string_views(args@).skip(i as int),
            ),
        decreases args@.len() - i,
    {
        proof {
            assert(string_views(args@).skip(i as int)[0] == string_views(args@)[i as int]);
            assert(string_views(args@)[i as int] == args@[i as int]@);
            assert(string_views(args@).skip(i as int).skip(1) =~= string_views(args@).skip(i + 1));
        }
        let chars = to_chars(args[i].as_str());
        if !contains_chars(&chars, &marker) {
            let ghost old_views = string_views(out@);
            out.push(args[i].clone());
            proof {
                assert(string_views(out@) =~= old_views.push(out@[out@.len() - 1]@));
                assert(string_views(out@) + keep_plain_spec(string_views(args@).skip(i + 1))
                    =~= old_views + (seq![args@[i as int]@] + keep_plain_spec(
                    string_views(args@).skip(i + 1),
                )));
            }
        }
        i += 1;
    }
    proof {
        assert(string_views(args@).skip(i as int) =~= Seq::<Seq<char>>::empty());
        assert(string_views(out@) + Seq::<Seq<char>>::empty() =~= string_views(out@));
    }
    out
}

/// The final loader argument vector: memory bounds, the VM arguments
/// without unresolved placeholders, the entry-point class, then the
/// application arguments without unresolved placeholders.
pub open spec fn forge_launch_args_spec(
    c: LaunchConfig,
    jvm: Seq<Seq<char>>,
    game: Seq<Seq<char>>,
    main_class: Seq<char>,
) -> Seq<Seq<char>> {
    seq!["-Xms"@ + c.min_memory@, "-Xmx"@ + c.max_memory@] + keep_plain_spec(jvm) + seq![
        main_class,
    ] + keep_plain_spec(game)
}

/// Assembles the final loader argument vector, dropping every argument
/// an unresolved placeholder survived in.
pub fn forge_launch_args(
    config: &LaunchConfig,
    main_class: &str,
    jvm_args: &Vec<String>,
    game_args: &Vec<String>,
) -> (r: Vec<String>)
    ensures
        string_views(r@) == forge_launch_args_spec(
            *config,
            string_views(jvm_args@),
            string_views(game_args@),
            main_class@,
        ),
{
    let mut full: Vec<String> = Vec::new();
    full.push("-Xms".to_owned().concat(config.min_memory.as_str()));
    full.push("-Xmx".to_owned().concat(config.max_memory.as_str()));
    let mut jvm_plain = filter_plain(jvm_args);
    let ghost jvm_kept = string_views(jvm_plain@);
    full.append(&mut jvm_plain);
    full.push(main_class.to_owned());
    let mut game_plain = filter_plain(game_args);
    let ghost game_kept = string_views(game_plain@);
    full.append(&mut game_plain);
    proof {
        assert(string_views(full@) =~= forge_launch_args_spec(
            *config,
            string_views(jvm_args@),
            string_views(game_args@),
            main_class@,
        ));
    }
    full
}

/// The fixed Fabric argument vector: memory and VM flags, the classpath
/// of every jar followed by the game jar, the Fabric entry point, then
/// the offline-session application arguments.
pub open spec fn fabric_args_spec(
    c: LaunchConfig,
    jars: Seq<Seq<char>>,
    game_jar: Seq<char>,
    windows: bool,
) -> Seq<Seq<char>> {
    let cp = join_seq(
        jars + seq![game_jar],
        seq![
            if windows {
                ';'
            } else {
                ':'
            },
        ],
    );
    seq![
        "-Xms"@ + c.min_memory@,
        "-Xmx"@ + c.max_memory@,
        "-Djava.library.path="@ + c.natives_dir@,
        "-XX:+UnlockExperimentalVMOptions"@,
        "-XX:+UseG1GC"@,
        "-Duser.language=ru"@,
        "-cp"@,
        cp,
        "-Dfabric.gameJarPath="@ + game_jar,
        "net.fabricmc.loader.impl.launch.knot.KnotClient"@,
        "--username"@,
        c.username@,
        "--uuid"@,
        c.uuid@,
        "--accessToken"@,
        c.access_token@,
        "--userProperties"@,
        "{}"@,
        "--assetsDir"@,
        c.assets_dir@,
        "--assetIndex"@,
        c.mc_version@,
        "--gameDir"@,
        c.game_dir@,
        "--width"@,
        "1280"@,
        "--height"@,
        "720"@,
        "--versionType"@,
        "release"@,
    ]
}

/// Assembles the Fabric argument vector from the jars found under the
/// libraries root and the game jar path.
pub fn fabric_launch_args(
    config: &LaunchConfig,
    jar_files: &Vec<String>,
    game_jar_path: &str,
    windows: bool,
) -> (r: Vec<String>)
    ensures
        string_views(r@) == fabric_args_spec(
            *config,
            string_views(jar_files@),
            game_jar_path@,
            windows,
        ),
{
    let mut jar_chars: Vec<Vec<char>> = Vec::new();
    let mut i: usize = 0;
    proof {
        assert(views_of(jar_chars@) =~= string_views(jar_files@).subrange(0, 0));
    }
    while i < jar_files.len()
        invariant
            i <= jar_files@.len(),
            views_of(jar_chars@) == string_views(jar_files@).subrange(0, i as int),
        decreases jar_files@.len() - i,
    {
        let ghost old_chars = jar_chars@;
        jar_chars.push(to_chars(jar_files[i].as_str()));
        i += 1;
        proof {
            assert(views_of(jar_chars@) =~= views_of(old_chars).push(
                jar_chars@[jar_chars@.len() - 1]@,
            ));
            assert(views_of(jar_chars@) =~= string_views(jar_files@).subrange(0, i as int));
        }
    }
    let ghost all_jar_views = views_of(jar_chars@);
    jar_chars.push(to_chars(game_jar_path));
    proof {
        assert(string_views(jar_files@).subrange(0, jar_files@.len() as int) =~= string_views(
            jar_files@,
        ));
        assert(views_of(jar_chars@) =~= all_jar_views.push(jar_chars@[jar_chars@.len() - 1]@));
        assert(views_of(jar_chars@) =~= string_views(jar_files@) + seq![game_jar_path@]);
    }
    let sep = if windows {
        ';'
    } else {
        ':'
    };
    let mut sep_chars: Vec<char> = Vec::new();
    sep_chars.push(sep);
    let cp_chars = join_chars(&jar_chars, &sep_chars);
    let classpath = from_chars(&cp_chars);
    let mut r: Vec<String> = Vec::new();
    r.push("-Xms".to_owned().concat(config.min_memory.as_str()));
    r.push("-Xmx".to_owned().concat(config.max_memory.as_str()));
    r.push("-Djava.library.path=".to_owned().concat(config.natives_dir.as_str()));
    r.push("-XX:+UnlockExperimentalVMOptions".to_owned());
    r.push("-XX:+UseG1GC".to_owned());
    r.push("-Duser.language=ru".to_owned());
    r.push("-cp".to_owned());
    r.push(classpath);
    r.push("-Dfabric.gameJarPath=".to_owned().concat(game_jar_path));
    r.push("net.fabricmc.loader.impl.launch.knot.KnotClient".to_owned());
    r.push("--username".to_owned());
    r.push(config.username.clone());
    r.push("--uuid".to_owned());
    r.push(config.uuid.clone());
    r.push("--accessToken".to_owned());
    r.push(config.access_token.clone());
    r.push("--userProperties".to_owned());
    r.push("{}".to_owned());
    r.push("--assetsDir".to_owned());
    r.push(config.assets_dir.clone());
    r.push("--assetIndex".to_owned());
    r.push(config.mc_version.clone());
    r.push("--gameDir".to_owned());
    r.push(config.game_dir.clone());
    r.push("--width".to_owned());
    r.push("1280".to_owned());
    r.push("--height".to_owned());
    r.push("720".to_owned());
    r.push("--versionType".to_owned());
    r.push("release".to_owned());
    proof {
        assert(string_views(r@) =~= fabric_args_spec(
            *config,
            string_views(jar_files@),
            game_jar_path@,
            windows,
        ));
    }
    r
}

/// Why a launch cannot be assembled: the manifest names no entry-point
/// class, or no classpath entry survived filtering and presence checks.
#[derive(Debug, Clone, Copy, PartialEq, Eq, Structural)]
pub enum LaunchError {
    MissingEntryPoint,
    EmptyClasspath,
}

impl LaunchError {
    /// A short description of the failure.
    pub fn message(&self) -> (r: String)
        ensures
            (*self is MissingEntryPoint ==> r@ == "manifest declares no entry-point class"@),
            (*self is EmptyClasspath ==> r@ == "classpath is empty"@),
    {
        match self {
            LaunchError::MissingEntryPoint => "manifest declares no entry-point class".to_owned(),
            LaunchError::EmptyClasspath => "classpath is empty".to_owned(),
        }
    }
}

/// Assembles the full launch of a plain manifest: the classpath from its
/// libraries and the main jar, both argument layers expanded, and the
/// final argument vector; hands back the vector and the resolved
/// asset-index id. Fails exactly when the manifest names no entry-point
/// class, or when the classpath comes out empty.
pub fn vanilla_launch_args(
    version: &VersionJson,
    config: &LaunchConfig,
    present: &Vec<String>,
    client_jar: &str,
    platform: &Platform,
) -> (r: Result<(Vec<String>, String), LaunchError>)
    ensures
        ({
            let assets_id = match version.assets {
                Option::Some(a) => a@,
                Option::None => config.mc_version@,
            };
            let cp = join_seq(
                classpath_entries_spec(
                    version.libraries@,
                    config.libraries_dir@,
                    present@,
                    Option::None,
                    platform.os_name@,
                    platform.arch@,
                    platform.features@,
                    Set::empty(),
                    Set::empty(),
                ) + (if present_spec(present@, client_jar@) {
                    seq![client_jar@]
                } else {
                    Seq::<Seq<char>>::empty()
                }),
                seq![
                    if platform.os_name@ == "windows"@ {
                        ';'
                    } else {
                        ':'
                    },
                ],
            );
            match r {
                Result::Ok(ag) => version.main_class@.len() > 0 && cp.len() > 0 && ag.1@
                    == assets_id && string_views(ag.0@) == launch_args_spec(
                    *config,
                    jvm_args_spec(
                        *version,
                        *config,
                        cp,
                        assets_id,
                        platform.os_name@,
                        platform.arch@,
                        platform.features@,
                        false,
                    ),
                    game_args_spec(
                        *version,
                        *config,
                        cp,
                        assets_id,
                        platform.os_name@,
                        platform.arch@,
                        platform.features@,
                        false,
                    ),
                    cp,
                    version.main_class@,
                ),
                Result::Err(e) => (e == LaunchError::MissingEntryPoint && version.main_class@.len()
                    == 0) || (e == LaunchError::EmptyClasspath && version.main_class@.len() > 0
                    && cp.len() == 0),
            }
        }),
{
    if version.main_class.as_str().is_empty() {
        return Result::Err(LaunchError::MissingEntryPoint);
    }
    let classpath = build_classpath(
        &version.libraries,
        config.libraries_dir.as_str(),
        client_jar,
        present,
        platform,
    );
    if classpath.as_str().is_empty() {
        return Result::Err(LaunchError::EmptyClasspath);
    }
    let assets_index = match &version.assets {
        Option::Some(a) => a.clone(),
        Option::None => config.mc_version.clone(),
    };
    let (jvm_args, game_args) = extract_arguments(
        version,
        config,
        classpath.as_str(),
        assets_index.as_str(),
        platform,
    );
    let args = build_launch_args(
        config,
        jvm_args,
        game_args,
        classpath.as_str(),
        version.main_class.as_str(),
    );
    Result::Ok((args, assets_index))
}

} // verus!
