//! Classpath construction: Maven coordinates are turned into repository
//! paths, libraries are filtered by their platform rules and by presence
//! on disk, duplicates of one `(group, artifact)` identity collapse to
//! the first occurrence, no path string is listed twice, and the entries
//! are joined with the platform path-list separator. Paths are modelled
//! as strings joined with `/`; presence on disk is an input: the caller
//! passes the set of paths that exist.
use vstd::prelude::*;

verus! {

use crate::manifest::Library;
use crate::rules::{Platform, eval_rules_spec, is_rule_allowed};
use crate::strutil::{
    from_chars,
    join_chars,
    join_seq,
    push_all,
    replace_chars,
    replace_seq,
    split_chars,
    split_seq,
    str_eq,
    to_chars,
    views_of,
};

/// The platform path-list separator: `;` on Windows, `:` elsewhere.
pub fn get_classpath_separator(windows: bool) -> (r: char)
    ensures
        r == (if windows {
            ';'
        } else {
            ':'
        }),
{
    if windows {
        ';'
    } else {
        ':'
    }
}

/// The repository path a Maven coordinate `group:artifact:version[:classifier]`
/// resolves to: `group/with/slashes/artifact/version/artifact-version[-classifier].jar`;
/// nothing when the coordinate has fewer than three `:`-separated parts.
pub open spec fn maven_path_spec(name: Seq<char>) -> Option<Seq<char>> {
    let parts = split_seq(name, ':');
    if parts.len() < 3 {
        Option::None
    } else {
        let group = replace_seq(parts[0], seq!['.'], seq!['/']);
        let file = if parts.len() > 3 {
            parts[1] + seq!['-'] + parts[2] + seq!['-'] + parts[3] + ".jar"@
        } else {
            parts[1] + seq!['-'] + parts[2] + ".jar"@
        };
        Option::Some(group + seq!['/'] + parts[1] + seq!['/'] + parts[2] + seq!['/'] + file)
    }
}

/// Derives the repository path of a Maven coordinate.
pub fn maven_to_path(name: &str) -> (r: Option<String>)
    ensures
        (match r {
            Option::Some(s) => maven_path_spec(name@) matches Option::Some(q) && s@ == q,
            Option::None => maven_path_spec(name@) is None,
        }),
{
    let chars = to_chars(name);
    let parts = split_chars(&chars, ':');
    if parts.len() < 3 {
        return Option::None;
    }
    let mut dot: Vec<char> = Vec::new();
    dot.push('.');
    let mut slash: Vec<char> = Vec::new();
    slash.push('/');
    let mut dash: Vec<char> = Vec::new();
    dash.push('-');
    let mut jar_ext: Vec<char> = Vec::new();
    jar_ext.push('.');
    jar_ext.push('j');
    jar_ext.push('a');
    jar_ext.push('r');
    proof {
        reveal_strlit(".jar");
        assert(jar_ext@ =~= ".jar"@);
        assert(views_of(parts@)[0] == parts@[0]@);
        assert(views_of(parts@)[1] == parts@[1]@);
        assert(views_of(parts@)[2] == parts@[2]@);
    }
    let group = replace_chars(&parts[0], &dot, &slash);
    let mut out: Vec<char> = Vec::new();
    push_all(&mut out, &group);
    out.push('/');
    push_all(&mut out, &parts[1]);
    out.push('/');
    push_all(&mut out, &parts[2]);
    out.push('/');
    push_all(&mut out, &parts[1]);
    out.push('-');
    push_all(&mut out, &parts[2]);
    if parts.len() > 3 {
        proof {
            assert(views_of(parts@)[3] == parts@[3]@);
        }
        out.push('-');
        push_all(&mut out, &parts[3]);
    }
    push_all(&mut out, &jar_ext);
    proof {
        assert(out@ =~= maven_path_spec(name@)->Some_0);
    }
    Option::Some(from_chars(&out))
}

/// The artifact part of a Maven coordinate: its second `:`-separated
/// part, or the whole coordinate when it has fewer than two parts.
pub open spec fn artifact_name_spec(name: Seq<char>) -> Seq<char> {
    let parts = split_seq(name, ':');
    if parts.len() >= 2 {
        parts[1]
    } else {
        name
    }
}

/// Extracts the artifact part of a Maven coordinate.
pub fn extract_artifact_name(maven_name: &str) -> (r: String)
    ensures
        r@ == artifact_name_spec(maven_name@),
{
    let chars = to_chars(maven_name);
    let parts = split_chars(&chars, ':');
    if parts.len() >= 2 {
        proof {
            assert(views_of(parts@)[1] == parts@[1]@);
        }
        from_chars(&parts[1])
    } else {
        maven_name.to_owned()
    }
}

/// The deduplication identity of a Maven coordinate: its group and
/// artifact parts joined with `:`, or the whole coordinate when it has
/// fewer than two parts.
pub open spec fn artifact_key_spec(name: Seq<char>) -> Seq<char> {
    let parts = split_seq(name, ':');
    if parts.len() >= 2 {
        parts[0] + seq![':'] + parts[1]
    } else {
        name
    }
}

/// Computes the deduplication identity of a Maven coordinate.
pub fn artifact_key(name: &Vec<char>) -> (r: Vec<char>)
    ensures
        r@ == artifact_key_spec(name@),
{
    let parts = split_chars(name, ':');
    if parts.len() >= 2 {
        proof {
            assert(views_of(parts@)[0] == parts@[0]@);
            assert(views_of(parts@)[1] == parts@[1]@);
        }
        let mut out: Vec<char> = Vec::new();
        push_all(&mut out, &parts[0]);
        out.push(':');
        push_all(&mut out, &parts[1]);
        proof {
            assert(out@ =~= artifact_key_spec(name@));
        }
        out
    } else {
        let mut out: Vec<char> = Vec::new();
        push_all(&mut out, name);
        proof {
            assert(out@ =~= name@);
        }
        out
    }
}

/// `dir` and `rel` joined with a single `/`.
pub open spec fn join_path_spec(dir: Seq<char>, rel: Seq<char>) -> Seq<char> {
    dir + seq!['/'] + rel
}

/// The on-disk path of a library: the declared artifact's path under the
/// libraries root when downloads are declared (nothing without an
/// artifact), else the path derived from its Maven coordinate.
pub open spec fn resolve_library_path_spec(lib: Library, dir: Seq<char>) -> Option<Seq<char>> {
    match lib.downloads {
        Option::Some(d) => match d.artifact {
            Option::Some(a) => Option::Some(join_path_spec(dir, a.path@)),
            Option::None => Option::None,
        },
        Option::None => match maven_path_spec(lib.name@) {
            Option::Some(p) => Option::Some(join_path_spec(dir, p)),
            Option::None => Option::None,
        },
    }
}

/// Resolves the on-disk path of a library under the libraries root.
pub fn resolve_library_path(lib: &Library, libraries_dir: &str) -> (r: Option<Vec<char>>)
    ensures
        (match r {
            Option::Some(p) => resolve_library_path_spec(*lib, libraries_dir@) matches Option::Some(
                q,
            ) && p@ == q,
            Option::None => resolve_library_path_spec(*lib, libraries_dir@) is None,
        }),
{
    let rel: Vec<char> = match &lib.downloads {
        Option::Some(d) => match &d.artifact {
            Option::Some(a) => to_chars(a.path.as_str()),
            Option::None => {
                return Option::None;
            },
        },
        Option::None => match maven_to_path(lib.name.as_str()) {
            Option::Some(p) => to_chars(p.as_str()),
            Option::None => {
                return Option::None;
            },
        },
    };
    let mut out = to_chars(libraries_dir);
    out.push('/');
    push_all(&mut out, &rel);
    proof {
        assert(out@ =~= resolve_library_path_spec(*lib, libraries_dir@)->Some_0);
    }
    Option::Some(out)
}

/// `p` is among the paths in `present`.
pub open spec fn present_spec(present: Seq<String>, p: Seq<char>) -> bool {
    exists|i: int| 0 <= i < present.len() && present[i]@ == p
}

/// Decides whether some string of `v` has the characters of `s`.
fn contains_string(v: &Vec<String>, s: &String) -> (b: bool)
    ensures
        b == exists|i: int| 0 <= i < v@.len() && v@[i]@ == s@,
{
    let mut i: usize = 0;
    while i < v.len()
        invariant
            i <= v@.len(),
            forall|k: int| 0 <= k < i ==> v@[k]@ != s@,
        decreases v@.len() - i,
    {
        if v[i] == *s {
            return true;
        }
        i += 1;
    }
    false
}

/// Decides whether the path `p` is among `present`.
fn is_present(present: &Vec<String>, p: &Vec<char>) -> (b: bool)
    ensures
        b == present_spec(present@, p@),
{
    let ps = from_chars(p);
    contains_string(present, &ps)
}

/// The rules of a library allow it on the platform; an absent list allows.
pub open spec fn library_rules_allow_spec(
    lib: Library,
    os_name: Seq<char>,
    arch: Seq<char>,
    flags: Seq<(String, bool)>,
) -> bool {
    match lib.rules {
        Option::None => true,
        Option::Some(rs) => eval_rules_spec(rs@, os_name, arch, flags),
    }
}

/// The library contributes a classpath entry: its rules allow it, its
/// path resolves, the file is present, and the path is not the excluded
/// one.
pub open spec fn library_included_spec(
    lib: Library,
    dir: Seq<char>,
    present: Seq<String>,
    exclude: Option<Seq<char>>,
    os_name: Seq<char>,
    arch: Seq<char>,
    flags: Seq<(String, bool)>,
) -> bool {
    &&& library_rules_allow_spec(lib, os_name, arch, flags)
    &&& resolve_library_path_spec(lib, dir) is Some
    &&& present_spec(present, resolve_library_path_spec(lib, dir)->Some_0)
    &&& (match exclude {
        Option::Some(e) => resolve_library_path_spec(lib, dir)->Some_0 != e,
        Option::None => true,
    })
}

/// The classpath entries of `libs` in order: included libraries only,
/// one entry per `(group, artifact)` identity with the first occurrence
/// winning, and never the same path string twice. `seen` holds the
/// identities already claimed, `emitted` the path strings already in
/// the list; an included library always claims its identity, but adds
/// its path only when that exact string is not in the list yet.
pub open spec fn classpath_entries_spec(
    libs: Seq<Library>,
    dir: Seq<char>,
    present: Seq<String>,
    exclude: Option<Seq<char>>,
    os_name: Seq<char>,
    arch: Seq<char>,
    flags: Seq<(String, bool)>,
    seen: Set<Seq<char>>,
    emitted: Set<Seq<char>>,
) -> Seq<Seq<char>>
    decreases libs.len(),
{
    if libs.len() == 0 {
        Seq::empty()
    } else {
        let lib = libs[0];
        let key = artifact_key_spec(lib.name@);
        if library_included_spec(lib, dir, present, exclude, os_name, arch, flags)
            && !seen.contains(key) {
            let path = resolve_library_path_spec(lib, dir)->Some_0;
            if emitted.contains(path) {
                classpath_entries_spec(
                    libs.skip(1),
                    dir,
                    present,
                    exclude,
                    os_name,
                    arch,
                    flags,
                    seen.insert(key),
                    emitted,
                )
            } else {
                seq![path] + classpath_entries_spec(
                    libs.skip(1),
                    dir,
                    present,
                    exclude,
                    os_name,
                    arch,
                    flags,
                    seen.insert(key),
                    emitted.insert(path),
                )
            }
        } else {
            classpath_entries_spec(
                libs.skip(1),
                dir,
                present,
                exclude,
                os_name,
                arch,
                flags,
                seen,
                emitted,
            )
        }
    }
}

/// The identities of the keys held in `seen`.
pub open spec fn keys_of(seen: Seq<String>) -> Set<Seq<char>> {
    Set::new(|k: Seq<char>| exists|i: int| 0 <= i < seen.len() && seen[i]@ == k)
}

/// Decides whether one library contributes a new classpath entry; when
/// it does, hands back its resolved path and its deduplication key.
fn consider_library(
    lib: &Library,
    libraries_dir: &str,
    present: &Vec<String>,
    platform: &Platform,
    exclude: Option<&String>,
    seen: &Vec<String>,
) -> (r: Option<(Vec<char>, String)>)
    ensures
        ({
            let ex: Option<Seq<char>> = match exclude {
                Option::Some(e) => Option::Some(e@),
                Option::None => Option::None,
            };
            let included = library_included_spec(
                *lib,
                libraries_dir@,
                present@,
                ex,
                platform.os_name@,
                platform.arch@,
                platform.features@,
            );
            let fresh = !keys_of(seen@).contains(artifact_key_spec(lib.name@));
            match r {
                Option::Some(pk) => included && fresh && pk.0@ == resolve_library_path_spec(
                    *lib,
                    libraries_dir@,
                )->Some_0 && pk.1@ == artifact_key_spec(lib.name@),
                Option::None => !(included && fresh),
            }
        }),
{
    let rules_ok = match &lib.rules {
        Option::None => true,
        Option::Some(rs) => {
            proof {
                assert(lib.rules == Option::Some(*rs));
            }
            is_rule_allowed(rs, platform)
        },
    };
    if !rules_ok {
        return Option::None;
    }
    let path = match resolve_library_path(lib, libraries_dir) {
        Option::Some(p) => p,
        Option::None => {
            return Option::None;
        },
    };
    if !is_present(present, &path) {
        return Option::None;
    }
    if let Option::Some(e) = exclude {
        let pstr = from_chars(&path);
        if pstr == *e {
            return Option::None;
        }
    }
    let name_chars = to_chars(lib.name.as_str());
    let key = artifact_key(&name_chars);
    let key_str = from_chars(&key);
    if contains_string(seen, &key_str) {
        proof {
            assert(keys_of(seen@).contains(artifact_key_spec(lib.name@)));
        }
        return Option::None;
    }
    proof {
        assert(!keys_of(seen@).contains(artifact_key_spec(lib.name@)));
    }
    Option::Some((path, key_str))
}

/// Collects the classpath entries of `libraries`, deduplicated by
/// `(group, artifact)` identity with the first occurrence winning, and
/// by path string.
pub fn collect_classpath_entries(
    libraries: &Vec<Library>,
    libraries_dir: &str,
    present: &Vec<String>,
    platform: &Platform,
    exclude: Option<&String>,
) -> (r: Vec<Vec<char>>)
    ensures
        views_of(r@) == classpath_entries_spec(
            libraries@,
            libraries_dir@,
            present@,
            (match exclude {
                Option::Some(e) => Option::Some(e@),
                Option::None => Option::None,
            }),
            platform.os_name@,
            platform.arch@,
            platform.features@,
            Set::empty(),
            Set::empty(),
        ),
{
    let ghost ex: Option<Seq<char>> = match exclude {
        Option::Some(e) => Option::Some(e@),
        Option::None => Option::None,
    };
    let mut out: Vec<Vec<char>> = Vec::new();
    let mut seen: Vec<String> = Vec::new();
    let mut emitted: Vec<String> = Vec::new();
    let mut i: usize = 0;
    proof {
        assert(libraries@.skip(0) =~= libraries@);
        assert(keys_of(seen@) =~= Set::<Seq<char>>::empty());
        assert(keys_of(emitted@) =~= Set::<Seq<char>>::empty());
        assert(views_of(out@) =~= Seq::<Seq<char>>::empty());
    }
    while i < libraries.len()
        invariant
            i <= libraries@.len(),
            ex == (match exclude {
                Option::Some(e) => Option::Some(e@),
                Option::None => Option::None::<Seq<char>>,
            }),
            classpath_entries_spec(
                libraries@,
                libraries_dir@,
                present@,
                ex,
                platform.os_name@,
                platform.arch@,
                platform.features@,
                Set::empty(),
                Set::empty(),
            ) == views_of(out@) + classpath_entries_spec(
                libraries@.skip(i as int),
                libraries_dir@,
                present@,
                ex,
                platform.os_name@,
                platform.arch@,
                platform.features@,
                keys_of(seen@),
                keys_of(emitted@),
            ),
        decreases libraries@.len() - i,
    {
        proof {
            assert(libraries@.skip(i as int)[0] == libraries@[i as int]);
            assert(libraries@.skip(i as int).skip(1) =~= libraries@.skip(i + 1));
        }
        let lib = &libraries[i];
        match consider_library(lib, libraries_dir, present, platform, exclude, &seen) {
            Option::Some((path, key_str)) => {
                let ghost old_seen = seen@;
                let ghost key_view = key_str@;
                let ghost path_view = path@;
                let path_str = from_chars(&path);
                seen.push(key_str);
                proof {
                    assert(keys_of(seen@) =~= keys_of(old_seen).insert(key_view)) by {
                        assert(forall|ii: int|
                            0 <= ii < old_seen.len() ==> seen@[ii] == old_seen[ii]);
                        assert(seen@[seen@.len() - 1]@ == key_view);
                    }
                }
                if contains_string(&emitted, &path_str) {
                    proof {
                        assert(keys_of(emitted@).contains(path_view));
                    }
                } else {
                    proof {
                        assert(!keys_of(emitted@).contains(path_view));
                    }
                    let ghost old_out = out@;
                    let ghost old_emitted = emitted@;
                    out.push(path);
                    emitted.push(path_str);
                    proof {
                        assert(keys_of(emitted@) =~= keys_of(old_emitted).insert(path_view)) by {
                            assert(forall|ii: int|
                                0 <= ii < old_emitted.len() ==> emitted@[ii] == old_emitted[ii]);
                            assert(emitted@[emitted@.len() - 1]@ == path_view);
                        }
                        assert(views_of(out@) =~= views_of(old_out).push(path_view));
                        assert(views_of(out@) + classpath_entries_spec(
                            libraries@.skip(i + 1),
                            libraries_dir@,
                            present@,
                            ex,
                            platform.os_name@,
                            platform.arch@,
                            platform.features@,
                            keys_of(seen@),
                            keys_of(emitted@),
                        ) =~= views_of(old_out) + (seq![path_view] + classpath_entries_spec(
                            libraries@.skip(i + 1),
                            libraries_dir@,
                            present@,
                            ex,
                            platform.os_name@,
                            platform.arch@,
                            platform.features@,
                            keys_of(old_seen).insert(key_view),
                            keys_of(old_emitted).insert(path_view),
                        )));
                    }
                }
            },
            Option::None => {
                proof {
                    assert(classpath_entries_spec(
                        libraries@.skip(i as int),
                        libraries_dir@,
                        present@,
                        ex,
                        platform.os_name@,
                        platform.arch@,
                        platform.features@,
                        keys_of(seen@),
                        keys_of(emitted@),
                    ) == classpath_entries_spec(
                        libraries@.skip(i + 1),
                        libraries_dir@,
                        present@,
                        ex,
                        platform.os_name@,
                        platform.arch@,
                        platform.features@,
                        keys_of(seen@),
                        keys_of(emitted@),
                    ));
                }
            },
        }
        i += 1;
    }
    proof {
        assert(libraries@.skip(i as int) =~= Seq::<Library>::empty());
        assert(views_of(out@) + Seq::<Seq<char>>::empty() =~= views_of(out@));
    }
    out
}

/// Builds the classpath: the deduplicated entries of `libraries`, then
/// the main artifact when present, joined with the platform separator.
pub fn build_classpath(
    libraries: &Vec<Library>,
    libraries_dir: &str,
    client_jar: &str,
    present: &Vec<String>,
    platform: &Platform,
) -> (r: String)
    ensures
        r@ == join_seq(
            classpath_entries_spec(
                libraries@,
                libraries_dir@,
                present@,
                Option::None,
                platform.os_name@,
                platform.arch@,
                platform.features@,
                Set::empty(),
                Set::empty(),
            ) + (if present_spec(present@, client_jar@) {
                seq![client_jar@]
            } else {
                Seq::<Seq<char>>::empty()
            }),
            seq![if platform.os_name@ == "windows"@ {
                ';'
            } else {
                ':'
            }],
        ),
{
    let mut entries = collect_classpath_entries(libraries, libraries_dir, present, platform, Option::None);
    let client_chars = to_chars(client_jar);
    let ghost before_client = views_of(entries@);
    if is_present(present, &client_chars) {
        entries.push(client_chars);
        proof {
            assert(views_of(entries@) =~= before_client + seq![client_jar@]);
        }
    } else {
        proof {
            assert(views_of(entries@) =~= before_client + Seq::<Seq<char>>::empty());
        }
    }
    let windows = str_eq(platform.os_name.as_str(), "windows");
    let sep = get_classpath_separator(windows);
    let mut sep_chars: Vec<char> = Vec::new();
    sep_chars.push(sep);
    let joined = join_chars(&entries, &sep_chars);
    from_chars(&joined)
}

/// Builds the classpath of a merged loader manifest: the deduplicated
/// entries of `libraries` with the main artifact's path kept out of the
/// library scan, then the main artifact appended last, joined with the
/// platform separator.
pub fn build_forge_classpath(
    libraries: &Vec<Library>,
    libraries_dir: &str,
    client_jar: &String,
    present: &Vec<String>,
    platform: &Platform,
) -> (r: String)
    ensures
        r@ == join_seq(
            classpath_entries_spec(
                libraries@,
                libraries_dir@,
                present@,
                Option::Some(client_jar@),
                platform.os_name@,
                platform.arch@,
                platform.features@,
                Set::empty(),
                Set::empty(),
            ) + seq![client_jar@],
            seq![if platform.os_name@ == "windows"@ {
                ';'
            } else {
                ':'
            }],
        ),
{
    let mut entries = collect_classpath_entries(
        libraries,
        libraries_dir,
        present,
        platform,
        Option::Some(client_jar),
    );
    let ghost before_client = views_of(entries@);
    entries.push(to_chars(client_jar.as_str()));
    proof {
        assert(views_of(entries@) =~= before_client + seq![client_jar@]);
    }
    let windows = str_eq(platform.os_name.as_str(), "windows");
    let sep = get_classpath_separator(windows);
    let mut sep_chars: Vec<char> = Vec::new();
    sep_chars.push(sep);
    let joined = join_chars(&entries, &sep_chars);
    from_chars(&joined)
}

/// Law: of two included libraries with one deduplication identity, only
/// the first contributes its entry, whatever their versions.
pub proof fn lemma_classpath_dedup(
    l1: Library,
    l2: Library,
    dir: Seq<char>,
    present: Seq<String>,
    os_name: Seq<char>,
    arch: Seq<char>,
    flags: Seq<(String, bool)>,
)
    requires
        artifact_key_spec(l1.name@) == artifact_key_spec(l2.name@),
        library_included_spec(l1, dir, present, Option::None, os_name, arch, flags),
        library_included_spec(l2, dir, present, Option::None, os_name, arch, flags),
    ensures
        classpath_entries_spec(
            seq![l1, l2],
            dir,
            present,
            Option::None,
            os_name,
            arch,
            flags,
            Set::empty(),
            Set::empty(),
        ) == seq![resolve_library_path_spec(l1, dir)->Some_0],
{
    let key = artifact_key_spec(l1.name@);
    let path = resolve_library_path_spec(l1, dir)->Some_0;
    let libs = seq![l1, l2];
    assert(libs.skip(1) =~= seq![l2]);
    assert(seq![l2].skip(1) =~= Seq::<Library>::empty());
    assert(libs[0] == l1);
    assert(seq![l2][0] == l2);
    assert(Set::<Seq<char>>::empty().insert(key).contains(artifact_key_spec(l2.name@)));
    assert(classpath_entries_spec(
        Seq::<Library>::empty(),
        dir,
        present,
        Option::None,
        os_name,
        arch,
        flags,
        Set::<Seq<char>>::empty().insert(key),
        Set::<Seq<char>>::empty().insert(path),
    ) == Seq::<Seq<char>>::empty());
    assert(classpath_entries_spec(
        seq![l2],
        dir,
        present,
        Option::None,
        os_name,
        arch,
        flags,
        Set::<Seq<char>>::empty().insert(key),
        Set::<Seq<char>>::empty().insert(path),
    ) =~= Seq::<Seq<char>>::empty());
    assert(classpath_entries_spec(
        libs,
        dir,
        present,
        Option::None,
        os_name,
        arch,
        flags,
        Set::empty(),
        Set::empty(),
    ) =~= seq![path]);
}

proof fn lemma_entries_fresh(
    libs: Seq<Library>,
    dir: Seq<char>,
    present: Seq<String>,
    exclude: Option<Seq<char>>,
    os_name: Seq<char>,
    arch: Seq<char>,
    flags: Seq<(String, bool)>,
    seen: Set<Seq<char>>,
    emitted: Set<Seq<char>>,
)
    ensures
        ({
            let entries = classpath_entries_spec(
                libs,
                dir,
                present,
                exclude,
                os_name,
                arch,
                flags,
                seen,
                emitted,
            );
            &&& forall|m: int| 0 <= m < entries.len() ==> !emitted.contains(#[trigger] entries[m])
            &&& forall|m: int, n: int|
                0 <= m < n < entries.len() ==> #[trigger] entries[m] != #[trigger] entries[n]
        }),
    decreases libs.len(),
{
    if libs.len() > 0 {
        let lib = libs[0];
        let key = artifact_key_spec(lib.name@);
        let included = library_included_spec(lib, dir, present, exclude, os_name, arch, flags);
        let entries = classpath_entries_spec(
            libs,
            dir,
            present,
            exclude,
            os_name,
            arch,
            flags,
            seen,
            emitted,
        );
        if included && !seen.contains(key) {
            let path = resolve_library_path_spec(lib, dir)->Some_0;
            if emitted.contains(path) {
                lemma_entries_fresh(
                    libs.skip(1),
                    dir,
                    present,
                    exclude,
                    os_name,
                    arch,
                    flags,
                    seen.insert(key),
                    emitted,
                );
                assert(entries == classpath_entries_spec(
                    libs.skip(1),
                    dir,
                    present,
                    exclude,
                    os_name,
                    arch,
                    flags,
                    seen.insert(key),
                    emitted,
                ));
            } else {
                lemma_entries_fresh(
                    libs.skip(1),
                    dir,
                    present,
                    exclude,
                    os_name,
                    arch,
                    flags,
                    seen.insert(key),
                    emitted.insert(path),
                );
                let tail = classpath_entries_spec(
                    libs.skip(1),
                    dir,
                    present,
                    exclude,
                    os_name,
                    arch,
                    flags,
                    seen.insert(key),
                    emitted.insert(path),
                );
                assert(entries == seq![path] + tail);
                assert(entries[0] == path);
                assert forall|m: int| 0 <= m < entries.len() implies !emitted.contains(
                    #[trigger] entries[m],
                ) by {
                    if m > 0 {
                        assert(entries[m] == tail[m - 1]);
                        assert(!emitted.insert(path).contains(tail[m - 1]));
                    }
                }
                assert forall|m: int, n: int|
                    0 <= m < n < entries.len() implies #[trigger] entries[m]
                    != #[trigger] entries[n] by {
                    assert(entries[n] == tail[n - 1]);
                    assert(!emitted.insert(path).contains(tail[n - 1]));
                    if m > 0 {
                        assert(entries[m] == tail[m - 1]);
                    }
                }
            }
        } else {
            lemma_entries_fresh(
                libs.skip(1),
                dir,
                present,
                exclude,
                os_name,
                arch,
                flags,
                seen,
                emitted,
            );
            assert(entries == classpath_entries_spec(
                libs.skip(1),
                dir,
                present,
                exclude,
                os_name,
                arch,
                flags,
                seen,
                emitted,
            ));
        }
    }
}

/// Law: the classpath never lists the same path string twice, even when
/// libraries of different identities declare one artifact path.
pub proof fn lemma_no_duplicate_classpath_entries(
    libs: Seq<Library>,
    dir: Seq<char>,
    present: Seq<String>,
    exclude: Option<Seq<char>>,
    os_name: Seq<char>,
    arch: Seq<char>,
    flags: Seq<(String, bool)>,
)
    ensures
        ({
            let entries = classpath_entries_spec(
                libs,
                dir,
                present,
                exclude,
                os_name,
                arch,
                flags,
                Set::empty(),
                Set::empty(),
            );
            forall|m: int, n: int|
                0 <= m < n < entries.len() ==> #[trigger] entries[m] != #[trigger] entries[n]
        }),
{
    lemma_entries_fresh(libs, dir, present, exclude, os_name, arch, flags, Set::empty(), Set::empty());
}

proof fn lemma_claimed_key_contributes_nothing(
    libs: Seq<Library>,
    j: int,
    dir: Seq<char>,
    present: Seq<String>,
    exclude: Option<Seq<char>>,
    os_name: Seq<char>,
    arch: Seq<char>,
    flags: Seq<(String, bool)>,
    seen: Set<Seq<char>>,
    emitted: Set<Seq<char>>,
)
    requires
        0 <= j < libs.len(),
        seen.contains(artifact_key_spec(libs[j].name@)) || exists|i: int|
            0 <= i < j && library_included_spec(
                #[trigger] libs[i],
                dir,
                present,
                exclude,
                os_name,
                arch,
                flags,
            ) && artifact_key_spec(libs[i].name@) == artifact_key_spec(libs[j].name@),
    ensures
        classpath_entries_spec(libs, dir, present, exclude, os_name, arch, flags, seen, emitted)
            == classpath_entries_spec(
            libs.subrange(0, j) + libs.skip(j + 1),
            dir,
            present,
            exclude,
            os_name,
            arch,
            flags,
            seen,
            emitted,
        ),
    decreases libs.len(),
{
    let removed = libs.subrange(0, j) + libs.skip(j + 1);
    if j == 0 {
        assert(seen.contains(artifact_key_spec(libs[0].name@)));
        assert(removed =~= libs.skip(1));
    } else {
        let lib = libs[0];
        let key = artifact_key_spec(lib.name@);
        let included = library_included_spec(lib, dir, present, exclude, os_name, arch, flags);
        assert(removed[0] == libs[0]);
        assert(removed.skip(1) =~= libs.skip(1).subrange(0, j - 1) + libs.skip(1).skip(j));
        assert(libs.skip(1)[j - 1] == libs[j as int]);
        let seen2 = if included && !seen.contains(key) {
            seen.insert(key)
        } else {
            seen
        };
        // The claim carries over to the tail: a prior witness at the head
        // leaves its key in `seen2`, a later witness shifts by one.
        assert(seen2.contains(artifact_key_spec(libs.skip(1)[j - 1].name@)) || exists|i: int|
            0 <= i < j - 1 && library_included_spec(
                #[trigger] libs.skip(1)[i],
                dir,
                present,
                exclude,
                os_name,
                arch,
                flags,
            ) && artifact_key_spec(libs.skip(1)[i].name@) == artifact_key_spec(
                libs.skip(1)[j - 1].name@,
            )) by {
            if !seen.contains(artifact_key_spec(libs[j as int].name@)) {
                let i = choose|i: int|
                    0 <= i < j && library_included_spec(
                        #[trigger] libs[i],
                        dir,
                        present,
                        exclude,
                        os_name,
                        arch,
                        flags,
                    ) && artifact_key_spec(libs[i].name@) == artifact_key_spec(
                        libs[j as int].name@,
                    );
                if i == 0 {
                    assert(seen2.contains(artifact_key_spec(libs[j as int].name@)));
                } else {
                    assert(libs.skip(1)[i - 1] == libs[i]);
                }
            }
        }
        if included && !seen.contains(key) {
            let path = resolve_library_path_spec(lib, dir)->Some_0;
            if emitted.contains(path) {
                lemma_claimed_key_contributes_nothing(
                    libs.skip(1),
                    j - 1,
                    dir,
                    present,
                    exclude,
                    os_name,
                    arch,
                    flags,
                    seen.insert(key),
                    emitted,
                );
            } else {
                lemma_claimed_key_contributes_nothing(
                    libs.skip(1),
                    j - 1,
                    dir,
                    present,
                    exclude,
                    os_name,
                    arch,
                    flags,
                    seen.insert(key),
                    emitted.insert(path),
                );
            }
        } else {
            lemma_claimed_key_contributes_nothing(
                libs.skip(1),
                j - 1,
                dir,
                present,
                exclude,
                os_name,
                arch,
                flags,
                seen,
                emitted,
            );
        }
    }
}

/// Law: first occurrence wins at any positions. When an earlier library
/// is included under the same `(group, artifact)` identity, a later
/// library contributes nothing: removing it leaves the classpath
/// entries unchanged.
pub proof fn lemma_classpath_first_wins(
    libs: Seq<Library>,
    i: int,
    j: int,
    dir: Seq<char>,
    present: Seq<String>,
    exclude: Option<Seq<char>>,
    os_name: Seq<char>,
    arch: Seq<char>,
    flags: Seq<(String, bool)>,
)
    requires
        0 <= i < j < libs.len(),
        artifact_key_spec(libs[i].name@) == artifact_key_spec(libs[j].name@),
        library_included_spec(libs[i], dir, present, exclude, os_name, arch, flags),
    ensures
        classpath_entries_spec(
            libs,
            dir,
            present,
            exclude,
            os_name,
            arch,
            flags,
            Set::empty(),
            Set::empty(),
        ) == classpath_entries_spec(
            libs.subrange(0, j) + libs.skip(j + 1),
            dir,
            present,
            exclude,
            os_name,
            arch,
            flags,
            Set::empty(),
            Set::empty(),
        ),
{
    lemma_claimed_key_contributes_nothing(
        libs,
        j,
        dir,
        present,
        exclude,
        os_name,
        arch,
        flags,
        Set::empty(),
        Set::empty(),
    );
}

} // verus!
