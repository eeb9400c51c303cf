//! Native-library handling and version download planning: which OS
//! family a target belongs to, which libraries carry natives for it,
//! which archive entries are extracted, and which downloads one
//! manifest requires. Archive bytes are parsed through the zip crate;
//! reading and writing files is the caller's part.
use vstd::prelude::*;
use vstd::string::*;

verus! {

use crate::manifest::{Artifact, Library};
use crate::rules::Platform;
use crate::strutil::{
    clone_strings,
    contains_chars,
    contains_seq,
    ends_with_chars,
    ends_with_seq,
    from_chars,
    push_all,
    replace_chars,
    replace_seq,
    split_chars,
    split_seq,
    starts_with_chars,
    starts_with_seq,
    str_eq,
    string_views,
    to_chars,
    trim_end_chars,
    trim_end_seq,
    views_of,
};
use crate::rules::{eval_rules_spec, is_rule_allowed};

/// The manifest OS family of a target OS name: `windows`, `osx`,
/// `linux`, or `unknown`.
pub open spec fn current_os_spec(target_os: Seq<char>) -> Seq<char> {
    if target_os == "windows"@ {
        "windows"@
    } else if target_os == "macos"@ {
        "osx"@
    } else if target_os == "linux"@ {
        "linux"@
    } else {
        "unknown"@
    }
}

/// Maps a target OS name (as the compiler names it) to the OS family
/// name manifests use.
pub fn get_current_os(target_os: &str) -> (r: String)
    ensures
        r@ == current_os_spec(target_os@),
{
    if str_eq(target_os, "windows") {
        "windows".to_owned()
    } else if str_eq(target_os, "macos") {
        "osx".to_owned()
    } else if str_eq(target_os, "linux") {
        "linux".to_owned()
    } else {
        "unknown".to_owned()
    }
}

/// The native-classifier suffixes of one OS family.
pub open spec fn native_suffixes_spec(os: Seq<char>) -> Seq<Seq<char>> {
    if os == "windows"@ {
        seq!["natives-windows"@, "natives-windows-x86"@, "natives-windows-arm64"@]
    } else if os == "osx"@ {
        seq!["natives-osx"@, "natives-macos"@, "natives-macos-arm64"@]
    } else if os == "linux"@ {
        seq!["natives-linux"@, "natives-linux-arm64"@, "natives-linux-arm32"@]
    } else {
        Seq::empty()
    }
}

/// The native-classifier markers of the other OS families.
pub open spec fn other_os_markers_spec(os: Seq<char>) -> Seq<Seq<char>> {
    if os == "windows"@ {
        seq!["natives-linux"@, "natives-osx"@, "natives-macos"@]
    } else if os == "osx"@ {
        seq!["natives-linux"@, "natives-windows"@]
    } else if os == "linux"@ {
        seq!["natives-windows"@, "natives-osx"@, "natives-macos"@]
    } else {
        Seq::empty()
    }
}

/// The native-classifier suffixes recognized for one OS family.
pub fn get_native_suffixes_for_os(os: &str) -> (r: Vec<String>)
    ensures
        string_views(r@) == native_suffixes_spec(os@),
{
    let mut r: Vec<String> = Vec::new();
    if str_eq(os, "windows") {
        r.push("natives-windows".to_owned());
        r.push("natives-windows-x86".to_owned());
        r.push("natives-windows-arm64".to_owned());
    } else if str_eq(os, "osx") {
        r.push("natives-osx".to_owned());
        r.push("natives-macos".to_owned());
        r.push("natives-macos-arm64".to_owned());
    } else if str_eq(os, "linux") {
        r.push("natives-linux".to_owned());
        r.push("natives-linux-arm64".to_owned());
        r.push("natives-linux-arm32".to_owned());
    }
    proof {
        assert(string_views(r@) =~= native_suffixes_spec(os@));
    }
    r
}

/// The native-classifier markers of the other OS families.
fn get_other_os_markers(os: &str) -> (r: Vec<String>)
    ensures
        string_views(r@) == other_os_markers_spec(os@),
{
    let mut r: Vec<String> = Vec::new();
    if str_eq(os, "windows") {
        r.push("natives-linux".to_owned());
        r.push("natives-osx".to_owned());
        r.push("natives-macos".to_owned());
    } else if str_eq(os, "osx") {
        r.push("natives-linux".to_owned());
        r.push("natives-windows".to_owned());
    } else if str_eq(os, "linux") {
        r.push("natives-windows".to_owned());
        r.push("natives-osx".to_owned());
        r.push("natives-macos".to_owned());
    }
    proof {
        assert(string_views(r@) =~= other_os_markers_spec(os@));
    }
    r
}

/// Some pattern of `pats` occurs in `s`.
pub open spec fn contains_any_spec(s: Seq<char>, pats: Seq<Seq<char>>) -> bool
    decreases pats.len(),
{
    if pats.len() == 0 {
        false
    } else {
        contains_seq(s, pats[0]) || contains_any_spec(s, pats.skip(1))
    }
}

/// Decides whether some pattern of `pats` occurs in `s`.
fn contains_any(s: &Vec<char>, pats: &Vec<String>) -> (b: bool)
    ensures
        b == contains_any_spec(s@, string_views(pats@)),
{
    let mut i: usize = 0;
    proof {
        assert(string_views(pats@).skip(0) =~= string_views(pats@));
    }
    loop
        invariant
            i <= pats@.len(),
            contains_any_spec(s@, string_views(pats@)) == contains_any_spec(
                s@,
                string_views(pats@).skip(i as int),
            ),
        decreases pats@.len() - i,
    {
        if i == pats.len() {
            return false;
        }
        proof {
            assert(string_views(pats@).skip(i as int)[0] == pats@[i as int]@);
            assert(string_views(pats@).skip(i as int).skip(1) =~= string_views(pats@).skip(i + 1));
        }
        let p = to_chars(pats[i].as_str());
        if contains_chars(s, &p) {
            return true;
        }
        i += 1;
    }
}

/// The library belongs on this OS family: it carries one of the
/// family's native suffixes; or, failing that, carries no other
/// family's marker and no native classifier at all.
pub open spec fn is_native_for_os_spec(name: Seq<char>, os: Seq<char>) -> bool {
    if contains_any_spec(name, native_suffixes_spec(os)) {
        true
    } else if contains_any_spec(name, other_os_markers_spec(os)) {
        false
    } else {
        !contains_seq(name, "natives-"@)
    }
}

/// Decides whether a library belongs on the given OS family.
pub fn is_native_library_for_current_os(lib_name: &str, os: &str) -> (r: bool)
    ensures
        r == is_native_for_os_spec(lib_name@, os@),
{
    let name = to_chars(lib_name);
    let suffixes = get_native_suffixes_for_os(os);
    if contains_any(&name, &suffixes) {
        return true;
    }
    let markers = get_other_os_markers(os);
    if contains_any(&name, &markers) {
        return false;
    }
    let marker = to_chars("natives-");
    !contains_chars(&name, &marker)
}

/// Decides whether a library coordinate names a native-classifier jar.
pub fn is_native_jar(lib_name: &str) -> (r: bool)
    ensures
        r == contains_seq(lib_name@, "natives-"@),
{
    let name = to_chars(lib_name);
    let marker = to_chars("natives-");
    contains_chars(&name, &marker)
}

/// The entry name starts with some exclude prefix, each prefix taken
/// with its trailing slashes trimmed.
pub open spec fn excluded_by_spec(name: Seq<char>, ex: Seq<Seq<char>>) -> bool
    decreases ex.len(),
{
    if ex.len() == 0 {
        false
    } else {
        starts_with_seq(name, trim_end_seq(ex[0], '/')) || excluded_by_spec(name, ex.skip(1))
    }
}

/// Decides whether an entry name falls under the exclude prefixes; an
/// absent list excludes nothing.
pub fn should_exclude(file_name: &str, exclude_rules: &Option<Vec<String>>) -> (r: bool)
    ensures
        r == (match exclude_rules {
            Option::Some(ex) => excluded_by_spec(file_name@, string_views(ex@)),
            Option::None => false,
        }),
{
    let name = to_chars(file_name);
    match exclude_rules {
        Option::None => false,
        Option::Some(ex) => {
            proof {
                assert(*exclude_rules == Option::Some(*ex));
            }
            let mut i: usize = 0;
            proof {
                assert(string_views(ex@).skip(0) =~= string_views(ex@));
            }
            loop
                invariant
                    *exclude_rules == Option::Some(*ex),
                    name@ == file_name@,
                    i <= ex@.len(),
                    excluded_by_spec(file_name@, string_views(ex@)) == excluded_by_spec(
                        file_name@,
                        string_views(ex@).skip(i as int),
                    ),
                decreases ex@.len() - i,
            {
                if i == ex.len() {
                    return false;
                }
                proof {
                    assert(string_views(ex@).skip(i as int)[0] == ex@[i as int]@);
                    assert(string_views(ex@).skip(i as int).skip(1) =~= string_views(ex@).skip(
                        i + 1,
                    ));
                }
                let p = to_chars(ex[i].as_str());
                let trimmed = trim_end_chars(&p, '/');
                if starts_with_chars(&name, &trimmed) {
                    return true;
                }
                i += 1;
            }
        },
    }
}

/// One archive entry: its path inside the archive and its contents.
pub struct ArchiveEntry {
    pub name: String,
    pub data: Vec<u8>,
}

/// The name and contents views of a vector of archive entries.
pub open spec fn entry_views(es: Seq<ArchiveEntry>) -> Seq<(Seq<char>, Seq<u8>)>
    decreases es.len(),
{
    if es.len() == 0 {
        Seq::empty()
    } else {
        seq![(es[0].name@, es[0].data@)] + entry_views(es.skip(1))
    }
}

/// The entries of a zip archive, by its bytes: nothing when the bytes do
/// not parse as an archive, else every entry's name and inflated
/// contents in index order.
pub uninterp spec fn zip_entries_of(data: Seq<u8>) -> Option<Seq<(Seq<char>, Seq<u8>)>>;

/// Relies on `zip::ZipArchive` over an in-memory cursor: whether the
/// bytes parse, and each entry's name and inflated contents in index
/// order, are functions of the bytes alone.
#[verifier::external_body]
fn read_archive_entries(data: &Vec<u8>) -> (r: Option<Vec<ArchiveEntry>>)
    ensures
        (match r {
            Option::Some(es) => zip_entries_of(data@) matches Option::Some(vs) && entry_views(es@)
                == vs,
            Option::None => zip_entries_of(data@) is None,
        }),
{
    let cursor = std::io::Cursor::new(data.clone());
    let mut archive = zip::ZipArchive::new(cursor).ok()?;
    let mut out = Vec::new();
    for i in 0..archive.len() {
        let mut f = archive.by_index(i).ok()?;
        let name = f.name().to_string();
        let mut contents = Vec::new();
        std::io::Read::read_to_end(&mut f, &mut contents).ok()?;
        out.push(ArchiveEntry { name, data: contents });
    }
    Some(out)
}

/// The native-binary file suffixes recognized for one OS family.
pub open spec fn native_binary_suffixes_spec(os: Seq<char>) -> Seq<Seq<char>> {
    if os == "windows"@ {
        seq![".dll"@]
    } else if os == "osx"@ {
        seq![".dylib"@, ".jnilib"@]
    } else if os == "linux"@ {
        seq![".so"@]
    } else {
        Seq::empty()
    }
}

/// The native-binary file suffixes recognized for one OS family.
pub fn get_native_binary_suffixes(os: &str) -> (r: Vec<String>)
    ensures
        string_views(r@) == native_binary_suffixes_spec(os@),
{
    let mut r: Vec<String> = Vec::new();
    if str_eq(os, "windows") {
        r.push(".dll".to_owned());
    } else if str_eq(os, "osx") {
        r.push(".dylib".to_owned());
        r.push(".jnilib".to_owned());
    } else if str_eq(os, "linux") {
        r.push(".so".to_owned());
    }
    proof {
        assert(string_views(r@) =~= native_binary_suffixes_spec(os@));
    }
    r
}

/// `s` ends with some pattern of `pats`.
pub open spec fn ends_with_any_spec(s: Seq<char>, pats: Seq<Seq<char>>) -> bool
    decreases pats.len(),
{
    if pats.len() == 0 {
        false
    } else {
        ends_with_seq(s, pats[0]) || ends_with_any_spec(s, pats.skip(1))
    }
}

/// Decides whether `s` ends with some pattern of `pats`.
fn ends_with_any(s: &Vec<char>, pats: &Vec<String>) -> (b: bool)
    ensures
        b == ends_with_any_spec(s@, string_views(pats@)),
{
    let mut i: usize = 0;
    proof {
        assert(string_views(pats@).skip(0) =~= string_views(pats@));
    }
    loop
        invariant
            i <= pats@.len(),
            ends_with_any_spec(s@, string_views(pats@)) == ends_with_any_spec(
                s@,
                string_views(pats@).skip(i as int),
            ),
        decreases pats@.len() - i,
    {
        if i == pats.len() {
            return false;
        }
        proof {
            assert(string_views(pats@).skip(i as int)[0] == pats@[i as int]@);
            assert(string_views(pats@).skip(i as int).skip(1) =~= string_views(pats@).skip(i + 1));
        }
        let p = to_chars(pats[i].as_str());
        if ends_with_chars(s, &p) {
            return true;
        }
        i += 1;
    }
}

/// The entry is extracted: not a directory, not under an exclude
/// prefix, not archive metadata, and named like a native binary of the
/// given OS family.
pub open spec fn entry_kept_spec(
    name: Seq<char>,
    excludes: Option<Seq<Seq<char>>>,
    os: Seq<char>,
) -> bool {
    &&& !(name.len() > 0 && name[name.len() - 1] == '/')
    &&& !(match excludes {
        Option::Some(ex) => excluded_by_spec(name, ex),
        Option::None => false,
    })
    &&& !starts_with_seq(name, "META-INF"@)
    &&& ends_with_any_spec(name, native_binary_suffixes_spec(os))
}

/// The file name of an entry path: what follows its last `/`.
pub open spec fn flatten_name_spec(name: Seq<char>) -> Seq<char> {
    let parts = split_seq(name, '/');
    parts[parts.len() - 1]
}

/// The extracted files of an archive's entries: every kept entry,
/// flattened to its file name, with its contents, in order.
pub open spec fn extract_plan_spec(
    entries: Seq<(Seq<char>, Seq<u8>)>,
    excludes: Option<Seq<Seq<char>>>,
    os: Seq<char>,
) -> Seq<(Seq<char>, Seq<u8>)>
    decreases entries.len(),
{
    if entries.len() == 0 {
        Seq::empty()
    } else {
        if entry_kept_spec(entries[0].0, excludes, os) {
            seq![(flatten_name_spec(entries[0].0), entries[0].1)] + extract_plan_spec(
                entries.skip(1),
                excludes,
                os,
            )
        } else {
            extract_plan_spec(entries.skip(1), excludes, os)
        }
    }
}

/// The archive could not be opened or read.
#[derive(Debug, Clone, Copy, PartialEq, Eq, Structural)]
pub enum ExtractError {
    ArchiveOpen,
}

/// Copies a byte vector.
fn clone_bytes(v: &Vec<u8>) -> (r: Vec<u8>)
    ensures
        r@ == v@,
{
    let mut r: Vec<u8> = Vec::new();
    let mut i: usize = 0;
    while i < v.len()
        invariant
            i <= v@.len(),
            r@ == v@.subrange(0, i as int),
        decreases v@.len() - i,
    {
        r.push(v[i]);
        i += 1;
        proof {
            assert(r@ =~= v@.subrange(0, i as int));
        }
    }
    proof {
        assert(r@ =~= v@);
    }
    r
}

/// Decides whether one entry is extracted.
fn entry_kept(name: &Vec<char>, exclude_rules: &Option<Vec<String>>, os: &str) -> (r: bool)
    ensures
        r == entry_kept_spec(
            name@,
            (match exclude_rules {
                Option::Some(ex) => Option::Some(string_views(ex@)),
                Option::None => Option::None,
            }),
            os@,
        ),
{
    if name.len() > 0 && name[name.len() - 1] == '/' {
        return false;
    }
    let name_str = from_chars(name);
    if should_exclude(name_str.as_str(), exclude_rules) {
        return false;
    }
    let meta = to_chars("META-INF");
    if starts_with_chars(name, &meta) {
        return false;
    }
    let suffixes = get_native_binary_suffixes(os);
    ends_with_any(name, &suffixes)
}

/// Opens archive bytes and hands back the native files to write, each
/// flattened to its file name with its contents; the count extracted is
/// the length. Fails exactly when the bytes do not parse as an archive.
pub fn extract_natives_from_archive(
    data: &Vec<u8>,
    exclude_rules: &Option<Vec<String>>,
    os: &str,
) -> (r: Result<Vec<ArchiveEntry>, ExtractError>)
    ensures
        ({
            let ex: Option<Seq<Seq<char>>> = match exclude_rules {
                Option::Some(e) => Option::Some(string_views(e@)),
                Option::None => Option::None,
            };
            match r {
                Result::Ok(es) => zip_entries_of(data@) matches Option::Some(vs) && entry_views(
                    es@,
                ) == extract_plan_spec(vs, ex, os@),
                Result::Err(e) => zip_entries_of(data@) is None && e == ExtractError::ArchiveOpen,
            }
        }),
{
    let ghost ex: Option<Seq<Seq<char>>> = match exclude_rules {
        Option::Some(e) => Option::Some(string_views(e@)),
        Option::None => Option::None,
    };
    let entries = match read_archive_entries(data) {
        Option::Some(es) => es,
        Option::None => {
            return Result::Err(ExtractError::ArchiveOpen);
        },
    };
    let ghost all = entry_views(entries@);
    let mut out: Vec<ArchiveEntry> = Vec::new();
    let mut i: usize = 0;
    proof {
        assert(entries@.skip(0) =~= entries@);
        assert(entry_views(out@) =~= Seq::<(Seq<char>, Seq<u8>)>::empty());
        assert(entry_views(out@) + extract_plan_spec(all, ex, os@) =~= extract_plan_spec(
            all,
            ex,
            os@,
        ));
    }
    while i < entries.len()
        invariant
            i <= entries@.len(),
            all == entry_views(entries@),
            ex == (match exclude_rules {
                Option::Some(e) => Option::Some(string_views(e@)),
                Option::None => Option::None::<Seq<Seq<char>>>,
            }),
            extract_plan_spec(all, ex, os@) == entry_views(out@) + extract_plan_spec(
                entry_views(entries@.skip(i as int)),
                ex,
                os@,
            ),
        decreases entries@.len() - i,
    {
        proof {
            assert(entries@.skip(i as int)[0] == entries@[i as int]);
            assert(entries@.skip(i as int).skip(1) =~= entries@.skip(i + 1));
            assert(entry_views(entries@.skip(i as int))[0] == (
                entries@[i as int].name@,
                entries@[i as int].data@,
            ));
            assert(entry_views(entries@.skip(i as int)).skip(1) =~= entry_views(
                entries@.skip(i + 1),
            ));
        }
        let name_chars = to_chars(entries[i].name.as_str());
        if entry_kept(&name_chars, exclude_rules, os) {
            let parts = split_chars(&name_chars, '/');
            proof {
                crate::strutil::lemma_split_len(name_chars@, '/');
                assert(views_of(parts@)[views_of(parts@).len() - 1] == parts@[parts@.len() - 1]@);
            }
            let flat = from_chars(&parts[parts.len() - 1]);
            let contents = clone_bytes(&entries[i].data);
            let ghost old_out = out@;
            out.push(ArchiveEntry { name: flat, data: contents });
            proof {
                assert(entry_views(out@) =~= entry_views(old_out) + seq![
                    (out@[out@.len() - 1].name@, out@[out@.len() - 1].data@),
                ]) by {
                    lemma_entry_views_push(old_out, out@[out@.len() - 1]);
                }
                assert(entry_views(out@) + extract_plan_spec(
                    entry_views(entries@.skip(i + 1)),
                    ex,
                    os@,
                ) =~= entry_views(old_out) + (seq![
                    (flatten_name_spec(entries@[i as int].name@), entries@[i as int].data@),
                ] + extract_plan_spec(entry_views(entries@.skip(i + 1)), ex, os@)));
            }
        }
        i += 1;
    }
    proof {
        assert(entries@.skip(i as int) =~= Seq::<ArchiveEntry>::empty());
        assert(extract_plan_spec(entry_views(entries@.skip(i as int)), ex, os@) =~= Seq::<(
            Seq<char>,
            Seq<u8>,
        )>::empty());
        assert(entry_views(out@) + Seq::<(Seq<char>, Seq<u8>)>::empty() =~= entry_views(out@));
    }
    Result::Ok(out)
}

proof fn lemma_entry_views_push(es: Seq<ArchiveEntry>, e: ArchiveEntry)
    ensures
        entry_views(es.push(e)) == entry_views(es) + seq![(e.name@, e.data@)],
    decreases es.len(),
{
    if es.len() == 0 {
        assert(es.push(e)[0] == e);
        assert(es.push(e).skip(1) =~= Seq::<ArchiveEntry>::empty());
        assert(entry_views(Seq::<ArchiveEntry>::empty()) =~= Seq::<(Seq<char>, Seq<u8>)>::empty());
        assert(es =~= Seq::<ArchiveEntry>::empty());
        assert(entry_views(es.push(e)) =~= entry_views(es) + seq![(e.name@, e.data@)]);
    } else {
        lemma_entry_views_push(es.skip(1), e);
        assert(es.push(e)[0] == es[0]);
        assert(es.push(e).skip(1) =~= es.skip(1).push(e));
        assert(entry_views(es.push(e)) == seq![(es[0].name@, es[0].data@)] + entry_views(
            es.skip(1).push(e),
        ));
        assert(entry_views(es.push(e)) =~= entry_views(es) + seq![(e.name@, e.data@)]);
    }
}


/// One planned download: the source URL and the destination path
/// relative to the launcher root.
pub struct PlannedDownload {
    pub url: String,
    pub dest_rel: String,
}

/// One native-extraction job: the downloaded jar's path relative to the
/// launcher root, and its exclude prefixes.
pub struct NativeJob {
    pub jar_rel: String,
    pub excludes: Option<Vec<String>>,
}

/// The (url, destination) views of planned downloads.
pub open spec fn planned_views(ds: Seq<PlannedDownload>) -> Seq<(Seq<char>, Seq<char>)>
    decreases ds.len(),
{
    if ds.len() == 0 {
        Seq::empty()
    } else {
        seq![(ds[0].url@, ds[0].dest_rel@)] + planned_views(ds.skip(1))
    }
}

/// The (jar path, exclude views) of native jobs.
pub open spec fn job_views(js: Seq<NativeJob>) -> Seq<(Seq<char>, Option<Seq<Seq<char>>>)>
    decreases js.len(),
{
    if js.len() == 0 {
        Seq::empty()
    } else {
        seq![(js[0].jar_rel@, excludes_views(js[0].excludes))] + job_views(js.skip(1))
    }
}

/// The views of an optional exclude list.
pub open spec fn excludes_views(o: Option<Vec<String>>) -> Option<Seq<Seq<char>>> {
    match o {
        Option::Some(v) => Option::Some(string_views(v@)),
        Option::None => Option::None,
    }
}

/// The exclude prefixes a library's extraction rules declare.
pub open spec fn lib_excludes_spec(lib: Library) -> Option<Seq<Seq<char>>> {
    match lib.extract {
        Option::Some(e) => excludes_views(e.exclude),
        Option::None => Option::None,
    }
}

/// The download of a library's primary artifact: its URL, when one is
/// declared and non-empty, and its destination under `libraries/`.
pub open spec fn artifact_dl_spec(lib: Library) -> Option<(Seq<char>, Seq<char>)> {
    match lib.downloads {
        Option::Some(d) => match d.artifact {
            Option::Some(a) => match a.url {
                Option::Some(u) => if u@.len() > 0 {
                    Option::Some((u@, "libraries/"@ + a.path@))
                } else {
                    Option::None
                },
                Option::None => Option::None,
            },
            Option::None => Option::None,
        },
        Option::None => Option::None,
    }
}

/// The value of the first pair of `m` whose key is `k`.
pub open spec fn lookup_pair_spec(m: Seq<(String, String)>, k: Seq<char>) -> Option<Seq<char>>
    decreases m.len(),
{
    if m.len() == 0 {
        Option::None
    } else if m[0].0@ == k {
        Option::Some(m[0].1@)
    } else {
        lookup_pair_spec(m.skip(1), k)
    }
}

/// Looks `k` up among string pairs; the first binding wins.
fn lookup_pair(m: &Vec<(String, String)>, k: &str) -> (r: Option<String>)
    ensures
        (match r {
            Option::Some(v) => lookup_pair_spec(m@, k@) matches Option::Some(q) && v@ == q,
            Option::None => lookup_pair_spec(m@, k@) is None,
        }),
{
    let mut i: usize = 0;
    proof {
        assert(m@.skip(0) =~= m@);
    }
    loop
        invariant
            i <= m@.len(),
            lookup_pair_spec(m@, k@) == lookup_pair_spec(m@.skip(i as int), k@),
        decreases m@.len() - i,
    {
        if i == m.len() {
            return Option::None;
        }
        proof {
            assert(m@.skip(i as int)[0] == m@[i as int]);
            assert(m@.skip(i as int).skip(1) =~= m@.skip(i + 1));
        }
        if str_eq(m[i].0.as_str(), k) {
            return Option::Some(m[i].1.clone());
        }
        i += 1;
    }
}

/// The artifact of the first classifier pair of `m` whose key is `k`.
pub open spec fn lookup_artifact_spec(m: Seq<(String, Artifact)>, k: Seq<char>) -> Option<Artifact>
    decreases m.len(),
{
    if m.len() == 0 {
        Option::None
    } else if m[0].0@ == k {
        Option::Some(m[0].1)
    } else {
        lookup_artifact_spec(m.skip(1), k)
    }
}

/// Finds the index of the first classifier pair whose key is `k`.
fn lookup_artifact_index(m: &Vec<(String, Artifact)>, k: &str) -> (r: Option<usize>)
    ensures
        (match r {
            Option::Some(i) => i < m@.len() && lookup_artifact_spec(m@, k@) == Option::Some(
                m@[i as int].1,
            ),
            Option::None => lookup_artifact_spec(m@, k@) is None,
        }),
{
    let mut i: usize = 0;
    proof {
        assert(m@.skip(0) =~= m@);
    }
    loop
        invariant
            i <= m@.len(),
            lookup_artifact_spec(m@, k@) == lookup_artifact_spec(m@.skip(i as int), k@),
        decreases m@.len() - i,
    {
        if i == m.len() {
            return Option::None;
        }
        proof {
            assert(m@.skip(i as int)[0] == m@[i as int]);
            assert(m@.skip(i as int).skip(1) =~= m@.skip(i + 1));
        }
        if str_eq(m[i].0.as_str(), k) {
            return Option::Some(i);
        }
        i += 1;
    }
}

/// The classifier-native download of a library: the per-OS classifier
/// name with `${arch}` substituted, looked up among the classifier
/// artifacts.
pub open spec fn classifier_dl_spec(lib: Library, os: Seq<char>, arch_bits: Seq<char>) -> Option<
    (Seq<char>, Seq<char>),
> {
    match lib.natives {
        Option::Some(nm) => match lookup_pair_spec(nm@, os) {
            Option::Some(template) => {
                let cls = replace_seq(template, "${arch}"@, arch_bits);
                match lib.downloads {
                    Option::Some(d) => match d.classifiers {
                        Option::Some(cs) => match lookup_artifact_spec(cs@, cls) {
                            Option::Some(a) => match a.url {
                                Option::Some(u) => Option::Some((u@, "libraries/"@ + a.path@)),
                                Option::None => Option::None,
                            },
                            Option::None => Option::None,
                        },
                        Option::None => Option::None,
                    },
                    Option::None => Option::None,
                }
            },
            Option::None => Option::None,
        },
        Option::None => Option::None,
    }
}

/// What one library contributes to the download round: its downloads
/// (url, destination) and at most one native-extraction job. A library
/// whose rules deny it or that belongs to another OS contributes
/// nothing; a native-classifier jar contributes itself and its own
/// extraction; any other library contributes its artifact and, through
/// its classifier map, a native jar with its extraction.
pub open spec fn lib_action_spec(
    lib: Library,
    os: Seq<char>,
    arch: Seq<char>,
    flags: Seq<(String, bool)>,
    arch_bits: Seq<char>,
) -> (Seq<(Seq<char>, Seq<char>)>, Seq<(Seq<char>, Option<Seq<Seq<char>>>)>) {
    if !(match lib.rules {
        Option::None => true,
        Option::Some(rs) => eval_rules_spec(rs@, os, arch, flags),
    }) {
        (Seq::empty(), Seq::empty())
    } else if !is_native_for_os_spec(lib.name@, os) {
        (Seq::empty(), Seq::empty())
    } else if contains_seq(lib.name@, "natives-"@) {
        match artifact_dl_spec(lib) {
            Option::Some(d) => (seq![d], seq![(d.1, lib_excludes_spec(lib))]),
            Option::None => (Seq::empty(), Seq::empty()),
        }
    } else {
        let base = match artifact_dl_spec(lib) {
            Option::Some(d) => seq![d],
            Option::None => Seq::empty(),
        };
        match classifier_dl_spec(lib, os, arch_bits) {
            Option::Some(n) => (base + seq![n], seq![(n.1, lib_excludes_spec(lib))]),
            Option::None => (base, Seq::<(Seq<char>, Option<Seq<Seq<char>>>)>::empty()),
        }
    }
}

/// Clones a library's exclude prefixes, keeping their views.
fn clone_lib_excludes(lib: &Library) -> (r: Option<Vec<String>>)
    ensures
        excludes_views(r) == lib_excludes_spec(*lib),
{
    match &lib.extract {
        Option::Some(e) => {
            proof {
                assert(lib.extract == Option::Some(*e));
            }
            match &e.exclude {
                Option::Some(v) => {
                    proof {
                        assert(e.exclude == Option::Some(*v));
                    }
                    Option::Some(clone_strings(v))
                },
                Option::None => Option::None,
            }
        },
        Option::None => Option::None,
    }
}

/// Builds the primary-artifact download of a library, when one is owed.
fn plan_artifact_dl(lib: &Library) -> (r: Option<PlannedDownload>)
    ensures
        (match r {
            Option::Some(d) => artifact_dl_spec(*lib) matches Option::Some(q) && d.url@ == q.0
                && d.dest_rel@ == q.1,
            Option::None => artifact_dl_spec(*lib) is None,
        }),
{
    match &lib.downloads {
        Option::Some(d) => {
            proof {
                assert(lib.downloads == Option::Some(*d));
            }
            match &d.artifact {
                Option::Some(a) => {
                    proof {
                        assert(d.artifact == Option::Some(*a));
                    }
                    match &a.url {
                        Option::Some(u) => {
                            proof {
                                assert(a.url == Option::Some(*u));
                            }
                            if u.as_str().is_empty() {
                                Option::None
                            } else {
                                let dest = "libraries/".to_owned().concat(a.path.as_str());
                                Option::Some(PlannedDownload { url: u.clone(), dest_rel: dest })
                            }
                        },
                        Option::None => Option::None,
                    }
                },
                Option::None => Option::None,
            }
        },
        Option::None => Option::None,
    }
}

/// Builds the classifier-native download of a library, when one is owed.
fn plan_classifier_dl(lib: &Library, os: &str, arch_bits: &str) -> (r: Option<PlannedDownload>)
    ensures
        (match r {
            Option::Some(d) => classifier_dl_spec(*lib, os@, arch_bits@) matches Option::Some(q)
                && d.url@ == q.0 && d.dest_rel@ == q.1,
            Option::None => classifier_dl_spec(*lib, os@, arch_bits@) is None,
        }),
{
    match &lib.natives {
        Option::Some(nm) => {
            proof {
                assert(lib.natives == Option::Some(*nm));
            }
            match lookup_pair(nm, os) {
                Option::Some(template) => {
                    let tc = to_chars(template.as_str());
                    let pat = to_chars("${arch}");
                    let bits = to_chars(arch_bits);
                    let cls_chars = replace_chars(&tc, &pat, &bits);
                    let cls = from_chars(&cls_chars);
                    match &lib.downloads {
                        Option::Some(d) => {
                            proof {
                                assert(lib.downloads == Option::Some(*d));
                            }
                            match &d.classifiers {
                                Option::Some(cs) => {
                                    proof {
                                        assert(d.classifiers == Option::Some(*cs));
                                    }
                                    match lookup_artifact_index(cs, cls.as_str()) {
                                        Option::Some(idx) => {
                                            let a = &cs[idx].1;
                                            match &a.url {
                                                Option::Some(u) => {
                                                    proof {
                                                        assert(a.url == Option::Some(*u));
                                                    }
                                                    let dest = "libraries/".to_owned().concat(
                                                        a.path.as_str(),
                                                    );
                                                    Option::Some(
                                                        PlannedDownload {
                                                            url: u.clone(),
                                                            dest_rel: dest,
                                                        },
                                                    )
                                                },
                                                Option::None => Option::None,
                                            }
                                        },
                                        Option::None => Option::None,
                                    }
                                },
                                Option::None => Option::None,
                            }
                        },
                        Option::None => Option::None,
                    }
                },
                Option::None => Option::None,
            }
        },
        Option::None => Option::None,
    }
}

/// Plans what one library contributes to the download round.
fn plan_library_actions(lib: &Library, platform: &Platform, arch_bits: &str) -> (r: (
    Vec<PlannedDownload>,
    Vec<NativeJob>,
))
    ensures
        ({
            let spec = lib_action_spec(
                *lib,
                platform.os_name@,
                platform.arch@,
                platform.features@,
                arch_bits@,
            );
            planned_views(r.0@) == spec.0 && job_views(r.1@) == spec.1
        }),
{
    let mut downloads: Vec<PlannedDownload> = Vec::new();
    let mut jobs: Vec<NativeJob> = Vec::new();
    let rules_ok = match &lib.rules {
        Option::None => true,
        Option::Some(rs) => {
            proof {
                assert(lib.rules == Option::Some(*rs));
            }
            is_rule_allowed(rs, platform)
        },
    };
    if !rules_ok {
        proof {
            assert(planned_views(downloads@) =~= Seq::<(Seq<char>, Seq<char>)>::empty());
            assert(job_views(jobs@) =~= Seq::<(Seq<char>, Option<Seq<Seq<char>>>)>::empty());
        }
        return (downloads, jobs);
    }
    if !is_native_library_for_current_os(lib.name.as_str(), platform.os_name.as_str()) {
        proof {
            assert(planned_views(downloads@) =~= Seq::<(Seq<char>, Seq<char>)>::empty());
            assert(job_views(jobs@) =~= Seq::<(Seq<char>, Option<Seq<Seq<char>>>)>::empty());
        }
        return (downloads, jobs);
    }
    if is_native_jar(lib.name.as_str()) {
        if let Option::Some(d) = plan_artifact_dl(lib) {
            let jar_rel = d.dest_rel.clone();
            let excludes = clone_lib_excludes(lib);
            downloads.push(d);
            jobs.push(NativeJob { jar_rel, excludes });
            proof {
                assert(downloads@.skip(1) =~= Seq::<PlannedDownload>::empty());
                assert(planned_views(Seq::<PlannedDownload>::empty()) =~= Seq::<(
                    Seq<char>,
                    Seq<char>,
                )>::empty());
                assert(jobs@.skip(1) =~= Seq::<NativeJob>::empty());
                assert(job_views(Seq::<NativeJob>::empty()) =~= Seq::<(
                    Seq<char>,
                    Option<Seq<Seq<char>>>,
                )>::empty());
                assert(planned_views(downloads@) =~= seq![
                    (downloads@[0].url@, downloads@[0].dest_rel@),
                ]);
                assert(job_views(jobs@) =~= seq![
                    (jobs@[0].jar_rel@, excludes_views(jobs@[0].excludes)),
                ]);
            }
        } else {
            proof {
                assert(planned_views(downloads@) =~= Seq::<(Seq<char>, Seq<char>)>::empty());
                assert(job_views(jobs@) =~= Seq::<(Seq<char>, Option<Seq<Seq<char>>>)>::empty());
            }
        }
        return (downloads, jobs);
    }
    if let Option::Some(d) = plan_artifact_dl(lib) {
        downloads.push(d);
    }
    let ghost old_dl = downloads@;
    let ghost base = planned_views(downloads@);
    if let Option::Some(n) = plan_classifier_dl(lib, platform.os_name.as_str(), arch_bits) {
        let jar_rel = n.dest_rel.clone();
        let excludes = clone_lib_excludes(lib);
        downloads.push(n);
        jobs.push(NativeJob { jar_rel, excludes });
        proof {
            assert(planned_views(Seq::<PlannedDownload>::empty()) =~= Seq::<(
                Seq<char>,
                Seq<char>,
            )>::empty());
            if old_dl.len() == 1 {
                assert(old_dl.skip(1) =~= Seq::<PlannedDownload>::empty());
                assert(base =~= seq![(old_dl[0].url@, old_dl[0].dest_rel@)]);
            } else {
                assert(old_dl =~= Seq::<PlannedDownload>::empty());
                assert(base =~= Seq::<(Seq<char>, Seq<char>)>::empty());
            }
            assert(downloads@.take(downloads@.len() - 1) =~= old_dl);
            lemma_planned_views_push(downloads@, base);
            assert(jobs@.skip(1) =~= Seq::<NativeJob>::empty());
            assert(job_views(Seq::<NativeJob>::empty()) =~= Seq::<(
                Seq<char>,
                Option<Seq<Seq<char>>>,
            )>::empty());
            assert(job_views(jobs@) =~= seq![
                (jobs@[0].jar_rel@, excludes_views(jobs@[0].excludes)),
            ]);
        }
    } else {
        proof {
            assert(job_views(jobs@) =~= Seq::<(Seq<char>, Option<Seq<Seq<char>>>)>::empty());
            assert(planned_views(Seq::<PlannedDownload>::empty()) =~= Seq::<(
                Seq<char>,
                Seq<char>,
            )>::empty());
            if downloads@.len() == 1 {
                assert(downloads@.skip(1) =~= Seq::<PlannedDownload>::empty());
                assert(planned_views(downloads@) =~= seq![
                    (downloads@[0].url@, downloads@[0].dest_rel@),
                ]);
            } else {
                assert(downloads@ =~= Seq::<PlannedDownload>::empty());
                assert(planned_views(downloads@) =~= Seq::<(Seq<char>, Seq<char>)>::empty());
            }
        }
    }
    (downloads, jobs)
}

/// The downloads and native jobs of a whole library list, in order.
pub open spec fn version_plan_spec(
    libs: Seq<Library>,
    os: Seq<char>,
    arch: Seq<char>,
    flags: Seq<(String, bool)>,
    arch_bits: Seq<char>,
) -> (Seq<(Seq<char>, Seq<char>)>, Seq<(Seq<char>, Option<Seq<Seq<char>>>)>)
    decreases libs.len(),
{
    if libs.len() == 0 {
        (Seq::empty(), Seq::empty())
    } else {
        let h = lib_action_spec(libs[0], os, arch, flags, arch_bits);
        let t = version_plan_spec(libs.skip(1), os, arch, flags, arch_bits);
        (h.0 + t.0, h.1 + t.1)
    }
}

/// Plans every download and native-extraction job a manifest's library
/// list requires on the platform.
pub fn plan_version_downloads(libraries: &Vec<Library>, platform: &Platform, arch_bits: &str) -> (r:
    (Vec<PlannedDownload>, Vec<NativeJob>))
    ensures
        ({
            let spec = version_plan_spec(
                libraries@,
                platform.os_name@,
                platform.arch@,
                platform.features@,
                arch_bits@,
            );
            planned_views(r.0@) == spec.0 && job_views(r.1@) == spec.1
        }),
{
    let mut downloads: Vec<PlannedDownload> = Vec::new();
    let mut jobs: Vec<NativeJob> = Vec::new();
    let mut i: usize = 0;
    let ghost os = platform.os_name@;
    let ghost arch = platform.arch@;
    let ghost flags = platform.features@;
    proof {
        assert(libraries@.skip(0) =~= libraries@);
        assert(planned_views(downloads@) =~= Seq::<(Seq<char>, Seq<char>)>::empty());
        assert(job_views(jobs@) =~= Seq::<(Seq<char>, Option<Seq<Seq<char>>>)>::empty());
        assert(planned_views(downloads@) + version_plan_spec(
            libraries@,
            os,
            arch,
            flags,
            arch_bits@,
        ).0 =~= version_plan_spec(libraries@, os, arch, flags, arch_bits@).0);
        assert(job_views(jobs@) + version_plan_spec(libraries@, os, arch, flags, arch_bits@).1
            =~= version_plan_spec(libraries@, os, arch, flags, arch_bits@).1);
    }
    while i < libraries.len()
        invariant
            i <= libraries@.len(),
            os == platform.os_name@,
            arch == platform.arch@,
            flags == platform.features@,
            version_plan_spec(libraries@, os, arch, flags, arch_bits@).0 == planned_views(
                downloads@,
            ) + version_plan_spec(libraries@.skip(i as int), os, arch, flags, arch_bits@).0,
            version_plan_spec(libraries@, os, arch, flags, arch_bits@).1 == job_views(jobs@)
                + version_plan_spec(libraries@.skip(i as int), os, arch, flags, arch_bits@).1,
        decreases libraries@.len() - i,
    {
        proof {
            assert(libraries@.skip(i as int)[0] == libraries@[i as int]);
            assert(libraries@.skip(i as int).skip(1) =~= libraries@.skip(i + 1));
        }
        let (mut d, mut j) = plan_library_actions(&libraries[i], platform, arch_bits);
        let ghost d_views = planned_views(d@);
        let ghost j_views = job_views(j@);
        let ghost old_d = planned_views(downloads@);
        let ghost old_j = job_views(jobs@);
        downloads.append(&mut d);
        jobs.append(&mut j);
        i += 1;
        proof {
            lemma_planned_views_add(downloads@, old_d, d_views);
            lemma_job_views_add(jobs@, old_j, j_views);
            assert(planned_views(downloads@) + version_plan_spec(
                libraries@.skip(i as int),
                os,
                arch,
                flags,
                arch_bits@,
            ).0 =~= old_d + (d_views + version_plan_spec(
                libraries@.skip(i as int),
                os,
                arch,
                flags,
                arch_bits@,
            ).0));
            assert(job_views(jobs@) + version_plan_spec(
                libraries@.skip(i as int),
                os,
                arch,
                flags,
                arch_bits@,
            ).1 =~= old_j + (j_views + version_plan_spec(
                libraries@.skip(i as int),
                os,
                arch,
                flags,
                arch_bits@,
            ).1));
        }
    }
    proof {
        assert(libraries@.skip(i as int) =~= Seq::<Library>::empty());
        assert(planned_views(downloads@) + Seq::<(Seq<char>, Seq<char>)>::empty() =~= planned_views(
            downloads@,
        ));
        assert(job_views(jobs@) + Seq::<(Seq<char>, Option<Seq<Seq<char>>>)>::empty() =~= job_views(
            jobs@,
        ));
    }
    (downloads, jobs)
}

proof fn lemma_planned_views_concat(a: Seq<PlannedDownload>, b: Seq<PlannedDownload>)
    ensures
        planned_views(a + b) == planned_views(a) + planned_views(b),
    decreases a.len(),
{
    if a.len() == 0 {
        assert(a + b =~= b);
        assert(planned_views(a) =~= Seq::<(Seq<char>, Seq<char>)>::empty());
        assert(planned_views(a) + planned_views(b) =~= planned_views(b));
    } else {
        lemma_planned_views_concat(a.skip(1), b);
        assert((a + b)[0] == a[0]);
        assert((a + b).skip(1) =~= a.skip(1) + b);
        assert(planned_views(a + b) =~= planned_views(a) + planned_views(b));
    }
}

proof fn lemma_planned_views_add(c: Seq<PlannedDownload>, av: Seq<(Seq<char>, Seq<char>)>, bv: Seq<
    (Seq<char>, Seq<char>),
>)
    requires
        exists|a: Seq<PlannedDownload>, b: Seq<PlannedDownload>|
            c == a + b && planned_views(a) == av && planned_views(b) == bv,
    ensures
        planned_views(c) == av + bv,
{
    let (a, b) = choose|a: Seq<PlannedDownload>, b: Seq<PlannedDownload>|
        c == a + b && planned_views(a) == av && planned_views(b) == bv;
    lemma_planned_views_concat(a, b);
}

proof fn lemma_job_views_concat(a: Seq<NativeJob>, b: Seq<NativeJob>)
    ensures
        job_views(a + b) == job_views(a) + job_views(b),
    decreases a.len(),
{
    if a.len() == 0 {
        assert(a + b =~= b);
        assert(job_views(a) =~= Seq::<(Seq<char>, Option<Seq<Seq<char>>>)>::empty());
        assert(job_views(a) + job_views(b) =~= job_views(b));
    } else {
        lemma_job_views_concat(a.skip(1), b);
        assert((a + b)[0] == a[0]);
        assert((a + b).skip(1) =~= a.skip(1) + b);
        assert(job_views(a + b) =~= job_views(a) + job_views(b));
    }
}

proof fn lemma_job_views_add(c: Seq<NativeJob>, av: Seq<(Seq<char>, Option<Seq<Seq<char>>>)>, bv: Seq<
    (Seq<char>, Option<Seq<Seq<char>>>),
>)
    requires
        exists|a: Seq<NativeJob>, b: Seq<NativeJob>|
            c == a + b && job_views(a) == av && job_views(b) == bv,
    ensures
        job_views(c) == av + bv,
{
    let (a, b) = choose|a: Seq<NativeJob>, b: Seq<NativeJob>|
        c == a + b && job_views(a) == av && job_views(b) == bv;
    lemma_job_views_concat(a, b);
}

/// One entry of the remote versions index.
pub struct VersionInfo {
    pub id: String,
    pub version_type: String,
    pub url: String,
    pub time: String,
    pub release_time: String,
}

/// The manifest URL of the first index entry with the requested id.
pub open spec fn version_url_spec(versions: Seq<VersionInfo>, id: Seq<char>) -> Option<Seq<char>>
    decreases versions.len(),
{
    if versions.len() == 0 {
        Option::None
    } else if versions[0].id@ == id {
        Option::Some(versions[0].url@)
    } else {
        version_url_spec(versions.skip(1), id)
    }
}

/// Finds the manifest URL of a version id in the versions index.
pub fn find_version_url(versions: &Vec<VersionInfo>, id: &str) -> (r: Option<String>)
    ensures
        (match r {
            Option::Some(u) => version_url_spec(versions@, id@) matches Option::Some(q) && u@ == q,
            Option::None => version_url_spec(versions@, id@) is None,
        }),
{
    let mut i: usize = 0;
    proof {
        assert(versions@.skip(0) =~= versions@);
    }
    loop
        invariant
            i <= versions@.len(),
            version_url_spec(versions@, id@) == version_url_spec(versions@.skip(i as int), id@),
        decreases versions@.len() - i,
    {
        if i == versions.len() {
            return Option::None;
        }
        proof {
            assert(versions@.skip(i as int)[0] == versions@[i as int]);
            assert(versions@.skip(i as int).skip(1) =~= versions@.skip(i + 1));
        }
        if str_eq(versions[i].id.as_str(), id) {
            return Option::Some(versions[i].url.clone());
        }
        i += 1;
    }
}

/// One object of an asset index: its content hash and size.
pub struct AssetObject {
    pub hash: String,
    pub size: u64,
}

/// The content-addressed URL of an asset object: the resource host,
/// the first two hash characters, then the full hash.
pub open spec fn asset_url_spec(hash: Seq<char>) -> Seq<char> {
    "https://resources.download.minecraft.net/"@ + hash.subrange(0, 2) + seq!['/'] + hash
}

/// The on-disk path of an asset object relative to the launcher root.
pub open spec fn asset_rel_path_spec(hash: Seq<char>) -> Seq<char> {
    "assets/objects/"@ + hash.subrange(0, 2) + seq!['/'] + hash
}

/// Builds the download of one asset object from its content hash.
pub fn plan_asset_download(hash: &str) -> (r: PlannedDownload)
    requires
        hash@.len() >= 2,
    ensures
        r.url@ == asset_url_spec(hash@),
        r.dest_rel@ == asset_rel_path_spec(hash@),
{
    let hc = to_chars(hash);
    let mut prefix: Vec<char> = Vec::new();
    prefix.push(hc[0]);
    prefix.push(hc[1]);
    proof {
        assert(prefix@ =~= hash@.subrange(0, 2));
    }
    let mut url = to_chars("https://resources.download.minecraft.net/");
    push_all(&mut url, &prefix);
    url.push('/');
    push_all(&mut url, &hc);
    let mut rel = to_chars("assets/objects/");
    push_all(&mut rel, &prefix);
    rel.push('/');
    push_all(&mut rel, &hc);
    proof {
        assert(url@ =~= asset_url_spec(hash@));
        assert(rel@ =~= asset_rel_path_spec(hash@));
    }
    PlannedDownload { url: from_chars(&url), dest_rel: from_chars(&rel) }
}

/// The asset downloads of a whole asset index, in order.
pub open spec fn asset_plan_spec(objects: Seq<(String, AssetObject)>) -> Seq<(Seq<char>, Seq<char>)>
    decreases objects.len(),
{
    if objects.len() == 0 {
        Seq::empty()
    } else {
        seq![(asset_url_spec(objects[0].1.hash@), asset_rel_path_spec(objects[0].1.hash@))]
            + asset_plan_spec(objects.skip(1))
    }
}

/// Plans the download of every object of an asset index.
pub fn plan_asset_downloads(objects: &Vec<(String, AssetObject)>) -> (r: Vec<PlannedDownload>)
    requires
        forall|k: int| 0 <= k < objects@.len() ==> objects@[k].1.hash@.len() >= 2,
    ensures
        planned_views(r@) == asset_plan_spec(objects@),
{
    let mut out: Vec<PlannedDownload> = Vec::new();
    let mut i: usize = 0;
    proof {
        assert(objects@.skip(0) =~= objects@);
        assert(planned_views(out@) =~= Seq::<(Seq<char>, Seq<char>)>::empty());
        assert(planned_views(out@) + asset_plan_spec(objects@) =~= asset_plan_spec(objects@));
    }
    while i < objects.len()
        invariant
            forall|k: int| 0 <= k < objects@.len() ==> objects@[k].1.hash@.len() >= 2,
            i <= objects@.len(),
            asset_plan_spec(objects@) == planned_views(out@) + asset_plan_spec(
                objects@.skip(i as int),
            ),
        decreases objects@.len() - i,
    {
        proof {
            assert(objects@.skip(i as int)[0] == objects@[i as int]);
            assert(objects@.skip(i as int).skip(1) =~= objects@.skip(i + 1));
        }
        let d = plan_asset_download(objects[i].1.hash.as_str());
        let ghost old_vec = out@;
        let ghost old_out = planned_views(out@);
        out.push(d);
        i += 1;
        proof {
            assert(out@.take(out@.len() - 1) =~= old_vec);
            lemma_planned_views_push(out@, old_out);
            assert(planned_views(out@) + asset_plan_spec(objects@.skip(i as int)) =~= old_out + (
            seq![(out@[out@.len() - 1].url@, out@[out@.len() - 1].dest_rel@)] + asset_plan_spec(
                objects@.skip(i as int),
            )));
        }
    }
    proof {
        assert(objects@.skip(i as int) =~= Seq::<(String, AssetObject)>::empty());
        assert(planned_views(out@) + Seq::<(Seq<char>, Seq<char>)>::empty() =~= planned_views(
            out@,
        ));
    }
    out
}

pub proof fn lemma_planned_views_push(c: Seq<PlannedDownload>, av: Seq<(Seq<char>, Seq<char>)>)
    requires
        c.len() >= 1,
        planned_views(c.take(c.len() - 1)) == av,
    ensures
        planned_views(c) == av + seq![(c[c.len() - 1].url@, c[c.len() - 1].dest_rel@)],
{
    lemma_planned_views_concat(c.take(c.len() - 1), seq![c[c.len() - 1]]);
    assert(c.take(c.len() - 1) + seq![c[c.len() - 1]] =~= c);
    assert(planned_views(seq![c[c.len() - 1]]) =~= seq![(c[c.len() - 1].url@, c[c.len() - 1].dest_rel@)]) by {
        assert(seq![c[c.len() - 1]].skip(1) =~= Seq::<PlannedDownload>::empty());
        assert(planned_views(Seq::<PlannedDownload>::empty()) =~= Seq::<(Seq<char>, Seq<char>)>::empty());
    }
}

} // verus!
