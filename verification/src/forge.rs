//! Forge installation planning: which Forge build the promotions list
//! recommends for a game version, where its installer comes from, and
//! which installed version directory a launch should take. Fetching
//! and running the installer are the caller's part.
use vstd::prelude::*;
use vstd::string::*;

verus! {

use crate::native::lookup_pair_spec;
use crate::strutil::{
    contains_chars,
    contains_seq,
    lemma_lex_le_refl,
    lemma_lex_le_total,
    lemma_lex_le_trans,
    lex_le,
    lex_le_chars,
    starts_with_chars,
    starts_with_seq,
    str_eq,
    to_chars,
};

/// The promotions list offers no build for the requested game version.
#[derive(Debug, Clone, Copy, PartialEq, Eq, Structural)]
pub enum ForgeError {
    NoVersionForGame,
}

/// Where the recommended installer comes from and goes to, relative to
/// the launcher root.
#[derive(Debug)]
pub struct ForgeInstallPlan {
    pub forge_version: String,
    pub full_version: String,
    pub installer_url: String,
    pub installer_dest: String,
}

/// The build the promotions list names for a game version: its
/// `-recommended` entry, else its `-latest` entry.
pub open spec fn promoted_version_spec(promos: Seq<(String, String)>, mc: Seq<char>) -> Option<
    Seq<char>,
> {
    match lookup_pair_spec(promos, mc + "-recommended"@) {
        Option::Some(v) => Option::Some(v),
        Option::None => lookup_pair_spec(promos, mc + "-latest"@),
    }
}

/// Looks a key up among the promotion pairs.
fn lookup_promo(promos: &Vec<(String, String)>, key: &String) -> (r: Option<String>)
    ensures
        (match r {
            Option::Some(v) => lookup_pair_spec(promos@, key@) matches Option::Some(q) && v@ == q,
            Option::None => lookup_pair_spec(promos@, key@) is None,
        }),
{
    let mut i: usize = 0;
    proof {
        assert(promos@.skip(0) =~= promos@);
    }
    loop
        invariant
            i <= promos@.len(),
            lookup_pair_spec(promos@, key@) == lookup_pair_spec(promos@.skip(i as int), key@),
        decreases promos@.len() - i,
    {
        if i == promos.len() {
            return Option::None;
        }
        proof {
            assert(promos@.skip(i as int)[0] == promos@[i as int]);
            assert(promos@.skip(i as int).skip(1) =~= promos@.skip(i + 1));
        }
        if str_eq(promos[i].0.as_str(), key.as_str()) {
            return Option::Some(promos[i].1.clone());
        }
        i += 1;
    }
}

/// Plans the Forge installation from the promotions list: the
/// `-recommended` build of the game version, else its `-latest` build.
/// Fails exactly when the list names neither.
pub fn forge_install_plan(promos: &Vec<(String, String)>, mc_version: &str) -> (r: Result<
    ForgeInstallPlan,
    ForgeError,
>)
    ensures
        (match r {
            Result::Ok(p) => promoted_version_spec(promos@, mc_version@) matches Option::Some(fv)
                && ({
                let full = mc_version@ + "-"@ + fv;
                &&& p.forge_version@ == fv
                &&& p.full_version@ == full
                &&& p.installer_url@ == "https://maven.minecraftforge.net/net/minecraftforge/forge/"@
                    + full + "/forge-"@ + full + "-installer.jar"@
                &&& p.installer_dest@ == "forge-installer.jar"@
            }),
            Result::Err(e) => promoted_version_spec(promos@, mc_version@) is None && e
                == ForgeError::NoVersionForGame,
        }),
{
    let rec_key = mc_version.to_owned().concat("-recommended");
    let latest_key = mc_version.to_owned().concat("-latest");
    let forge_version = match lookup_promo(promos, &rec_key) {
        Option::Some(v) => v,
        Option::None => match lookup_promo(promos, &latest_key) {
            Option::Some(v) => v,
            Option::None => {
                return Result::Err(ForgeError::NoVersionForGame);
            },
        },
    };
    let full_version = mc_version.to_owned().concat("-").concat(forge_version.as_str());
    let installer_url = "https://maven.minecraftforge.net/net/minecraftforge/forge/".to_owned()
        .concat(full_version.as_str()).concat("/forge-").concat(full_version.as_str()).concat(
        "-installer.jar",
    );
    Result::Ok(
        ForgeInstallPlan {
            forge_version,
            full_version,
            installer_url,
            installer_dest: "forge-installer.jar".to_owned(),
        },
    )
}

/// A directory name belongs to the installed Forge version: it starts
/// with `mc-forge-fv` or holds `forge-mc-fv` anywhere.
pub open spec fn forge_dir_matches_spec(name: Seq<char>, mc: Seq<char>, fv: Seq<char>) -> bool {
    starts_with_seq(name, mc + "-forge-"@ + fv) || contains_seq(name, "forge-"@ + mc + "-"@ + fv)
}

/// Picks the installed Forge version directory among the entries of the
/// versions directory: of the names that match the version patterns,
/// the lexicographically greatest. Hands back nothing exactly when no
/// name matches.
pub fn pick_forge_version_dir(names: &Vec<String>, mc_version: &str, forge_version: &str) -> (r:
    Option<String>)
    ensures
        (match r {
            Option::Some(s) => (exists|k: int|
                0 <= k < names@.len() && names@[k]@ == s@) && forge_dir_matches_spec(
                s@,
                mc_version@,
                forge_version@,
            ) && (forall|k: int|
                0 <= k < names@.len() && forge_dir_matches_spec(
                    names@[k]@,
                    mc_version@,
                    forge_version@,
                ) ==> lex_le(names@[k]@, s@)),
            Option::None => forall|k: int|
                0 <= k < names@.len() ==> !forge_dir_matches_spec(
                    names@[k]@,
                    mc_version@,
                    forge_version@,
                ),
        }),
{
    let pattern = mc_version.to_owned().concat("-forge-").concat(forge_version);
    let alt = "forge-".to_owned().concat(mc_version).concat("-").concat(forge_version);
    let pattern_chars = to_chars(pattern.as_str());
    let alt_chars = to_chars(alt.as_str());
    let mut best: Option<String> = Option::None;
    let mut i: usize = 0;
    while i < names.len()
        invariant
            pattern_chars@ == mc_version@ + "-forge-"@ + forge_version@,
            alt_chars@ == "forge-"@ + mc_version@ + "-"@ + forge_version@,
            i <= names@.len(),
            (match best {
                Option::Some(b) => (exists|k: int|
                    0 <= k < i && names@[k]@ == b@) && forge_dir_matches_spec(
                    b@,
                    mc_version@,
                    forge_version@,
                ) && (forall|k: int|
                    0 <= k < i && forge_dir_matches_spec(
                        names@[k]@,
                        mc_version@,
                        forge_version@,
                    ) ==> lex_le(names@[k]@, b@)),
                Option::None => forall|k: int|
                    0 <= k < i ==> !forge_dir_matches_spec(
                        names@[k]@,
                        mc_version@,
                        forge_version@,
                    ),
            }),
        decreases names@.len() - i,
    {
        let name_chars = to_chars(names[i].as_str());
        let matches = starts_with_chars(&name_chars, &pattern_chars) || contains_chars(
            &name_chars,
            &alt_chars,
        );
        if matches {
            best = match best {
                Option::None => {
                    proof {
                        lemma_lex_le_refl(names@[i as int]@);
                    }
                    Option::Some(names[i].clone())
                },
                Option::Some(b) => {
                    let b_chars = to_chars(b.as_str());
                    if lex_le_chars(&b_chars, &name_chars) {
                        proof {
                            assert forall|k: int|
                                0 <= k < i + 1 && forge_dir_matches_spec(
                                    names@[k]@,
                                    mc_version@,
                                    forge_version@,
                                ) implies lex_le(names@[k]@, names@[i as int]@) by {
                                if k < i {
                                    lemma_lex_le_trans(names@[k]@, b@, names@[i as int]@);
                                } else {
                                    lemma_lex_le_refl(names@[i as int]@);
                                }
                            }
                        }
                        Option::Some(names[i].clone())
                    } else {
                        proof {
                            lemma_lex_le_total(b@, names@[i as int]@);
                        }
                        Option::Some(b)
                    }
                },
            };
        }
        i += 1;
    }
    best
}

} // verus!
