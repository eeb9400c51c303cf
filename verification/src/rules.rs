//! Platform-conditional rule evaluation: a rule list decides whether a
//! library or argument applies on the current platform. Evaluation is
//! last-match-wins: every rule whose filters all match overwrites the
//! verdict, an empty list allows, and a non-empty list with no matching
//! rule denies.
use vstd::prelude::*;

verus! {

use crate::strutil::str_eq;

/// Filter on the operating system of a rule: any field left `None` is a
/// wildcard. The `version` field is carried but never matched on.
pub struct OsRule {
    pub name: Option<String>,
    pub arch: Option<String>,
    pub version: Option<String>,
}

/// One platform-conditional rule: an action (`"allow"` or anything else,
/// read as deny), an optional OS filter and an optional feature-flag
/// predicate.
pub struct Rule {
    pub action: String,
    pub os: Option<OsRule>,
    pub features: Option<Vec<(String, bool)>>,
}

/// The platform a rule list is evaluated against: OS family name
/// (`"windows"`, `"osx"`, `"linux"`), architecture name, and the set of
/// enabled feature flags.
pub struct Platform {
    pub os_name: String,
    pub arch: String,
    pub features: Vec<(String, bool)>,
}

/// Value of flag `k` among `fs`: the first binding wins, an absent flag
/// is off.
pub open spec fn flag_value_spec(fs: Seq<(String, bool)>, k: Seq<char>) -> bool
    decreases fs.len(),
{
    if fs.len() == 0 {
        false
    } else if fs[0].0@ == k {
        fs[0].1
    } else {
        flag_value_spec(fs.skip(1), k)
    }
}

/// Looks the flag `k` up in `fs`.
pub fn flag_value(fs: &Vec<(String, bool)>, k: &String) -> (r: bool)
    ensures
        r == flag_value_spec(fs@, k@),
{
    let mut i: usize = 0;
    proof {
        assert(fs@.skip(0) =~= fs@);
    }
    loop
        invariant
            i <= fs@.len(),
            flag_value_spec(fs@, k@) == flag_value_spec(fs@.skip(i as int), k@),
        decreases fs@.len() - i,
    {
        if i == fs.len() {
            return false;
        }
        proof {
            assert(fs@.skip(i as int)[0] == fs@[i as int]);
            assert(fs@.skip(i as int).skip(1) =~= fs@.skip(i + 1));
        }
        if fs[i].0 == *k {
            return fs[i].1;
        }
        i += 1;
    }
}

/// The OS filter of `r` accepts the platform.
pub open spec fn os_filter_matches_spec(r: Rule, os_name: Seq<char>, arch: Seq<char>) -> bool {
    match r.os {
        Option::None => true,
        Option::Some(o) => {
            (match o.name {
                Option::None => true,
                Option::Some(n) => n@ == os_name,
            }) && (match o.arch {
                Option::None => true,
                Option::Some(a) => a@ == arch,
            })
        },
    }
}

/// Every required flag among `reqs` has the required value among `flags`.
pub open spec fn reqs_match_spec(reqs: Seq<(String, bool)>, flags: Seq<(String, bool)>) -> bool
    decreases reqs.len(),
{
    if reqs.len() == 0 {
        true
    } else {
        flag_value_spec(flags, reqs[0].0@) == reqs[0].1 && reqs_match_spec(reqs.skip(1), flags)
    }
}

/// The feature predicate of `r` accepts the platform's flags.
pub open spec fn features_match_spec(r: Rule, flags: Seq<(String, bool)>) -> bool {
    match r.features {
        Option::None => true,
        Option::Some(reqs) => reqs_match_spec(reqs@, flags),
    }
}

/// All filters of `r` accept the platform.
pub open spec fn rule_matches_spec(
    r: Rule,
    os_name: Seq<char>,
    arch: Seq<char>,
    flags: Seq<(String, bool)>,
) -> bool {
    os_filter_matches_spec(r, os_name, arch) && features_match_spec(r, flags)
}

/// `r` allows rather than denies.
pub open spec fn rule_allows_spec(r: Rule) -> bool {
    r.action@ == "allow"@
}

/// Folds the rules left to right: each matching rule overwrites the
/// accumulated outcome with its own action.
pub open spec fn eval_rules_from(
    rules: Seq<Rule>,
    os_name: Seq<char>,
    arch: Seq<char>,
    flags: Seq<(String, bool)>,
    acc: bool,
) -> bool
    decreases rules.len(),
{
    if rules.len() == 0 {
        acc
    } else {
        let acc2 = if rule_matches_spec(rules[0], os_name, arch, flags) {
            rule_allows_spec(rules[0])
        } else {
            acc
        };
        eval_rules_from(rules.skip(1), os_name, arch, flags, acc2)
    }
}

/// Verdict of a rule list: an empty list allows; otherwise the fold
/// starts from deny, so a non-empty list with no matching rule denies.
pub open spec fn eval_rules_spec(
    rules: Seq<Rule>,
    os_name: Seq<char>,
    arch: Seq<char>,
    flags: Seq<(String, bool)>,
) -> bool {
    if rules.len() == 0 {
        true
    } else {
        eval_rules_from(rules, os_name, arch, flags, false)
    }
}

/// Decides whether one rule matches the platform.
fn rule_matches(r: &Rule, platform: &Platform) -> (b: bool)
    ensures
        b == rule_matches_spec(*r, platform.os_name@, platform.arch@, platform.features@),
{
    let os_ok = match &r.os {
        Option::None => true,
        Option::Some(o) => {
            let name_ok = match &o.name {
                Option::None => true,
                Option::Some(n) => str_eq(n.as_str(), platform.os_name.as_str()),
            };
            let arch_ok = match &o.arch {
                Option::None => true,
                Option::Some(a) => str_eq(a.as_str(), platform.arch.as_str()),
            };
            name_ok && arch_ok
        },
    };
    if !os_ok {
        return false;
    }
    match &r.features {
        Option::None => true,
        Option::Some(reqs) => {
            let mut j: usize = 0;
            proof {
                assert(reqs@.skip(0) =~= reqs@);
            }
            while j < reqs.len()
                invariant
                    r.features == Option::Some(*reqs),
                    j <= reqs@.len(),
                    reqs_match_spec(reqs@, platform.features@) == reqs_match_spec(
                        reqs@.skip(j as int),
                        platform.features@,
                    ),
                decreases reqs@.len() - j,
            {
                proof {
                    assert(reqs@.skip(j as int)[0] == reqs@[j as int]);
                    assert(reqs@.skip(j as int).skip(1) =~= reqs@.skip(j + 1));
                }
                let req: &(String, bool) = &reqs[j];
                let v = flag_value(&platform.features, &req.0);
                if v != req.1 {
                    return false;
                }
                j += 1;
            }
            proof {
                assert(reqs@.skip(j as int) =~= Seq::<(String, bool)>::empty());
            }
            true
        },
    }
}

/// Evaluates a rule list against the platform, last match wins.
///
/// Evaluation is total: it is defined for every rule list and platform,
/// and an empty list allows.
pub fn is_rule_allowed(rules: &Vec<Rule>, platform: &Platform) -> (allowed: bool)
    ensures
        allowed == eval_rules_spec(rules@, platform.os_name@, platform.arch@, platform.features@),
{
    if rules.len() == 0 {
        return true;
    }
    let mut acc = false;
    let mut i: usize = 0;
    proof {
        assert(rules@.skip(0) =~= rules@);
    }
    while i < rules.len()
        invariant
            i <= rules@.len(),
            eval_rules_from(rules@, platform.os_name@, platform.arch@, platform.features@, false)
                == eval_rules_from(
                rules@.skip(i as int),
                platform.os_name@,
                platform.arch@,
                platform.features@,
                acc,
            ),
        decreases rules@.len() - i,
    {
        proof {
            assert(rules@.skip(i as int)[0] == rules@[i as int]);
            assert(rules@.skip(i as int).skip(1) =~= rules@.skip(i + 1));
        }
        if rule_matches(&rules[i], platform) {
            acc = str_eq(rules[i].action.as_str(), "allow");
        }
        i += 1;
    }
    proof {
        assert(rules@.skip(i as int) =~= Seq::<Rule>::empty());
    }
    acc
}

/// Evaluates an optional rule list: an absent list allows.
pub fn check_rules(rules: &Option<Vec<Rule>>, platform: &Platform) -> (allowed: bool)
    ensures
        allowed == (match rules {
            Option::None => true,
            Option::Some(rs) => eval_rules_spec(
                rs@,
                platform.os_name@,
                platform.arch@,
                platform.features@,
            ),
        }),
{
    match rules {
        Option::None => true,
        Option::Some(rs) => is_rule_allowed(rs, platform),
    }
}

/// Law: an empty rule list evaluates to allow on every platform.
pub proof fn lemma_empty_rules_allow(os_name: Seq<char>, arch: Seq<char>, flags: Seq<(String, bool)>)
    ensures
        eval_rules_spec(Seq::<Rule>::empty(), os_name, arch, flags),
{
}

/// Law: a list holding exactly one unconditional allow rule evaluates to
/// allow on every platform.
pub proof fn lemma_single_unconditional_allow(
    r: Rule,
    os_name: Seq<char>,
    arch: Seq<char>,
    flags: Seq<(String, bool)>,
)
    requires
        rule_allows_spec(r),
        r.os is None,
        r.features is None,
    ensures
        eval_rules_spec(seq![r], os_name, arch, flags),
{
    assert(seq![r].skip(1) =~= Seq::<Rule>::empty());
    assert(rule_matches_spec(r, os_name, arch, flags));
    assert(seq![r][0] == r);
    assert(eval_rules_from(Seq::<Rule>::empty(), os_name, arch, flags, true));
    assert(eval_rules_from(seq![r], os_name, arch, flags, false) == eval_rules_from(
        seq![r].skip(1),
        os_name,
        arch,
        flags,
        true,
    ));
}

} // verus!
