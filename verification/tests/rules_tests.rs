use launch_core::rules::{check_rules, is_rule_allowed, OsRule, Platform, Rule};

fn platform(os: &str, arch: &str) -> Platform {
    Platform {
        os_name: os.to_string(),
        arch: arch.to_string(),
        features: Vec::new(),
    }
}

fn allow() -> Rule {
    Rule {
        action: "allow".to_string(),
        os: None,
        features: None,
    }
}

fn deny() -> Rule {
    Rule {
        action: "disallow".to_string(),
        os: None,
        features: None,
    }
}

fn allow_on(os: &str) -> Rule {
    Rule {
        action: "allow".to_string(),
        os: Some(OsRule {
            name: Some(os.to_string()),
            arch: None,
            version: None,
        }),
        features: None,
    }
}

#[test]
fn empty_rule_list_allows_on_every_platform() {
    let rules: Vec<Rule> = Vec::new();
    assert!(is_rule_allowed(&rules, &platform("linux", "x86_64")));
    assert!(is_rule_allowed(&rules, &platform("windows", "aarch64")));
    assert!(is_rule_allowed(&rules, &platform("osx", "x86")));
}

#[test]
fn single_unconditional_allow_allows_everywhere() {
    let rules = vec![allow()];
    assert!(is_rule_allowed(&rules, &platform("linux", "x86_64")));
    assert!(is_rule_allowed(&rules, &platform("windows", "x86")));
    assert!(is_rule_allowed(&rules, &platform("unknown", "mips")));
}

#[test]
fn later_matching_rule_overrides_earlier() {
    let rules = vec![allow(), deny()];
    assert!(!is_rule_allowed(&rules, &platform("linux", "x86_64")));
    let rules = vec![deny(), allow()];
    assert!(is_rule_allowed(&rules, &platform("linux", "x86_64")));
}

#[test]
fn os_filtered_rule_matches_only_its_os() {
    let rules = vec![allow_on("osx")];
    assert!(is_rule_allowed(&rules, &platform("osx", "x86_64")));
    assert!(!is_rule_allowed(&rules, &platform("linux", "x86_64")));
}

#[test]
fn allow_everywhere_except_one_os() {
    let mut except = allow_on("osx");
    except.action = "disallow".to_string();
    let rules = vec![allow(), except];
    assert!(is_rule_allowed(&rules, &platform("linux", "x86_64")));
    assert!(!is_rule_allowed(&rules, &platform("osx", "x86_64")));
}

#[test]
fn arch_filter_must_match() {
    let rules = vec![Rule {
        action: "allow".to_string(),
        os: Some(OsRule {
            name: None,
            arch: Some("x86".to_string()),
            version: None,
        }),
        features: None,
    }];
    assert!(is_rule_allowed(&rules, &platform("linux", "x86")));
    assert!(!is_rule_allowed(&rules, &platform("linux", "x86_64")));
}

#[test]
fn feature_flags_must_match_and_absent_flags_are_off() {
    let rule = Rule {
        action: "allow".to_string(),
        os: None,
        features: Some(vec![("is_demo_user".to_string(), true)]),
    };
    let mut with_flag = platform("linux", "x86_64");
    with_flag.features.push(("is_demo_user".to_string(), true));
    assert!(is_rule_allowed(&vec![rule], &with_flag));

    let rule = Rule {
        action: "allow".to_string(),
        os: None,
        features: Some(vec![("is_demo_user".to_string(), true)]),
    };
    let without_flag = platform("linux", "x86_64");
    assert!(!is_rule_allowed(&vec![rule], &without_flag));

    let rule = Rule {
        action: "allow".to_string(),
        os: None,
        features: Some(vec![("is_demo_user".to_string(), false)]),
    };
    let without_flag = platform("linux", "x86_64");
    assert!(is_rule_allowed(&vec![rule], &without_flag));
}

#[test]
fn absent_rule_list_allows() {
    assert!(check_rules(&None, &platform("linux", "x86_64")));
    assert!(check_rules(
        &Some(vec![allow_on("windows")]),
        &platform("windows", "x86_64")
    ));
    assert!(!check_rules(
        &Some(vec![allow_on("windows")]),
        &platform("linux", "x86_64")
    ));
}
