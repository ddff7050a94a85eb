//! Release bookkeeping: bumps, fragments and changelog edits.

use web_search::release::{
    bump_priority, changelog_entry, collect_fragments, determine_bump_type, env_var_name,
    flag_value, has_flag, insert_entry, lines_of, package_version, parse_frontmatter,
    parse_version, semver_digits_fit, set_package_version, strip_frontmatter, BumpType, Version,
    INSERT_MARKER,
};

#[test]
fn bump_types_parse_case_insensitively() {
    assert_eq!(BumpType::from_str("major"), Some(BumpType::Major));
    assert_eq!(BumpType::from_str("Minor"), Some(BumpType::Minor));
    assert_eq!(BumpType::from_str("PATCH"), Some(BumpType::Patch));
    assert_eq!(BumpType::from_str("huge"), None);
}

#[test]
fn versions_bump_and_display() {
    let v = Version { major: 1, minor: 2, patch: 3 };
    assert_eq!(v.to_display(), "1.2.3");
    assert_eq!(v.bump(BumpType::Major), "2.0.0");
    assert_eq!(v.bump(BumpType::Minor), "1.3.0");
    assert_eq!(v.bump(BumpType::Patch), "1.2.4");
    assert_eq!(Version { major: 0, minor: 9, patch: 99 }.bump(BumpType::Patch), "0.9.100");
}

#[test]
fn versions_parse_their_leading_numbers() {
    assert_eq!(parse_version("1.2.3"), Ok(Version { major: 1, minor: 2, patch: 3 }));
    assert_eq!(parse_version("10.20.30-beta.1"), Ok(Version { major: 10, minor: 20, patch: 30 }));
    assert_eq!(
        parse_version("v1.2.3"),
        Err("Could not parse semver from version: v1.2.3".to_string())
    );
    assert!(parse_version("1.2").is_err());
    assert!(parse_version("1..3").is_err());
    assert!(parse_version("").is_err());
}

#[test]
fn bump_priorities_order_the_bumps() {
    assert_eq!(bump_priority("patch"), 1);
    assert_eq!(bump_priority("minor"), 2);
    assert_eq!(bump_priority("major"), 3);
    assert_eq!(bump_priority("Major"), 0);
}

#[test]
fn front_matter_declares_the_bump() {
    assert_eq!(
        parse_frontmatter("---\nbump: minor\n---\n\n### Added\n- x\n"),
        Some("minor".to_string())
    );
    assert_eq!(
        parse_frontmatter("---\ntitle: x\n  bump :  major  \n---\nbody"),
        Some("major".to_string())
    );
    assert_eq!(parse_frontmatter("no front matter"), None);
    assert_eq!(parse_frontmatter("---\ntitle: x\n---\n"), None);
}

#[test]
fn the_highest_declared_bump_wins() {
    let fragments = vec![
        Some("---\nbump: patch\n---\nA".to_string()),
        None,
        Some("---\nbump: minor\n---\nB".to_string()),
        Some("---\nbump: patch\n---\nC".to_string()),
        Some("plain".to_string()),
    ];
    assert_eq!(determine_bump_type(&fragments, "patch"), ("minor".to_string(), 5));
    let with_major = vec![
        Some("---\nbump: major\n---\n".to_string()),
        Some("---\nbump: minor\n---\n".to_string()),
    ];
    assert_eq!(determine_bump_type(&with_major, "patch").0, "major");
    assert_eq!(determine_bump_type(&vec![], "minor"), ("minor".to_string(), 0));
    let undeclared = vec![Some("---\nbump: weird\n---\n".to_string())];
    assert_eq!(determine_bump_type(&undeclared, "patch").0, "patch");
}

#[test]
fn fragments_lose_their_front_matter() {
    assert_eq!(strip_frontmatter("---\nbump: patch\n---\n\n### Fixed\n- y\n"), "### Fixed\n- y");
    assert_eq!(strip_frontmatter("  just text \n"), "just text");
    let joined = collect_fragments(&vec![
        Some("---\nbump: patch\n---\nOne".to_string()),
        Some("---\nbump: patch\n---\n   ".to_string()),
        None,
        Some("Two".to_string()),
    ]);
    assert_eq!(joined, "One\n\nTwo");
}

#[test]
fn lines_split_like_str_lines() {
    assert_eq!(lines_of("a\nb\r\nc"), ["a", "b", "c"]);
    assert_eq!(lines_of("a\n"), ["a"]);
    assert_eq!(lines_of("\n\n"), ["", ""]);
    assert!(lines_of("").is_empty());
    assert_eq!(lines_of("x\r"), ["x\r"]);
}

#[test]
fn changelog_sections_are_inserted() {
    let entry = changelog_entry("1.2.0", "2024-01-02", "- item");
    assert_eq!(entry, "\n## [1.2.0] - 2024-01-02\n\n- item\n");
    let with_marker = format!("# Log\n{INSERT_MARKER}\nold");
    assert_eq!(
        insert_entry(Some(&with_marker), &entry),
        format!("# Log\n{INSERT_MARKER}{entry}\nold")
    );
    assert_eq!(
        insert_entry(Some("# Log\n\n## [1.0.0] - x\n- a\n"), "NEW"),
        "# Log\n\nNEW\n## [1.0.0] - x\n- a"
    );
    assert_eq!(insert_entry(Some("# Log"), "NEW"), "# LogNEW");
    let fresh = insert_entry(None, &entry);
    assert!(fresh.starts_with("# Changelog\n\nAll notable changes"));
    assert!(fresh.ends_with(&format!("{INSERT_MARKER}\n{entry}\n")));
}

#[test]
fn manifests_get_their_package_version_replaced() {
    let manifest = "[package]\nname = \"x\"\nversion = \"0.1.0\"\n\n[dependencies]\ny = { version = \"1\" }\nversion = \"9\"\n";
    assert_eq!(
        set_package_version(manifest, "0.2.0"),
        "[package]\nname = \"x\"\nversion = \"0.2.0\"\n\n[dependencies]\ny = { version = \"1\" }\nversion = \"9\"\n"
    );
    assert_eq!(set_package_version("name = \"x\"\n", "1.0.0"), "name = \"x\"\n");
}

#[test]
fn arguments_are_found_by_flag() {
    let args: Vec<String> = ["prog", "--bump-type", "minor", "--dry-run"].iter().map(|s| s.to_string()).collect();
    assert_eq!(flag_value(&args, "bump-type"), Some(Some("minor".to_string())));
    assert_eq!(flag_value(&args, "dry-run"), Some(None));
    assert_eq!(flag_value(&args, "rust-root"), None);
    assert!(has_flag(&args, "dry-run"));
    assert!(!has_flag(&args, "minor"));
    assert_eq!(env_var_name("bump-type"), "BUMP_TYPE");
}

#[test]
fn manifest_versions_are_read_and_checked() {
    let manifest = "[package]\nname = \"x\"\nversion = \"0.3.1\"\n";
    assert_eq!(package_version(manifest), Some("0.3.1".to_string()));
    assert_eq!(package_version("name = \"x\"\n"), None);
    assert!(semver_digits_fit("1.2.3"));
    assert!(semver_digits_fit("4294967295.0.0"));
    assert!(!semver_digits_fit("4294967296.0.0"));
    assert!(semver_digits_fit("not a version"));
}
