use std::cmp::Ordering;

use mcdata_rs::error::McDataError;
use mcdata_rs::version::{
    default_release_type, get_supported_versions, get_version_data, load_and_index_versions,
    parse_version_string, resolve_in, resolve_version, supported_versions, Edition,
    EditionVersions, ProtocolVersionInfo, VersionData,
};

fn entry(mc: &str, major: &str, protocol: i32, dv: Option<i32>, release: &str) -> ProtocolVersionInfo {
    ProtocolVersionInfo {
        minecraft_version: mc.to_string(),
        version: protocol,
        data_version: dv,
        uses_netty: true,
        major_version: major.to_string(),
        release_type: release.to_string(),
    }
}

fn pc_entries() -> Vec<ProtocolVersionInfo> {
    vec![
        entry("1.8.8", "1.8", 47, None, "release"),
        entry("1.8", "1.8", 47, None, "release"),
        entry("1.13.2", "1.13", 404, Some(1631), "release"),
        entry("1.14", "1.14", 477, Some(1952), "release"),
        entry("1.15.2", "1.15", 578, Some(2230), "release"),
        entry("1.16.5", "1.16", 754, Some(2586), "release"),
        entry("1.17", "1.17", 755, Some(2724), "release"),
        entry("1.17.1", "1.17", 756, Some(2730), "release"),
        entry("1.18.2", "1.18", 758, Some(2975), "release"),
        entry("1.19", "1.19", 759, Some(3105), "release"),
        entry("1.19.4", "1.19", 762, Some(3337), "release"),
        entry("23w07a", "1.19", 1073741943, Some(3320), "snapshot"),
        entry("1.20.1", "1.20", 763, Some(3465), "release"),
        entry("1.20.4", "1.20", 765, Some(3700), "release"),
        entry("24w10a", "1.21", 1073741990, Some(3800), "snapshot"),
    ]
}

fn registry() -> EditionVersions {
    EditionVersions {
        pc: Ok(load_and_index_versions(Edition::Pc, pc_entries())),
        bedrock: Err("bedrock protocolVersions.json is missing".to_string()),
    }
}

#[test]
fn edition_tokens() {
    assert_eq!(Edition::Pc.path_prefix(), "pc");
    assert_eq!(Edition::Bedrock.path_prefix(), "bedrock");
    assert_eq!(default_release_type(), "release");
}

#[test]
fn prefixes_pick_the_edition() {
    assert_eq!(parse_version_string("pc_1.16.5"), (Edition::Pc, "1.16.5"));
    assert_eq!(parse_version_string("bedrock_1.19.1"), (Edition::Bedrock, "1.19.1"));
    assert_eq!(parse_version_string("1.18.2"), (Edition::Pc, "1.18.2"));
    assert_eq!(parse_version_string("pc"), (Edition::Pc, "pc"));
}

#[test]
fn missing_data_versions_are_synthesized_from_position() {
    let d = load_and_index_versions(Edition::Pc, pc_entries());
    // Sorted by protocol, newest first: 1.8.8 and 1.8 share protocol 47 and
    // are the last two of fifteen entries, at positions 13 and 14.
    let v = resolve_in(&d, "1.8.8").unwrap();
    assert_eq!(v.data_version, -13);
    // "1.8" is both a version and a major version: the key names the
    // series' newest release.
    let w = resolve_in(&d, "1.8").unwrap();
    assert_eq!(w.minecraft_version, "1.8.8");
    let list = d.by_major_version.get_str("1.8").unwrap();
    assert_eq!(list.len(), 2);
    assert_eq!(list[0].data_version, -13);
    assert_eq!(list[1].data_version, -14);
}

#[test]
fn resolves_specific_versions() {
    let r = registry();
    let v = resolve_version(&r, "1.18.2").unwrap();
    assert_eq!(v.minecraft_version, "1.18.2");
    assert_eq!(v.major_version, "1.18");
    assert_eq!(v.version, 758);
    assert_eq!(v.data_version, 2975);
    assert_eq!(v.edition, Edition::Pc);
    assert_eq!(v.release_type, "release");
    let p = resolve_version(&r, "pc_1.16.5").unwrap();
    assert_eq!(p.minecraft_version, "1.16.5");
}

#[test]
fn major_version_resolves_to_newest_release() {
    let r = registry();
    // No version is called "1.20": the key names the newest release.
    let v = resolve_version(&r, "1.20").unwrap();
    assert_eq!(v.minecraft_version, "1.20.4");
    // "1.19" is also a version, but as a major version it names the newest
    // release of 1.19 (not the newer snapshot 23w07a).
    let w = resolve_version(&r, "1.19").unwrap();
    assert!(w.minecraft_version.starts_with("1.19"));
    assert_eq!(w.minecraft_version, "1.19.4");
    // The major key and the newest release give the same version.
    let x = resolve_version(&r, "1.19.4").unwrap();
    assert_eq!(w, x);
    let list = get_version_data(&r, Edition::Pc).unwrap().by_major_version.get_str("1.19").unwrap();
    let names: Vec<&str> = list.iter().map(|v| v.minecraft_version.as_str()).collect();
    assert_eq!(names, vec!["1.19.4", "23w07a", "1.19"]);
}

#[test]
fn major_without_release_resolves_to_snapshot() {
    let r = registry();
    assert_eq!(resolve_version(&r, "1.21").unwrap().minecraft_version, "24w10a");
}

#[test]
fn protocol_number_resolves_to_release() {
    let r = registry();
    assert_eq!(resolve_version(&r, "758").unwrap().minecraft_version, "1.18.2");
    assert_eq!(resolve_version(&r, "47").unwrap().minecraft_version, "1.8.8");
    assert_eq!(resolve_version(&r, "1073741943").unwrap().minecraft_version, "23w07a");
}

#[test]
fn invalid_version_is_reported_with_its_string() {
    let r = registry();
    match resolve_version(&r, "invalid_version_string") {
        Err(McDataError::InvalidVersion(s)) => assert_eq!(s, "invalid_version_string"),
        other => panic!("unexpected {:?}", other),
    }
    match resolve_version(&r, "9999") {
        Err(McDataError::InvalidVersion(s)) => assert_eq!(s, "9999"),
        other => panic!("unexpected {:?}", other),
    }
}

#[test]
fn failed_registry_is_a_cached_error() {
    let r = registry();
    match resolve_version(&r, "bedrock_1.19.1") {
        Err(McDataError::CachedError(m)) => assert_eq!(m, "bedrock protocolVersions.json is missing"),
        other => panic!("unexpected {:?}", other),
    }
    assert!(matches!(get_version_data(&r, Edition::Bedrock), Err(McDataError::CachedError(_))));
    assert!(matches!(supported_versions(&r, Edition::Bedrock), Err(McDataError::CachedError(_))));
}

#[test]
fn supported_versions_are_sorted_distinct_and_dotted() {
    let r = registry();
    let list = supported_versions(&r, Edition::Pc).unwrap();
    assert_eq!(
        list,
        vec![
            "1.8", "1.8.8", "1.13.2", "1.14", "1.15.2", "1.16.5", "1.17", "1.17.1", "1.18.2",
            "1.19", "1.19.4", "1.20.1", "1.20.4"
        ]
    );
    assert!(!list.iter().any(|v| v == "23w07a"));
    let i8 = list.iter().position(|v| v == "1.8.8").unwrap();
    let i16 = list.iter().position(|v| v == "1.16.5").unwrap();
    assert!(i8 < i16);
}

#[test]
fn supported_versions_twice_and_all_resolve() {
    let r = registry();
    let a = get_supported_versions(&r, Edition::Pc).unwrap();
    let b = get_supported_versions(&r, Edition::Pc).unwrap();
    assert_eq!(a, b);
    for s in &a {
        let v = resolve_version(&r, &format!("pc_{s}"));
        assert!(v.is_ok(), "{s} does not resolve");
    }
}

#[test]
fn resolution_is_idempotent() {
    let r = registry();
    for s in ["1.18.2", "pc_1.16.5", "1.19", "1.17", "758"] {
        let v = resolve_version(&r, s).unwrap();
        let again = resolve_version(&r, &format!("pc_{}", v.minecraft_version)).unwrap();
        assert_eq!(again.minecraft_version, v.minecraft_version);
        assert_eq!(again.data_version, v.data_version);
    }
}

#[test]
fn prefix_does_not_change_resolution() {
    let r = registry();
    for s in ["1.18.2", "1.19", "756", "1.8"] {
        let a = resolve_version(&r, s).unwrap();
        let b = resolve_version(&r, &format!("pc_{s}")).unwrap();
        assert_eq!(a.minecraft_version, b.minecraft_version);
        assert_eq!(a.data_version, b.data_version);
    }
}

#[test]
fn empty_registry_resolves_nothing() {
    let d: VersionData = load_and_index_versions(Edition::Pc, Vec::new());
    assert!(resolve_in(&d, "1.18.2").is_none());
    let r = EditionVersions { pc: Ok(d), bedrock: Err(String::new()) };
    assert_eq!(supported_versions(&r, Edition::Pc).unwrap(), Vec::<String>::new());
}

#[test]
fn versions_order_within_an_edition_only() {
    let r = registry();
    let a = resolve_version(&r, "1.16.5").unwrap();
    let b = resolve_version(&r, "1.18.2").unwrap();
    assert_eq!(a.partial_cmp(&b), Some(Ordering::Less));
    assert_eq!(b.partial_cmp(&a), Some(Ordering::Greater));
    assert!(a < b);
    assert!(a == resolve_version(&r, "pc_1.16.5").unwrap());
    assert!(a != b);
    let mut other = a.clone();
    other.edition = Edition::Bedrock;
    assert_eq!(a.partial_cmp(&other), None);
    assert!(!(a < other) && !(a >= other));
}

#[test]
fn version_named_like_its_major_is_reached_by_protocol() {
    let r = registry();
    let by_protocol = resolve_version(&r, "759").unwrap();
    assert_eq!(by_protocol.minecraft_version, "1.19");
    // Its own string is the major key, which names the newest release.
    let by_name = resolve_version(&r, &format!("pc_{}", by_protocol.minecraft_version)).unwrap();
    assert_eq!(by_name.minecraft_version, "1.19.4");
}

#[test]
fn newest_snapshot_does_not_hide_an_older_release() {
    let raw = vec![
        entry("24w01a", "1.30", 1073742000, Some(5000), "snapshot"),
        entry("1.30.1", "1.30", 900, Some(4900), "release"),
        entry("1.30", "1.30", 899, Some(4800), "release"),
    ];
    let r = EditionVersions { pc: Ok(load_and_index_versions(Edition::Pc, raw)), bedrock: Err(String::new()) };
    assert_eq!(resolve_version(&r, "1.30").unwrap().minecraft_version, "1.30.1");
    assert_eq!(resolve_version(&r, "24w01a").unwrap().minecraft_version, "24w01a");
}
