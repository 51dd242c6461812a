use mcdata_rs::archive::{mode_to_apply, plan_entry, EntryAction};
use mcdata_rs::data_source::{plan_data_root, verify_extraction, RootStep};
use mcdata_rs::error::McDataError;
use mcdata_rs::paths::{data_dir, get_data_paths, get_path_suffix, pick_data_file, DirEntryInfo, DirListing};
use mcdata_rs::strmap::StrMap;
use mcdata_rs::structs::DataPaths;
use mcdata_rs::version::Edition;

fn paths() -> DataPaths {
    let mut keys = StrMap::new();
    keys.insert("blocks".to_string(), "pc/1.18".to_string());
    keys.insert("items".to_string(), "pc/1.17".to_string());
    let mut pc = StrMap::new();
    pc.insert("1.18".to_string(), keys);
    DataPaths { pc, bedrock: StrMap::new() }
}

#[test]
fn path_suffixes() {
    let p = paths();
    assert_eq!(get_path_suffix(&p, Edition::Pc, "1.18", "blocks").unwrap(), "pc/1.18");
    assert_eq!(get_path_suffix(&p, Edition::Pc, "1.18", "items").unwrap(), "pc/1.17");
    match get_path_suffix(&p, Edition::Pc, "1.18", "tints") {
        Err(McDataError::DataPathNotFound { mc_version, edition, data_key }) => {
            assert_eq!((mc_version.as_str(), edition, data_key.as_str()), ("1.18", Edition::Pc, "tints"));
        }
        other => panic!("unexpected {:?}", other),
    }
    assert!(get_path_suffix(&p, Edition::Bedrock, "1.18", "blocks").is_err());
    let memo: Result<DataPaths, String> = Err("no file".to_string());
    assert!(matches!(get_data_paths(&memo), Err(McDataError::CachedError(m)) if m == "no file"));
    let ok: Result<DataPaths, String> = Ok(paths());
    assert!(get_data_paths(&ok).is_ok());
    assert_eq!(data_dir("/cache/data", "pc/1.18"), "/cache/data/pc/1.18");
}

fn e(path: &str, stem: Option<&str>, is_file: bool) -> DirEntryInfo {
    DirEntryInfo { path: path.to_string(), stem: stem.map(|s| s.to_string()), is_file }
}

#[test]
fn data_file_choice() {
    let listing = DirListing::Entries(vec![
        e("d/blocks", Some("blocks"), false),
        e("d/items.json", Some("items"), true),
        e("d/blocks.json", Some("blocks"), true),
        e("d/blocks.txt", Some("blocks"), true),
    ]);
    assert_eq!(pick_data_file("d", &listing, "blocks").unwrap(), "d/blocks.json");
    match pick_data_file("d", &listing, "tints") {
        Err(McDataError::DataFileNotFound { data_key, path }) => {
            assert_eq!(data_key, "tints");
            assert_eq!(path, "d/tints.*");
        }
        other => panic!("unexpected {:?}", other),
    }
    match pick_data_file("d", &DirListing::Missing, "blocks") {
        Err(McDataError::DataFileNotFound { path, .. }) => assert_eq!(path, "d"),
        other => panic!("unexpected {:?}", other),
    }
    match pick_data_file("d", &DirListing::Failed("denied".to_string()), "blocks") {
        Err(McDataError::IoError { path, message }) => assert_eq!((path.as_str(), message.as_str()), ("d", "denied")),
        other => panic!("unexpected {:?}", other),
    }
}

#[test]
fn archive_entries() {
    let p = "minecraft-data-master/data/pc/1.18/blocks.json";
    assert_eq!(plan_entry(p, Some(p)), EntryAction::WriteFile("pc/1.18/blocks.json".to_string()));
    assert_eq!(
        plan_entry("minecraft-data-master/data/pc/", Some("minecraft-data-master/data/pc")),
        EntryAction::CreateDir("pc".to_string())
    );
    assert_eq!(plan_entry("minecraft-data-master/README.md", Some("minecraft-data-master/README.md")), EntryAction::Skip);
    assert_eq!(plan_entry("../../etc/passwd", None), EntryAction::Skip);
    assert_eq!(plan_entry("minecraft-data-master/data/", Some("minecraft-data-master/data")), EntryAction::Skip);
    assert_eq!(mode_to_apply(Some(0o644)), Some(0o644));
    assert_eq!(mode_to_apply(Some(0)), None);
    assert_eq!(mode_to_apply(None), None);
}

#[test]
fn data_root_fetches_at_most_once() {
    let target = "/cache/mcdata-rs/minecraft-data/data".to_string();
    let mut memo: Option<String> = None;
    let mut fetches = 0;
    for present in [false, false, true, false] {
        match plan_data_root(&memo, present, &target) {
            RootStep::Use(p) => memo = Some(p),
            RootStep::Fetch => {
                fetches += 1;
                memo = Some(verify_extraction(true, target.clone()).unwrap());
            }
        }
    }
    assert_eq!(fetches, 1);
    assert_eq!(plan_data_root(&None, true, &target), RootStep::Use(target.clone()));
    assert!(matches!(verify_extraction(false, target.clone()), Err(McDataError::DownloadVerificationFailed(p)) if p == target));
}
