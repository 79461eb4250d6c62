use rusiodb::updater::{parse_release_json, Release, ReleaseAsset, Version, ASSET_NAME};

fn current() -> Version {
    Version::new(0, 1, 0)
}

fn release_json(tag: &str, asset_name: &str) -> Release {
    Release {
        tag_name: Some(tag.to_string()),
        body: Some("Notas de la versión".to_string()),
        assets: Some(vec![ReleaseAsset {
            name: Some(asset_name.to_string()),
            browser_download_url: Some("https://example.com/asset.exe".to_string()),
        }]),
    }
}

#[test]
fn newer_remote_version_yields_update_info() {
    let json = release_json("v0.2.0", ASSET_NAME);
    let info = parse_release_json(&json, &current()).unwrap().unwrap();
    assert_eq!(info.version, Version::new(0, 2, 0));
    assert_eq!(info.download_url, "https://example.com/asset.exe");
    assert_eq!(info.notes, "Notas de la versión");
}

#[test]
fn equal_or_older_remote_version_yields_no_update() {
    assert!(parse_release_json(&release_json("v0.1.0", ASSET_NAME), &current()).unwrap().is_none());
    assert!(parse_release_json(&release_json("v0.0.9", ASSET_NAME), &current()).unwrap().is_none());
}

#[test]
fn missing_asset_for_this_platform_is_an_error() {
    let error = parse_release_json(&release_json("v0.2.0", "rusiodb-other-platform.exe"), &current()).unwrap_err();
    assert!(error.contains(ASSET_NAME));
}

#[test]
fn malformed_tag_is_an_error() {
    let json = release_json("no-es-un-semver", ASSET_NAME);
    assert!(parse_release_json(&json, &current()).is_err());
}

#[test]
fn missing_tag_name_is_an_error() {
    let json = Release { tag_name: None, body: None, assets: Some(vec![]) };
    assert!(parse_release_json(&json, &current()).is_err());
}

#[test]
fn error_messages_say_what_is_missing() {
    let no_tag = Release { tag_name: None, body: None, assets: Some(vec![]) };
    assert_eq!(parse_release_json(&no_tag, &current()).unwrap_err(), "respuesta inesperada de GitHub: falta tag_name");
    let no_assets = Release { tag_name: Some("1.0.0".into()), body: None, assets: None };
    assert_eq!(parse_release_json(&no_assets, &current()).unwrap_err(), "respuesta inesperada de GitHub: falta assets");
    let bad = release_json("vx.y", ASSET_NAME);
    assert!(parse_release_json(&bad, &current()).unwrap_err().starts_with("versión remota inválida (vx.y): "));
}

#[test]
fn leading_vs_are_dropped_and_notes_default_to_empty() {
    let mut json = release_json("vv1.2.3-beta.1", ASSET_NAME);
    json.body = None;
    let info = parse_release_json(&json, &current()).unwrap().unwrap();
    assert_eq!(info.version.to_text(), "1.2.3-beta.1");
    assert_eq!(info.notes, "");
}

#[test]
fn versions_compare_like_semver() {
    let pre = Version::parse("0.2.0-alpha").unwrap();
    assert!(pre.at_most(&Version::new(0, 2, 0)));
    assert!(!Version::new(0, 2, 0).at_most(&pre));
    assert!(Version::new(0, 1, 0).at_most(&Version::new(0, 1, 0)));
    assert!(Version::parse("1.2").is_err());
    assert_eq!(Version::parse("1.2.3+build.5").unwrap().to_text(), "1.2.3+build.5");
}

#[test]
fn an_equal_version_is_no_update() {
    let same = release_json("v0.1.0", ASSET_NAME);
    assert_eq!(parse_release_json(&same, &current()), Ok(None));
    let with_build = Version::parse("0.1.0+abc").unwrap();
    assert!(with_build.at_most(&Version::parse("0.1.0+abc").unwrap()));
}
