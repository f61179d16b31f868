use actix_app_api::version::{default_extradata, BuildInfo, CARGO_PKG_VERSION};

fn example_build() -> BuildInfo {
    BuildInfo {
        git_sha: "defa64b2".to_string(),
        build_timestamp: "2023-05-19T01:47:19.815651705Z".to_string(),
        cargo_features: "default".to_string(),
    }
}

#[test]
fn assert_short_version() {
    let short_version = example_build().short_version();
    println!("short version: {}", short_version.as_bytes().len());
    assert!(
        short_version.as_bytes().len() <= 32,
        "SHORT_VERSION must be less than 32 bytes: {short_version}"
    )
}

#[test]
fn assert_long_version() {
    let long_version = example_build().long_version();
    println!("long version: {}", long_version);
    assert!(
        long_version.as_bytes().len() >= 32,
        "LONG_VERSION must be greater than 32 bytes: {long_version}"
    )
}

#[test]
fn assert_extradata_less_32bytes() {
    let extradata = default_extradata();
    println!("extradata: {}", extradata.clone());
    assert!(
        extradata.as_bytes().len() <= 32,
        "extradata must be less than 32 bytes: {extradata}"
    )
}

#[test]
fn short_version_matches_documented_example() {
    assert_eq!(example_build().short_version(), "0.1.0 (defa64b2)");
}

#[test]
fn long_version_matches_documented_example() {
    assert_eq!(
        example_build().long_version(),
        "Version: 0.1.0\nCommit SHA: defa64b2\nBuild Timestamp: 2023-05-19T01:47:19.815651705Z\nBuild Features: default"
    );
}

#[test]
fn long_version_is_long_even_when_build_records_nothing() {
    let info = BuildInfo {
        git_sha: String::new(),
        build_timestamp: String::new(),
        cargo_features: String::new(),
    };
    assert_eq!(info.long_version().len(), 62);
}

#[test]
fn short_version_with_24_byte_sha_fits_exactly() {
    let info = BuildInfo {
        git_sha: "a".repeat(24),
        build_timestamp: String::new(),
        cargo_features: String::new(),
    };
    assert_eq!(info.short_version().len(), 32);
    let longer = BuildInfo {
        git_sha: "a".repeat(25),
        build_timestamp: String::new(),
        cargo_features: String::new(),
    };
    assert_eq!(longer.short_version().len(), 33);
}

#[test]
fn extradata_is_app_slash_version() {
    assert_eq!(default_extradata(), "app/v0.1.0");
    assert_eq!(default_extradata(), format!("app/v{}", CARGO_PKG_VERSION));
}
