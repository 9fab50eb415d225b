use homeserver_core::version::{
    git_remote_commit_url, name, user_agent, user_agent_media, version, version_tag, version_ua,
    BuildInfo,
};

fn info(extra: Option<&str>, hash: Option<&str>) -> BuildInfo {
    BuildInfo {
        semantic: "0.5.0".to_string(),
        version_extra: extra.map(str::to_string),
        git_commit_hash_short: hash.map(str::to_string),
        git_remote_commit_url: None,
    }
}

#[test]
fn version_strings() {
    assert_eq!(name(), "continuwuity");
    let plain = info(None, None);
    assert_eq!(version_tag(&plain), None);
    assert_eq!(version(&plain), "0.5.0");
    assert_eq!(version_ua(&plain), "0.5.0");
    let hashed = info(Some(""), Some("abc123"));
    assert_eq!(version_tag(&hashed).as_deref(), Some("abc123"));
    assert_eq!(version(&hashed), "0.5.0 (abc123)");
    assert_eq!(version_ua(&hashed), "0.5.0+abc123");
    let extra = info(Some("-rc1"), Some("abc123"));
    assert_eq!(version_tag(&extra).as_deref(), Some("-rc1"));
    assert_eq!(version_ua(&extra), "0.5.0-rc1");
    assert_eq!(user_agent(&hashed), "continuwuity/0.5.0+abc123 (bot; +https://continuwuity.org)");
    assert_eq!(
        user_agent_media(&plain),
        "continuwuity/0.5.0 (embedbot; +https://continuwuity.org)"
    );
}

#[test]
fn commit_url_defaults_to_website() {
    let mut i = info(None, None);
    assert_eq!(git_remote_commit_url(&i), "https://continuwuity.org");
    i.git_remote_commit_url = Some("https://example.org/commit/1".to_string());
    assert_eq!(git_remote_commit_url(&i), "https://example.org/commit/1");
}
