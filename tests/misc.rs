use homeserver_core::fallback::{
    generate_error_html, generate_recaptcha_html, generate_success_html, FallbackQuery,
    RecaptchaForm,
};
use homeserver_core::random::{random_secs, secs, shuffle, string};
use homeserver_core::room_version::{RoomVersion, RoomVersionId};
use homeserver_core::stats::FederationStats;

#[test]
fn random_strings_are_alphanumeric() {
    let s = string(32);
    assert_eq!(s.chars().count(), 32);
    assert!(s.chars().all(|c| c.is_ascii_alphanumeric()));
    assert_eq!(string(0), "");
}

#[test]
fn random_durations_stay_in_range() {
    for _ in 0..20 {
        let n = random_secs(5..8);
        assert!((5..8).contains(&n));
        let d = secs(3..4);
        assert_eq!(d.as_secs(), 3);
    }
}

#[test]
fn shuffle_keeps_items() {
    let mut v = vec![5, 1, 4, 2, 3];
    shuffle(&mut v);
    v.sort();
    assert_eq!(v, vec![1, 2, 3, 4, 5]);
}

#[test]
fn federation_stats_reset() {
    let mut stats = FederationStats::default();
    assert!(!stats.report_and_reset());
    stats.outgoing_presence = 3;
    assert!(!stats.report_and_reset());
    assert_eq!(stats.outgoing_presence, 0);
    stats.outgoing_pdus = 2;
    stats.outgoing_errors = 1;
    assert!(stats.report_and_reset());
    assert_eq!(stats.outgoing_pdus, 0);
    assert_eq!(stats.outgoing_errors, 0);
}

#[test]
fn fallback_pages() {
    let q = FallbackQuery { session: "sess1".to_string() };
    let page = generate_recaptcha_html("key42", &q.session);
    assert!(page.starts_with("<!DOCTYPE html>"));
    assert!(page.contains("name=\"session\" value=\"sess1\""));
    assert!(page.contains("data-sitekey=\"key42\""));
    assert!(page.contains("body {"));
    let form = RecaptchaForm { session: "sess2".to_string(), recaptcha_response: "r".to_string() };
    let err = generate_error_html(&form.session, "try again");
    assert!(err.contains("<p class=\"error\">try again</p>"));
    assert!(err.contains("value=\"sess2\""));
    assert!(generate_success_html().contains("</html>"));
}

#[test]
fn room_version_flags() {
    let v1 = RoomVersion::new(RoomVersionId::V1);
    assert!(v1.special_case_aliases_auth && v1.extra_redaction_checks && !v1.allow_knocking);
    let v7 = RoomVersion::new(RoomVersionId::V7);
    assert!(v7.allow_knocking && !v7.restricted_join_rule && v7.limit_notifications_power_levels);
    let v12 = RoomVersion::new(RoomVersionId::V12);
    assert!(v12.room_ids_as_hashes && v12.explicitly_privilege_room_creators);
    assert!(v12.use_room_create_sender && v12.knock_restricted_join_rule);
}
