use homeserver_core::event::UserId;
use homeserver_core::uiaa::{
    password_stage_user, registration_gate, registration_token_text,
    captcha_verifier, default_auth_backends, flows_done, password_uiaa, registration_uiaa,
    AuthBackend, AuthFlow, AuthType, CaptchaConfig, CaptchaVerifier, RegistrationError, Service,
    StageFailure, StageOutcome, UiaaError, UiaaInfo, EMPTY_DEVICE, SESSION_ID_LENGTH,
};

fn turnstile_only() -> CaptchaConfig {
    CaptchaConfig {
        turnstile_site_key: Some("site".to_string()),
        turnstile_secret_key: Some("secret".to_string()),
        recaptcha_site_key: None,
        recaptcha_private_site_key: None,
    }
}

fn no_captcha() -> CaptchaConfig {
    CaptchaConfig {
        turnstile_site_key: None,
        turnstile_secret_key: None,
        recaptcha_site_key: None,
        recaptcha_private_site_key: None,
    }
}

fn stages(info: &UiaaInfo) -> Vec<Vec<AuthType>> {
    info.flows.iter().map(|f| f.stages.clone()).collect()
}

fn nobody() -> UserId {
    UserId { local: 0, server: 1 }
}

#[test]
fn password_and_captcha_flow() {
    let mut svc = Service::new();
    let info = registration_uiaa(true, &vec![], &turnstile_only(), false, false).unwrap();
    assert_eq!(stages(&info), vec![vec![AuthType::RegistrationToken, AuthType::ReCaptcha]]);
    assert_eq!(info.captcha_public_key.as_deref(), Some("site"));

    // No auth yet: a session is created and the client gets the flows.
    let body = b"{\"username\":\"a\"}".to_vec();
    let first = svc.begin(nobody(), EMPTY_DEVICE, info, &body);
    let token = first.session.clone().unwrap();
    assert_eq!(token.len(), SESSION_ID_LENGTH);
    assert!(token.chars().all(|c| c.is_ascii_alphanumeric()));
    assert_eq!(stages(&first), vec![vec![AuthType::RegistrationToken, AuthType::ReCaptcha]]);
    assert!(first.completed.is_empty());

    // The captcha stage passes: still not done.
    let (done, after_captcha) = svc
        .try_auth(
            nobody(),
            EMPTY_DEVICE,
            Some(&token),
            password_uiaa(),
            StageOutcome::Passed(AuthType::ReCaptcha),
        )
        .unwrap();
    assert!(!done);
    assert_eq!(after_captcha.completed, vec![AuthType::ReCaptcha]);
    assert_eq!(after_captcha.session.as_deref(), Some(token.as_str()));

    // The registration token passes: done, and the session is gone.
    let (done, last) = svc
        .try_auth(
            nobody(),
            EMPTY_DEVICE,
            Some(&token),
            password_uiaa(),
            StageOutcome::Passed(AuthType::RegistrationToken),
        )
        .unwrap();
    assert!(done);
    assert_eq!(last.completed, vec![AuthType::ReCaptcha, AuthType::RegistrationToken]);

    // The request body kept with the session is still there to run once.
    assert_eq!(svc.get_uiaa_request(nobody(), None, &token), Some(body));

    // Submitting again with the same token observes the same response, and
    // the session is known to have ended, so the request does not run again.
    assert!(svc.has_ended(nobody(), EMPTY_DEVICE, &token));
    let (again_done, again) = svc
        .try_auth(
            nobody(),
            EMPTY_DEVICE,
            Some(&token),
            password_uiaa(),
            StageOutcome::Passed(AuthType::RegistrationToken),
        )
        .unwrap();
    assert!(again_done);
    assert_eq!(again.completed, last.completed);
    assert_eq!(again.session, last.session);
}

#[test]
fn failed_stage_reports_error_and_keeps_session() {
    let mut svc = Service::new();
    let user = UserId { local: 4, server: 1 };
    let mut info = password_uiaa();
    info.session = Some("abc".to_string());
    svc.create(user, 7, &info, &vec![1, 2, 3]);
    let token = "abc".to_string();
    let (done, out) = svc
        .try_auth(
            user,
            7,
            Some(&token),
            password_uiaa(),
            StageOutcome::Failed(StageFailure::InvalidPassword),
        )
        .unwrap();
    assert!(!done);
    assert_eq!(out.auth_error, Some(StageFailure::InvalidPassword));
    assert_eq!(StageFailure::InvalidPassword.message(), "Invalid username or password.");
    // The stored session is unchanged, so the password can be tried again.
    let (done, out) = svc
        .try_auth(user, 7, Some(&token), password_uiaa(), StageOutcome::Passed(AuthType::Password))
        .unwrap();
    assert!(done);
    assert_eq!(out.completed, vec![AuthType::Password]);
    assert_eq!(out.auth_error, None);
}

#[test]
fn new_session_gets_a_random_token() {
    let mut svc = Service::new();
    let user = UserId { local: 4, server: 1 };
    let (done, out) = svc
        .try_auth(user, 1, None, registration_uiaa(true, &vec![], &turnstile_only(), false, false).unwrap(), StageOutcome::Passed(AuthType::ReCaptcha))
        .unwrap();
    assert!(!done);
    let token = out.session.clone().unwrap();
    assert_eq!(token.len(), SESSION_ID_LENGTH);
    assert!(token.chars().all(|c| c.is_ascii_alphanumeric()));
    assert!(!svc.has_ended(user, 1, &token));
    // The session was stored under its new token.
    let (done, _) = svc
        .try_auth(
            user,
            1,
            Some(&token),
            password_uiaa(),
            StageOutcome::Passed(AuthType::RegistrationToken),
        )
        .unwrap();
    assert!(done);
}

#[test]
fn fallback_acknowledgement_never_completes() {
    let mut svc = Service::new();
    let mut info = UiaaInfo {
        flows: vec![AuthFlow { stages: vec![AuthType::Dummy] }],
        completed: vec![],
        captcha_public_key: None,
        session: Some("t".to_string()),
        auth_error: None,
    };
    let (done, out) = svc
        .try_auth(nobody(), 1, None, info, StageOutcome::FallbackAcknowledged)
        .unwrap();
    assert!(!done);
    assert!(out.completed.is_empty());
    info = out;
    let (done, _) = svc.try_auth(nobody(), 1, None, info, StageOutcome::Passed(AuthType::Dummy)).unwrap();
    assert!(done);
}

#[test]
fn unknown_session_is_refused() {
    let mut svc = Service::new();
    let r = svc.try_auth(
        nobody(),
        1,
        Some(&"nope".to_string()),
        password_uiaa(),
        StageOutcome::Passed(AuthType::Password),
    );
    assert_eq!(r.err(), Some(UiaaError::SessionMissing));
}

#[test]
fn registration_without_gates() {
    let closed = registration_uiaa(false, &vec![], &no_captcha(), false, false);
    assert_eq!(closed.err(), Some(RegistrationError::RegistrationClosed));
    let open = registration_uiaa(false, &vec![], &no_captcha(), false, true).unwrap();
    assert_eq!(stages(&open), vec![vec![AuthType::Dummy]]);
    let skipped = registration_uiaa(false, &vec![], &no_captcha(), true, false).unwrap();
    assert!(skipped.flows.is_empty());
    let token_only = registration_uiaa(true, &vec![], &no_captcha(), false, false).unwrap();
    assert_eq!(stages(&token_only), vec![vec![AuthType::RegistrationToken]]);
}

#[test]
fn captcha_backend_order() {
    let both = CaptchaConfig {
        turnstile_site_key: Some("t-site".to_string()),
        turnstile_secret_key: Some("t-secret".to_string()),
        recaptcha_site_key: Some("r-site".to_string()),
        recaptcha_private_site_key: Some("r-secret".to_string()),
    };
    assert_eq!(default_auth_backends(), vec![AuthBackend::Recaptcha, AuthBackend::Turnstile]);
    let default_order = registration_uiaa(false, &vec![], &both, false, false).unwrap();
    assert_eq!(default_order.captcha_public_key.as_deref(), Some("r-site"));
    let turnstile_first =
        registration_uiaa(false, &vec![AuthBackend::Turnstile], &both, false, false).unwrap();
    assert_eq!(turnstile_first.captcha_public_key.as_deref(), Some("t-site"));
    assert_eq!(captcha_verifier(&both), Ok(CaptchaVerifier::Turnstile));
    assert_eq!(captcha_verifier(&no_captcha()), Err(UiaaError::CaptchaNotConfigured));
}

#[test]
fn flow_is_done_when_all_its_stages_are() {
    let flows = vec![
        AuthFlow { stages: vec![AuthType::Password, AuthType::Dummy] },
        AuthFlow { stages: vec![AuthType::RegistrationToken] },
    ];
    assert!(!flows_done(&flows, &vec![AuthType::Password]));
    assert!(flows_done(&flows, &vec![AuthType::Dummy, AuthType::Password]));
    assert!(flows_done(&flows, &vec![AuthType::RegistrationToken]));
    assert!(!flows_done(&vec![], &vec![AuthType::Password]));
}

#[test]
fn registration_gate_and_password_user() {
    assert_eq!(registration_gate(false, false, false, false, false), Err(RegistrationError::RegistrationClosed));
    assert_eq!(registration_gate(false, true, false, false, false), Ok(()));
    assert_eq!(registration_gate(false, false, true, false, false), Ok(()));
    assert_eq!(
        registration_gate(true, false, false, true, false),
        Err(RegistrationError::GuestAccessForbidden)
    );
    assert_eq!(registration_gate(true, false, false, true, true), Ok(()));
    let me = UserId { local: 4, server: 1 };
    assert_eq!(password_stage_user(me, 4, 1), Ok(me));
    assert_eq!(password_stage_user(me, 5, 1), Err(UiaaError::UserMismatch));
    assert_eq!(registration_token_text("  tok-1\n"), "tok-1");
}
