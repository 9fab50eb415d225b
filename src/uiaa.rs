//! User-interactive authentication: the stages a client must complete before
//! a sensitive request runs, and the sessions that track its progress.
use vstd::prelude::*;

use crate::event::UserId;
use crate::random;
use crate::session_store::SessionStore;

verus! {

/// The length of a session token.
pub const SESSION_ID_LENGTH: usize = 32;

/// The device id `""`, used where a request has no device.
pub const EMPTY_DEVICE: u64 = 0;

/// A stage of authentication.
#[derive(Clone, Copy, Debug, PartialEq, Eq, Structural)]
pub enum AuthType {
    Password,
    ReCaptcha,
    RegistrationToken,
    Dummy,
}

/// A captcha service that can stand behind the captcha stage.
#[derive(Clone, Copy, Debug, PartialEq, Eq, Structural)]
pub enum AuthBackend {
    Turnstile,
    Recaptcha,
}

/// The captcha services tried, in order, where the configuration names none.
pub fn default_auth_backends() -> (r: Vec<AuthBackend>)
    ensures
        r@ == seq![AuthBackend::Recaptcha, AuthBackend::Turnstile],
{
    let mut v: Vec<AuthBackend> = Vec::new();
    v.push(AuthBackend::Recaptcha);
    v.push(AuthBackend::Turnstile);
    v
}

/// A flow: stages that together authenticate the request.
#[derive(Debug)]
pub struct AuthFlow {
    pub stages: Vec<AuthType>,
}

/// Why a stage was refused.
#[derive(Clone, Copy, Debug, PartialEq, Eq, Structural)]
pub enum StageFailure {
    InvalidPassword,
    TurnstileFailed,
    RecaptchaFailed,
    InvalidRegistrationToken,
}

impl StageFailure {
    /// The message shown to the client.
    pub fn message(&self) -> (r: &'static str)
        ensures
            r@ == match self {
                StageFailure::InvalidPassword => "Invalid username or password."@,
                StageFailure::TurnstileFailed => "Turnstile verification failed."@,
                StageFailure::RecaptchaFailed => "ReCaptcha verification failed."@,
                StageFailure::InvalidRegistrationToken => "Invalid registration token."@,
            },
    {
        match self {
            StageFailure::InvalidPassword => "Invalid username or password.",
            StageFailure::TurnstileFailed => "Turnstile verification failed.",
            StageFailure::RecaptchaFailed => "ReCaptcha verification failed.",
            StageFailure::InvalidRegistrationToken => "Invalid registration token.",
        }
    }
}

/// The state of an authentication session, as the client sees it.
#[derive(Debug)]
pub struct UiaaInfo {
    /// The flows, any one of which authenticates the request.
    pub flows: Vec<AuthFlow>,
    /// The stages completed so far, in order.
    pub completed: Vec<AuthType>,
    /// The public key of the captcha service, where a flow has a captcha stage.
    pub captcha_public_key: Option<String>,
    /// The session token.
    pub session: Option<String>,
    /// Why the last stage was refused.
    pub auth_error: Option<StageFailure>,
}

/// The stages of each flow.
pub open spec fn flows_view(flows: Seq<AuthFlow>) -> Seq<Seq<AuthType>> {
    Seq::new(flows.len(), |i: int| flows[i].stages@)
}

/// Each stage of `stages` is among `completed`.
pub open spec fn all_stages_done(stages: Seq<AuthType>, completed: Seq<AuthType>) -> bool {
    forall|j: int| 0 <= j < stages.len() ==> completed.contains(#[trigger] stages[j])
}

/// Some flow has each of its stages among `completed`.
pub open spec fn some_flow_done(flows: Seq<Seq<AuthType>>, completed: Seq<AuthType>) -> bool {
    exists|i: int| 0 <= i < flows.len() && all_stages_done(#[trigger] flows[i], completed)
}

fn stages_done(stages: &Vec<AuthType>, completed: &Vec<AuthType>) -> (r: bool)
    ensures
        r == all_stages_done(stages@, completed@),
{
    let mut j: usize = 0;
    while j < stages.len()
        invariant
            j <= stages@.len(),
            forall|k: int| 0 <= k < j ==> completed@.contains(#[trigger] stages@[k]),
        decreases stages@.len() - j,
    {
        let mut found = false;
        let mut k: usize = 0;
        while k < completed.len()
            invariant
                k <= completed@.len(),
                j < stages@.len(),
                found == exists|m: int| 0 <= m < k && completed@[m] == stages@[j as int],
            decreases completed@.len() - k,
        {
            if completed[k] == stages[j] {
                found = true;
            }
            k = k + 1;
        }
        if !found {
            assert(!completed@.contains(stages@[j as int]));
            return false;
        }
        j = j + 1;
    }
    true
}

/// Whether some flow of `flows` has all its stages among `completed`.
pub fn flows_done(flows: &Vec<AuthFlow>, completed: &Vec<AuthType>) -> (r: bool)
    ensures
        r == some_flow_done(flows_view(flows@), completed@),
{
    let ghost fv = flows_view(flows@);
    let mut i: usize = 0;
    while i < flows.len()
        invariant
            i <= flows@.len(),
            fv == flows_view(flows@),
            fv.len() == flows@.len(),
            forall|m: int| 0 <= m < i ==> !all_stages_done(#[trigger] fv[m], completed@),
        decreases flows@.len() - i,
    {
        assert(fv[i as int] == flows@[i as int].stages@);
        if stages_done(&flows[i].stages, completed) {
            return true;
        }
        i = i + 1;
    }
    false
}

/// The captcha keys of the server configuration.
#[derive(Debug)]
pub struct CaptchaConfig {
    pub turnstile_site_key: Option<String>,
    pub turnstile_secret_key: Option<String>,
    pub recaptcha_site_key: Option<String>,
    pub recaptcha_private_site_key: Option<String>,
}

/// The public key of the first backend of `backends` whose public and
/// private keys are both configured.
pub open spec fn first_captcha(backends: Seq<AuthBackend>, cfg: CaptchaConfig) -> Option<String>
    decreases backends.len(),
{
    if backends.len() == 0 {
        None
    } else {
        match backends[0] {
            AuthBackend::Turnstile => if cfg.turnstile_site_key.is_some()
                && cfg.turnstile_secret_key.is_some() {
                cfg.turnstile_site_key
            } else {
                first_captcha(backends.drop_first(), cfg)
            },
            AuthBackend::Recaptcha => if cfg.recaptcha_site_key.is_some()
                && cfg.recaptcha_private_site_key.is_some() {
                cfg.recaptcha_site_key
            } else {
                first_captcha(backends.drop_first(), cfg)
            },
        }
    }
}

fn copy_opt_string(s: &Option<String>) -> (r: Option<String>)
    ensures
        r == *s,
{
    match s {
        Some(x) => Some(x.clone()),
        None => None,
    }
}

/// The public key of the first configured captcha service among `backends`.
pub fn pick_captcha(backends: &Vec<AuthBackend>, cfg: &CaptchaConfig) -> (r: Option<String>)
    ensures
        r == first_captcha(backends@, *cfg),
{
    let mut i: usize = 0;
    assert(backends@.subrange(0, backends@.len() as int) == backends@);
    while i < backends.len()
        invariant
            i <= backends@.len(),
            first_captcha(backends@, *cfg) == first_captcha(
                backends@.subrange(i as int, backends@.len() as int),
                *cfg,
            ),
        decreases backends@.len() - i,
    {
        let ghost rest = backends@.subrange(i as int, backends@.len() as int);
        assert(rest.drop_first() == backends@.subrange(i + 1, backends@.len() as int));
        match backends[i] {
            AuthBackend::Turnstile => {
                if cfg.turnstile_site_key.is_some() && cfg.turnstile_secret_key.is_some() {
                    return copy_opt_string(&cfg.turnstile_site_key);
                }
            },
            AuthBackend::Recaptcha => {
                if cfg.recaptcha_site_key.is_some() && cfg.recaptcha_private_site_key.is_some() {
                    return copy_opt_string(&cfg.recaptcha_site_key);
                }
            },
        }
        i = i + 1;
    }
    None
}

/// Why a registration cannot start.
#[derive(Clone, Copy, Debug, PartialEq, Eq, Structural)]
pub enum RegistrationError {
    /// Registration is disabled, or no stage gates it and open registration
    /// is not enabled.
    RegistrationClosed,
    /// Guest registration is disabled.
    GuestAccessForbidden,
}

/// Whether a registration may go on: registration must be enabled (or this
/// be the first run) unless an appservice registers, and a guest needs guest
/// registration enabled.
pub fn registration_gate(
    allow_registration: bool,
    first_run: bool,
    is_appservice: bool,
    is_guest: bool,
    allow_guest_registration: bool,
) -> (r: Result<(), RegistrationError>)
    ensures
        r == (if !(allow_registration || first_run) && !is_appservice {
            Err(RegistrationError::RegistrationClosed)
        } else if is_guest && !allow_guest_registration {
            Err(RegistrationError::GuestAccessForbidden)
        } else {
            Ok(())
        }),
{
    if !(allow_registration || first_run) && !is_appservice {
        Err(RegistrationError::RegistrationClosed)
    } else if is_guest && !allow_guest_registration {
        Err(RegistrationError::GuestAccessForbidden)
    } else {
        Ok(())
    }
}

/// The registration token as it is looked up: the submitted text, trimmed.
pub fn registration_token_text<'a>(submitted: &'a str) -> (r: &'a str)
    ensures
        r@ == crate::git::trim_of(submitted@),
{
    crate::git::trimmed(submitted)
}

/// The stages that gate registration: a registration token where a token
/// policy is active, then a captcha where one is configured.
pub open spec fn registration_stages(token_required: bool, captcha: Option<String>) -> Seq<
    AuthType,
> {
    (if token_required {
        seq![AuthType::RegistrationToken]
    } else {
        seq![]
    }) + (if captcha.is_some() {
        seq![AuthType::ReCaptcha]
    } else {
        seq![]
    })
}

/// The authentication that a registration asks for. `token_required` holds on
/// first run or when registration tokens exist; `backends` is the configured
/// captcha order (empty for the default one); `skip_auth` holds for
/// appservices and guests.
///
/// Where some stage gates registration, the one flow is those stages; else,
/// unless `skip_auth`, registration is refused unless `open_registration`, and
/// then the one flow is a dummy stage.
pub fn registration_uiaa(
    token_required: bool,
    backends: &Vec<AuthBackend>,
    cfg: &CaptchaConfig,
    skip_auth: bool,
    open_registration: bool,
) -> (r: Result<UiaaInfo, RegistrationError>)
    ensures
        ({
            let order = if backends@.len() == 0 {
                seq![AuthBackend::Recaptcha, AuthBackend::Turnstile]
            } else {
                backends@
            };
            let captcha = first_captcha(order, *cfg);
            let stages = registration_stages(token_required, captcha);
            match r {
                Err(e) => stages.len() == 0 && !skip_auth && !open_registration && e
                    == RegistrationError::RegistrationClosed,
                Ok(info) => {
                    &&& info.completed@.len() == 0
                    &&& info.session.is_none()
                    &&& info.auth_error.is_none()
                    &&& if stages.len() > 0 {
                        flows_view(info.flows@) == seq![stages] && info.captcha_public_key
                            == captcha
                    } else if skip_auth {
                        info.flows@.len() == 0 && info.captcha_public_key.is_none()
                    } else {
                        open_registration && flows_view(info.flows@) == seq![seq![AuthType::Dummy]]
                            && info.captcha_public_key.is_none()
                    }
                },
            }
        }),
{
    let mut stages: Vec<AuthType> = Vec::new();
    if token_required {
        stages.push(AuthType::RegistrationToken);
    }
    let captcha = if backends.len() == 0 {
        pick_captcha(&default_auth_backends(), cfg)
    } else {
        pick_captcha(backends, cfg)
    };
    if captcha.is_some() {
        stages.push(AuthType::ReCaptcha);
    }
    assert(stages@ == registration_stages(token_required, captcha));
    let mut flows: Vec<AuthFlow> = Vec::new();
    if stages.len() > 0 {
        flows.push(AuthFlow { stages });
        assert(flows_view(flows@) =~= seq![registration_stages(token_required, captcha)]);
        return Ok(
            UiaaInfo {
                flows,
                completed: Vec::new(),
                captcha_public_key: captcha,
                session: None,
                auth_error: None,
            },
        );
    }
    if !skip_auth {
        if !open_registration {
            return Err(RegistrationError::RegistrationClosed);
        }
        let mut dummy: Vec<AuthType> = Vec::new();
        dummy.push(AuthType::Dummy);
        flows.push(AuthFlow { stages: dummy });
        assert(flows_view(flows@) =~= seq![seq![AuthType::Dummy]]);
    }
    Ok(
        UiaaInfo {
            flows,
            completed: Vec::new(),
            captcha_public_key: None,
            session: None,
            auth_error: None,
        },
    )
}

/// The authentication that asks for the account password alone (password
/// change, deactivation, replacing cross-signing keys).
pub fn password_uiaa() -> (r: UiaaInfo)
    ensures
        flows_view(r.flows@) == seq![seq![AuthType::Password]],
        r.completed@.len() == 0,
        r.session.is_none(),
        r.auth_error.is_none(),
        r.captcha_public_key.is_none(),
{
    let mut stages: Vec<AuthType> = Vec::new();
    stages.push(AuthType::Password);
    let mut flows: Vec<AuthFlow> = Vec::new();
    flows.push(AuthFlow { stages });
    assert(flows_view(flows@) =~= seq![seq![AuthType::Password]]);
    UiaaInfo {
        flows,
        completed: Vec::new(),
        captcha_public_key: None,
        session: None,
        auth_error: None,
    }
}

/// Which captcha service checks a submitted captcha response.
#[derive(Clone, Copy, Debug, PartialEq, Eq, Structural)]
pub enum CaptchaVerifier {
    Turnstile,
    Recaptcha,
}

/// Why an authentication attempt could not be judged.
#[derive(Clone, Copy, Debug, PartialEq, Eq, Structural)]
pub enum UiaaError {
    /// The session token names no session of this user and device.
    SessionMissing,
    /// A captcha response came in but no captcha service has a secret.
    CaptchaNotConfigured,
    /// The user named in a password stage is not the user authenticating.
    UserMismatch,
}

/// The user whose password a password stage checks: the localpart the
/// client named, on this server, which must be the localpart of the user
/// who authenticates.
pub fn password_stage_user(authenticating: UserId, named_localpart: u64, our_server: u64) -> (r:
    Result<UserId, UiaaError>)
    ensures
        r == (if named_localpart != authenticating.local {
            Err(UiaaError::UserMismatch)
        } else {
            Ok(UserId { local: named_localpart, server: our_server })
        }),
{
    if named_localpart != authenticating.local {
        Err(UiaaError::UserMismatch)
    } else {
        Ok(UserId { local: named_localpart, server: our_server })
    }
}

/// The service that checks a captcha response: Turnstile where its secret is
/// configured, else reCAPTCHA where its secret is configured.
pub fn captcha_verifier(cfg: &CaptchaConfig) -> (r: Result<CaptchaVerifier, UiaaError>)
    ensures
        r == (if cfg.turnstile_secret_key.is_some() {
            Ok(CaptchaVerifier::Turnstile)
        } else if cfg.recaptcha_private_site_key.is_some() {
            Ok(CaptchaVerifier::Recaptcha)
        } else {
            Err(UiaaError::CaptchaNotConfigured)
        }),
{
    if cfg.turnstile_secret_key.is_some() {
        Ok(CaptchaVerifier::Turnstile)
    } else if cfg.recaptcha_private_site_key.is_some() {
        Ok(CaptchaVerifier::Recaptcha)
    } else {
        Err(UiaaError::CaptchaNotConfigured)
    }
}

/// What a client sees of a session: the stages of each flow, the completed
/// stages, the captcha public key, the session token and the last refusal.
pub type UiaaView = (
    Seq<Seq<AuthType>>,
    Seq<AuthType>,
    Option<String>,
    Option<Seq<char>>,
    Option<StageFailure>,
);

/// The session token as characters.
pub open spec fn token_view(s: Option<String>) -> Option<Seq<char>> {
    match s {
        Some(t) => Some(t@),
        None => None,
    }
}

impl View for UiaaInfo {
    type V = UiaaView;

    open spec fn view(&self) -> UiaaView {
        (
            flows_view(self.flows@),
            self.completed@,
            self.captcha_public_key,
            token_view(self.session),
            self.auth_error,
        )
    }
}

fn copy_stages(v: &Vec<AuthType>) -> (r: Vec<AuthType>)
    ensures
        r@ == v@,
{
    let mut out: Vec<AuthType> = Vec::new();
    let mut i: usize = 0;
    while i < v.len()
        invariant
            i <= v@.len(),
            out@ == v@.subrange(0, i as int),
        decreases v@.len() - i,
    {
        out.push(v[i]);
        assert(v@.subrange(0, i + 1) == v@.subrange(0, i as int).push(v@[i as int]));
        i = i + 1;
    }
    assert(v@.subrange(0, v@.len() as int) == v@);
    out
}

/// A copy of `info` with the same view.
pub fn copy_info(info: &UiaaInfo) -> (r: UiaaInfo)
    ensures
        r@ == info@,
{
    let mut flows: Vec<AuthFlow> = Vec::new();
    let mut i: usize = 0;
    while i < info.flows.len()
        invariant
            i <= info.flows@.len(),
            flows@.len() == i,
            flows_view(flows@) == flows_view(info.flows@).subrange(0, i as int),
        decreases info.flows@.len() - i,
    {
        let stages = copy_stages(&info.flows[i].stages);
        let ghost before = flows@;
        flows.push(AuthFlow { stages });
        assert forall|j: int| 0 <= j < i + 1 implies #[trigger] flows_view(flows@)[j]
            == flows_view(info.flows@)[j] by {
            if j < i {
                assert(flows@[j] == before[j]);
                assert(flows_view(before)[j] == flows_view(info.flows@).subrange(0, i as int)[j]);
            }
        }
        assert(flows_view(flows@) =~= flows_view(info.flows@).subrange(0, i + 1));
        i = i + 1;
    }
    assert(flows_view(info.flows@).subrange(0, info.flows@.len() as int) =~= flows_view(
        info.flows@,
    ));
    let session = copy_opt_string(&info.session);
    UiaaInfo {
        flows,
        completed: copy_stages(&info.completed),
        captcha_public_key: copy_opt_string(&info.captcha_public_key),
        session,
        auth_error: info.auth_error,
    }
}

/// What the verifier of the submitted stage found. The verifiers (password
/// hash, captcha service, registration tokens) run outside this library.
#[derive(Clone, Copy, Debug, PartialEq, Eq, Structural)]
pub enum StageOutcome {
    /// The stage was verified.
    Passed(AuthType),
    /// The stage was refused.
    Failed(StageFailure),
    /// The client asked whether an out-of-band stage completed; it never does.
    FallbackAcknowledged,
    /// The submitted stage is of a kind this server does not verify.
    Unsupported,
}

/// The completed stages after `outcome`.
pub open spec fn completed_after(completed: Seq<AuthType>, outcome: StageOutcome) -> Seq<AuthType> {
    match outcome {
        StageOutcome::Passed(t) => completed.push(t),
        _ => completed,
    }
}

/// A session token: the given number of ASCII letters and digits.
pub open spec fn token_like(t: Seq<char>, len: nat) -> bool {
    t.len() == len && forall|i: int| 0 <= i < t.len() ==> random::is_alphanumeric(#[trigger] t[i])
}

/// The sessions in progress, the sessions that ended with their final state,
/// and the requests they guard.
pub struct Service {
    sessions: SessionStore<UiaaInfo>,
    finished: SessionStore<UiaaInfo>,
    requests: SessionStore<Vec<u8>>,
}

impl Service {
    /// The stores keep each key once, and each session in progress or ended
    /// carries the token it is stored under.
    pub closed spec fn wf(&self) -> bool {
        &&& self.sessions.wf()
        &&& self.finished.wf()
        &&& self.requests.wf()
        &&& forall|u: UserId, d: u64, t: Seq<char>| #[trigger] self.session(u, d, t) is Some
            ==> self.session(u, d, t).unwrap().3 == Some(t)
        &&& forall|u: UserId, d: u64, t: Seq<char>| #[trigger] self.ended(u, d, t) is Some
            ==> self.ended(u, d, t).unwrap().3 == Some(t)
    }

    /// The session of `(user, device, token)`, if one is in progress.
    pub closed spec fn session(&self, user: UserId, device: u64, token: Seq<char>) -> Option<
        UiaaView,
    > {
        match self.sessions.get(user, device, token) {
            Some(i) => Some(i@),
            None => None,
        }
    }

    /// The final state of the session of `(user, device, token)`, if it ended
    /// in success.
    pub closed spec fn ended(&self, user: UserId, device: u64, token: Seq<char>) -> Option<
        UiaaView,
    > {
        match self.finished.get(user, device, token) {
            Some(i) => Some(i@),
            None => None,
        }
    }

    /// The request body kept for `(user, device, token)`.
    pub closed spec fn request(&self, user: UserId, device: u64, token: Seq<char>) -> Option<
        Seq<u8>,
    > {
        match self.requests.get(user, device, token) {
            Some(b) => Some(b@),
            None => None,
        }
    }

    /// No session and no request.
    pub fn new() -> (r: Service)
        ensures
            r.wf(),
            forall|u: UserId, d: u64, t: Seq<char>| #[trigger] r.session(u, d, t).is_none(),
            forall|u: UserId, d: u64, t: Seq<char>| #[trigger] r.ended(u, d, t).is_none(),
            forall|u: UserId, d: u64, t: Seq<char>| #[trigger] r.request(u, d, t).is_none(),
    {
        let r = Service {
            sessions: SessionStore::new(),
            finished: SessionStore::new(),
            requests: SessionStore::new(),
        };
        assert forall|u: UserId, d: u64, t: Seq<char>| #[trigger] r.session(u, d, t).is_none() by {
            assert(r.sessions.get(u, d, t).is_none());
        }
        assert forall|u: UserId, d: u64, t: Seq<char>| #[trigger] r.ended(u, d, t).is_none() by {
            assert(r.finished.get(u, d, t).is_none());
        }
        assert forall|u: UserId, d: u64, t: Seq<char>| #[trigger] r.request(u, d, t).is_none() by {
            assert(r.requests.get(u, d, t).is_none());
        }
        assert forall|u: UserId, d: u64, t: Seq<char>| #[trigger] r.session(u, d, t) is Some
            implies r.session(u, d, t).unwrap().3 == Some(t) by {
            assert(r.sessions.get(u, d, t).is_none());
        }
        assert forall|u: UserId, d: u64, t: Seq<char>| #[trigger] r.ended(u, d, t) is Some
            implies r.ended(u, d, t).unwrap().3 == Some(t) by {
            assert(r.finished.get(u, d, t).is_none());
        }
        r
    }

    /// Starts a session: keeps the request body and the session state under
    /// the session token of `uiaainfo`.
    pub fn create(&mut self, user: UserId, device: u64, uiaainfo: &UiaaInfo, json_body: &Vec<u8>)
        requires
            old(self).wf(),
            uiaainfo.session.is_some(),
        ensures
            final(self).wf(),
            final(self).session(user, device, uiaainfo.session.unwrap()@) == Some(uiaainfo@),
            final(self).request(user, device, uiaainfo.session.unwrap()@) == Some(json_body@),
            forall|u: UserId, d: u64, t: Seq<char>|
                (u, d, t) != (user, device, uiaainfo.session.unwrap()@) ==> #[trigger] final(self).session(u, d, t) == old(self).session(u, d, t),
            forall|u: UserId, d: u64, t: Seq<char>|
                (u, d, t) != (user, device, uiaainfo.session.unwrap()@) ==> #[trigger] final(self).request(u, d, t) == old(self).request(u, d, t),
            forall|u: UserId, d: u64, t: Seq<char>| #[trigger] final(self).ended(u, d, t) == old(self).ended(u, d, t),
    {
        let token = match &uiaainfo.session {
            Some(t) => t,
            None => {
                return;
            },
        };
        let ghost k = token@;
        let body = copy_bytes(json_body);
        self.requests.put(user, device, token.clone(), body);
        let stored = copy_info(uiaainfo);
        self.sessions.put(user, device, token.clone(), stored);
        assert forall|u: UserId, d: u64, t: Seq<char>| (u, d, t) != (user, device, k) implies #[trigger] self.session(
            u,
            d,
            t,
        ) == old(self).session(u, d, t) by {
            assert(self.sessions.get(u, d, t) == old(self).sessions.get(u, d, t));
        }
        assert forall|u: UserId, d: u64, t: Seq<char>| (u, d, t) != (user, device, k) implies #[trigger] self.request(
            u,
            d,
            t,
        ) == old(self).request(u, d, t) by {
            assert(self.requests.get(u, d, t) == old(self).requests.get(u, d, t));
        }
        assert forall|u: UserId, d: u64, t: Seq<char>| #[trigger] self.session(u, d, t) is Some
            implies self.session(u, d, t).unwrap().3 == Some(t) by {
            if (u, d, t) != (user, device, k) {
                assert(self.session(u, d, t) == old(self).session(u, d, t));
            }
        }
        assert forall|u: UserId, d: u64, t: Seq<char>| #[trigger] self.ended(u, d, t) == old(self).ended(u, d, t) by {}
    }

    /// Answers a request that carries no authentication yet: gives `uiaainfo`
    /// a fresh session token of random letters and digits, keeps the session
    /// and the request body under it, and returns the session for the client.
    pub fn begin(&mut self, user: UserId, device: u64, uiaainfo: UiaaInfo, json_body: &Vec<u8>) -> (r:
        UiaaInfo)
        requires
            old(self).wf(),
        ensures
            final(self).wf(),
            r.session.is_some(),
            token_like(r@.3.unwrap(), SESSION_ID_LENGTH as nat),
            r@.0 == uiaainfo@.0,
            r@.1 == uiaainfo@.1,
            r@.2 == uiaainfo@.2,
            r@.4 == uiaainfo@.4,
            final(self).session(user, device, r@.3.unwrap()) == Some(r@),
            final(self).request(user, device, r@.3.unwrap()) == Some(json_body@),
            forall|u: UserId, d: u64, t: Seq<char>|
                (u, d, t) != (user, device, r@.3.unwrap()) ==> #[trigger] final(self).session(u, d, t)
                    == old(self).session(u, d, t),
            forall|u: UserId, d: u64, t: Seq<char>|
                (u, d, t) != (user, device, r@.3.unwrap()) ==> #[trigger] final(self).request(u, d, t)
                    == old(self).request(u, d, t),
            forall|u: UserId, d: u64, t: Seq<char>| #[trigger] final(self).ended(u, d, t) == old(self).ended(u, d, t),
    {
        let mut info = uiaainfo;
        info.session = Some(random::string(SESSION_ID_LENGTH));
        self.create(user, device, &info, json_body);
        info
    }

    /// The request body kept for the session, for the device `""` where none
    /// is given.
    pub fn get_uiaa_request(&self, user: UserId, device: Option<u64>, session: &String) -> (r:
        Option<Vec<u8>>)
        requires
            self.wf(),
        ensures
            match r {
                Some(b) => self.request(user, device.unwrap_or(EMPTY_DEVICE), session@) == Some(
                    b@,
                ),
                None => self.request(user, device.unwrap_or(EMPTY_DEVICE), session@).is_none(),
            },
    {
        let d = match device {
            Some(d) => d,
            None => EMPTY_DEVICE,
        };
        match self.requests.lookup(user, d, session) {
            Some(b) => Some(copy_bytes(b)),
            None => None,
        }
    }

    /// Whether the session of `(user, device, token)` has ended in success:
    /// a submission naming it is answered with its final state, and the
    /// request it guarded is not run again.
    pub fn has_ended(&self, user: UserId, device: u64, token: &String) -> (r: bool)
        requires
            self.wf(),
        ensures
            r == self.ended(user, device, token@).is_some(),
    {
        self.finished.lookup(user, device, token).is_some()
    }

    /// A submission naming `token` is refused: no session of the user and
    /// device has that token, in progress or ended.
    pub open spec fn refuses(&self, user: UserId, device: u64, token: Option<Seq<char>>) -> bool {
        token.is_some() && self.session(user, device, token.unwrap()).is_none() && self.ended(
            user,
            device,
            token.unwrap(),
        ).is_none()
    }

    /// A submission naming `token` repeats one that ended the session.
    pub open spec fn replays(&self, user: UserId, device: u64, token: Option<Seq<char>>) -> bool {
        token.is_some() && self.session(user, device, token.unwrap()).is_none() && self.ended(
            user,
            device,
            token.unwrap(),
        ).is_some()
    }

    /// Handles one submitted stage, whose verifier found `outcome`.
    ///
    /// The session is the one that `auth_session` names, else `uiaainfo`; a
    /// session without a token gets a fresh one. A passed stage is appended
    /// to `completed`; a refused one is reported in `auth_error`, and the
    /// stored session stays as it was. When some flow has all its stages
    /// completed the session ends (`true`) and its final state is kept;
    /// otherwise it is stored (`false`). A submission naming a session that
    /// already ended gets that final state again and changes nothing.
    pub fn try_auth(
        &mut self,
        user: UserId,
        device: u64,
        auth_session: Option<&String>,
        uiaainfo: UiaaInfo,
        outcome: StageOutcome,
    ) -> (r: Result<(bool, UiaaInfo), UiaaError>)
        requires
            old(self).wf(),
        ensures
            final(self).wf(),
            forall|u: UserId, d: u64, t: Seq<char>| #[trigger] final(self).request(u, d, t) == old(self).request(u, d, t),
            ({
                let token = match auth_session {
                    Some(s) => Some(s@),
                    None => None,
                };
                let base = match token {
                    Some(t) => old(self).session(user, device, t).unwrap_or(uiaainfo@),
                    None => uiaainfo@,
                };
                if old(self).refuses(user, device, token) {
                    r == Err::<(bool, UiaaInfo), UiaaError>(UiaaError::SessionMissing)
                } else if old(self).replays(user, device, token) {
                    &&& r is Ok
                    &&& r.unwrap().0
                    &&& r.unwrap().1@ == old(self).ended(user, device, token.unwrap()).unwrap()
                    &&& forall|u: UserId, d: u64, t: Seq<char>| #[trigger] final(self).session(u, d, t) == old(self).session(u, d, t)
                    &&& forall|u: UserId, d: u64, t: Seq<char>| #[trigger] final(self).ended(u, d, t) == old(self).ended(u, d, t)
                } else {
                    &&& r is Ok
                    &&& {
                        let (done, out) = r.unwrap();
                        &&& out@.0 == base.0
                        &&& out@.1 == completed_after(base.1, outcome)
                        &&& base.1.is_prefix_of(out@.1)
                        &&& out@.2 == base.2
                        &&& out@.3.is_some()
                        &&& (base.3.is_some() ==> out@.3 == base.3)
                        &&& (token.is_some() ==> out@.3 == token)
                        &&& (base.3.is_none() ==> token_like(out@.3.unwrap(), SESSION_ID_LENGTH as nat))
                        &&& out@.4 == match outcome {
                            StageOutcome::Failed(f) => Some(f),
                            _ => base.4,
                        }
                        &&& done == (match outcome {
                            StageOutcome::Passed(_) | StageOutcome::Unsupported => some_flow_done(
                                out@.0,
                                out@.1,
                            ),
                            _ => false,
                        })
                        &&& match outcome {
                            StageOutcome::Passed(_) | StageOutcome::Unsupported => {
                                &&& done ==> final(self).session(user, device, out@.3.unwrap()).is_none()
                                &&& done ==> final(self).ended(user, device, out@.3.unwrap()) == Some(out@)
                                &&& !done ==> final(self).session(user, device, out@.3.unwrap())
                                    == Some(out@)
                                &&& !done ==> final(self).ended(user, device, out@.3.unwrap()) == old(self).ended(user, device, out@.3.unwrap())
                            },
                            _ => {
                                &&& final(self).session(user, device, out@.3.unwrap()) == old(self).session(user, device, out@.3.unwrap())
                                &&& final(self).ended(user, device, out@.3.unwrap()) == old(self).ended(user, device, out@.3.unwrap())
                            },
                        }
                        &&& forall|u: UserId, d: u64, t: Seq<char>|
                            (u, d, t) != (user, device, out@.3.unwrap()) ==> #[trigger] final(self).session(u, d, t) == old(self).session(u, d, t)
                        &&& forall|u: UserId, d: u64, t: Seq<char>|
                            (u, d, t) != (user, device, out@.3.unwrap()) ==> #[trigger] final(self).ended(u, d, t) == old(self).ended(u, d, t)
                    }
                }
            }),
    {
        let mut info = match auth_session {
            Some(s) => match self.sessions.lookup(user, device, s) {
                Some(i) => copy_info(i),
                None => match self.finished.lookup(user, device, s) {
                    Some(f) => {
                        return Ok((true, copy_info(f)));
                    },
                    None => {
                        return Err(UiaaError::SessionMissing);
                    },
                },
            },
            None => uiaainfo,
        };
        let ghost base = info@;
        if info.session.is_none() {
            info.session = Some(random::string(SESSION_ID_LENGTH));
        }
        match outcome {
            StageOutcome::Passed(t) => {
                info.completed.push(t);
            },
            StageOutcome::Failed(f) => {
                info.auth_error = Some(f);
                assert(base.1.is_prefix_of(info@.1));
                return Ok((false, info));
            },
            StageOutcome::FallbackAcknowledged => {
                assert(base.1.is_prefix_of(info@.1));
                return Ok((false, info));
            },
            StageOutcome::Unsupported => {},
        }
        assert(base.1.is_prefix_of(info@.1));
        let done = flows_done(&info.flows, &info.completed);
        let token = match &info.session {
            Some(t) => t.clone(),
            None => {
                return Ok((false, info));
            },
        };
        let ghost k = token@;
        if !done {
            let stored = copy_info(&info);
            self.sessions.put(user, device, token, stored);
            assert forall|u: UserId, d: u64, t: Seq<char>| (u, d, t) != (user, device, k) implies #[trigger] self.session(
                u,
                d,
                t,
            ) == old(self).session(u, d, t) by {
                assert(self.sessions.get(u, d, t) == old(self).sessions.get(u, d, t));
            }
            assert forall|u: UserId, d: u64, t: Seq<char>| #[trigger] self.session(u, d, t) is Some
                implies self.session(u, d, t).unwrap().3 == Some(t) by {
                if (u, d, t) != (user, device, k) {
                    assert(self.session(u, d, t) == old(self).session(u, d, t));
                }
            }
            assert forall|u: UserId, d: u64, t: Seq<char>| #[trigger] self.ended(u, d, t) == old(self).ended(u, d, t) by {}
            return Ok((false, info));
        }
        let _ = self.sessions.take(user, device, &token);
        let kept = copy_info(&info);
        self.finished.put(user, device, token, kept);
        assert forall|u: UserId, d: u64, t: Seq<char>| (u, d, t) != (user, device, k) implies #[trigger] self.session(
            u,
            d,
            t,
        ) == old(self).session(u, d, t) by {
            assert(self.sessions.get(u, d, t) == old(self).sessions.get(u, d, t));
        }
        assert forall|u: UserId, d: u64, t: Seq<char>| (u, d, t) != (user, device, k) implies #[trigger] self.ended(
            u,
            d,
            t,
        ) == old(self).ended(u, d, t) by {
            assert(self.finished.get(u, d, t) == old(self).finished.get(u, d, t));
        }
        assert forall|u: UserId, d: u64, t: Seq<char>| #[trigger] self.session(u, d, t) is Some
            implies self.session(u, d, t).unwrap().3 == Some(t) by {
            if (u, d, t) != (user, device, k) {
                assert(self.session(u, d, t) == old(self).session(u, d, t));
            }
        }
        assert forall|u: UserId, d: u64, t: Seq<char>| #[trigger] self.ended(u, d, t) is Some
            implies self.ended(u, d, t).unwrap().3 == Some(t) by {
            if (u, d, t) != (user, device, k) {
                assert(self.ended(u, d, t) == old(self).ended(u, d, t));
            }
        }
        Ok((true, info))
    }
}

fn copy_bytes(v: &Vec<u8>) -> (r: Vec<u8>)
    ensures
        r@ == v@,
{
    let mut out: Vec<u8> = Vec::new();
    let mut i: usize = 0;
    while i < v.len()
        invariant
            i <= v@.len(),
            out@ == v@.subrange(0, i as int),
        decreases v@.len() - i,
    {
        out.push(v[i]);
        assert(v@.subrange(0, i + 1) == v@.subrange(0, i as int).push(v@[i as int]));
        i = i + 1;
    }
    assert(v@.subrange(0, v@.len() as int) == v@);
    out
}

/// After a submission ends a session with final state `out`, a submission
/// naming its token again is a replay: `try_auth` answers it with `out` and
/// changes nothing.
pub proof fn ended_session_replays(svc: Service, user: UserId, device: u64, out: UiaaView)
    requires
        out.3.is_some(),
        svc.session(user, device, out.3.unwrap()).is_none(),
        svc.ended(user, device, out.3.unwrap()) == Some(out),
    ensures
        svc.replays(user, device, out.3),
        !svc.refuses(user, device, out.3),
        svc.ended(user, device, out.3.unwrap()).unwrap() == out,
{
}

} // verus!
