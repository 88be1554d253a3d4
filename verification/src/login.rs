//! Login orchestrator: the staged session state machine. Three ordered
//! stages lead from an unauthenticated start to an authenticated portal
//! session; each stage issues one fixed request and judges the response by
//! a named marker, and the first failure absorbs the attempt. The machine
//! decides; the caller performs the network exchange and feeds each
//! response body back.
use vstd::prelude::*;
use vstd::string::StringSliceAdditionalSpecFns;
use vstd::utf8::encode_utf8;

use crate::aescbc::{aes_cbc_encrypt, aes_cbc_spec};
use crate::conwork::{encode_credentials, legacy_chars};
use crate::scan::{contains_bytes, contains_seq, extract_flow_key, flow_token_of};

verus! {

/// The stage-tagged reasons a login attempt fails.
#[derive(Clone, Copy, Debug, PartialEq, Eq, Structural)]
pub enum LoginError {
    /// The VPN login page carried no flow token.
    FlowTokenMissing,
    /// The VPN login response lacked its success marker.
    VpnRejected,
    /// The portal root page lacked its login-page marker.
    PortalUnreachable,
    /// The portal login response lacked its success marker.
    PortalRejected,
}

/// The states of one login attempt. The flow token fetched in stage one is
/// carried until the VPN form is submitted; the two terminal states absorb
/// every later event.
#[derive(Debug, Clone)]
pub enum LoginState {
    Unauthenticated,
    VpnPageFetched { flow_key: Vec<u8> },
    VpnAuthenticated,
    PortalReachable,
    PortalAuthenticated,
    Failed { error: LoginError },
}

/// Mathematical view of a login state: the token as its byte sequence.
pub enum StateView {
    Unauthenticated,
    VpnPageFetched(Seq<u8>),
    VpnAuthenticated,
    PortalReachable,
    PortalAuthenticated,
    Failed(LoginError),
}

impl View for LoginState {
    type V = StateView;

    open spec fn view(&self) -> StateView {
        match self {
            LoginState::Unauthenticated => StateView::Unauthenticated,
            LoginState::VpnPageFetched { flow_key } => StateView::VpnPageFetched(flow_key@),
            LoginState::VpnAuthenticated => StateView::VpnAuthenticated,
            LoginState::PortalReachable => StateView::PortalReachable,
            LoginState::PortalAuthenticated => StateView::PortalAuthenticated,
            LoginState::Failed { error } => StateView::Failed(*error),
        }
    }
}

/// The credential triple one attempt uses: the account identifier, the VPN
/// gateway secret, and the portal secret.
pub struct Credentials {
    pub username: String,
    pub vpn_password: String,
    pub oa_password: String,
}

/// Success marker of the VPN login response.
pub open spec fn vpn_success_marker() -> Seq<u8> {
    seq![
        0xe4u8, 0xbfu8, 0xaeu8, 0xe6u8, 0x94u8, 0xb9u8, 0xe5u8, 0xafu8,
        0x86u8, 0xe7u8, 0xa0u8, 0x81u8,
    ]
}

/// Marker showing the portal root answered with its login page, the
/// expected not-yet-authenticated state.
pub open spec fn portal_login_marker() -> Seq<u8> {
    seq![
        0xe7u8, 0x94u8, 0xa8u8, 0xe6u8, 0x88u8, 0xb7u8, 0xe7u8, 0x99u8,
        0xbbu8, 0xe5u8, 0xbdu8, 0x95u8,
    ]
}

/// Success marker of the portal login response: the personal center page.
pub open spec fn portal_home_marker() -> Seq<u8> {
    seq![
        0xe5u8, 0xadu8, 0xa6u8, 0xe7u8, 0x94u8, 0x9fu8, 0xe4u8, 0xb8u8,
        0xaau8, 0xe4u8, 0xbau8, 0xbau8, 0xe4u8, 0xb8u8, 0xadu8, 0xe5u8,
        0xbfu8, 0x83u8,
    ]
}

fn vpn_success_marker_bytes() -> (v: Vec<u8>)
    ensures
        v@ == vpn_success_marker(),
{
    let mut v: Vec<u8> = Vec::new();
    v.push(0xe4);
    v.push(0xbf);
    v.push(0xae);
    v.push(0xe6);
    v.push(0x94);
    v.push(0xb9);
    v.push(0xe5);
    v.push(0xaf);
    v.push(0x86);
    v.push(0xe7);
    v.push(0xa0);
    v.push(0x81);
    proof {
        assert(v@ =~= vpn_success_marker());
    }
    v
}

fn portal_login_marker_bytes() -> (v: Vec<u8>)
    ensures
        v@ == portal_login_marker(),
{
    let mut v: Vec<u8> = Vec::new();
    v.push(0xe7);
    v.push(0x94);
    v.push(0xa8);
    v.push(0xe6);
    v.push(0x88);
    v.push(0xb7);
    v.push(0xe7);
    v.push(0x99);
    v.push(0xbb);
    v.push(0xe5);
    v.push(0xbd);
    v.push(0x95);
    proof {
        assert(v@ =~= portal_login_marker());
    }
    v
}

fn portal_home_marker_bytes() -> (v: Vec<u8>)
    ensures
        v@ == portal_home_marker(),
{
    let mut v: Vec<u8> = Vec::new();
    v.push(0xe5);
    v.push(0xad);
    v.push(0xa6);
    v.push(0xe7);
    v.push(0x94);
    v.push(0x9f);
    v.push(0xe4);
    v.push(0xb8);
    v.push(0xaa);
    v.push(0xe4);
    v.push(0xba);
    v.push(0xba);
    v.push(0xe4);
    v.push(0xb8);
    v.push(0xad);
    v.push(0xe5);
    v.push(0xbf);
    v.push(0x83);
    proof {
        assert(v@ =~= portal_home_marker());
    }
    v
}

/// One state transition: how a state judges the response body it was
/// waiting for. Terminal states ignore every body.
pub open spec fn login_step_v(s: StateView, body: Seq<u8>) -> StateView {
    match s {
        StateView::Unauthenticated => match flow_token_of(body) {
            Option::Some(t) => StateView::VpnPageFetched(t),
            Option::None => StateView::Failed(LoginError::FlowTokenMissing),
        },
        StateView::VpnPageFetched(_key) => if contains_seq(body, vpn_success_marker()) {
            StateView::VpnAuthenticated
        } else {
            StateView::Failed(LoginError::VpnRejected)
        },
        StateView::VpnAuthenticated => if contains_seq(body, portal_login_marker()) {
            StateView::PortalReachable
        } else {
            StateView::Failed(LoginError::PortalUnreachable)
        },
        StateView::PortalReachable => if contains_seq(body, portal_home_marker()) {
            StateView::PortalAuthenticated
        } else {
            StateView::Failed(LoginError::PortalRejected)
        },
        StateView::PortalAuthenticated => s,
        StateView::Failed(_) => s,
    }
}

/// Advances the machine on one response body.
pub fn on_response(state: &LoginState, body: &str) -> (r: LoginState)
    ensures
        r@ == login_step_v(state@, body.spec_bytes()),
{
    match state {
        LoginState::Unauthenticated => match extract_flow_key(body.as_bytes()) {
            Option::Some(key) => LoginState::VpnPageFetched { flow_key: key },
            Option::None => LoginState::Failed { error: LoginError::FlowTokenMissing },
        },
        LoginState::VpnPageFetched { flow_key: _ } => {
            let marker = vpn_success_marker_bytes();
            if contains_bytes(body.as_bytes(), marker.as_slice()) {
                LoginState::VpnAuthenticated
            } else {
                LoginState::Failed { error: LoginError::VpnRejected }
            }
        },
        LoginState::VpnAuthenticated => {
            let marker = portal_login_marker_bytes();
            if contains_bytes(body.as_bytes(), marker.as_slice()) {
                LoginState::PortalReachable
            } else {
                LoginState::Failed { error: LoginError::PortalUnreachable }
            }
        },
        LoginState::PortalReachable => {
            let marker = portal_home_marker_bytes();
            if contains_bytes(body.as_bytes(), marker.as_slice()) {
                LoginState::PortalAuthenticated
            } else {
                LoginState::Failed { error: LoginError::PortalRejected }
            }
        },
        LoginState::PortalAuthenticated => LoginState::PortalAuthenticated,
        LoginState::Failed { error } => LoginState::Failed { error: *error },
    }
}

/// The requests the machine asks the transport to perform. The submit
/// requests carry the complete form the stage posts; the flow token rides
/// along as the bytes extracted from the page.
pub enum LoginRequest {
    /// Fetch the VPN login page.
    VpnLoginPage,
    /// Submit the VPN login form.
    VpnLoginSubmit { form: Vec<(String, String)>, execution: Vec<u8> },
    /// Fetch the portal root with the fixed browser-identifying headers.
    PortalHome,
    /// Submit the portal login form.
    PortalLoginSubmit { form: Vec<(String, String)> },
}

/// The four kinds of network exchange the protocol knows.
#[derive(Clone, Copy, Debug, PartialEq, Eq, Structural)]
pub enum RequestKind {
    VpnLoginPage,
    VpnLoginSubmit,
    PortalHome,
    PortalLoginSubmit,
}

/// The kind of a concrete request.
pub open spec fn kind_of(q: LoginRequest) -> RequestKind {
    match q {
        LoginRequest::VpnLoginPage => RequestKind::VpnLoginPage,
        LoginRequest::VpnLoginSubmit { .. } => RequestKind::VpnLoginSubmit,
        LoginRequest::PortalHome => RequestKind::PortalHome,
        LoginRequest::PortalLoginSubmit { .. } => RequestKind::PortalLoginSubmit,
    }
}

/// Which exchange a state performs next; the terminal states perform none.
pub open spec fn spec_request_kind(s: StateView) -> Option<RequestKind> {
    match s {
        StateView::Unauthenticated => Some(RequestKind::VpnLoginPage),
        StateView::VpnPageFetched(_) => Some(RequestKind::VpnLoginSubmit),
        StateView::VpnAuthenticated => Some(RequestKind::PortalHome),
        StateView::PortalReachable => Some(RequestKind::PortalLoginSubmit),
        StateView::PortalAuthenticated => None,
        StateView::Failed(_) => None,
    }
}

/// The exact VPN login form: the identifier, the encrypted VPN secret, and
/// the fixed constant fields, in this order. The flow token is carried
/// beside the form as bytes.
pub open spec fn is_vpn_login_form(form: Seq<(String, String)>, creds: Credentials) -> bool {
    &&& form.len() == 5
    &&& form[0].0@ == "username"@
    &&& form[0].1@ == creds.username@
    &&& form[1].0@ == "password"@
    &&& form[1].1@ == aes_cbc_spec(encode_utf8(creds.vpn_password@))
    &&& form[2].0@ == "_eventId"@
    &&& form[2].1@ == "submit"@
    &&& form[3].0@ == "rememberMe"@
    &&& form[3].1@ == "false"@
    &&& form[4].0@ == "domain"@
    &&& form[4].1@ == "oa-443.v.hbfu.edu.cn"@
}

/// The exact portal login form: one field holding both credentials encoded
/// with the legacy codec and joined by the fixed separator.
pub open spec fn is_portal_login_form(form: Seq<(String, String)>, creds: Credentials) -> bool {
    &&& form.len() == 1
    &&& form[0].0@ == "encoded"@
    &&& form[0].1@ == legacy_chars(encode_utf8(creds.username@)) + "%%%"@ + legacy_chars(
        encode_utf8(creds.oa_password@),
    )
}

fn copy_bytes(v: &Vec<u8>) -> (r: Vec<u8>)
    ensures
        r@ == v@,
{
    let mut r: Vec<u8> = Vec::new();
    let n = v.len();
    let mut i: usize = 0;
    while i < n
        invariant
            i <= n,
            n == v@.len(),
            r@ == v@.take(i as int),
        decreases n - i,
    {
        r.push(v[i]);
        proof {
            assert(r@ =~= v@.take(i + 1));
        }
        i = i + 1;
    }
    proof {
        assert(r@ =~= v@);
    }
    r
}

/// The request the given state issues next, built from the credentials:
/// nothing in a terminal state, otherwise exactly the stage's exchange with
/// its complete form.
pub fn next_request(state: &LoginState, creds: &Credentials) -> (r: Option<LoginRequest>)
    ensures
        match r {
            Some(q) => spec_request_kind(state@) == Some(kind_of(q)),
            None => spec_request_kind(state@) is None,
        },
        state@ matches StateView::VpnPageFetched(key) ==> (r matches Some(q)
            && q matches LoginRequest::VpnLoginSubmit { form, execution }
            && is_vpn_login_form(form@, *creds) && execution@ == key),
        state@ is PortalReachable ==> (r matches Some(q) && q matches
            LoginRequest::PortalLoginSubmit { form } && is_portal_login_form(form@, *creds)),
{
    match state {
        LoginState::Unauthenticated => Some(LoginRequest::VpnLoginPage),
        LoginState::VpnPageFetched { flow_key } => {
            let encrypted = match aes_cbc_encrypt(creds.vpn_password.as_str()) {
                Ok(payload) => payload,
                Err(_) => String::new(),
            };
            let mut form: Vec<(String, String)> = Vec::new();
            form.push(("username".to_owned(), creds.username.clone()));
            form.push(("password".to_owned(), encrypted));
            form.push(("_eventId".to_owned(), "submit".to_owned()));
            form.push(("rememberMe".to_owned(), "false".to_owned()));
            form.push(("domain".to_owned(), "oa-443.v.hbfu.edu.cn".to_owned()));
            let execution = copy_bytes(flow_key);
            Some(LoginRequest::VpnLoginSubmit { form, execution })
        },
        LoginState::VpnAuthenticated => Some(LoginRequest::PortalHome),
        LoginState::PortalReachable => {
            let encoded = encode_credentials(creds.username.as_str(), creds.oa_password.as_str());
            let mut form: Vec<(String, String)> = Vec::new();
            form.push(("encoded".to_owned(), encoded));
            Some(LoginRequest::PortalLoginSubmit { form })
        },
        LoginState::PortalAuthenticated => None,
        LoginState::Failed { error: _ } => None,
    }
}

/// Whether the machine is done: authenticated, or failed for good.
pub fn is_terminal(state: &LoginState) -> (r: bool)
    ensures
        r == (spec_request_kind(state@) is None),
{
    match state {
        LoginState::PortalAuthenticated => true,
        LoginState::Failed { error: _ } => true,
        _ => false,
    }
}

/// The state reached from `s` after consuming the given response bodies in
/// order, stopping at a terminal state.
pub open spec fn spec_run(s: StateView, bodies: Seq<Seq<u8>>) -> StateView
    decreases bodies.len(),
{
    if bodies.len() == 0 || spec_request_kind(s) is None {
        s
    } else {
        spec_run(login_step_v(s, bodies[0]), bodies.skip(1))
    }
}

/// The exchanges performed when driving the machine from `s` with the given
/// response bodies: each non-terminal state issues its one request, then
/// consumes one body.
pub open spec fn spec_requests(s: StateView, bodies: Seq<Seq<u8>>) -> Seq<RequestKind>
    decreases bodies.len(),
{
    match spec_request_kind(s) {
        Option::None => Seq::empty(),
        Option::Some(k) => if bodies.len() == 0 {
            seq![k]
        } else {
            seq![k] + spec_requests(login_step_v(s, bodies[0]), bodies.skip(1))
        },
    }
}

/// The byte sequences of a list of response bodies.
pub open spec fn bodies_view(bodies: Seq<String>) -> Seq<Seq<u8>> {
    bodies.map_values(|b: String| encode_utf8(b@))
}

/// Runs one login attempt over the response bodies received in order,
/// starting unauthenticated and stopping at the first terminal state.
pub fn run_login(bodies: &Vec<String>) -> (r: LoginState)
    ensures
        r@ == spec_run(StateView::Unauthenticated, bodies_view(bodies@)),
{
    let mut state = LoginState::Unauthenticated;
    let n = bodies.len();
    let mut i: usize = 0;
    proof {
        assert(bodies_view(bodies@).skip(0) =~= bodies_view(bodies@));
    }
    while i < n
        invariant
            i <= n,
            n == bodies@.len(),
            spec_run(StateView::Unauthenticated, bodies_view(bodies@)) == spec_run(
                state@,
                bodies_view(bodies@).skip(i as int),
            ),
        decreases n - i,
    {
        if is_terminal(&state) {
            proof {
                assert(spec_run(state@, bodies_view(bodies@).skip(i as int)) == state@);
            }
            return state;
        }
        let next = on_response(&state, bodies[i].as_str());
        proof {
            assert(bodies_view(bodies@)[i as int] == encode_utf8(bodies@[i as int]@));
            assert(bodies_view(bodies@).skip(i as int)[0] == bodies_view(bodies@)[i as int]);
            assert(bodies_view(bodies@).skip(i as int).skip(1) =~= bodies_view(bodies@).skip(
                i + 1,
            ));
        }
        state = next;
        i = i + 1;
    }
    proof {
        assert(bodies_view(bodies@).skip(i as int) =~= Seq::<Seq<u8>>::empty());
    }
    state
}

/// The human-readable reason for each failure, as the portal client
/// reports it.
pub open spec fn error_message(e: LoginError) -> Seq<char> {
    match e {
        LoginError::FlowTokenMissing => "flow execution key not found"@,
        LoginError::VpnRejected => "VPN login failed, check the account and password"@,
        LoginError::PortalUnreachable => "the portal could not be reached"@,
        LoginError::PortalRejected => "portal login failed, check the account and password"@,
    }
}

impl LoginError {
    /// The failure reason as text.
    pub fn message(&self) -> (r: String)
        ensures
            r@ == error_message(*self),
    {
        match self {
            LoginError::FlowTokenMissing => "flow execution key not found".to_owned(),
            LoginError::VpnRejected => "VPN login failed, check the account and password"
                .to_owned(),
            LoginError::PortalUnreachable => "the portal could not be reached".to_owned(),
            LoginError::PortalRejected => "portal login failed, check the account and password"
                .to_owned(),
        }
    }
}

/// The outcome of a finished attempt: success text, or the stage-tagged
/// failure reason.
pub fn login_result(state: &LoginState) -> (r: Result<String, String>)
    requires
        spec_request_kind(state@) is None,
    ensures
        r is Ok <==> state@ is PortalAuthenticated,
        r matches Ok(m) ==> m@ == "login succeeded"@,
        state@ matches StateView::Failed(e) ==> (r matches Err(m) && m@ == error_message(e)),
{
    match state {
        LoginState::PortalAuthenticated => Ok("login succeeded".to_owned()),
        LoginState::Failed { error } => Err(error.message()),
        _ => Err("login attempt is not finished".to_owned()),
    }
}

/// Law: a stage-one failure stops the protocol. When the VPN login page
/// yields no flow token, the attempt performs exactly one exchange — the
/// page fetch — whatever responses would have followed.
pub proof fn lemma_stage1_failure_stops(bodies: Seq<Seq<u8>>)
    requires
        bodies.len() >= 1,
        flow_token_of(bodies[0]) is None,
    ensures
        spec_requests(StateView::Unauthenticated, bodies) =~= seq![RequestKind::VpnLoginPage],
        spec_run(StateView::Unauthenticated, bodies) == StateView::Failed(
            LoginError::FlowTokenMissing,
        ),
{
    let failed = StateView::Failed(LoginError::FlowTokenMissing);
    assert(login_step_v(StateView::Unauthenticated, bodies[0]) == failed);
    lemma_terminal_run(failed, bodies.skip(1));
    assert(spec_run(StateView::Unauthenticated, bodies) == spec_run(failed, bodies.skip(1)));
    assert(spec_requests(StateView::Unauthenticated, bodies) == seq![RequestKind::VpnLoginPage]
        + spec_requests(failed, bodies.skip(1)));
}

/// Law: a VPN rejection stops the protocol before any portal exchange.
pub proof fn lemma_vpn_rejection_stops(bodies: Seq<Seq<u8>>)
    requires
        bodies.len() >= 2,
        flow_token_of(bodies[0]) is Some,
        !contains_seq(bodies[1], vpn_success_marker()),
    ensures
        spec_requests(StateView::Unauthenticated, bodies) =~= seq![
            RequestKind::VpnLoginPage,
            RequestKind::VpnLoginSubmit,
        ],
        spec_run(StateView::Unauthenticated, bodies) == StateView::Failed(LoginError::VpnRejected),
{
    let fetched = login_step_v(StateView::Unauthenticated, bodies[0]);
    let failed = StateView::Failed(LoginError::VpnRejected);
    assert(fetched is VpnPageFetched);
    assert(bodies.skip(1)[0] == bodies[1]);
    assert(login_step_v(fetched, bodies[1]) == failed);
    assert(bodies.skip(1).skip(1) =~= bodies.skip(2));
    lemma_terminal_run(failed, bodies.skip(2));
    assert(spec_run(StateView::Unauthenticated, bodies) == spec_run(fetched, bodies.skip(1)));
    assert(spec_run(fetched, bodies.skip(1)) == spec_run(failed, bodies.skip(2)));
    assert(spec_requests(StateView::Unauthenticated, bodies) == seq![RequestKind::VpnLoginPage]
        + spec_requests(fetched, bodies.skip(1)));
    assert(spec_requests(fetched, bodies.skip(1)) == seq![RequestKind::VpnLoginSubmit]
        + spec_requests(failed, bodies.skip(2)));
}

/// Law: an unreachable portal stops the protocol before the portal login
/// form is ever posted.
pub proof fn lemma_portal_unreachable_stops(bodies: Seq<Seq<u8>>)
    requires
        bodies.len() >= 3,
        flow_token_of(bodies[0]) is Some,
        contains_seq(bodies[1], vpn_success_marker()),
        !contains_seq(bodies[2], portal_login_marker()),
    ensures
        spec_requests(StateView::Unauthenticated, bodies) =~= seq![
            RequestKind::VpnLoginPage,
            RequestKind::VpnLoginSubmit,
            RequestKind::PortalHome,
        ],
        spec_run(StateView::Unauthenticated, bodies) == StateView::Failed(
            LoginError::PortalUnreachable,
        ),
{
    let fetched = login_step_v(StateView::Unauthenticated, bodies[0]);
    let failed = StateView::Failed(LoginError::PortalUnreachable);
    assert(fetched is VpnPageFetched);
    assert(bodies.skip(1)[0] == bodies[1]);
    assert(login_step_v(fetched, bodies[1]) == StateView::VpnAuthenticated);
    assert(bodies.skip(1).skip(1) =~= bodies.skip(2));
    assert(bodies.skip(2)[0] == bodies[2]);
    assert(login_step_v(StateView::VpnAuthenticated, bodies[2]) == failed);
    assert(bodies.skip(2).skip(1) =~= bodies.skip(3));
    lemma_terminal_run(failed, bodies.skip(3));
    assert(spec_run(StateView::Unauthenticated, bodies) == spec_run(fetched, bodies.skip(1)));
    assert(spec_run(fetched, bodies.skip(1)) == spec_run(
        StateView::VpnAuthenticated,
        bodies.skip(2),
    ));
    assert(spec_run(StateView::VpnAuthenticated, bodies.skip(2)) == spec_run(
        failed,
        bodies.skip(3),
    ));
    assert(spec_requests(StateView::Unauthenticated, bodies) == seq![RequestKind::VpnLoginPage]
        + spec_requests(fetched, bodies.skip(1)));
    assert(spec_requests(fetched, bodies.skip(1)) == seq![RequestKind::VpnLoginSubmit]
        + spec_requests(StateView::VpnAuthenticated, bodies.skip(2)));
    assert(spec_requests(StateView::VpnAuthenticated, bodies.skip(2)) == seq![
        RequestKind::PortalHome,
    ] + spec_requests(failed, bodies.skip(3)));
}

/// Law: when every stage's marker is present, the attempt performs the four
/// exchanges in their fixed order and ends authenticated.
pub proof fn lemma_login_succeeds(bodies: Seq<Seq<u8>>)
    requires
        bodies.len() >= 4,
        flow_token_of(bodies[0]) is Some,
        contains_seq(bodies[1], vpn_success_marker()),
        contains_seq(bodies[2], portal_login_marker()),
        contains_seq(bodies[3], portal_home_marker()),
    ensures
        spec_requests(StateView::Unauthenticated, bodies) =~= seq![
            RequestKind::VpnLoginPage,
            RequestKind::VpnLoginSubmit,
            RequestKind::PortalHome,
            RequestKind::PortalLoginSubmit,
        ],
        spec_run(StateView::Unauthenticated, bodies) == StateView::PortalAuthenticated,
{
    let fetched = login_step_v(StateView::Unauthenticated, bodies[0]);
    assert(fetched is VpnPageFetched);
    assert(bodies.skip(1)[0] == bodies[1]);
    assert(login_step_v(fetched, bodies[1]) == StateView::VpnAuthenticated);
    assert(bodies.skip(1).skip(1) =~= bodies.skip(2));
    assert(bodies.skip(2)[0] == bodies[2]);
    assert(login_step_v(StateView::VpnAuthenticated, bodies[2]) == StateView::PortalReachable);
    assert(bodies.skip(2).skip(1) =~= bodies.skip(3));
    assert(bodies.skip(3)[0] == bodies[3]);
    assert(login_step_v(StateView::PortalReachable, bodies[3])
        == StateView::PortalAuthenticated);
    assert(bodies.skip(3).skip(1) =~= bodies.skip(4));
    lemma_terminal_run(StateView::PortalAuthenticated, bodies.skip(4));
    assert(spec_run(StateView::Unauthenticated, bodies) == spec_run(fetched, bodies.skip(1)));
    assert(spec_run(fetched, bodies.skip(1)) == spec_run(
        StateView::VpnAuthenticated,
        bodies.skip(2),
    ));
    assert(spec_run(StateView::VpnAuthenticated, bodies.skip(2)) == spec_run(
        StateView::PortalReachable,
        bodies.skip(3),
    ));
    assert(spec_run(StateView::PortalReachable, bodies.skip(3)) == spec_run(
        StateView::PortalAuthenticated,
        bodies.skip(4),
    ));
    assert(spec_requests(StateView::Unauthenticated, bodies) == seq![RequestKind::VpnLoginPage]
        + spec_requests(fetched, bodies.skip(1)));
    assert(spec_requests(fetched, bodies.skip(1)) == seq![RequestKind::VpnLoginSubmit]
        + spec_requests(StateView::VpnAuthenticated, bodies.skip(2)));
    assert(spec_requests(StateView::VpnAuthenticated, bodies.skip(2)) == seq![
        RequestKind::PortalHome,
    ] + spec_requests(StateView::PortalReachable, bodies.skip(3)));
    assert(spec_requests(StateView::PortalReachable, bodies.skip(3)) == seq![
        RequestKind::PortalLoginSubmit,
    ] + spec_requests(StateView::PortalAuthenticated, bodies.skip(4)));
}

/// A terminal state issues no request and never changes again.
pub proof fn lemma_terminal_run(s: StateView, bodies: Seq<Seq<u8>>)
    requires
        spec_request_kind(s) is None,
    ensures
        spec_run(s, bodies) == s,
        spec_requests(s, bodies) =~= Seq::<RequestKind>::empty(),
{
}

} // verus!
