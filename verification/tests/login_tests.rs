use jwxt_client::aescbc::aes_cbc_encrypt;
use jwxt_client::conwork::encode_credentials;
use jwxt_client::login::{
    is_terminal, login_result, next_request, on_response, run_login, Credentials, LoginError,
    LoginRequest, LoginState,
};
use jwxt_client::scan::extract_flow_key;

fn creds() -> Credentials {
    Credentials {
        username: "2021001".to_string(),
        vpn_password: "vpn-secret".to_string(),
        oa_password: "oa-secret".to_string(),
    }
}

fn vpn_page() -> String {
    "<html><script>var data = { flowExecutionKey: \"e1s1\" };</script></html>".to_string()
}

fn vpn_ok() -> String {
    "<html><body>欢迎 修改密码 退出</body></html>".to_string()
}

fn portal_page() -> String {
    "<html><title>用户登录</title></html>".to_string()
}

fn portal_ok() -> String {
    "<html><body>学生个人中心</body></html>".to_string()
}

#[test]
fn flow_key_is_extracted_from_page() {
    let key = extract_flow_key(vpn_page().as_bytes()).unwrap();
    assert_eq!(key, b"e1s1".to_vec());
}

#[test]
fn flow_key_absent_yields_none() {
    assert!(extract_flow_key(b"<html>no token here</html>").is_none());
    // The closing quote must come before a line break.
    assert!(extract_flow_key(b"flowExecutionKey: \"e1s1\nmore\"").is_none());
}

#[test]
fn flow_key_takes_first_occurrence() {
    let body = b"flowExecutionKey: \"first\" and flowExecutionKey: \"second\"";
    assert_eq!(extract_flow_key(body).unwrap(), b"first".to_vec());
}

#[test]
fn full_login_succeeds_on_all_markers() {
    let bodies = vec![vpn_page(), vpn_ok(), portal_page(), portal_ok()];
    let state = run_login(&bodies);
    assert!(matches!(state, LoginState::PortalAuthenticated));
    assert_eq!(login_result(&state).unwrap(), "login succeeded");
}

#[test]
fn missing_portal_marker_fails_as_unreachable_and_posts_nothing() {
    // The portal root answers without its login-page marker: the attempt
    // fails at that stage, and no portal login form is ever requested.
    let bodies = vec![vpn_page(), vpn_ok(), "<html>blank</html>".to_string(), portal_ok()];
    let state = run_login(&bodies);
    assert!(matches!(
        state,
        LoginState::Failed { error: LoginError::PortalUnreachable }
    ));
    assert!(next_request(&state, &creds()).is_none());
    let message = login_result(&state).unwrap_err();
    assert_eq!(message, "the portal could not be reached");
}

#[test]
fn stage_one_failure_issues_no_further_request() {
    // Drive the machine by hand, counting the requests the transport would
    // have been asked to perform: a token-less page stops after the one
    // page fetch.
    let c = creds();
    let mut state = LoginState::Unauthenticated;
    let mut requests = 0usize;
    let bodies = vec!["<html>no token</html>".to_string(), vpn_ok(), portal_page()];
    for body in &bodies {
        match next_request(&state, &c) {
            Some(_) => requests += 1,
            None => break,
        }
        state = on_response(&state, body);
    }
    assert_eq!(requests, 1);
    assert!(matches!(
        state,
        LoginState::Failed { error: LoginError::FlowTokenMissing }
    ));
}

#[test]
fn vpn_rejection_fails_with_its_reason() {
    let bodies = vec![vpn_page(), "<html>登录失败</html>".to_string()];
    let state = run_login(&bodies);
    assert!(matches!(state, LoginState::Failed { error: LoginError::VpnRejected }));
    assert_eq!(
        login_result(&state).unwrap_err(),
        "VPN login failed, check the account and password"
    );
}

#[test]
fn portal_rejection_fails_with_its_reason() {
    let bodies = vec![vpn_page(), vpn_ok(), portal_page(), "<html>denied</html>".to_string()];
    let state = run_login(&bodies);
    assert!(matches!(state, LoginState::Failed { error: LoginError::PortalRejected }));
    assert_eq!(
        login_result(&state).unwrap_err(),
        "portal login failed, check the account and password"
    );
}

#[test]
fn vpn_submit_carries_the_full_form() {
    let c = creds();
    let state = on_response(&LoginState::Unauthenticated, &vpn_page());
    assert!(matches!(state, LoginState::VpnPageFetched { .. }));
    match next_request(&state, &c) {
        Some(LoginRequest::VpnLoginSubmit { form, execution }) => {
            assert_eq!(execution, b"e1s1".to_vec());
            let expected_password = aes_cbc_encrypt("vpn-secret").unwrap();
            assert_eq!(form.len(), 5);
            assert_eq!(form[0], ("username".to_string(), "2021001".to_string()));
            assert_eq!(form[1], ("password".to_string(), expected_password));
            assert_eq!(form[2], ("_eventId".to_string(), "submit".to_string()));
            assert_eq!(form[3], ("rememberMe".to_string(), "false".to_string()));
            assert_eq!(form[4], ("domain".to_string(), "oa-443.v.hbfu.edu.cn".to_string()));
        },
        other => panic!("expected the VPN submit request, got {:?}", other.is_some()),
    }
}

#[test]
fn portal_submit_carries_the_encoded_pair() {
    let c = creds();
    match next_request(&LoginState::PortalReachable, &c) {
        Some(LoginRequest::PortalLoginSubmit { form }) => {
            assert_eq!(form.len(), 1);
            assert_eq!(form[0].0, "encoded");
            assert_eq!(form[0].1, encode_credentials("2021001", "oa-secret"));
        },
        other => panic!("expected the portal submit request, got {:?}", other.is_some()),
    }
}

#[test]
fn terminal_states_issue_no_request() {
    let c = creds();
    assert!(next_request(&LoginState::PortalAuthenticated, &c).is_none());
    assert!(is_terminal(&LoginState::PortalAuthenticated));
    let failed = LoginState::Failed { error: LoginError::VpnRejected };
    assert!(next_request(&failed, &c).is_none());
    assert!(is_terminal(&failed));
    assert!(!is_terminal(&LoginState::Unauthenticated));
}

#[test]
fn error_messages_name_their_stage() {
    assert_eq!(LoginError::FlowTokenMissing.message(), "flow execution key not found");
    assert_eq!(LoginError::PortalUnreachable.message(), "the portal could not be reached");
}

#[test]
fn flow_key_skips_an_occurrence_broken_by_a_line_break() {
    // The first occurrence has no closing quote on its line; the scan moves
    // on and takes the next complete one.
    let body = b"flowExecutionKey: \"a\nb\" junk flowExecutionKey: \"ok\"";
    assert_eq!(extract_flow_key(body).unwrap(), b"ok".to_vec());
}
