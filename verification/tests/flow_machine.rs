use vb365_audit::audit::{is_supported_group_type, is_supported_user_type, select_marked_ids, short_object_id, split_colon};
use vb365_audit::errors::AuthError;
use vb365_audit::flow::{flow_step, FlowAction, FlowConfig, FlowEvent, FlowState};
use vb365_audit::models::{AuthRequest, AuthResponse, CompleteResponse, NotificationData};

fn config() -> FlowConfig {
    FlowConfig {
        tenant_id: String::from("tenant-1"),
        client_id: String::from("client-2"),
        client_secret: String::from("not-a-real-secret"),
        redirect_url: String::from("http://localhost:8080/cb"),
    }
}

fn prepared() -> AuthResponse {
    AuthResponse {
        sign_in_url: String::from("https://login.example/authorize?x=1"),
        request_id: String::from("req-9"),
    }
}

#[test]
fn happy_path_walks_all_four_steps() {
    let cfg = config();

    let (st, act) = flow_step(&cfg, FlowState::Idle, FlowEvent::Start);
    assert_eq!(st, FlowState::AwaitingSignInUrl);
    match act {
        FlowAction::RequestSignIn(q) => {
            assert_eq!(q.authentication_service_kind, "Microsoft365");
            assert_eq!(q.tenant_id, "tenant-1");
            assert_eq!(q.client_id, "client-2");
            assert_eq!(q.client_secret, "not-a-real-secret");
            assert_eq!(q.redirect_url, "http://localhost:8080/cb");
        }
        other => panic!("unexpected action {:?}", other),
    }

    let (st, act) = flow_step(&cfg, st, FlowEvent::SignInPrepared(prepared()));
    assert_eq!(st, FlowState::AwaitingBrowserCallback);
    match act {
        FlowAction::CaptureCallback { sign_in_url, port } => {
            assert_eq!(sign_in_url, "https://login.example/authorize?x=1");
            assert_eq!(port, "8080");
        }
        other => panic!("unexpected action {:?}", other),
    }

    let raw = String::from("cb?code=ABC&state=XYZ&session_state=1");
    let (st, act) = flow_step(&cfg, st, FlowEvent::CallbackCaptured(raw));
    assert_eq!(st, FlowState::ExchangingCode);
    match act {
        FlowAction::Exchange(q) => {
            assert_eq!(q.code, "ABC");
            assert_eq!(q.state, "XYZ");
        }
        other => panic!("unexpected action {:?}", other),
    }

    let done = CompleteResponse {
        request_id: String::from("req-9"),
        user_id: String::from("user-7"),
    };
    let (st, act) = flow_step(&cfg, st, FlowEvent::ExchangeSucceeded(done.clone()));
    assert_eq!(st, FlowState::Complete(done));
    assert_eq!(act, FlowAction::Halt);
}

#[test]
fn bad_redirect_url_fails_the_flow_as_a_config_error() {
    let mut cfg = config();
    cfg.redirect_url = String::from("http://localhost/no-port");
    let (st, act) = flow_step(
        &cfg,
        FlowState::AwaitingSignInUrl,
        FlowEvent::SignInPrepared(prepared()),
    );
    assert_eq!(st, FlowState::Failed(AuthError::ConfigError));
    assert_eq!(act, FlowAction::Halt);
}

#[test]
fn short_callback_fails_the_flow_as_invalid() {
    let cfg = config();
    let raw = String::from("cb?code=ABC&state=XYZ");
    let (st, act) = flow_step(&cfg, FlowState::AwaitingBrowserCallback, FlowEvent::CallbackCaptured(raw));
    assert_eq!(st, FlowState::Failed(AuthError::InvalidCallback));
    assert_eq!(act, FlowAction::Halt);
}

#[test]
fn empty_callback_fails_the_flow_as_invalid() {
    let cfg = config();
    let (st, _) = flow_step(
        &cfg,
        FlowState::AwaitingBrowserCallback,
        FlowEvent::CallbackCaptured(String::new()),
    );
    assert_eq!(st, FlowState::Failed(AuthError::InvalidCallback));
}

#[test]
fn listener_failure_is_terminal_with_its_own_error() {
    let cfg = config();
    let (st, act) = flow_step(
        &cfg,
        FlowState::AwaitingBrowserCallback,
        FlowEvent::ListenFailed(AuthError::BindError),
    );
    assert_eq!(st, FlowState::Failed(AuthError::BindError));
    assert_eq!(act, FlowAction::Halt);
}

#[test]
fn rejected_exchange_carries_the_response_body() {
    let cfg = config();
    let (st, _) = flow_step(
        &cfg,
        FlowState::ExchangingCode,
        FlowEvent::ExchangeRejected(String::from("bad code")),
    );
    assert_eq!(st, FlowState::Failed(AuthError::ExchangeError(String::from("bad code"))));
}

#[test]
fn terminal_states_absorb_every_event() {
    let cfg = config();
    let failed = FlowState::Failed(AuthError::ConfigError);
    let (st, act) = flow_step(&cfg, failed.clone(), FlowEvent::Start);
    assert_eq!(st, failed);
    assert_eq!(act, FlowAction::Halt);

    let complete = FlowState::Complete(CompleteResponse {
        request_id: String::from("r"),
        user_id: String::from("u"),
    });
    let (st, act) = flow_step(&cfg, complete.clone(), FlowEvent::Start);
    assert_eq!(st, complete);
    assert_eq!(act, FlowAction::Halt);
}

#[test]
fn unexpected_events_leave_the_state_alone() {
    let cfg = config();
    let (st, act) = flow_step(&cfg, FlowState::Idle, FlowEvent::ListenFailed(AuthError::BindError));
    assert_eq!(st, FlowState::Idle);
    assert_eq!(act, FlowAction::Halt);
}

#[test]
fn auth_request_is_for_the_one_supported_service() {
    let q = AuthRequest::new(
        String::from("t"),
        String::from("c"),
        String::from("s"),
        String::from("r"),
    );
    assert_eq!(q.authentication_service_kind, "Microsoft365");
}

#[test]
fn notification_data_is_filled_from_flow_and_config() {
    let nd = NotificationData::new(
        String::from("to@example.com"),
        String::from("from@example.com"),
        String::from("audit report"),
        String::from("user-7"),
        String::from("req-9"),
    );
    assert!(nd.enable_notification);
    assert_eq!(nd.authentication_type, "Microsoft365");
    assert!(!nd.use_authentication);
    assert_eq!(nd.username, "");
    assert!(!nd.use_ssl);
    assert_eq!(nd.to, "to@example.com");
    assert_eq!(nd.from, "from@example.com");
    assert_eq!(nd.subject, "audit report");
    assert_eq!(nd.user_id, "user-7");
    assert_eq!(nd.request_id, "req-9");
}

#[test]
fn supported_object_types_are_the_documented_lists() {
    assert!(is_supported_user_type("User"));
    assert!(is_supported_user_type("Shared"));
    assert!(is_supported_user_type("Public"));
    assert!(!is_supported_user_type("Group"));
    assert!(!is_supported_user_type(""));
    assert!(is_supported_group_type("Office365"));
    assert!(is_supported_group_type("Security"));
    assert!(is_supported_group_type("Distribution"));
    assert!(is_supported_group_type("DynamicDistribution"));
    assert!(!is_supported_group_type("User"));
}

#[test]
fn short_object_id_is_the_fourth_colon_field() {
    assert_eq!(
        short_object_id("type:tenant:site:1234-abcd:extra"),
        Some(String::from("1234-abcd"))
    );
    assert_eq!(short_object_id("a:b:c:d"), Some(String::from("d")));
    assert_eq!(short_object_id("a:b:c"), None);
    assert_eq!(split_colon("a:b"), vec![String::from("a"), String::from("b")]);
    assert_eq!(split_colon("abc"), vec![String::from("abc")]);
    assert_eq!(split_colon("a::b"), vec![String::from("a"), String::from(""), String::from("b")]);
}

#[test]
fn marked_ids_are_picked_in_order_and_gaps_are_skipped() {
    let ids = vec![
        Some(String::from("id-0")),
        None,
        Some(String::from("id-2")),
        Some(String::from("id-3")),
    ];
    let marked = vec![3usize, 1, 2];
    assert_eq!(
        select_marked_ids(&ids, &marked),
        vec![String::from("id-2"), String::from("id-3")]
    );
    assert_eq!(select_marked_ids(&ids, &vec![]), Vec::<String>::new());
}

#[test]
fn every_error_describes_itself() {
    for e in [
        AuthError::ConfigError,
        AuthError::BindError,
        AuthError::ReadError,
        AuthError::InvalidCallback,
        AuthError::ExchangeError(String::from("body")),
        AuthError::StorageError,
    ] {
        assert!(!e.describe().is_empty());
    }
}
