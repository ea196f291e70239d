use vb365_audit::callback::parse_callback;
use vb365_audit::errors::AuthError;
use vb365_audit::listener::{ack_response, ConnectionReaction, ListenerState};
use vb365_audit::redirect::extract_port;

#[test]
fn port_of_wellformed_redirect_url() {
    let r = extract_port("http://localhost:8080/redirect");
    assert_eq!(r, Ok(String::from("8080")));
}

#[test]
fn port_of_https_loopback_url() {
    let r = extract_port("https://127.0.0.1:3000/cb");
    assert_eq!(r, Ok(String::from("3000")));
}

#[test]
fn port_takes_the_last_match() {
    let r = extract_port("http://h:12/a:34/b");
    assert_eq!(r, Ok(String::from("34")));
}

#[test]
fn url_without_port_is_a_config_error() {
    assert_eq!(extract_port("http://localhost/nope"), Err(AuthError::ConfigError));
    assert_eq!(extract_port(""), Err(AuthError::ConfigError));
    assert_eq!(extract_port("http://h:12x/"), Err(AuthError::ConfigError));
}

#[test]
fn callback_with_three_assignments_parses() {
    let a = parse_callback("code=ABC&state=XYZ&session_state=1").unwrap();
    assert_eq!(a.code, "ABC");
    assert_eq!(a.state, "XYZ");
}

#[test]
fn callback_with_full_captured_path_parses() {
    let a = parse_callback("cb?code=ABC&state=XYZ&session_state=1").unwrap();
    assert_eq!(a.code, "ABC");
    assert_eq!(a.state, "XYZ");
}

#[test]
fn callback_with_two_assignments_is_invalid() {
    assert_eq!(parse_callback("code=ABC&state=XYZ"), Err(AuthError::InvalidCallback));
}

#[test]
fn callback_with_four_assignments_is_invalid() {
    assert_eq!(parse_callback("a=1&b=2&c=3&d=4"), Err(AuthError::InvalidCallback));
}

#[test]
fn empty_callback_is_invalid() {
    assert_eq!(parse_callback(""), Err(AuthError::InvalidCallback));
}

#[test]
fn listener_captures_the_get_request() {
    let mut st = ListenerState::Listening;
    let r = st.on_connection(b"GET /cb?code=ABC&state=XYZ&session_state=1 HTTP/1.1\r\n\r\n");
    assert_eq!(r, ConnectionReaction::ReplyAndStop);
    match st {
        ListenerState::Finished(path) => {
            assert_eq!(path, b"cb?code=ABC&state=XYZ&session_state=1".to_vec());
        }
        ListenerState::Listening => panic!("listener did not finish"),
    }
}

#[test]
fn non_get_connection_is_dropped_and_listening_goes_on() {
    let mut st = ListenerState::Listening;
    let r = st.on_connection(b"POST /favicon.ico HTTP/1.1\r\n\r\n");
    assert_eq!(r, ConnectionReaction::DropAndContinue);
    assert_eq!(st, ListenerState::Listening);
    let r2 = st.on_connection(b"GET /cb?code=A&state=B&session_state=1 HTTP/1.1\r\n");
    assert_eq!(r2, ConnectionReaction::ReplyAndStop);
    match st {
        ListenerState::Finished(path) => {
            assert_eq!(path, b"cb?code=A&state=B&session_state=1".to_vec());
        }
        ListenerState::Listening => panic!("listener did not finish"),
    }
}

#[test]
fn get_without_path_is_malformed() {
    let mut st = ListenerState::Listening;
    let r = st.on_connection(b"GET  nothing-here");
    assert_eq!(r, ConnectionReaction::Fail);
    assert_eq!(st, ListenerState::Listening);
}

#[test]
fn acknowledgement_page_is_the_fixed_literal() {
    assert_eq!(ack_response(), "HTTP/1.1 200 OK\r\n\r\n You can close this window now.");
}
