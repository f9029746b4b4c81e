use radio_tower::client::{session_header_name, Attempt, ClientBuilder, SendStep, CONFLICT};
use radio_tower::config::UserConfig;
use radio_tower::error::ClientError;
use radio_tower::glue::{glue_document, interpreter_glue};

fn client() -> radio_tower::client::Client {
    ClientBuilder::new()
        .transmission_url("http://localhost:9091/transmission/rpc".to_string())
        .build()
        .unwrap()
}

#[test]
fn new_client_holds_the_placeholder_token() {
    let c = client();
    assert_eq!(c.tm_url, "http://localhost:9091/transmission/rpc");
    assert_eq!(c.session_token(), "unknown");
}

#[test]
fn conflict_renews_the_token_once() {
    let mut c = client();
    let step = c.on_reply(Attempt::First, CONFLICT, Some("tok2".to_string()));
    assert_eq!(step, SendStep::Resend("tok2".to_string()));
    assert_eq!(c.session_token(), "tok2");
    assert_eq!(c.on_reply(Attempt::Renewed, 200, None), SendStep::Decode);
    assert_eq!(c.session_token(), "tok2");
}

#[test]
fn second_conflict_exhausts_the_renewal() {
    let mut c = client();
    assert_eq!(
        c.on_reply(Attempt::First, 409, Some("tok2".to_string())),
        SendStep::Resend("tok2".to_string())
    );
    let step = c.on_reply(Attempt::Renewed, 409, Some("tok3".to_string()));
    assert_eq!(step, SendStep::Fail(ClientError::AuthRenewalExhausted));
    assert_eq!(c.session_token(), "tok2");
}

#[test]
fn first_success_is_decoded_without_renewal() {
    let mut c = client();
    assert_eq!(c.on_reply(Attempt::First, 200, Some("other".to_string())), SendStep::Decode);
    assert_eq!(c.session_token(), "unknown");
}

#[test]
fn conflict_without_token_is_a_protocol_error() {
    let mut c = client();
    assert!(matches!(
        c.on_reply(Attempt::First, CONFLICT, None),
        SendStep::Fail(ClientError::Protocol(_))
    ));
    assert_eq!(c.session_token(), "unknown");
}

#[test]
fn header_name() {
    assert_eq!(session_header_name(), "X-Transmission-Session-Id");
}

#[test]
fn default_config() {
    let c = UserConfig::default();
    assert_eq!(c.transmission_url, "http://localhost:9091/transmission/rpc");
    assert_eq!(c.poll_frequency_ms, 2000);
}

#[test]
fn glue_document_text() {
    let s = glue_document("ws://host/ws", "INTERP", "MAIN");
    assert_eq!(
        s,
        "\n<script>\n    var WS_ADDR = \"ws://host/ws\";\n    INTERP\n    MAIN\n    main();\n</script>\n    "
    );
}

#[test]
fn interpreter_glue_embeds_the_interpreter() {
    let s = interpreter_glue("ws://host/ws", "MAIN");
    assert!(s.starts_with("\n<script>\n    var WS_ADDR = \"ws://host/ws\";\n    "));
    assert!(s.ends_with("\n    MAIN\n    main();\n</script>\n    "));
    assert!(s.len() > glue_document("ws://host/ws", "", "MAIN").len());
}
