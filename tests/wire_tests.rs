use radio_tower::error::ClientError;
use radio_tower::wire::{
    GetTorrentRequest, Request, RequestArgs, Response, ResponseNoArgs, TorrentActionRequest,
};

fn text(r: &Request) -> String {
    String::from_utf8(r.to_json()).unwrap()
}

#[test]
fn session_get_request_text() {
    let r = Request::session_get(vec!["version".to_string()]);
    assert_eq!(
        text(&r),
        r#"{"method":"session-get","tag":null,"arguments":{"fields":["version"]}}"#
    );
}

#[test]
fn session_stats_request_text() {
    assert_eq!(
        text(&Request::session_stats()),
        r#"{"method":"session-stats","tag":null,"arguments":null}"#
    );
}

#[test]
fn torrent_get_request_text() {
    let r = Request::torrent_get(vec!["id".to_string(), "name".to_string()]);
    assert_eq!(
        text(&r),
        r#"{"method":"torrent-get","tag":null,"arguments":{"fields":["id","name"]}}"#
    );
}

#[test]
fn torrent_get_with_ids_and_tag() {
    let r = Request {
        method: "torrent-get".to_string(),
        tag: Some(42),
        arguments: Some(RequestArgs::GetTorrentArgs(GetTorrentRequest {
            ids: Some(vec!["abc".to_string()]),
            fields: vec![],
        })),
    };
    assert_eq!(
        text(&r),
        r#"{"method":"torrent-get","tag":42,"arguments":{"ids":["abc"],"fields":[]}}"#
    );
}

#[test]
fn torrent_summary_asks_for_every_summary_field() {
    let r = Request::torrent_summary();
    let v: serde_json::Value = serde_json::from_slice(&r.to_json()).unwrap();
    assert_eq!(v["method"], "torrent-get");
    let fields: Vec<&str> = v["arguments"]["fields"]
        .as_array()
        .unwrap()
        .iter()
        .map(|f| f.as_str().unwrap())
        .collect();
    assert_eq!(
        fields,
        vec![
            "id",
            "name",
            "percentComplete",
            "status",
            "eta",
            "percentDone",
            "sizeWhenDone",
            "pieces",
            "pieceCount",
            "peersConnected",
            "peersGettingFromUs",
            "peersSendingToUs",
            "rateDownload",
            "rateUpload",
        ]
    );
    assert!(v["arguments"].get("ids").is_none());
}

#[test]
fn torrent_action_request_text() {
    assert_eq!(
        text(&Request::torrent_action("start", 5)),
        r#"{"method":"torrent-start","tag":null,"arguments":{"ids":[5]}}"#
    );
    assert_eq!(
        text(&Request::torrent_action("stop", -1234567890123)),
        r#"{"method":"torrent-stop","tag":null,"arguments":{"ids":[-1234567890123]}}"#
    );
}

#[test]
fn extreme_ids_are_written_in_full() {
    let r = Request {
        method: "torrent-stop".to_string(),
        tag: Some(u32::MAX),
        arguments: Some(RequestArgs::TorrentStartArgs(TorrentActionRequest {
            ids: Some(vec![i64::MIN, 0, i64::MAX]),
        })),
    };
    assert_eq!(
        text(&r),
        r#"{"method":"torrent-stop","tag":4294967295,"arguments":{"ids":[-9223372036854775808,0,9223372036854775807]}}"#
    );
}

#[test]
fn action_without_ids_is_an_empty_object() {
    let r = Request {
        method: "torrent-start".to_string(),
        tag: None,
        arguments: Some(RequestArgs::TorrentStartArgs(TorrentActionRequest { ids: None })),
    };
    assert_eq!(text(&r), r#"{"method":"torrent-start","tag":null,"arguments":{}}"#);
}

#[test]
fn strings_are_escaped_like_serde_json() {
    let tricky = "a\"b\\c\nd\te\u{1}f\u{8}\u{c}\r/é€";
    let r = Request::session_get(vec![tricky.to_string()]);
    let expected = format!(
        r#"{{"method":"session-get","tag":null,"arguments":{{"fields":[{}]}}}}"#,
        serde_json::to_string(tricky).unwrap()
    );
    assert_eq!(text(&r), expected);
    let v: serde_json::Value = serde_json::from_slice(&r.to_json()).unwrap();
    assert_eq!(v["arguments"]["fields"][0], tricky);
}

#[test]
fn successful_response_yields_its_arguments() {
    let resp = Response { arguments: vec![1u8, 2, 3], result: "success".to_string(), tag: None };
    assert_eq!(resp.into_arguments(), Ok(vec![1u8, 2, 3]));
}

#[test]
fn failed_response_is_a_protocol_error() {
    let resp = Response { arguments: 7u32, result: "no such torrent".to_string(), tag: Some(1) };
    assert_eq!(resp.into_arguments(), Err(ClientError::Protocol("no such torrent".to_string())));
}

#[test]
fn response_without_arguments() {
    let ok = ResponseNoArgs { result: "success".to_string(), tag: None };
    assert_eq!(ok.into_result(), Ok(()));
    let bad = ResponseNoArgs { result: "error-string".to_string(), tag: None };
    assert_eq!(bad.into_result(), Err(ClientError::Protocol("error-string".to_string())));
}

#[test]
fn encoded_request_parses_back_to_its_parts() {
    let r = Request::torrent_action("stop", 17);
    let v: serde_json::Value = serde_json::from_slice(&r.to_json()).unwrap();
    assert_eq!(v["method"], "torrent-stop");
    assert!(v["tag"].is_null());
    assert_eq!(v["arguments"]["ids"][0], 17);
}
