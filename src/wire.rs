//! The daemon's request and response envelopes, the request built for each
//! operation, and the JSON text of a request.
//!
//! A request is sent as
//! `{"method":<string>,"tag":<integer|null>,"arguments":<object|null>}`;
//! the shape of `arguments` follows from the method. An answer carries a
//! `result` string that is `"success"` when the `arguments` can be trusted.

use vstd::prelude::*;
use vstd::string::StringExecFns;
use crate::error::ClientError;
use crate::json::{
    int_array, json_string, push_decimal, push_int_array, push_json_string, push_string_array,
    push_text, string_array, text, decimal,
};

verus! {

/// Arguments of `session-get`: the session fields wanted.
#[derive(Clone, Debug)]
pub struct GetSessionRequest {
    pub fields: Vec<String>,
}

/// Answer of `session-get`.
#[derive(Clone, Debug)]
pub struct GetSessionResponse {
    pub version: Option<String>,
}

/// Arguments of `torrent-get`: which torrents (all when `ids` is absent) and
/// which of their fields.
#[derive(Clone, Debug)]
pub struct GetTorrentRequest {
    pub ids: Option<Vec<String>>,
    pub fields: Vec<String>,
}

/// Arguments of `torrent-start` and `torrent-stop`: the torrents acted on.
#[derive(Clone, Debug)]
pub struct TorrentActionRequest {
    pub ids: Option<Vec<i64>>,
}

/// The argument payloads. On the wire they carry no tag: the method name of
/// the enclosing request decides which one is meant.
#[derive(Clone, Debug)]
pub enum RequestArgs {
    GetSessionArgs(GetSessionRequest),
    GetTorrentArgs(GetTorrentRequest),
    TorrentStopArgs(TorrentActionRequest),
    TorrentStartArgs(TorrentActionRequest),
}

/// A request envelope.
#[derive(Clone, Debug)]
pub struct Request {
    pub method: String,
    pub tag: Option<u32>,
    pub arguments: Option<RequestArgs>,
}

/// An answer envelope whose arguments have been decoded as `T`.
#[derive(Clone, Debug)]
pub struct Response<T> {
    pub arguments: T,
    pub result: String,
    pub tag: Option<u32>,
}

/// An answer envelope of a method that returns no arguments.
#[derive(Clone, Debug)]
pub struct ResponseNoArgs {
    pub result: String,
    pub tag: Option<u32>,
}

/// The `result` text of a successful answer.
pub open spec fn success_text() -> Seq<char> {
    "success"@
}

impl<T> Response<T> {
    /// The arguments of a successful answer; any other result is a protocol
    /// error that carries the daemon's result text, and the arguments are
    /// then dropped unread.
    pub fn into_arguments(self) -> (r: Result<T, ClientError>)
        ensures
            self.result@ == success_text() ==> r == Ok::<T, ClientError>(self.arguments),
            self.result@ != success_text() ==> r == Err::<T, ClientError>(
                ClientError::Protocol(self.result),
            ),
    {
        if self.result == "success".to_owned() {
            Ok(self.arguments)
        } else {
            Err(ClientError::Protocol(self.result))
        }
    }
}

impl ResponseNoArgs {
    /// Succeeds exactly when the daemon reported success.
    pub fn into_result(self) -> (r: Result<(), ClientError>)
        ensures
            self.result@ == success_text() ==> r == Ok::<(), ClientError>(()),
            self.result@ != success_text() ==> r == Err::<(), ClientError>(
                ClientError::Protocol(self.result),
            ),
    {
        if self.result == "success".to_owned() {
            Ok(())
        } else {
            Err(ClientError::Protocol(self.result))
        }
    }
}

/// The torrent fields asked for by a torrent summary listing.
pub open spec fn summary_fields() -> Seq<Seq<char>> {
    seq![
        "id"@,
        "name"@,
        "percentComplete"@,
        "status"@,
        "eta"@,
        "percentDone"@,
        "sizeWhenDone"@,
        "pieces"@,
        "pieceCount"@,
        "peersConnected"@,
        "peersGettingFromUs"@,
        "peersSendingToUs"@,
        "rateDownload"@,
        "rateUpload"@,
    ]
}

/// The texts of a vector of strings.
pub open spec fn texts(v: Seq<String>) -> Seq<Seq<char>> {
    v.map_values(|s: String| s@)
}

impl Request {
    /// `session-get` for the given session fields.
    pub fn session_get(fields: Vec<String>) -> (r: Request)
        ensures
            r.method@ == "session-get"@,
            r.tag is None,
            r.arguments matches Some(RequestArgs::GetSessionArgs(a)) && a.fields@ == fields@,
    {
        Request {
            method: "session-get".to_owned(),
            tag: None,
            arguments: Some(RequestArgs::GetSessionArgs(GetSessionRequest { fields })),
        }
    }

    /// `session-stats`, which takes no arguments.
    pub fn session_stats() -> (r: Request)
        ensures
            r.method@ == "session-stats"@,
            r.tag is None,
            r.arguments is None,
    {
        Request { method: "session-stats".to_owned(), tag: None, arguments: None }
    }

    /// `torrent-get` of the given fields of every torrent.
    pub fn torrent_get(fields: Vec<String>) -> (r: Request)
        ensures
            r.method@ == "torrent-get"@,
            r.tag is None,
            r.arguments matches Some(RequestArgs::GetTorrentArgs(a)) && a.ids is None && a.fields@
                == fields@,
    {
        Request {
            method: "torrent-get".to_owned(),
            tag: None,
            arguments: Some(RequestArgs::GetTorrentArgs(GetTorrentRequest { ids: None, fields })),
        }
    }

    /// `torrent-get` of the fields that a torrent summary holds, for every
    /// torrent.
    pub fn torrent_summary() -> (r: Request)
        ensures
            r.method@ == "torrent-get"@,
            r.tag is None,
            r.arguments matches Some(RequestArgs::GetTorrentArgs(a)) && a.ids is None && texts(
                a.fields@,
            ) == summary_fields(),
    {
        let fields: Vec<String> = vec![
            "id".to_owned(),
            "name".to_owned(),
            "percentComplete".to_owned(),
            "status".to_owned(),
            "eta".to_owned(),
            "percentDone".to_owned(),
            "sizeWhenDone".to_owned(),
            "pieces".to_owned(),
            "pieceCount".to_owned(),
            "peersConnected".to_owned(),
            "peersGettingFromUs".to_owned(),
            "peersSendingToUs".to_owned(),
            "rateDownload".to_owned(),
            "rateUpload".to_owned(),
        ];
        assert(texts(fields@) =~= summary_fields());
        Request::torrent_get(fields)
    }

    /// `torrent-<action>` (`start` or `stop`) of the one torrent `id`.
    pub fn torrent_action(action: &str, id: i64) -> (r: Request)
        ensures
            r.method@ == "torrent-"@ + action@,
            r.tag is None,
            r.arguments matches Some(RequestArgs::TorrentStopArgs(a)) && a.ids matches Some(ids)
                && ids@ == seq![id],
    {
        let mut method = "torrent-".to_owned();
        method.append(action);
        Request {
            method,
            tag: None,
            arguments: Some(RequestArgs::TorrentStopArgs(TorrentActionRequest { ids: Some(vec![id]) })),
        }
    }
}

/// JSON text of an argument payload. Absent id lists are left out.
pub open spec fn args_json(a: RequestArgs) -> Seq<u8> {
    match a {
        RequestArgs::GetSessionArgs(r) => text("{\"fields\":"@) + string_array(texts(r.fields@))
            + text("}"@),
        RequestArgs::GetTorrentArgs(r) => match r.ids {
            Some(ids) => text("{\"ids\":"@) + string_array(texts(ids@)) + text(",\"fields\":"@)
                + string_array(texts(r.fields@)) + text("}"@),
            None => text("{\"fields\":"@) + string_array(texts(r.fields@)) + text("}"@),
        },
        RequestArgs::TorrentStopArgs(r) => action_json(r),
        RequestArgs::TorrentStartArgs(r) => action_json(r),
    }
}

/// JSON text of the arguments of a start or stop action.
pub open spec fn action_json(r: TorrentActionRequest) -> Seq<u8> {
    match r.ids {
        Some(ids) => text("{\"ids\":"@) + int_array(ids@) + text("}"@),
        None => text("{}"@),
    }
}

/// JSON text of an optional tag.
pub open spec fn tag_json(t: Option<u32>) -> Seq<u8> {
    match t {
        Some(n) => decimal(n as nat),
        None => text("null"@),
    }
}

/// JSON text of optional arguments.
pub open spec fn opt_args_json(a: Option<RequestArgs>) -> Seq<u8> {
    match a {
        Some(x) => args_json(x),
        None => text("null"@),
    }
}

/// JSON text of a request envelope, fields in the order method, tag,
/// arguments.
pub open spec fn request_json(r: Request) -> Seq<u8> {
    text("{\"method\":"@) + json_string(r.method@) + text(",\"tag\":"@) + tag_json(r.tag) + text(
        ",\"arguments\":"@,
    ) + opt_args_json(r.arguments) + text("}"@)
}

fn push_action_args(out: &mut Vec<u8>, r: &TorrentActionRequest)
    ensures
        final(out)@ == old(out)@ + action_json(*r),
{
    let ghost start = out@;
    match &r.ids {
        Some(ids) => {
            push_text(out, "{\"ids\":");
            push_int_array(out, ids);
            push_text(out, "}");
        },
        None => {
            push_text(out, "{}");
        },
    }
    assert(out@ =~= start + action_json(*r));
}

/// Appends the JSON text of an argument payload.
pub fn push_args(out: &mut Vec<u8>, a: &RequestArgs)
    ensures
        final(out)@ == old(out)@ + args_json(*a),
{
    let ghost start = out@;
    match a {
        RequestArgs::GetSessionArgs(r) => {
            push_text(out, "{\"fields\":");
            push_string_array(out, &r.fields);
            push_text(out, "}");
        },
        RequestArgs::GetTorrentArgs(r) => {
            match &r.ids {
                Some(ids) => {
                    push_text(out, "{\"ids\":");
                    push_string_array(out, ids);
                    push_text(out, ",\"fields\":");
                },
                None => {
                    push_text(out, "{\"fields\":");
                },
            }
            push_string_array(out, &r.fields);
            push_text(out, "}");
        },
        RequestArgs::TorrentStopArgs(r) => {
            push_action_args(out, r);
        },
        RequestArgs::TorrentStartArgs(r) => {
            push_action_args(out, r);
        },
    }
    assert(out@ =~= start + args_json(*a));
}

impl Request {
    /// The JSON text of the envelope, as UTF-8 bytes.
    pub fn to_json(&self) -> (r: Vec<u8>)
        ensures
            r@ == request_json(*self),
    {
        let mut out: Vec<u8> = Vec::new();
        push_text(&mut out, "{\"method\":");
        push_json_string(&mut out, self.method.as_str());
        push_text(&mut out, ",\"tag\":");
        match self.tag {
            Some(n) => {
                push_decimal(&mut out, n as u64);
            },
            None => {
                push_text(&mut out, "null");
            },
        }
        push_text(&mut out, ",\"arguments\":");
        match &self.arguments {
            Some(a) => {
                push_args(&mut out, a);
            },
            None => {
                push_text(&mut out, "null");
            },
        }
        push_text(&mut out, "}");
        assert(out@ =~= request_json(*self));
        out
    }
}

} // verus!
