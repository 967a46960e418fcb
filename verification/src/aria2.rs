//! Talking to Aria2.
//!
//! The engine can hand Real-Debrid downloads to a local or external Aria2
//! instance, which brings rate-limiting, segmentation and visibility in AriaNg.
//! This module builds the JSON-RPC requests and reads the replies:
//!
//! - `get_version`: health and connectivity probe (`aria2.getVersion`)
//! - `add_uri`: queue a URL with per-download options
//! - `tell_status`: poll a download (completion, path, error)
//! - `remove`: drop an active or paused download
//!
//! Aria2 also supports push notifications, but a poll loop driven by the
//! engine's own job queue is simpler. The default RPC endpoint is
//! `http://127.0.0.1:6800/jsonrpc`; a secret, if set, is sent as `token:…`.

use crate::error::Error;
use crate::json::{self, part_at, read_text, take_integer, take_text, JsonPart};
use crate::task;
use crate::text::{self, is_blank, trimmed};
use base64::Engine;
use vstd::prelude::*;

verus! {

/// A single Aria2 file download.
#[derive(Debug, Clone, PartialEq, Eq)]
pub struct Aria2File {
    /// Absolute path to the downloaded file once complete.
    pub path: String,
    /// Total length in bytes.
    pub length: String,
    /// Bytes already downloaded.
    pub completed_length: String,
    /// true once the file is fully downloaded.
    pub selected: String,
}

/// The fields of an `aria2.tellStatus` response that matter here.
#[derive(Debug, Clone, Default, PartialEq, Eq)]
pub struct AriaStatus {
    pub gid: String,
    /// active | waiting | paused | error | complete | removed
    pub status: String,
    /// Total length (bytes) as a decimal string.
    pub total_length: String,
    /// Bytes downloaded so far.
    pub completed_length: String,
    /// Files this download produces.
    pub files: Vec<Aria2File>,
    pub error_code: Option<String>,
    /// Human-readable error message (base64 encoded by Aria2).
    pub error_message: Option<String>,
    /// Directory the file lives in (set when it was queued).
    pub dir: String,
}

/// Options set per download when queueing via Aria2.
#[derive(Debug, Clone, Default, PartialEq, Eq)]
pub struct AddUriOptions {
    /// Download directory for this file.
    pub dir: String,
    /// Per-file max speed (aria2 format: "0" = unlimited, e.g. "5M").
    pub max_download_limit: Option<String>,
    /// Number of connections per server (1 = single connection, safer for
    /// Real-Debrid).
    pub max_connection_per_server: Option<String>,
    /// Keep the downloader restart-safe: continue partial files on restart.
    pub continue_field: Option<String>,
    /// A human label shown in AriaNg for this transfer.
    pub title: Option<String>,
}

/// Connection config for the Aria2 RPC endpoint.
#[derive(Debug, Clone, Default, PartialEq, Eq)]
pub struct AriaConfig {
    /// e.g. `http://127.0.0.1:6800/jsonrpc`. Without it, or with a blank one,
    /// Aria2 is disabled.
    pub rpc_url: Option<String>,
    /// RPC secret; sent as `token:<secret>`.
    pub secret: Option<String>,
    /// Default per-download speed limit (aria2 format). None = unlimited.
    pub max_download_limit: Option<String>,
}

/// Whether a URL is given and is not blank.
pub open spec fn url_given(url: Option<Seq<char>>) -> bool {
    url matches Some(u) && !text::blank(u)
}

impl AriaConfig {
    /// True when an RPC URL is configured (Aria2 backend enabled).
    pub fn enabled(&self) -> (r: bool)
        ensures
            r == url_given(text::text_of(self.rpc_url)),
    {
        match &self.rpc_url {
            Some(u) => !is_blank(u.as_str()),
            None => false,
        }
    }
}

// ---------------------------------------------------------------------------
// Requests
// ---------------------------------------------------------------------------

/// An option of a download, under Aria2's name for it.
#[derive(Debug, Clone, PartialEq, Eq)]
pub struct OptionEntry {
    pub name: String,
    pub value: String,
}

/// The names and values of some options.
pub open spec fn entry_views(entries: Seq<OptionEntry>) -> Seq<(Seq<char>, Seq<char>)> {
    entries.map_values(|e: OptionEntry| (e.name@, e.value@))
}

/// The entry for an option that may be left out.
pub open spec fn optional_entry(name: Seq<char>, value: Option<String>) -> Seq<
    (Seq<char>, Seq<char>),
> {
    match value {
        Some(v) => seq![(name, v@)],
        None => Seq::empty(),
    }
}

/// What is sent of some options: each that is set, under Aria2's name.
pub open spec fn entries_of(o: AddUriOptions) -> Seq<(Seq<char>, Seq<char>)> {
    seq![("dir"@, o.dir@)] + optional_entry("max-download-limit"@, o.max_download_limit)
        + optional_entry("max-connection-per-server"@, o.max_connection_per_server)
        + optional_entry("continue"@, o.continue_field) + optional_entry("title"@, o.title)
}

fn add_entry(entries: &mut Vec<OptionEntry>, name: &str, value: &Option<String>)
    ensures
        entry_views(final(entries)@) == entry_views(old(entries)@) + optional_entry(
            name@,
            *value,
        ),
{
    let ghost before = entries@;
    if let Some(v) = value {
        entries.push(OptionEntry { name: name.to_owned(), value: v.clone() });
    }
    assert(entry_views(entries@) =~= entry_views(before) + optional_entry(name@, *value));
}

/// The options as they are sent, in order: an object with these members.
pub fn option_entries(o: &AddUriOptions) -> (r: Vec<OptionEntry>)
    ensures
        entry_views(r@) == entries_of(*o),
{
    let mut entries: Vec<OptionEntry> = Vec::new();
    entries.push(OptionEntry { name: "dir".to_owned(), value: o.dir.clone() });
    assert(entry_views(entries@) =~= seq![("dir"@, o.dir@)]);
    add_entry(&mut entries, "max-download-limit", &o.max_download_limit);
    add_entry(&mut entries, "max-connection-per-server", &o.max_connection_per_server);
    add_entry(&mut entries, "continue", &o.continue_field);
    add_entry(&mut entries, "title", &o.title);
    entries
}

/// A parameter of a JSON-RPC call.
#[derive(Debug, Clone, PartialEq, Eq)]
pub enum RpcParam {
    Text(String),
    Texts(Vec<String>),
    Options(Vec<OptionEntry>),
}

/// A JSON-RPC request.
#[derive(Debug, Clone, PartialEq, Eq)]
pub struct RpcRequest {
    pub jsonrpc: String,
    pub id: String,
    pub method: String,
    pub params: Vec<RpcParam>,
}

/// Where Aria2 is and how to be let in.
#[derive(Debug, Clone, PartialEq, Eq)]
pub struct Aria2Client {
    pub url: String,
    pub secret: Option<String>,
}

/// Whether a parameter is this text.
pub open spec fn is_text(p: RpcParam, t: Seq<char>) -> bool {
    p matches RpcParam::Text(s) && s@ == t
}

/// Whether a parameter is this list of texts.
pub open spec fn is_texts(p: RpcParam, list: Seq<Seq<char>>) -> bool {
    p matches RpcParam::Texts(v) && text::texts_of(v@) == list
}

/// Whether a parameter is an object with these members.
pub open spec fn is_options(p: RpcParam, entries: Seq<(Seq<char>, Seq<char>)>) -> bool {
    p matches RpcParam::Options(v) && entry_views(v@) == entries
}

/// Whether `sent` is what goes to Aria2 for a call with some parameters: the
/// secret comes first, where there is one.
pub open spec fn with_token(
    secret: Option<Seq<char>>,
    params: Seq<RpcParam>,
    sent: Seq<RpcParam>,
) -> bool {
    match secret {
        Some(s) => {
            &&& sent.len() == params.len() + 1
            &&& is_text(sent[0], "token:"@ + s)
            &&& sent.skip(1) == params
        },
        None => sent == params,
    }
}

/// Whether a request is the one for a call of a method with some parameters.
pub open spec fn is_call(
    req: RpcRequest,
    secret: Option<Seq<char>>,
    method: Seq<char>,
    params: Seq<RpcParam>,
) -> bool {
    &&& req.jsonrpc@ == "2.0"@
    &&& req.id@ == "mega-dl"@
    &&& req.method@ == method
    &&& with_token(secret, params, req.params@)
}

impl Aria2Client {
    /// Builds a client from a config. Returns `None` when Aria2 is disabled.
    pub fn from_config(cfg: &AriaConfig) -> (r: Option<Self>)
        ensures
            r is Some <==> url_given(text::text_of(cfg.rpc_url)),
            r matches Some(c) ==> {
                &&& c.url@ == text::trim(cfg.rpc_url->0@)
                &&& text::text_of(c.secret) == text::text_of(cfg.secret)
            },
    {
        match &cfg.rpc_url {
            Some(u) => {
                let url = trimmed(u.as_str());
                if url.as_str().is_empty() {
                    return None;
                }
                Some(Aria2Client { url, secret: cfg.secret.clone() })
            },
            None => None,
        }
    }

    /// A JSON-RPC request. Adds the `token:` parameter first when a secret is
    /// configured.
    pub fn call(&self, method: &str, params: Vec<RpcParam>) -> (r: RpcRequest)
        ensures
            is_call(r, text::text_of(self.secret), method@, params@),
    {
        let ghost plain = params@;
        let mut params = params;
        if let Some(secret) = &self.secret {
            let mut token = "token:".to_owned();
            token.append(secret.as_str());
            params.insert(0, RpcParam::Text(token));
            assert(params@.skip(1) =~= plain);
        }
        RpcRequest {
            jsonrpc: "2.0".to_owned(),
            id: "mega-dl".to_owned(),
            method: method.to_owned(),
            params,
        }
    }

    /// `aria2.getVersion`: connectivity and version probe.
    pub fn get_version(&self) -> (r: RpcRequest)
        ensures
            is_call(
                r,
                text::text_of(self.secret),
                "aria2.getVersion"@,
                Seq::<RpcParam>::empty(),
            ),
    {
        self.call("aria2.getVersion", Vec::new())
    }

    /// `aria2.addUri`: queue a download.
    pub fn add_uri(&self, uris: &[String], options: AddUriOptions) -> (r: RpcRequest)
        ensures
            exists|p: RpcParam, q: RpcParam|
                #![trigger is_texts(p, text::texts_of(uris@)), is_options(q, entries_of(options))]
                is_texts(p, text::texts_of(uris@)) && is_options(q, entries_of(options))
                    && is_call(
                    r,
                    text::text_of(self.secret),
                    "aria2.addUri"@,
                    seq![p, q],
                ),
    {
        let mut list: Vec<String> = Vec::new();
        for i in 0..uris.len()
            invariant
                text::texts_of(list@) == text::texts_of(uris@).take(i as int),
        {
            let ghost before = list@;
            list.push(uris[i].clone());
            assert(text::texts_of(list@) =~= text::texts_of(before).push(uris@[i as int]@));
            assert(text::texts_of(list@) =~= text::texts_of(uris@).take(i + 1));
        }
        assert(text::texts_of(uris@).take(uris@.len() as int) =~= text::texts_of(uris@));
        let mut params: Vec<RpcParam> = Vec::new();
        params.push(RpcParam::Texts(list));
        params.push(RpcParam::Options(option_entries(&options)));
        let ghost p = params@[0];
        let ghost q = params@[1];
        assert(is_texts(p, text::texts_of(uris@)));
        assert(is_options(q, entries_of(options)));
        assert(params@ =~= seq![p, q]);
        self.call("aria2.addUri", params)
    }

    /// `aria2.tellStatus` for a download.
    pub fn tell_status(&self, gid: &str) -> (r: RpcRequest)
        ensures
            exists|p: RpcParam| #[trigger]
                is_text(p, gid@) && is_call(
                    r,
                    text::text_of(self.secret),
                    "aria2.tellStatus"@,
                    seq![p],
                ),
    {
        self.call_on("aria2.tellStatus", gid)
    }

    /// `aria2.remove` a download (works for active and waiting ones; also
    /// pauses).
    pub fn remove(&self, gid: &str) -> (r: RpcRequest)
        ensures
            exists|p: RpcParam| #[trigger]
                is_text(p, gid@) && is_call(
                    r,
                    text::text_of(self.secret),
                    "aria2.remove"@,
                    seq![p],
                ),
    {
        self.call_on("aria2.remove", gid)
    }

    /// `aria2.purgeDownloadResult`: clear finished results (keeps the queue
    /// tidy). All of them are cleared, whichever ids are given.
    pub fn purge(&self, _gids: &[String]) -> (r: RpcRequest)
        ensures
            is_call(
                r,
                text::text_of(self.secret),
                "aria2.purgeDownloadResult"@,
                Seq::<RpcParam>::empty(),
            ),
    {
        self.call("aria2.purgeDownloadResult", Vec::new())
    }

    /// A request about one download.
    fn call_on(&self, method: &str, gid: &str) -> (r: RpcRequest)
        ensures
            exists|p: RpcParam| #[trigger]
                is_text(p, gid@) && is_call(r, text::text_of(self.secret), method@, seq![p]),
    {
        let mut params: Vec<RpcParam> = Vec::new();
        params.push(RpcParam::Text(gid.to_owned()));
        let ghost p = params@[0];
        assert(is_text(p, gid@));
        assert(params@ =~= seq![p]);
        self.call(method, params)
    }
}

// ---------------------------------------------------------------------------
// Replies
// ---------------------------------------------------------------------------

/// The `error` member of a reply; its own members may be missing.
#[derive(Debug, Clone, PartialEq, Eq)]
pub struct RpcFault {
    pub code: Option<i64>,
    pub message: Option<String>,
}

/// Whether `e` is the error for a fault in the reply to a call.
pub open spec fn reports(e: Error, called: Seq<char>, fault: RpcFault) -> bool {
    e matches Error::Aria2 { method, code, message } && {
        &&& method@ == called
        &&& code == match fault.code {
            Some(c) => c as int,
            None => -1,
        }
        &&& message@ == match fault.message {
            Some(m) => m@,
            None => "aria2 rpc error"@,
        }
    }
}

/// Whether an error is `Other` with this text.
pub open spec fn is_other(e: Error, t: Seq<char>) -> bool {
    e matches Error::Other(m) && m@ == t
}

/// What a call gives, from the `error` and `result` members of its reply.
pub fn rpc_result<T>(method: &str, error: Option<RpcFault>, result: Option<T>) -> (r: Result<
    T,
    Error,
>)
    ensures
        r is Ok <==> error is None && result is Some,
        r matches Ok(t) ==> result == Some(t),
        r matches Err(e) ==> match error {
            Some(fault) => reports(e, method@, fault),
            None => is_other(e, "aria2 rpc: missing result"@),
        },
{
    if let Some(fault) = error {
        let code: i64 = match fault.code {
            Some(c) => c,
            None => -1,
        };
        let message = match fault.message {
            Some(m) => m,
            None => "aria2 rpc error".to_owned(),
        };
        return Err(Error::Aria2 { method: method.to_owned(), code, message });
    }
    match result {
        Some(t) => Ok(t),
        None => Err(Error::Other("aria2 rpc: missing result".to_owned())),
    }
}

/// The version in a reply to `aria2.getVersion`, given its `version` member
/// if that is a text.
pub fn version_in(version: Option<String>) -> (r: String)
    ensures
        r@ == match version {
            Some(v) => v@,
            None => "unknown"@,
        },
{
    match version {
        Some(v) => v,
        None => "unknown".to_owned(),
    }
}

/// The id in a reply to `aria2.addUri`, given the result if that is a text.
pub fn gid_in(result: Option<String>) -> (r: Result<String, Error>)
    ensures
        r is Ok <==> result is Some,
        r matches Ok(gid) ==> result == Some(gid),
        r matches Err(e) ==> is_other(e, "aria2.addUri returned no gid"@),
{
    match result {
        Some(gid) => Ok(gid),
        None => Err(Error::Other("aria2.addUri returned no gid".to_owned())),
    }
}

/// What a reply's members are.
pub ghost struct ReplyView {
    /// Whether the body is JSON.
    pub is_json: bool,
    /// Whether there is an `error`, and its `code` and `message`.
    pub has_error: bool,
    pub code: Option<i64>,
    pub message: Option<Seq<char>>,
    /// Whether there is a `result`.
    pub has_result: bool,
}

/// The members of a reply with this body.
pub open spec fn reply_view(body: Seq<u8>) -> ReplyView {
    ReplyView {
        is_json: json::json_at(body, "/error"@) is Some,
        has_error: json::json_at(body, "/error"@) matches Some(Some(_)),
        code: json::integer_found(json::json_at(body, "/error/code"@)),
        message: json::text_found(json::json_at(body, "/error/message"@)),
        has_result: json::json_at(body, "/result"@) matches Some(Some(_)),
    }
}

/// Whether a reply brings a result.
pub open spec fn succeeds(reply: ReplyView) -> bool {
    reply.is_json && !reply.has_error && reply.has_result
}

/// Whether `e` is the error for a reply to a call that brings none.
pub open spec fn fails_with(reply: ReplyView, called: Seq<char>, e: Error) -> bool {
    if !reply.is_json {
        e matches Error::Http(m) && m@ == "error decoding response body"@
    } else if reply.has_error {
        e matches Error::Aria2 { method, code, message } && {
            &&& method@ == called
            &&& code == match reply.code {
                Some(c) => c as int,
                None => -1,
            }
            &&& message@ == match reply.message {
                Some(m) => m,
                None => "aria2 rpc error"@,
            }
        }
    } else {
        is_other(e, "aria2 rpc: missing result"@)
    }
}

/// Reads the reply to a call from the body of the response: what stands at the
/// top of its `result`, or an error.
pub fn read_reply(method: &str, body: &Vec<u8>) -> (r: Result<JsonPart, Error>)
    ensures
        r is Ok <==> succeeds(reply_view(body@)),
        r matches Ok(part) ==> json::json_at(body@, "/result"@) == Some(Some(part@)),
        r matches Err(e) ==> fails_with(reply_view(body@), method@, e),
{
    let error = part_at(body, "/error");
    let found = match error {
        None => return Err(Error::Http("error decoding response body".to_owned())),
        Some(found) => found,
    };
    let fault = match found {
        Some(_) => Some(
            RpcFault {
                code: take_integer(part_at(body, "/error/code")),
                message: take_text(part_at(body, "/error/message")),
            },
        ),
        None => None,
    };
    let result = match part_at(body, "/result") {
        Some(found) => found,
        None => None,
    };
    rpc_result(method, fault, result)
}

/// Reads the reply to `aria2.getVersion`.
pub fn read_version(body: &Vec<u8>) -> (r: Result<String, Error>)
    ensures
        r is Ok <==> succeeds(reply_view(body@)),
        r matches Ok(v) ==> v@ == match json::text_found(
            json::json_at(body@, "/result/version"@),
        ) {
            Some(t) => t,
            None => "unknown"@,
        },
        r matches Err(e) ==> fails_with(reply_view(body@), "aria2.getVersion"@, e),
{
    match read_reply("aria2.getVersion", body) {
        Ok(_) => Ok(version_in(take_text(part_at(body, "/result/version")))),
        Err(e) => Err(e),
    }
}

/// Reads the reply to `aria2.addUri`: the id of the download.
pub fn read_gid(body: &Vec<u8>) -> (r: Result<String, Error>)
    ensures
        r is Ok <==> succeeds(reply_view(body@)) && json::text_found(
            json::json_at(body@, "/result"@),
        ) is Some,
        r matches Ok(gid) ==> json::text_found(json::json_at(body@, "/result"@)) == Some(gid@),
        r matches Err(e) ==> if succeeds(reply_view(body@)) {
            is_other(e, "aria2.addUri returned no gid"@)
        } else {
            fails_with(reply_view(body@), "aria2.addUri"@, e)
        },
{
    match read_reply("aria2.addUri", body) {
        Ok(part) => gid_in(take_text(Some(Some(part)))),
        Err(e) => Err(e),
    }
}

/// What a removal gives, from its result read as a text: nothing, or the
/// message of why the result is none.
pub fn removed_in(result: Result<String, String>) -> (r: Result<(), Error>)
    ensures
        r is Ok <==> result is Ok,
        r matches Err(e) ==> e == Error::Json(result->Err_0),
{
    match result {
        Ok(_) => Ok(()),
        Err(m) => Err(Error::Json(m)),
    }
}

/// Reads the reply to `aria2.remove`, whose result is the id of the download
/// as a text.
pub fn read_removed(body: &Vec<u8>) -> (r: Result<(), Error>)
    ensures
        r is Ok <==> succeeds(reply_view(body@)) && json::text_found(
            json::json_at(body@, "/result"@),
        ) is Some,
        r matches Err(e) ==> if succeeds(reply_view(body@)) {
            e matches Error::Json(m) && json::json_text(body@, "/result"@)
                == Err::<Seq<char>, Seq<char>>(m@)
        } else {
            fails_with(reply_view(body@), "aria2.remove"@, e)
        },
{
    match read_reply("aria2.remove", body) {
        Ok(_) => removed_in(read_text(body, "/result")),
        Err(e) => Err(e),
    }
}

/// Reads the reply to `aria2.purgeDownloadResult`, whose result may be
/// anything.
pub fn read_purged(body: &Vec<u8>) -> (r: Result<(), Error>)
    ensures
        r is Ok <==> succeeds(reply_view(body@)),
        r matches Err(e) ==> fails_with(reply_view(body@), "aria2.purgeDownloadResult"@, e),
{
    match read_reply("aria2.purgeDownloadResult", body) {
        Ok(_) => Ok(()),
        Err(e) => Err(e),
    }
}

// ---------------------------------------------------------------------------
// Error messages
// ---------------------------------------------------------------------------

/// The bytes that a text denotes in the standard base64 alphabet with
/// padding; none if the text is not of that form.
pub uninterp spec fn base64_standard_decode(s: Seq<char>) -> Option<Seq<u8>>;

/// `Engine::decode` of the `base64` crate, with its engine
/// `general_purpose::STANDARD`. The result is a function of the text alone:
/// that much is believed. Which texts are accepted, and which bytes they
/// denote, is not stated.
#[verifier::external_body]
fn decode_standard(s: &str) -> (r: Option<Vec<u8>>)
    ensures
        task::bytes_view(r) == base64_standard_decode(s@),
{
    base64::engine::general_purpose::STANDARD.decode(s).ok()
}

/// `String::from_utf8` of the standard library: a string where the bytes are
/// valid UTF-8, which holds the characters that they encode.
#[verifier::external_body]
fn utf8_text(bytes: Vec<u8>) -> (r: Option<String>)
    ensures
        r is Some <==> vstd::utf8::valid_utf8(bytes@),
        r matches Some(s) ==> s@ == vstd::utf8::decode_utf8(bytes@),
{
    String::from_utf8(bytes).ok()
}

/// The text of an error message, given the bytes that it denotes in base64:
/// what they encode, or the message as it came.
pub open spec fn message_text(raw: Seq<char>, decoded: Option<Seq<u8>>) -> Seq<char> {
    match decoded {
        Some(b) if vstd::utf8::valid_utf8(b) => vstd::utf8::decode_utf8(b),
        _ => raw,
    }
}

/// The text of an error message that may be encoded in base64.
pub open spec fn plain_message(raw: Seq<char>) -> Seq<char> {
    if raw.len() == 0 {
        raw
    } else {
        message_text(raw, base64_standard_decode(raw))
    }
}

/// Picks the text of an error message, given the bytes that it denotes in
/// base64, if it does.
pub fn message_from(raw: &str, decoded: Option<Vec<u8>>) -> (r: String)
    ensures
        r@ == message_text(raw@, task::bytes_view(decoded)),
{
    let text = match decoded {
        Some(b) => utf8_text(b),
        None => None,
    };
    match text {
        Some(t) => t,
        None => raw.to_owned(),
    }
}

/// Aria2 base64-encodes error messages; decodes them as far as that goes.
pub fn base64_err(s: &str) -> (r: String)
    ensures
        r@ == plain_message(s@),
{
    if s.is_empty() {
        return s.to_owned();
    }
    message_from(s, decode_standard(s))
}

// ---------------------------------------------------------------------------
// Laws
// ---------------------------------------------------------------------------

/// The secret goes with every call, as the first parameter, and nothing else
/// about the call depends on it: without its first parameter a request made
/// with a secret is the request made without one.
pub proof fn secret_comes_first(
    with: RpcRequest,
    without: RpcRequest,
    secret: Seq<char>,
    method: Seq<char>,
    params: Seq<RpcParam>,
)
    requires
        is_call(with, Some(secret), method, params),
        is_call(without, None, method, params),
    ensures
        is_text(with.params@[0], "token:"@ + secret),
        with.params@.skip(1) == without.params@,
        with.method@ == without.method@,
        with.id@ == without.id@,
{
}

/// A speed limit takes effect: where one is set, it is sent under the name that
/// Aria2 knows it by, and where none is set, nothing is sent under that name.
pub proof fn limits_are_sent_under_their_name(o: AddUriOptions)
    ensures
        o.max_download_limit matches Some(limit) ==> entries_of(o).contains(
            ("max-download-limit"@, limit@),
        ),
        o.max_download_limit is None ==> forall|i: int|
            0 <= i < entries_of(o).len() ==> (#[trigger] entries_of(o)[i]).0
                != "max-download-limit"@,
{
    reveal_strlit("dir");
    reveal_strlit("max-download-limit");
    reveal_strlit("max-connection-per-server");
    reveal_strlit("continue");
    reveal_strlit("title");
    let e = entries_of(o);
    match o.max_download_limit {
        Some(limit) => {
            assert(e[1] == ("max-download-limit"@, limit@));
        },
        None => {
            let names = seq![
                "dir"@,
                "max-connection-per-server"@,
                "continue"@,
                "title"@,
            ];
            assert("max-download-limit"@.len() == 18);
            assert(names[0].len() == 3 && names[1].len() == 25);
            assert(names[2].len() == 8 && names[3].len() == 5);
        },
    }
}

/// A call is made of the method, the id and version of the protocol, and the
/// parameters, all of them and in order, behind the secret if there is one.
pub proof fn calls_are_complete(
    req: RpcRequest,
    secret: Option<Seq<char>>,
    method: Seq<char>,
    params: Seq<RpcParam>,
)
    requires
        is_call(req, secret, method, params),
    ensures
        req.jsonrpc@ == "2.0"@,
        req.id@ == "mega-dl"@,
        req.method@ == method,
        secret is None ==> req.params@ == params,
        secret matches Some(s) ==> {
            &&& req.params@.len() == params.len() + 1
            &&& req.params@[0] matches RpcParam::Text(t) && t@ == "token:"@ + s
            &&& forall|i: int| 0 <= i < params.len() ==> #[trigger] params[i] == req.params@[i + 1]
        },
{
    if let Some(s) = secret {
        assert forall|i: int| 0 <= i < params.len() implies #[trigger] params[i] == req.params@[i
            + 1] by {
            assert(req.params@.skip(1)[i] == req.params@[i + 1]);
        }
    }
}

/// Every option that is set is sent, under Aria2's name and with its whole
/// value, and nothing else is.
pub proof fn every_option_is_sent(o: AddUriOptions)
    ensures
        ({
            let e = entries_of(o);
            &&& e.contains(("dir"@, o.dir@))
            &&& o.max_download_limit matches Some(v) ==> e.contains(("max-download-limit"@, v@))
            &&& o.max_connection_per_server matches Some(v) ==> e.contains(
                ("max-connection-per-server"@, v@),
            )
            &&& o.continue_field matches Some(v) ==> e.contains(("continue"@, v@))
            &&& o.title matches Some(v) ==> e.contains(("title"@, v@))
            &&& e.len() == 1 + (if o.max_download_limit is Some {
                1int
            } else {
                0
            }) + (if o.max_connection_per_server is Some {
                1int
            } else {
                0
            }) + (if o.continue_field is Some {
                1int
            } else {
                0
            }) + (if o.title is Some {
                1int
            } else {
                0
            })
        }),
{
    let a = seq![("dir"@, o.dir@)];
    let b = optional_entry("max-download-limit"@, o.max_download_limit);
    let c = optional_entry("max-connection-per-server"@, o.max_connection_per_server);
    let d = optional_entry("continue"@, o.continue_field);
    let f = optional_entry("title"@, o.title);
    let e = entries_of(o);
    assert(e =~= a + b + c + d + f);
    assert(e[0] == a[0]);
    if b.len() > 0 {
        assert(e[a.len() as int] == b[0]);
    }
    if c.len() > 0 {
        assert(e[(a + b).len() as int] == c[0]);
    }
    if d.len() > 0 {
        assert(e[(a + b + c).len() as int] == d[0]);
    }
    if f.len() > 0 {
        assert(e[(a + b + c + d).len() as int] == f[0]);
    }
}

/// Which parameters are which: a text is that text, a list that list, and the
/// members of an object are its entries' names and values, in order.
pub proof fn parameters_are_what_they_hold(p: RpcParam, t: Seq<char>)
    ensures
        is_text(p, t) <==> (p matches RpcParam::Text(s) && s@ == t),
        p matches RpcParam::Texts(v) ==> is_texts(p, text::texts_of(v@)) && !is_text(p, t),
        p matches RpcParam::Options(v) ==> {
            &&& entry_views(v@).len() == v@.len()
            &&& forall|i: int|
                0 <= i < v@.len() ==> #[trigger] entry_views(v@)[i] == (v@[i].name@, v@[i].value@)
        },
{
}

/// A reply is read by its members: an error comes before a result, its code and
/// message have defaults, and without either the result is missing.
pub proof fn replies_are_read_by_their_members(body: Seq<u8>, called: Seq<char>, e: Error)
    ensures
        ({
            let error = json::json_at(body, "/error"@);
            let result = json::json_at(body, "/result"@);
            let reply = reply_view(body);
            &&& succeeds(reply) <==> error == Some(None::<json::PartView>) && (
            result matches Some(Some(_)))
            &&& fails_with(reply, called, e) && error is None ==> (e matches Error::Http(m) && m@
                == "error decoding response body"@)
            &&& fails_with(reply, called, e) && (error matches Some(Some(_))) ==> (
            e matches Error::Aria2 { method, code, message } && {
                &&& method@ == called
                &&& code == match json::integer_found(json::json_at(body, "/error/code"@)) {
                    Some(c) => c as int,
                    None => -1,
                }
                &&& message@ == match json::text_found(json::json_at(body, "/error/message"@)) {
                    Some(m) => m,
                    None => "aria2 rpc error"@,
                }
            })
            &&& fails_with(reply, called, e) && error == Some(None::<json::PartView>) ==> (
            e matches Error::Other(m) && m@ == "aria2 rpc: missing result"@)
        }),
{
}

/// A fault is reported with the method that was called, its code and its
/// message.
pub proof fn faults_are_reported_in_full(e: Error, called: Seq<char>, fault: RpcFault)
    requires
        reports(e, called, fault),
    ensures
        e matches Error::Aria2 { method, code, message } && {
            &&& method@ == called
            &&& fault.code matches Some(c) ==> code == c
            &&& fault.code is None ==> code == -1
            &&& fault.message matches Some(m) ==> message@ == m@
            &&& fault.message is None ==> message@ == "aria2 rpc error"@
        },
{
}

/// A message that decodes to text is shown decoded, any other as it came; so a
/// message that is no base64 is never changed, and an empty one stays empty.
pub proof fn messages_are_decoded_or_kept(raw: Seq<char>, bytes: Seq<u8>)
    ensures
        message_text(raw, None) == raw,
        vstd::utf8::valid_utf8(bytes) ==> message_text(raw, Some(bytes)) == vstd::utf8::decode_utf8(
            bytes,
        ),
        !vstd::utf8::valid_utf8(bytes) ==> message_text(raw, Some(bytes)) == raw,
        raw.len() == 0 ==> plain_message(raw) == raw,
        raw.len() > 0 ==> plain_message(raw) == message_text(raw, base64_standard_decode(raw)),
{
}

/// Aria2 is enabled exactly by a URL with something in it, and an error of the
/// sort `Other` is known by its text.
pub proof fn a_url_enables_aria2(url: Seq<char>, e: Error, t: Seq<char>)
    ensures
        url_given(Some(url)) <==> !text::blank(url),
        !url_given(None),
        is_other(e, t) <==> (e matches Error::Other(m) && m@ == t),
{
}

} // verus!
