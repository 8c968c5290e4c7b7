//! Messages from the server to the client, and their JSON form.

use vstd::prelude::*;
use vstd::string::*;

use crate::encoding::{string_to_u64, u64_of_token, u64_to_string, u64_token};
use crate::error::DecodeError;
use crate::json::{
    bool_of, copy_json, fields_view, get_field, items_view, lemma_lookup_at, lookup, num, num_json,
    opt_str_of,
    opt_u32_of, push_member, read_array, read_bool, read_opt_str, read_opt_u32, read_str,
    read_strs, read_u32, str_is, str_of, strs_json, strs_of, strs_to_json, texts, u32_of, Json,
    JsonValue,
};
use crate::types::{QueryId, Timestamp};
use crate::value::{json_of, value_of, Value};

verus! {

/// A value that server messages can carry: it has a JSON form, and decodes
/// from JSON. Its view is its JSON form.
pub trait WireValue: Sized {
    /// The JSON form of this value.
    spec fn wire_json(&self) -> Json;

    /// What a JSON document decodes to, given by its JSON form.
    spec fn wire_of(j: Json) -> Result<Json, DecodeError>;

    fn to_wire(&self) -> (r: JsonValue)
        ensures
            r@ == self.wire_json(),
    ;

    fn from_wire(j: &JsonValue) -> (r: Result<Self, DecodeError>)
        ensures
            match r {
                Ok(v) => Self::wire_of(j@) == Ok::<Json, DecodeError>(v.wire_json()),
                Err(e) => Self::wire_of(j@) == Err::<Json, DecodeError>(e),
            },
    ;
}

impl WireValue for Value {
    open spec fn wire_json(&self) -> Json {
        json_of(self@)
    }

    open spec fn wire_of(j: Json) -> Result<Json, DecodeError> {
        match value_of(j) {
            Ok(v) => Ok(json_of(v)),
            Err(e) => Err(e),
        }
    }

    fn to_wire(&self) -> (r: JsonValue) {
        self.to_json()
    }

    fn from_wire(j: &JsonValue) -> (r: Result<Value, DecodeError>) {
        Value::from_json(j)
    }
}

/// JSON carried as it is.
impl WireValue for JsonValue {
    open spec fn wire_json(&self) -> Json {
        self@
    }

    open spec fn wire_of(j: Json) -> Result<Json, DecodeError> {
        Ok(j)
    }

    fn to_wire(&self) -> (r: JsonValue) {
        copy_json(self)
    }

    fn from_wire(j: &JsonValue) -> (r: Result<JsonValue, DecodeError>) {
        Ok(copy_json(j))
    }
}

/// A point in the reactive view: query-set version, identity version and
/// timestamp, ordered in that order.
#[derive(Clone, Copy, Debug, PartialEq, Eq, Structural, PartialOrd, Ord)]
pub struct StateVersion {
    pub query_set: u32,
    pub identity: u32,
    pub ts: Timestamp,
}

impl StateVersion {
    /// The version before any change.
    pub fn initial() -> (r: StateVersion)
        ensures
            r.query_set == 0 && r.identity == 0 && r.ts == crate::types::TIMESTAMP_MIN,
    {
        StateVersion { query_set: 0, identity: 0, ts: crate::types::TIMESTAMP_MIN }
    }
}

/// A change to the result of one query.
#[derive(Debug)]
pub enum StateModification<V> {
    QueryUpdated {
        query_id: QueryId,
        value: V,
        log_lines: Vec<String>,
        journal: Option<String>,
    },
    QueryFailed {
        query_id: QueryId,
        error_message: String,
        log_lines: Vec<String>,
        journal: Option<String>,
    },
    QueryRemoved { query_id: QueryId },
}

/// A query that failed.
#[derive(Debug)]
pub struct QueryFailure {
    pub query_id: QueryId,
    pub message: String,
    pub log_lines: Vec<String>,
}

/// A message from the server to the client.
#[derive(Debug)]
pub enum ServerMessage<V> {
    Transition {
        start_version: StateVersion,
        end_version: StateVersion,
        modifications: Vec<StateModification<V>>,
    },
    QueriesFailed { failures: Vec<QueryFailure> },
    MutationResponse {
        request_id: u32,
        result: Result<V, String>,
        ts: Option<Timestamp>,
        log_lines: Vec<String>,
    },
    ActionResponse { request_id: u32, result: Result<V, String>, log_lines: Vec<String> },
    AuthError { error_message: String, base_version: Option<u32> },
    FatalError { error_message: String },
    Ping,
}

/// The view of a state modification; a value is given by its JSON form.
pub enum ModView {
    QueryUpdated {
        query_id: u32,
        value: Json,
        log_lines: Seq<Seq<char>>,
        journal: Option<Seq<char>>,
    },
    QueryFailed {
        query_id: u32,
        error_message: Seq<char>,
        log_lines: Seq<Seq<char>>,
        journal: Option<Seq<char>>,
    },
    QueryRemoved { query_id: u32 },
}

/// The view of a query failure: query id, message and log lines.
pub type FailureView = (u32, Seq<char>, Seq<Seq<char>>);

/// The view of a server message; a value is given by its JSON form.
pub enum ServerView {
    Transition { start_version: StateVersion, end_version: StateVersion, modifications: Seq<ModView> },
    QueriesFailed { failures: Seq<FailureView> },
    MutationResponse {
        request_id: u32,
        result: Result<Json, Seq<char>>,
        ts: Option<u64>,
        log_lines: Seq<Seq<char>>,
    },
    ActionResponse { request_id: u32, result: Result<Json, Seq<char>>, log_lines: Seq<Seq<char>> },
    AuthError { error_message: Seq<char>, base_version: Option<u32> },
    FatalError { error_message: Seq<char> },
    Ping,
}

/// The text of an optional string.
pub open spec fn opt_text(o: Option<String>) -> Option<Seq<char>> {
    match o {
        Some(s) => Some(s@),
        None => None,
    }
}

impl<V: WireValue> StateModification<V> {
    /// The view of this modification.
    pub open spec fn view(&self) -> ModView {
        match self {
            StateModification::QueryUpdated { query_id, value, log_lines, journal } =>
                ModView::QueryUpdated {
                query_id: query_id.0,
                value: value.wire_json(),
                log_lines: texts(log_lines@),
                journal: opt_text(*journal),
            },
            StateModification::QueryFailed { query_id, error_message, log_lines, journal } =>
                ModView::QueryFailed {
                query_id: query_id.0,
                error_message: error_message@,
                log_lines: texts(log_lines@),
                journal: opt_text(*journal),
            },
            StateModification::QueryRemoved { query_id } => ModView::QueryRemoved {
                query_id: query_id.0,
            },
        }
    }
}

impl QueryFailure {
    /// The view of this failure.
    pub open spec fn view(&self) -> FailureView {
        (self.query_id.0, self.message@, texts(self.log_lines@))
    }
}

/// The view of a result: a value by its JSON form, or an error message.
pub open spec fn result_view<V: WireValue>(r: Result<V, String>) -> Result<Json, Seq<char>> {
    match r {
        Ok(v) => Ok(v.wire_json()),
        Err(s) => Err(s@),
    }
}

impl<V: WireValue> ServerMessage<V> {
    /// The view of this message.
    pub open spec fn view(&self) -> ServerView {
        match self {
            ServerMessage::Transition { start_version, end_version, modifications } =>
                ServerView::Transition {
                start_version: *start_version,
                end_version: *end_version,
                modifications: modifications@.map_values(|m: StateModification<V>| m.view()),
            },
            ServerMessage::QueriesFailed { failures } => ServerView::QueriesFailed {
                failures: failures@.map_values(|f: QueryFailure| f.view()),
            },
            ServerMessage::MutationResponse { request_id, result, ts, log_lines } =>
                ServerView::MutationResponse {
                request_id: *request_id,
                result: result_view(*result),
                ts: *ts,
                log_lines: texts(log_lines@),
            },
            ServerMessage::ActionResponse { request_id, result, log_lines } =>
                ServerView::ActionResponse {
                request_id: *request_id,
                result: result_view(*result),
                log_lines: texts(log_lines@),
            },
            ServerMessage::AuthError { error_message, base_version } => ServerView::AuthError {
                error_message: error_message@,
                base_version: *base_version,
            },
            ServerMessage::FatalError { error_message } => ServerView::FatalError {
                error_message: error_message@,
            },
            ServerMessage::Ping => ServerView::Ping,
        }
    }
}

/// The JSON form of a state version; the timestamp is a token.
pub open spec fn version_json(v: StateVersion) -> Json {
    Json::Object(
        seq![
            ("querySet"@, num(v.query_set)),
            ("identity"@, num(v.identity)),
            ("ts"@, Json::Str(u64_token(v.ts))),
        ],
    )
}

/// A journal, written as a string or `null`.
pub open spec fn journal_json(j: Option<Seq<char>>) -> Json {
    match j {
        Some(t) => Json::Str(t),
        None => Json::Null,
    }
}

/// The JSON form of a state modification.
pub open spec fn mod_json(m: ModView) -> Json {
    match m {
        ModView::QueryUpdated { query_id, value, log_lines, journal } => Json::Object(
            seq![
                ("type"@, Json::Str("queryUpdated"@)),
                ("queryId"@, num(query_id)),
                ("value"@, value),
                ("logLines"@, strs_json(log_lines)),
                ("journal"@, journal_json(journal)),
            ],
        ),
        ModView::QueryFailed { query_id, error_message, log_lines, journal } => Json::Object(
            seq![
                ("type"@, Json::Str("queryFailed"@)),
                ("queryId"@, num(query_id)),
                ("errorMessage"@, Json::Str(error_message)),
                ("logLines"@, strs_json(log_lines)),
                ("journal"@, journal_json(journal)),
            ],
        ),
        ModView::QueryRemoved { query_id } => Json::Object(
            seq![("type"@, Json::Str("queryRemoved"@)), ("queryId"@, num(query_id))],
        ),
    }
}

/// The JSON form of a query failure.
pub open spec fn failure_json(f: FailureView) -> Json {
    Json::Object(
        seq![
            ("queryId"@, num(f.0)),
            ("message"@, Json::Str(f.1)),
            ("logLines"@, strs_json(f.2)),
        ],
    )
}

/// The `success` and `result` members of a response.
pub open spec fn result_members(r: Result<Json, Seq<char>>) -> Seq<(Seq<char>, Json)> {
    match r {
        Ok(v) => seq![("success"@, Json::Bool(true)), ("result"@, v)],
        Err(s) => seq![("success"@, Json::Bool(false)), ("result"@, Json::Str(s))],
    }
}

/// The JSON form of a server message. A request id is written both under
/// its own name and under its legacy name.
pub open spec fn server_json(m: ServerView) -> Json {
    match m {
        ServerView::Transition { start_version, end_version, modifications } => Json::Object(
            seq![
                ("type"@, Json::Str("Transition"@)),
                ("startVersion"@, version_json(start_version)),
                ("endVersion"@, version_json(end_version)),
                ("modifications"@, Json::Array(modifications.map_values(|x| mod_json(x)))),
            ],
        ),
        ServerView::QueriesFailed { failures } => Json::Object(
            seq![
                ("type"@, Json::Str("QueriesFailed"@)),
                ("failures"@, Json::Array(failures.map_values(|f| failure_json(f)))),
            ],
        ),
        ServerView::MutationResponse { request_id, result, ts, log_lines } => Json::Object(
            seq![
                ("type"@, Json::Str("MutationResponse"@)),
                ("mutationId"@, num(request_id)),
                ("requestId"@, num(request_id)),
            ] + result_members(result) + seq![
                (
                    "ts"@,
                    match ts {
                        Some(t) => Json::Str(u64_token(t)),
                        None => Json::Null,
                    },
                ),
                ("logLines"@, strs_json(log_lines)),
            ],
        ),
        ServerView::ActionResponse { request_id, result, log_lines } => Json::Object(
            seq![
                ("type"@, Json::Str("ActionResponse"@)),
                ("actionId"@, num(request_id)),
                ("requestId"@, num(request_id)),
            ] + result_members(result) + seq![("logLines"@, strs_json(log_lines))],
        ),
        ServerView::AuthError { error_message, base_version } => Json::Object(
            seq![
                ("type"@, Json::Str("AuthError"@)),
                ("error"@, Json::Str(error_message)),
                (
                    "baseVersion"@,
                    match base_version {
                        Some(b) => num(b),
                        None => Json::Null,
                    },
                ),
            ],
        ),
        ServerView::FatalError { error_message } => Json::Object(
            seq![("type"@, Json::Str("FatalError"@)), ("error"@, Json::Str(error_message))],
        ),
        ServerView::Ping => Json::Object(seq![("type"@, Json::Str("Ping"@))]),
    }
}

/// A timestamp token.
pub open spec fn ts_of(s: Seq<char>) -> Result<u64, DecodeError> {
    match u64_of_token(s) {
        Some(x) => Ok(x),
        None => Err(DecodeError::MalformedEncoding),
    }
}

/// What a JSON document decodes to as a state version.
pub open spec fn version_of(j: Json) -> Result<StateVersion, DecodeError> {
    match j {
        Json::Object(fs) => match u32_of(lookup(fs, "querySet"@)) {
            Err(e) => Err(e),
            Ok(q) => match u32_of(lookup(fs, "identity"@)) {
                Err(e) => Err(e),
                Ok(i) => match str_of(lookup(fs, "ts"@)) {
                    Err(e) => Err(e),
                    Ok(s) => match ts_of(s) {
                        Err(e) => Err(e),
                        Ok(t) => Ok(StateVersion { query_set: q, identity: i, ts: t }),
                    },
                },
            },
        },
        _ => Err(DecodeError::InvalidType),
    }
}

/// What a required member decodes to as a state version.
pub open spec fn version_member_of(m: Option<Json>) -> Result<StateVersion, DecodeError> {
    match m {
        None => Err(DecodeError::MissingField),
        Some(j) => version_of(j),
    }
}

/// What a JSON document decodes to as a state modification.
pub open spec fn mod_of<V: WireValue>(j: Json) -> Result<ModView, DecodeError> {
    match j {
        Json::Object(fs) => match str_of(lookup(fs, "type"@)) {
            Err(e) => Err(e),
            Ok(t) => if t == "queryUpdated"@ {
                match u32_of(lookup(fs, "queryId"@)) {
                    Err(e) => Err(e),
                    Ok(q) => match strs_of(lookup(fs, "logLines"@)) {
                        Err(e) => Err(e),
                        Ok(ll) => match opt_str_of(lookup(fs, "journal"@)) {
                            Err(e) => Err(e),
                            Ok(jn) => match lookup(fs, "value"@) {
                                None => Err(DecodeError::MissingField),
                                Some(x) => match V::wire_of(x) {
                                    Err(e) => Err(e),
                                    Ok(v) => Ok(
                                        ModView::QueryUpdated {
                                            query_id: q,
                                            value: v,
                                            log_lines: ll,
                                            journal: jn,
                                        },
                                    ),
                                },
                            },
                        },
                    },
                }
            } else if t == "queryFailed"@ {
                match u32_of(lookup(fs, "queryId"@)) {
                    Err(e) => Err(e),
                    Ok(q) => match str_of(lookup(fs, "errorMessage"@)) {
                        Err(e) => Err(e),
                        Ok(em) => match strs_of(lookup(fs, "logLines"@)) {
                            Err(e) => Err(e),
                            Ok(ll) => match opt_str_of(lookup(fs, "journal"@)) {
                                Err(e) => Err(e),
                                Ok(jn) => Ok(
                                    ModView::QueryFailed {
                                        query_id: q,
                                        error_message: em,
                                        log_lines: ll,
                                        journal: jn,
                                    },
                                ),
                            },
                        },
                    },
                }
            } else if t == "queryRemoved"@ {
                match u32_of(lookup(fs, "queryId"@)) {
                    Err(e) => Err(e),
                    Ok(q) => Ok(ModView::QueryRemoved { query_id: q }),
                }
            } else {
                Err(DecodeError::UnknownVariant)
            },
        },
        _ => Err(DecodeError::InvalidType),
    }
}

/// Decodes the first `n` state modifications, stopping at the first error.
pub open spec fn mods_of<V: WireValue>(xs: Seq<Json>, n: nat) -> Result<Seq<ModView>, DecodeError>
    decreases n,
{
    if n == 0 || n > xs.len() {
        Ok(Seq::empty())
    } else {
        match mods_of::<V>(xs, (n - 1) as nat) {
            Err(e) => Err(e),
            Ok(ms) => match mod_of::<V>(xs[n - 1]) {
                Err(e) => Err(e),
                Ok(m) => Ok(ms.push(m)),
            },
        }
    }
}

/// What a JSON document decodes to as a query failure.
pub open spec fn failure_of(j: Json) -> Result<FailureView, DecodeError> {
    match j {
        Json::Object(fs) => match u32_of(lookup(fs, "queryId"@)) {
            Err(e) => Err(e),
            Ok(q) => match str_of(lookup(fs, "message"@)) {
                Err(e) => Err(e),
                Ok(m) => match strs_of(lookup(fs, "logLines"@)) {
                    Err(e) => Err(e),
                    Ok(ll) => Ok((q, m, ll)),
                },
            },
        },
        _ => Err(DecodeError::InvalidType),
    }
}

/// Decodes the first `n` query failures, stopping at the first error.
pub open spec fn failures_of(xs: Seq<Json>, n: nat) -> Result<Seq<FailureView>, DecodeError>
    decreases n,
{
    if n == 0 || n > xs.len() {
        Ok(Seq::empty())
    } else {
        match failures_of(xs, (n - 1) as nat) {
            Err(e) => Err(e),
            Ok(fs) => match failure_of(xs[n - 1]) {
                Err(e) => Err(e),
                Ok(f) => Ok(fs.push(f)),
            },
        }
    }
}

/// The result of a response: the value on success, else an error message.
pub open spec fn response_result_of<V: WireValue>(success: bool, r: Json) -> Result<
    Result<Json, Seq<char>>,
    DecodeError,
> {
    if success {
        match V::wire_of(r) {
            Ok(v) => Ok(Ok(v)),
            Err(e) => Err(e),
        }
    } else {
        match r {
            Json::Str(s) => Ok(Err(s)),
            _ => Err(DecodeError::InvalidType),
        }
    }
}

/// The members shared by both kinds of response: request id, legacy id,
/// success, result and log lines; then the decoded result and request id.
pub open spec fn response_of<V: WireValue>(fs: Seq<(Seq<char>, Json)>, legacy: Seq<char>) -> Result<
    (u32, Result<Json, Seq<char>>, Seq<Seq<char>>),
    DecodeError,
> {
    match opt_u32_of(lookup(fs, "requestId"@)) {
        Err(e) => Err(e),
        Ok(rid) => match opt_u32_of(lookup(fs, legacy)) {
            Err(e) => Err(e),
            Ok(lid) => match bool_of(lookup(fs, "success"@)) {
                Err(e) => Err(e),
                Ok(ok) => match lookup(fs, "result"@) {
                    None => Err(DecodeError::MissingField),
                    Some(res) => match strs_of(lookup(fs, "logLines"@)) {
                        Err(e) => Err(e),
                        Ok(ll) => match response_result_of::<V>(ok, res) {
                            Err(e) => Err(e),
                            Ok(result) => match (rid, lid) {
                                (Some(r), _) => Ok((r, result, ll)),
                                (None, Some(r)) => Ok((r, result, ll)),
                                (None, None) => Err(DecodeError::MissingRequestId),
                            },
                        },
                    },
                },
            },
        },
    }
}

/// What a JSON document decodes to as a server message.
pub open spec fn server_of<V: WireValue>(j: Json) -> Result<ServerView, DecodeError> {
    match j {
        Json::Object(fs) => match str_of(lookup(fs, "type"@)) {
            Err(e) => Err(e),
            Ok(t) => if t == "Transition"@ {
                match version_member_of(lookup(fs, "startVersion"@)) {
                    Err(e) => Err(e),
                    Ok(sv) => match version_member_of(lookup(fs, "endVersion"@)) {
                        Err(e) => Err(e),
                        Ok(ev) => match crate::json::array_of(lookup(fs, "modifications"@)) {
                            Err(e) => Err(e),
                            Ok(xs) => match mods_of::<V>(xs, xs.len()) {
                                Err(e) => Err(e),
                                Ok(ms) => Ok(
                                    ServerView::Transition {
                                        start_version: sv,
                                        end_version: ev,
                                        modifications: ms,
                                    },
                                ),
                            },
                        },
                    },
                }
            } else if t == "QueriesFailed"@ {
                match crate::json::array_of(lookup(fs, "failures"@)) {
                    Err(e) => Err(e),
                    Ok(xs) => match failures_of(xs, xs.len()) {
                        Err(e) => Err(e),
                        Ok(f) => Ok(ServerView::QueriesFailed { failures: f }),
                    },
                }
            } else if t == "MutationResponse"@ {
                match opt_str_of(lookup(fs, "ts"@)) {
                    Err(e) => Err(e),
                    Ok(ts) => match response_of::<V>(fs, "mutationId"@) {
                        Err(e) => Err(e),
                        Ok((r, res, ll)) => match ts {
                            None => Ok(
                                ServerView::MutationResponse {
                                    request_id: r,
                                    result: res,
                                    ts: None,
                                    log_lines: ll,
                                },
                            ),
                            Some(s) => match ts_of(s) {
                                Err(e) => Err(e),
                                Ok(x) => Ok(
                                    ServerView::MutationResponse {
                                        request_id: r,
                                        result: res,
                                        ts: Some(x),
                                        log_lines: ll,
                                    },
                                ),
                            },
                        },
                    },
                }
            } else if t == "ActionResponse"@ {
                match response_of::<V>(fs, "actionId"@) {
                    Err(e) => Err(e),
                    Ok((r, res, ll)) => Ok(
                        ServerView::ActionResponse { request_id: r, result: res, log_lines: ll },
                    ),
                }
            } else if t == "FatalError"@ {
                match str_of(lookup(fs, "error"@)) {
                    Err(e) => Err(e),
                    Ok(m) => Ok(ServerView::FatalError { error_message: m }),
                }
            } else if t == "AuthError"@ {
                match str_of(lookup(fs, "error"@)) {
                    Err(e) => Err(e),
                    Ok(m) => match opt_u32_of(lookup(fs, "baseVersion"@)) {
                        Err(e) => Err(e),
                        Ok(b) => Ok(ServerView::AuthError { error_message: m, base_version: b }),
                    },
                }
            } else if t == "Ping"@ {
                Ok(ServerView::Ping)
            } else {
                Err(DecodeError::UnknownVariant)
            },
        },
        _ => Err(DecodeError::InvalidType),
    }
}

/// A JSON string holding a literal.
fn text(lit: &str) -> (r: JsonValue)
    ensures
        r@ == Json::Str(lit@),
{
    JsonValue::String(String::from_str(lit))
}

/// An empty object under construction.
fn new_members() -> (r: Vec<(String, JsonValue)>)
    ensures
        fields_view(&r) == Seq::<(Seq<char>, Json)>::empty(),
{
    let r: Vec<(String, JsonValue)> = Vec::new();
    assert(fields_view(&r) =~= Seq::<(Seq<char>, Json)>::empty());
    r
}

/// A journal as JSON: a string or `null`.
fn journal_to_json(j: &Option<String>) -> (r: JsonValue)
    ensures
        r@ == journal_json(opt_text(*j)),
{
    match j {
        Some(t) => JsonValue::String(t.clone()),
        None => JsonValue::Null,
    }
}

/// Reads a timestamp token.
fn read_ts(s: &String) -> (r: Result<u64, DecodeError>)
    ensures
        r == ts_of(s@),
{
    string_to_u64(s.as_str())
}

impl StateVersion {
    /// The JSON form of this version.
    pub fn to_json(&self) -> (r: JsonValue)
        ensures
            r@ == version_json(*self),
    {
        let mut out = new_members();
        push_member(&mut out, "querySet", num_json(self.query_set));
        push_member(&mut out, "identity", num_json(self.identity));
        push_member(&mut out, "ts", JsonValue::String(u64_to_string(self.ts)));
        assert(fields_view(&out) =~= version_json(*self)->Object_0);
        JsonValue::Object(out)
    }

    /// Decodes a state version.
    pub fn from_json(j: &JsonValue) -> (r: Result<StateVersion, DecodeError>)
        ensures
            r == version_of(j@),
    {
        let fs = match j {
            JsonValue::Object(fs) => fs,
            _ => {
                return Err(DecodeError::InvalidType);
            },
        };
        let q = match read_u32(fs, "querySet") {
            Ok(q) => q,
            Err(e) => {
                return Err(e);
            },
        };
        let i = match read_u32(fs, "identity") {
            Ok(i) => i,
            Err(e) => {
                return Err(e);
            },
        };
        let s = match read_str(fs, "ts") {
            Ok(s) => s,
            Err(e) => {
                return Err(e);
            },
        };
        match read_ts(&s) {
            Ok(t) => Ok(StateVersion { query_set: q, identity: i, ts: t }),
            Err(e) => Err(e),
        }
    }
}

/// Decodes a required member as a state version.
fn read_version(fs: &Vec<(String, JsonValue)>, name: &str) -> (r: Result<StateVersion, DecodeError>)
    ensures
        r == version_member_of(lookup(fields_view(fs), name@)),
{
    match get_field(fs, name) {
        None => Err(DecodeError::MissingField),
        Some(x) => StateVersion::from_json(x),
    }
}

impl<V: WireValue> StateModification<V> {
    /// The JSON form of this modification.
    pub fn to_json(&self) -> (r: JsonValue)
        ensures
            r@ == mod_json(self.view()),
    {
        let mut out = new_members();
        match self {
            StateModification::QueryUpdated { query_id, value, log_lines, journal } => {
                push_member(&mut out, "type", text("queryUpdated"));
                push_member(&mut out, "queryId", num_json(query_id.0));
                push_member(&mut out, "value", value.to_wire());
                push_member(&mut out, "logLines", strs_to_json(log_lines));
                push_member(&mut out, "journal", journal_to_json(journal));
                assert(fields_view(&out) =~= mod_json(self.view())->Object_0);
            },
            StateModification::QueryFailed { query_id, error_message, log_lines, journal } => {
                push_member(&mut out, "type", text("queryFailed"));
                push_member(&mut out, "queryId", num_json(query_id.0));
                push_member(&mut out, "errorMessage", JsonValue::String(error_message.clone()));
                push_member(&mut out, "logLines", strs_to_json(log_lines));
                push_member(&mut out, "journal", journal_to_json(journal));
                assert(fields_view(&out) =~= mod_json(self.view())->Object_0);
            },
            StateModification::QueryRemoved { query_id } => {
                push_member(&mut out, "type", text("queryRemoved"));
                push_member(&mut out, "queryId", num_json(query_id.0));
                assert(fields_view(&out) =~= mod_json(self.view())->Object_0);
            },
        }
        JsonValue::Object(out)
    }

    /// Decodes a state modification.
    pub fn from_json(j: &JsonValue) -> (r: Result<StateModification<V>, DecodeError>)
        ensures
            match r {
                Ok(m) => mod_of::<V>(j@) == Ok::<ModView, DecodeError>(m.view()),
                Err(e) => mod_of::<V>(j@) == Err::<ModView, DecodeError>(e),
            },
    {
        let fs = match j {
            JsonValue::Object(fs) => fs,
            _ => {
                return Err(DecodeError::InvalidType);
            },
        };
        let t = match read_str(fs, "type") {
            Ok(t) => t,
            Err(e) => {
                return Err(e);
            },
        };
        if str_is(&t, "queryUpdated") {
            let q = match read_u32(fs, "queryId") {
                Ok(q) => q,
                Err(e) => {
                    return Err(e);
                },
            };
            let ll = match read_strs(fs, "logLines") {
                Ok(ll) => ll,
                Err(e) => {
                    return Err(e);
                },
            };
            let jn = match read_opt_str(fs, "journal") {
                Ok(jn) => jn,
                Err(e) => {
                    return Err(e);
                },
            };
            match get_field(fs, "value") {
                None => Err(DecodeError::MissingField),
                Some(x) => match V::from_wire(x) {
                    Ok(v) => Ok(
                        StateModification::QueryUpdated {
                            query_id: QueryId(q),
                            value: v,
                            log_lines: ll,
                            journal: jn,
                        },
                    ),
                    Err(e) => Err(e),
                },
            }
        } else if str_is(&t, "queryFailed") {
            let q = match read_u32(fs, "queryId") {
                Ok(q) => q,
                Err(e) => {
                    return Err(e);
                },
            };
            let em = match read_str(fs, "errorMessage") {
                Ok(em) => em,
                Err(e) => {
                    return Err(e);
                },
            };
            let ll = match read_strs(fs, "logLines") {
                Ok(ll) => ll,
                Err(e) => {
                    return Err(e);
                },
            };
            match read_opt_str(fs, "journal") {
                Ok(jn) => Ok(
                    StateModification::QueryFailed {
                        query_id: QueryId(q),
                        error_message: em,
                        log_lines: ll,
                        journal: jn,
                    },
                ),
                Err(e) => Err(e),
            }
        } else if str_is(&t, "queryRemoved") {
            match read_u32(fs, "queryId") {
                Ok(q) => Ok(StateModification::QueryRemoved { query_id: QueryId(q) }),
                Err(e) => Err(e),
            }
        } else {
            Err(DecodeError::UnknownVariant)
        }
    }
}

impl QueryFailure {
    /// The JSON form of this failure.
    pub fn to_json(&self) -> (r: JsonValue)
        ensures
            r@ == failure_json(self.view()),
    {
        let mut out = new_members();
        push_member(&mut out, "queryId", num_json(self.query_id.0));
        push_member(&mut out, "message", JsonValue::String(self.message.clone()));
        push_member(&mut out, "logLines", strs_to_json(&self.log_lines));
        assert(fields_view(&out) =~= failure_json(self.view())->Object_0);
        JsonValue::Object(out)
    }

    /// Decodes a query failure.
    pub fn from_json(j: &JsonValue) -> (r: Result<QueryFailure, DecodeError>)
        ensures
            match r {
                Ok(f) => failure_of(j@) == Ok::<FailureView, DecodeError>(f.view()),
                Err(e) => failure_of(j@) == Err::<FailureView, DecodeError>(e),
            },
    {
        let fs = match j {
            JsonValue::Object(fs) => fs,
            _ => {
                return Err(DecodeError::InvalidType);
            },
        };
        let q = match read_u32(fs, "queryId") {
            Ok(q) => q,
            Err(e) => {
                return Err(e);
            },
        };
        let m = match read_str(fs, "message") {
            Ok(m) => m,
            Err(e) => {
                return Err(e);
            },
        };
        match read_strs(fs, "logLines") {
            Ok(ll) => Ok(QueryFailure { query_id: QueryId(q), message: m, log_lines: ll }),
            Err(e) => Err(e),
        }
    }
}

/// Once a prefix of the modifications fails to decode, so do all of them.
proof fn lemma_mods_err<V: WireValue>(xs: Seq<Json>, i: nat, n: nat)
    requires
        i <= n <= xs.len(),
        mods_of::<V>(xs, i) is Err,
    ensures
        mods_of::<V>(xs, n) == mods_of::<V>(xs, i),
    decreases n - i,
{
    if i < n {
        lemma_mods_err::<V>(xs, i, (n - 1) as nat);
    }
}

/// Once a prefix of the failures fails to decode, so do all of them.
proof fn lemma_failures_err(xs: Seq<Json>, i: nat, n: nat)
    requires
        i <= n <= xs.len(),
        failures_of(xs, i) is Err,
    ensures
        failures_of(xs, n) == failures_of(xs, i),
    decreases n - i,
{
    if i < n {
        lemma_failures_err(xs, i, (n - 1) as nat);
    }
}

/// Decodes the modifications of a transition.
fn decode_mods<V: WireValue>(a: &Vec<JsonValue>) -> (r: Result<Vec<StateModification<V>>, DecodeError>)
    ensures
        match r {
            Ok(ms) => mods_of::<V>(items_view(a), a.len() as nat) == Ok::<Seq<ModView>, DecodeError>(
                ms@.map_values(|m: StateModification<V>| m.view()),
            ),
            Err(e) => mods_of::<V>(items_view(a), a.len() as nat) == Err::<Seq<ModView>, DecodeError>(
                e,
            ),
        },
{
    let ghost xs = items_view(a);
    let mut out: Vec<StateModification<V>> = Vec::new();
    let mut i: usize = 0;
    assert(out@.map_values(|m: StateModification<V>| m.view()) =~= Seq::<ModView>::empty());
    while i < a.len()
        invariant
            i <= a.len(),
            xs == items_view(a),
            out.len() == i,
            mods_of::<V>(xs, i as nat) == Ok::<Seq<ModView>, DecodeError>(
                out@.map_values(|m: StateModification<V>| m.view()),
            ),
        decreases a.len() - i,
    {
        assert(xs[i as int] == a[i as int]@);
        match StateModification::<V>::from_json(&a[i]) {
            Ok(m) => {
                let ghost before = out@.map_values(|m: StateModification<V>| m.view());
                let ghost mv = m.view();
                out.push(m);
                assert(out@.map_values(|m: StateModification<V>| m.view()) =~= before.push(mv));
            },
            Err(e) => {
                proof {
                    lemma_mods_err::<V>(xs, (i + 1) as nat, a.len() as nat);
                }
                return Err(e);
            },
        }
        i += 1;
    }
    Ok(out)
}

/// Decodes the failures of a failure report.
fn decode_failures(a: &Vec<JsonValue>) -> (r: Result<Vec<QueryFailure>, DecodeError>)
    ensures
        match r {
            Ok(fs) => failures_of(items_view(a), a.len() as nat) == Ok::<Seq<FailureView>, DecodeError>(
                fs@.map_values(|f: QueryFailure| f.view()),
            ),
            Err(e) => failures_of(items_view(a), a.len() as nat) == Err::<
                Seq<FailureView>,
                DecodeError,
            >(e),
        },
{
    let ghost xs = items_view(a);
    let mut out: Vec<QueryFailure> = Vec::new();
    let mut i: usize = 0;
    assert(out@.map_values(|f: QueryFailure| f.view()) =~= Seq::<FailureView>::empty());
    while i < a.len()
        invariant
            i <= a.len(),
            xs == items_view(a),
            out.len() == i,
            failures_of(xs, i as nat) == Ok::<Seq<FailureView>, DecodeError>(
                out@.map_values(|f: QueryFailure| f.view()),
            ),
        decreases a.len() - i,
    {
        assert(xs[i as int] == a[i as int]@);
        match QueryFailure::from_json(&a[i]) {
            Ok(f) => {
                let ghost before = out@.map_values(|f: QueryFailure| f.view());
                let ghost fv = f.view();
                out.push(f);
                assert(out@.map_values(|f: QueryFailure| f.view()) =~= before.push(fv));
            },
            Err(e) => {
                proof {
                    lemma_failures_err(xs, (i + 1) as nat, a.len() as nat);
                }
                return Err(e);
            },
        }
        i += 1;
    }
    Ok(out)
}

/// Appends the `success` and `result` members of a response.
fn push_result<V: WireValue>(out: &mut Vec<(String, JsonValue)>, result: &Result<V, String>)
    ensures
        fields_view(final(out)) == fields_view(old(out)) + result_members(result_view(*result)),
{
    let ghost before = fields_view(old(out));
    match result {
        Ok(v) => {
            push_member(out, "success", JsonValue::Bool(true));
            push_member(out, "result", v.to_wire());
        },
        Err(s) => {
            push_member(out, "success", JsonValue::Bool(false));
            push_member(out, "result", JsonValue::String(s.clone()));
        },
    }
    assert(fields_view(out) =~= before + result_members(result_view(*result)));
}

/// Reads the members shared by both kinds of response.
fn read_response<V: WireValue>(fs: &Vec<(String, JsonValue)>, legacy: &str) -> (r: Result<
    (u32, Result<V, String>, Vec<String>),
    DecodeError,
>)
    ensures
        match r {
            Ok((id, res, ll)) => response_of::<V>(fields_view(fs), legacy@) == Ok::<
                (u32, Result<Json, Seq<char>>, Seq<Seq<char>>),
                DecodeError,
            >((id, result_view(res), texts(ll@))),
            Err(e) => response_of::<V>(fields_view(fs), legacy@) == Err::<
                (u32, Result<Json, Seq<char>>, Seq<Seq<char>>),
                DecodeError,
            >(e),
        },
{
    let rid = match read_opt_u32(fs, "requestId") {
        Ok(x) => x,
        Err(e) => {
            return Err(e);
        },
    };
    let lid = match read_opt_u32(fs, legacy) {
        Ok(x) => x,
        Err(e) => {
            return Err(e);
        },
    };
    let ok = match read_bool(fs, "success") {
        Ok(b) => b,
        Err(e) => {
            return Err(e);
        },
    };
    let res = match get_field(fs, "result") {
        None => {
            return Err(DecodeError::MissingField);
        },
        Some(x) => x,
    };
    let ll = match read_strs(fs, "logLines") {
        Ok(ll) => ll,
        Err(e) => {
            return Err(e);
        },
    };
    let result: Result<V, String> = if ok {
        match V::from_wire(res) {
            Ok(v) => Ok(v),
            Err(e) => {
                return Err(e);
            },
        }
    } else {
        match res {
            JsonValue::String(s) => Err(s.clone()),
            _ => {
                return Err(DecodeError::InvalidType);
            },
        }
    };
    let id = match (rid, lid) {
        (Some(x), _) => x,
        (None, Some(x)) => x,
        (None, None) => {
            return Err(DecodeError::MissingRequestId);
        },
    };
    Ok((id, result, ll))
}

impl<V: WireValue> ServerMessage<V> {
    /// The JSON form of this message.
    pub fn to_json(&self) -> (r: JsonValue)
        ensures
            r@ == server_json(self.view()),
    {
        let mut out = new_members();
        match self {
            ServerMessage::Transition { start_version, end_version, modifications } => {
                push_member(&mut out, "type", text("Transition"));
                push_member(&mut out, "startVersion", start_version.to_json());
                push_member(&mut out, "endVersion", end_version.to_json());
                let mut items: Vec<JsonValue> = Vec::new();
                let mut i: usize = 0;
                while i < modifications.len()
                    invariant
                        i <= modifications.len(),
                        items.len() == i,
                        forall|k: int|
                            0 <= k < i ==> #[trigger] items_view(&items)[k] == mod_json(
                                modifications[k].view(),
                            ),
                    decreases modifications.len() - i,
                {
                    let x = modifications[i].to_json();
                    let ghost before = items_view(&items);
                    items.push(x);
                    assert(items_view(&items) =~= before.push(x@));
                    i += 1;
                }
                let ghost mv = modifications@.map_values(|m: StateModification<V>| m.view());
                assert(items_view(&items) =~= mv.map_values(|x| mod_json(x)));
                push_member(&mut out, "modifications", JsonValue::Array(items));
                assert(fields_view(&out) =~= server_json(self.view())->Object_0);
            },
            ServerMessage::QueriesFailed { failures } => {
                push_member(&mut out, "type", text("QueriesFailed"));
                let mut items: Vec<JsonValue> = Vec::new();
                let mut i: usize = 0;
                while i < failures.len()
                    invariant
                        i <= failures.len(),
                        items.len() == i,
                        forall|k: int|
                            0 <= k < i ==> #[trigger] items_view(&items)[k] == failure_json(
                                failures[k].view(),
                            ),
                    decreases failures.len() - i,
                {
                    let x = failures[i].to_json();
                    let ghost before = items_view(&items);
                    items.push(x);
                    assert(items_view(&items) =~= before.push(x@));
                    i += 1;
                }
                let ghost fv = failures@.map_values(|f: QueryFailure| f.view());
                assert(items_view(&items) =~= fv.map_values(|f| failure_json(f)));
                push_member(&mut out, "failures", JsonValue::Array(items));
                assert(fields_view(&out) =~= server_json(self.view())->Object_0);
            },
            ServerMessage::MutationResponse { request_id, result, ts, log_lines } => {
                push_member(&mut out, "type", text("MutationResponse"));
                push_member(&mut out, "mutationId", num_json(*request_id));
                push_member(&mut out, "requestId", num_json(*request_id));
                push_result(&mut out, result);
                let t = match ts {
                    Some(t) => JsonValue::String(u64_to_string(*t)),
                    None => JsonValue::Null,
                };
                push_member(&mut out, "ts", t);
                push_member(&mut out, "logLines", strs_to_json(log_lines));
                assert(fields_view(&out) =~= server_json(self.view())->Object_0);
            },
            ServerMessage::ActionResponse { request_id, result, log_lines } => {
                push_member(&mut out, "type", text("ActionResponse"));
                push_member(&mut out, "actionId", num_json(*request_id));
                push_member(&mut out, "requestId", num_json(*request_id));
                push_result(&mut out, result);
                push_member(&mut out, "logLines", strs_to_json(log_lines));
                assert(fields_view(&out) =~= server_json(self.view())->Object_0);
            },
            ServerMessage::AuthError { error_message, base_version } => {
                push_member(&mut out, "type", text("AuthError"));
                push_member(&mut out, "error", JsonValue::String(error_message.clone()));
                let b = match base_version {
                    Some(b) => num_json(*b),
                    None => JsonValue::Null,
                };
                push_member(&mut out, "baseVersion", b);
                assert(fields_view(&out) =~= server_json(self.view())->Object_0);
            },
            ServerMessage::FatalError { error_message } => {
                push_member(&mut out, "type", text("FatalError"));
                push_member(&mut out, "error", JsonValue::String(error_message.clone()));
                assert(fields_view(&out) =~= server_json(self.view())->Object_0);
            },
            ServerMessage::Ping => {
                push_member(&mut out, "type", text("Ping"));
                assert(fields_view(&out) =~= server_json(self.view())->Object_0);
            },
        }
        JsonValue::Object(out)
    }

    /// Decodes a server message. A response takes its request id from
    /// `requestId`, or else from the legacy member.
    #[verifier::rlimit(100)]
    #[verifier::spinoff_prover]
    pub fn from_json(j: &JsonValue) -> (r: Result<ServerMessage<V>, DecodeError>)
        ensures
            match r {
                Ok(m) => server_of::<V>(j@) == Ok::<ServerView, DecodeError>(m.view()),
                Err(e) => server_of::<V>(j@) == Err::<ServerView, DecodeError>(e),
            },
    {
        let fs = match j {
            JsonValue::Object(fs) => fs,
            _ => {
                return Err(DecodeError::InvalidType);
            },
        };
        let t = match read_str(fs, "type") {
            Ok(t) => t,
            Err(e) => {
                return Err(e);
            },
        };
        if str_is(&t, "Transition") {
            let sv = match read_version(fs, "startVersion") {
                Ok(v) => v,
                Err(e) => {
                    return Err(e);
                },
            };
            let ev = match read_version(fs, "endVersion") {
                Ok(v) => v,
                Err(e) => {
                    return Err(e);
                },
            };
            let xs = match read_array(fs, "modifications") {
                Ok(xs) => xs,
                Err(e) => {
                    return Err(e);
                },
            };
            match decode_mods::<V>(xs) {
                Ok(ms) => Ok(
                    ServerMessage::Transition {
                        start_version: sv,
                        end_version: ev,
                        modifications: ms,
                    },
                ),
                Err(e) => Err(e),
            }
        } else if str_is(&t, "QueriesFailed") {
            let xs = match read_array(fs, "failures") {
                Ok(xs) => xs,
                Err(e) => {
                    return Err(e);
                },
            };
            match decode_failures(xs) {
                Ok(f) => Ok(ServerMessage::QueriesFailed { failures: f }),
                Err(e) => Err(e),
            }
        } else if str_is(&t, "MutationResponse") {
            let ts = match read_opt_str(fs, "ts") {
                Ok(ts) => ts,
                Err(e) => {
                    return Err(e);
                },
            };
            let (id, result, ll) = match read_response::<V>(fs, "mutationId") {
                Ok(x) => x,
                Err(e) => {
                    return Err(e);
                },
            };
            let ts = match ts {
                None => None,
                Some(s) => match read_ts(&s) {
                    Ok(x) => Some(x),
                    Err(e) => {
                        return Err(e);
                    },
                },
            };
            Ok(ServerMessage::MutationResponse { request_id: id, result, ts, log_lines: ll })
        } else if str_is(&t, "ActionResponse") {
            match read_response::<V>(fs, "actionId") {
                Ok((id, result, ll)) => Ok(
                    ServerMessage::ActionResponse { request_id: id, result, log_lines: ll },
                ),
                Err(e) => Err(e),
            }
        } else if str_is(&t, "FatalError") {
            match read_str(fs, "error") {
                Ok(m) => Ok(ServerMessage::FatalError { error_message: m }),
                Err(e) => Err(e),
            }
        } else if str_is(&t, "AuthError") {
            let m = match read_str(fs, "error") {
                Ok(m) => m,
                Err(e) => {
                    return Err(e);
                },
            };
            match read_opt_u32(fs, "baseVersion") {
                Ok(b) => Ok(ServerMessage::AuthError { error_message: m, base_version: b }),
                Err(e) => Err(e),
            }
        } else if str_is(&t, "Ping") {
            Ok(ServerMessage::Ping)
        } else {
            Err(DecodeError::UnknownVariant)
        }
    }
}

/// A timestamp whose token reads back as that timestamp.
pub open spec fn ts_reads_back(t: u64) -> bool {
    u64_of_token(u64_token(t)) == Some(t)
}

/// Decoding a list of strings written as JSON gives it back.
proof fn lemma_strs_round_trip(ll: Seq<Seq<char>>)
    ensures
        strs_of(Some(strs_json(ll))) == Ok::<Seq<Seq<char>>, DecodeError>(ll),
{
    let xs = strs_json(ll)->Array_0;
    assert(forall|i: int| 0 <= i < xs.len() ==> #[trigger] xs[i] is Str);
    assert(xs.map_values(|x: Json| x->Str_0) =~= ll);
}

/// Decoding the JSON form of a state version gives it back.
proof fn lemma_version_round_trip(v: StateVersion)
    requires
        ts_reads_back(v.ts),
    ensures
        version_of(version_json(v)) == Ok::<StateVersion, DecodeError>(v),
{
    let fs = version_json(v)->Object_0;
    reveal_strlit("querySet");
    assert("querySet"@.len() == 8 && "querySet"@[0] == 'q' && "querySet"@[1] == 'u' && "querySet"@[5] == 'S');
    reveal_strlit("identity");
    assert("identity"@.len() == 8 && "identity"@[0] == 'i' && "identity"@[1] == 'd' && "identity"@[5] == 'i');
    reveal_strlit("ts");
    assert("ts"@.len() == 2 && "ts"@[0] == 't' && "ts"@[1] == 's');
    assert(fs.len() == 3 && fs[0].0 == "querySet"@ && fs[1].0 == "identity"@ && fs[2].0 == "ts"@);
    lemma_lookup_at(fs, "querySet"@, 0);
    assert forall|j: int| 0 <= j < 1 implies #[trigger] fs[j].0 != "identity"@ by {
        assert(j == 0);
    }
    lemma_lookup_at(fs, "identity"@, 1);
    assert forall|j: int| 0 <= j < 2 implies #[trigger] fs[j].0 != "ts"@ by {
        assert(j == 0 || j == 1);
    }
    lemma_lookup_at(fs, "ts"@, 2);
}

/// Decoding the JSON form of a state modification gives it back, when its
/// value decodes back.
proof fn lemma_mod_round_trip<V: WireValue>(m: ModView)
    requires
        m is QueryUpdated ==> V::wire_of(m->QueryUpdated_value) == Ok::<Json, DecodeError>(
            m->QueryUpdated_value,
        ),
    ensures
        mod_of::<V>(mod_json(m)) == Ok::<ModView, DecodeError>(m),
{
    let fs = mod_json(m)->Object_0;
    reveal_strlit("type");
    assert("type"@.len() == 4 && "type"@[0] == 't' && "type"@[1] == 'y');
    reveal_strlit("queryId");
    assert("queryId"@.len() == 7 && "queryId"@[0] == 'q' && "queryId"@[1] == 'u' && "queryId"@[5] == 'I');
    reveal_strlit("value");
    assert("value"@.len() == 5 && "value"@[0] == 'v' && "value"@[1] == 'a');
    reveal_strlit("logLines");
    assert("logLines"@.len() == 8 && "logLines"@[0] == 'l' && "logLines"@[1] == 'o' && "logLines"@[5] == 'n');
    reveal_strlit("journal");
    assert("journal"@.len() == 7 && "journal"@[0] == 'j' && "journal"@[1] == 'o' && "journal"@[5] == 'a');
    reveal_strlit("errorMessage");
    assert("errorMessage"@.len() == 12 && "errorMessage"@[0] == 'e' && "errorMessage"@[1] == 'r' && "errorMessage"@[5] == 'M');
    reveal_strlit("queryUpdated");
    assert("queryUpdated"@.len() == 12 && "queryUpdated"@[0] == 'q' && "queryUpdated"@[1] == 'u' && "queryUpdated"@[5] == 'U');
    reveal_strlit("queryFailed");
    assert("queryFailed"@.len() == 11 && "queryFailed"@[0] == 'q' && "queryFailed"@[1] == 'u' && "queryFailed"@[5] == 'F');
    reveal_strlit("queryRemoved");
    assert("queryRemoved"@.len() == 12 && "queryRemoved"@[0] == 'q' && "queryRemoved"@[1] == 'u' && "queryRemoved"@[5] == 'R');
    match m {
        ModView::QueryUpdated { log_lines, journal, .. } => {
            assert(fs.len() == 5 && fs[0].0 == "type"@ && fs[1].0 == "queryId"@ && fs[2].0 == "value"@
                && fs[3].0 == "logLines"@ && fs[4].0 == "journal"@);
            lemma_lookup_at(fs, "type"@, 0);
            assert forall|j: int| 0 <= j < 1 implies #[trigger] fs[j].0 != "queryId"@ by {
                assert(j == 0);
            }
            lemma_lookup_at(fs, "queryId"@, 1);
            assert forall|j: int| 0 <= j < 2 implies #[trigger] fs[j].0 != "value"@ by {
                assert(j == 0 || j == 1);
            }
            lemma_lookup_at(fs, "value"@, 2);
            assert forall|j: int| 0 <= j < 3 implies #[trigger] fs[j].0 != "logLines"@ by {
                assert(j == 0 || j == 1 || j == 2);
            }
            lemma_lookup_at(fs, "logLines"@, 3);
            assert forall|j: int| 0 <= j < 4 implies #[trigger] fs[j].0 != "journal"@ by {
                assert(j == 0 || j == 1 || j == 2 || j == 3);
            }
            lemma_lookup_at(fs, "journal"@, 4);
            lemma_strs_round_trip(log_lines);
        },
        ModView::QueryFailed { log_lines, journal, .. } => {
            assert(fs.len() == 5 && fs[0].0 == "type"@ && fs[1].0 == "queryId"@ && fs[2].0
                == "errorMessage"@ && fs[3].0 == "logLines"@ && fs[4].0 == "journal"@);
            lemma_lookup_at(fs, "type"@, 0);
            assert forall|j: int| 0 <= j < 1 implies #[trigger] fs[j].0 != "queryId"@ by {
                assert(j == 0);
            }
            lemma_lookup_at(fs, "queryId"@, 1);
            assert forall|j: int| 0 <= j < 2 implies #[trigger] fs[j].0 != "errorMessage"@ by {
                assert(j == 0 || j == 1);
            }
            lemma_lookup_at(fs, "errorMessage"@, 2);
            assert forall|j: int| 0 <= j < 3 implies #[trigger] fs[j].0 != "logLines"@ by {
                assert(j == 0 || j == 1 || j == 2);
            }
            lemma_lookup_at(fs, "logLines"@, 3);
            assert forall|j: int| 0 <= j < 4 implies #[trigger] fs[j].0 != "journal"@ by {
                assert(j == 0 || j == 1 || j == 2 || j == 3);
            }
            lemma_lookup_at(fs, "journal"@, 4);
            lemma_strs_round_trip(log_lines);
        },
        ModView::QueryRemoved { .. } => {
            assert(fs.len() == 2 && fs[0].0 == "type"@ && fs[1].0 == "queryId"@);
            lemma_lookup_at(fs, "type"@, 0);
            assert forall|j: int| 0 <= j < 1 implies #[trigger] fs[j].0 != "queryId"@ by {
                assert(j == 0);
            }
            lemma_lookup_at(fs, "queryId"@, 1);
        },
    }
}

/// Decoding the JSON forms of state modifications gives them back.
proof fn lemma_mods_round_trip<V: WireValue>(ms: Seq<ModView>, n: nat)
    requires
        n <= ms.len(),
        forall|i: int|
            0 <= i < ms.len() && (#[trigger] ms[i]) is QueryUpdated ==> V::wire_of(
                ms[i]->QueryUpdated_value,
            ) == Ok::<Json, DecodeError>(ms[i]->QueryUpdated_value),
    ensures
        mods_of::<V>(ms.map_values(|x| mod_json(x)), n) == Ok::<Seq<ModView>, DecodeError>(
            ms.take(n as int),
        ),
    decreases n,
{
    if n > 0 {
        lemma_mods_round_trip::<V>(ms, (n - 1) as nat);
        lemma_mod_round_trip::<V>(ms[n - 1]);
        assert(ms.take(n as int) =~= ms.take(n - 1).push(ms[n - 1]));
    } else {
        assert(ms.take(0) =~= Seq::<ModView>::empty());
    }
}

/// Decoding the JSON form of a query failure gives it back.
proof fn lemma_failure_round_trip(f: FailureView)
    ensures
        failure_of(failure_json(f)) == Ok::<FailureView, DecodeError>(f),
{
    let fs = failure_json(f)->Object_0;
    reveal_strlit("queryId");
    assert("queryId"@.len() == 7 && "queryId"@[0] == 'q' && "queryId"@[1] == 'u' && "queryId"@[5] == 'I');
    reveal_strlit("message");
    assert("message"@.len() == 7 && "message"@[0] == 'm' && "message"@[1] == 'e' && "message"@[5] == 'g');
    reveal_strlit("logLines");
    assert("logLines"@.len() == 8 && "logLines"@[0] == 'l' && "logLines"@[1] == 'o' && "logLines"@[5] == 'n');
    assert(fs.len() == 3 && fs[0].0 == "queryId"@ && fs[1].0 == "message"@ && fs[2].0 == "logLines"@);
    lemma_lookup_at(fs, "queryId"@, 0);
    assert forall|j: int| 0 <= j < 1 implies #[trigger] fs[j].0 != "message"@ by {
        assert(j == 0);
    }
    lemma_lookup_at(fs, "message"@, 1);
    assert forall|j: int| 0 <= j < 2 implies #[trigger] fs[j].0 != "logLines"@ by {
        assert(j == 0 || j == 1);
    }
    lemma_lookup_at(fs, "logLines"@, 2);
    lemma_strs_round_trip(f.2);
}

/// Decoding the JSON forms of query failures gives them back.
proof fn lemma_failures_round_trip(fs: Seq<FailureView>, n: nat)
    requires
        n <= fs.len(),
    ensures
        failures_of(fs.map_values(|f| failure_json(f)), n) == Ok::<Seq<FailureView>, DecodeError>(
            fs.take(n as int),
        ),
    decreases n,
{
    if n > 0 {
        lemma_failures_round_trip(fs, (n - 1) as nat);
        lemma_failure_round_trip(fs[n - 1]);
        assert(fs.take(n as int) =~= fs.take(n - 1).push(fs[n - 1]));
    } else {
        assert(fs.take(0) =~= Seq::<FailureView>::empty());
    }
}

/// The values and timestamps that a server message carries read back:
/// each value decodes to itself, and each timestamp's token to itself.
pub open spec fn carried_read_back<V: WireValue>(m: ServerView) -> bool {
    match m {
        ServerView::Transition { start_version, end_version, modifications } => ts_reads_back(
            start_version.ts,
        ) && ts_reads_back(end_version.ts) && forall|i: int|
            0 <= i < modifications.len() && (#[trigger] modifications[i]) is QueryUpdated
                ==> V::wire_of(modifications[i]->QueryUpdated_value) == Ok::<Json, DecodeError>(
                modifications[i]->QueryUpdated_value,
            ),
        ServerView::MutationResponse { result, ts, .. } => (result is Ok ==> V::wire_of(result->Ok_0)
            == Ok::<Json, DecodeError>(result->Ok_0)) && (ts is Some ==> ts_reads_back(ts->0)),
        ServerView::ActionResponse { result, .. } => result is Ok ==> V::wire_of(result->Ok_0)
            == Ok::<Json, DecodeError>(result->Ok_0),
        _ => true,
    }
}

/// Encoding a server message and decoding the result gives the message
/// back, when the values and timestamps it carries read back.
#[verifier::rlimit(100)]
#[verifier::spinoff_prover]
pub proof fn lemma_server_round_trip<V: WireValue>(m: ServerView)
    requires
        carried_read_back::<V>(m),
    ensures
        server_of::<V>(server_json(m)) == Ok::<ServerView, DecodeError>(m),
{
    let fs = server_json(m)->Object_0;
    reveal_strlit("type");
    assert("type"@.len() == 4 && "type"@[0] == 't' && "type"@[1] == 'y');
    reveal_strlit("startVersion");
    assert("startVersion"@.len() == 12 && "startVersion"@[0] == 's' && "startVersion"@[1] == 't' && "startVersion"@[5] == 'V');
    reveal_strlit("endVersion");
    assert("endVersion"@.len() == 10 && "endVersion"@[0] == 'e' && "endVersion"@[1] == 'n' && "endVersion"@[5] == 'r');
    reveal_strlit("modifications");
    assert("modifications"@.len() == 13 && "modifications"@[0] == 'm' && "modifications"@[1] == 'o' && "modifications"@[5] == 'i');
    reveal_strlit("failures");
    assert("failures"@.len() == 8 && "failures"@[0] == 'f' && "failures"@[1] == 'a' && "failures"@[5] == 'r');
    reveal_strlit("mutationId");
    assert("mutationId"@.len() == 10 && "mutationId"@[0] == 'm' && "mutationId"@[1] == 'u' && "mutationId"@[5] == 'i');
    reveal_strlit("requestId");
    assert("requestId"@.len() == 9 && "requestId"@[0] == 'r' && "requestId"@[1] == 'e' && "requestId"@[5] == 's');
    reveal_strlit("success");
    assert("success"@.len() == 7 && "success"@[0] == 's' && "success"@[1] == 'u' && "success"@[5] == 's');
    reveal_strlit("result");
    assert("result"@.len() == 6 && "result"@[0] == 'r' && "result"@[1] == 'e' && "result"@[5] == 't');
    reveal_strlit("ts");
    assert("ts"@.len() == 2 && "ts"@[0] == 't' && "ts"@[1] == 's');
    reveal_strlit("logLines");
    assert("logLines"@.len() == 8 && "logLines"@[0] == 'l' && "logLines"@[1] == 'o' && "logLines"@[5] == 'n');
    reveal_strlit("actionId");
    assert("actionId"@.len() == 8 && "actionId"@[0] == 'a' && "actionId"@[1] == 'c' && "actionId"@[5] == 'n');
    reveal_strlit("error");
    assert("error"@.len() == 5 && "error"@[0] == 'e' && "error"@[1] == 'r');
    reveal_strlit("baseVersion");
    assert("baseVersion"@.len() == 11 && "baseVersion"@[0] == 'b' && "baseVersion"@[1] == 'a' && "baseVersion"@[5] == 'e');
    reveal_strlit("Transition");
    assert("Transition"@.len() == 10 && "Transition"@[0] == 'T' && "Transition"@[1] == 'r' && "Transition"@[5] == 'i');
    reveal_strlit("QueriesFailed");
    assert("QueriesFailed"@.len() == 13 && "QueriesFailed"@[0] == 'Q' && "QueriesFailed"@[1] == 'u' && "QueriesFailed"@[5] == 'e');
    reveal_strlit("MutationResponse");
    assert("MutationResponse"@.len() == 16 && "MutationResponse"@[0] == 'M' && "MutationResponse"@[1] == 'u' && "MutationResponse"@[5] == 'i');
    reveal_strlit("ActionResponse");
    assert("ActionResponse"@.len() == 14 && "ActionResponse"@[0] == 'A' && "ActionResponse"@[1] == 'c' && "ActionResponse"@[5] == 'n');
    reveal_strlit("FatalError");
    assert("FatalError"@.len() == 10 && "FatalError"@[0] == 'F' && "FatalError"@[1] == 'a' && "FatalError"@[5] == 'E');
    reveal_strlit("AuthError");
    assert("AuthError"@.len() == 9 && "AuthError"@[0] == 'A' && "AuthError"@[1] == 'u' && "AuthError"@[5] == 'r');
    reveal_strlit("Ping");
    assert("Ping"@.len() == 4 && "Ping"@[0] == 'P' && "Ping"@[1] == 'i');
    match m {
        ServerView::Transition { start_version, end_version, modifications } => {
            assert(fs.len() == 4 && fs[0].0 == "type"@ && fs[1].0 == "startVersion"@ && fs[2].0
                == "endVersion"@ && fs[3].0 == "modifications"@);
            lemma_lookup_at(fs, "type"@, 0);
            assert forall|j: int| 0 <= j < 1 implies #[trigger] fs[j].0 != "startVersion"@ by {
                assert(j == 0);
            }
            lemma_lookup_at(fs, "startVersion"@, 1);
            assert forall|j: int| 0 <= j < 2 implies #[trigger] fs[j].0 != "endVersion"@ by {
                assert(j == 0 || j == 1);
            }
            lemma_lookup_at(fs, "endVersion"@, 2);
            assert forall|j: int| 0 <= j < 3 implies #[trigger] fs[j].0 != "modifications"@ by {
                assert(j == 0 || j == 1 || j == 2);
            }
            lemma_lookup_at(fs, "modifications"@, 3);
            lemma_version_round_trip(start_version);
            lemma_version_round_trip(end_version);
            lemma_mods_round_trip::<V>(modifications, modifications.len());
            assert(modifications.take(modifications.len() as int) =~= modifications);
        },
        ServerView::QueriesFailed { failures } => {
            assert(fs.len() == 2 && fs[0].0 == "type"@ && fs[1].0 == "failures"@);
            lemma_lookup_at(fs, "type"@, 0);
            assert forall|j: int| 0 <= j < 1 implies #[trigger] fs[j].0 != "failures"@ by {
                assert(j == 0);
            }
            lemma_lookup_at(fs, "failures"@, 1);
            lemma_failures_round_trip(failures, failures.len());
            assert(failures.take(failures.len() as int) =~= failures);
        },
        ServerView::MutationResponse { ts, log_lines, .. } => {
            assert(fs.len() == 7 && fs[0].0 == "type"@ && fs[1].0 == "mutationId"@ && fs[2].0
                == "requestId"@ && fs[3].0 == "success"@ && fs[4].0 == "result"@ && fs[5].0 == "ts"@
                && fs[6].0 == "logLines"@);
            lemma_lookup_at(fs, "type"@, 0);
            assert forall|j: int| 0 <= j < 1 implies #[trigger] fs[j].0 != "mutationId"@ by {
                assert(j == 0);
            }
            lemma_lookup_at(fs, "mutationId"@, 1);
            assert forall|j: int| 0 <= j < 2 implies #[trigger] fs[j].0 != "requestId"@ by {
                assert(j == 0 || j == 1);
            }
            lemma_lookup_at(fs, "requestId"@, 2);
            assert forall|j: int| 0 <= j < 3 implies #[trigger] fs[j].0 != "success"@ by {
                assert(j == 0 || j == 1 || j == 2);
            }
            lemma_lookup_at(fs, "success"@, 3);
            assert forall|j: int| 0 <= j < 4 implies #[trigger] fs[j].0 != "result"@ by {
                assert(j == 0 || j == 1 || j == 2 || j == 3);
            }
            lemma_lookup_at(fs, "result"@, 4);
            assert forall|j: int| 0 <= j < 5 implies #[trigger] fs[j].0 != "ts"@ by {
                assert(j == 0 || j == 1 || j == 2 || j == 3 || j == 4);
            }
            lemma_lookup_at(fs, "ts"@, 5);
            assert forall|j: int| 0 <= j < 6 implies #[trigger] fs[j].0 != "logLines"@ by {
                assert(j == 0 || j == 1 || j == 2 || j == 3 || j == 4 || j == 5);
            }
            lemma_lookup_at(fs, "logLines"@, 6);
            lemma_strs_round_trip(log_lines);
        },
        ServerView::ActionResponse { log_lines, .. } => {
            assert(fs.len() == 6 && fs[0].0 == "type"@ && fs[1].0 == "actionId"@ && fs[2].0
                == "requestId"@ && fs[3].0 == "success"@ && fs[4].0 == "result"@ && fs[5].0
                == "logLines"@);
            lemma_lookup_at(fs, "type"@, 0);
            assert forall|j: int| 0 <= j < 1 implies #[trigger] fs[j].0 != "actionId"@ by {
                assert(j == 0);
            }
            lemma_lookup_at(fs, "actionId"@, 1);
            assert forall|j: int| 0 <= j < 2 implies #[trigger] fs[j].0 != "requestId"@ by {
                assert(j == 0 || j == 1);
            }
            lemma_lookup_at(fs, "requestId"@, 2);
            assert forall|j: int| 0 <= j < 3 implies #[trigger] fs[j].0 != "success"@ by {
                assert(j == 0 || j == 1 || j == 2);
            }
            lemma_lookup_at(fs, "success"@, 3);
            assert forall|j: int| 0 <= j < 4 implies #[trigger] fs[j].0 != "result"@ by {
                assert(j == 0 || j == 1 || j == 2 || j == 3);
            }
            lemma_lookup_at(fs, "result"@, 4);
            assert forall|j: int| 0 <= j < 5 implies #[trigger] fs[j].0 != "logLines"@ by {
                assert(j == 0 || j == 1 || j == 2 || j == 3 || j == 4);
            }
            lemma_lookup_at(fs, "logLines"@, 5);
            lemma_strs_round_trip(log_lines);
        },
        ServerView::AuthError { .. } => {
            assert(fs.len() == 3 && fs[0].0 == "type"@ && fs[1].0 == "error"@ && fs[2].0
                == "baseVersion"@);
            lemma_lookup_at(fs, "type"@, 0);
            assert forall|j: int| 0 <= j < 1 implies #[trigger] fs[j].0 != "error"@ by {
                assert(j == 0);
            }
            lemma_lookup_at(fs, "error"@, 1);
            assert forall|j: int| 0 <= j < 2 implies #[trigger] fs[j].0 != "baseVersion"@ by {
                assert(j == 0 || j == 1);
            }
            lemma_lookup_at(fs, "baseVersion"@, 2);
        },
        ServerView::FatalError { .. } => {
            assert(fs.len() == 2 && fs[0].0 == "type"@ && fs[1].0 == "error"@);
            lemma_lookup_at(fs, "type"@, 0);
            assert forall|j: int| 0 <= j < 1 implies #[trigger] fs[j].0 != "error"@ by {
                assert(j == 0);
            }
            lemma_lookup_at(fs, "error"@, 1);
        },
        ServerView::Ping => {
            assert(fs.len() == 1 && fs[0].0 == "type"@);
            lemma_lookup_at(fs, "type"@, 0);
        },
    }
}

} // verus!
