//! Messages from the client to the server, and their JSON form.

use vstd::prelude::*;
use vstd::string::*;

use crate::error::DecodeError;
use crate::identity::{attributes_of, lemma_attributes_round_trip, UserIdentityAttributes};
use crate::json::{
    array_of, copy_items, copy_json, fields_view, get_field, items_view, lemma_lookup_absent, lemma_lookup_at,
    lookup, num, num_json,
    opt_str_of, opt_u32_of, push_member, read_array, read_opt_str, read_opt_u32, read_str, read_u32,
    str_is, str_of, u32_of, Json, JsonValue,
};
use crate::types::{QueryId, SessionId};

verus! {

/// What `uuid`'s hyphenated form gives for a UUID.
pub uninterp spec fn uuid_text(x: u128) -> Seq<char>;

/// What `uuid::Uuid::parse_str` gives for a text, when it succeeds.
pub uninterp spec fn uuid_parsed(s: Seq<char>) -> Option<u128>;

/// Relies on `uuid::Uuid::as_hyphenated`: 36 characters with hyphens at
/// 8, 13, 18 and 23, a function of the UUID alone.
#[verifier::external_body]
fn uuid_to_text(x: u128) -> (r: String)
    ensures
        r@ == uuid_text(x),
        r@.len() == 36 && r@[8] == '-' && r@[13] == '-' && r@[18] == '-' && r@[23] == '-',
{
    uuid::Uuid::from_u128(x).as_hyphenated().to_string()
}

/// Relies on `uuid::Uuid::parse_str`: a function of the text alone, which
/// reads the hyphenated form of a UUID back as that UUID.
#[verifier::external_body]
fn uuid_parse(s: &str) -> (r: Option<u128>)
    ensures
        r == uuid_parsed(s@),
        forall|x: u128| s@ == #[trigger] uuid_text(x) ==> r == Some(x),
{
    uuid::Uuid::parse_str(s).ok().map(|u| u.as_u128())
}

/// Text in the shape of a hyphenated UUID: 36 characters with hyphens at 8,
/// 13, 18 and 23.
pub open spec fn hyphenated_shape(s: Seq<char>) -> bool {
    s.len() == 36 && s[8] == '-' && s[13] == '-' && s[18] == '-' && s[23] == '-'
}

/// The session id that a text stands for: a hyphenated UUID, and no other form.
pub open spec fn session_of(s: Seq<char>) -> Option<u128> {
    if hyphenated_shape(s) {
        uuid_parsed(s)
    } else {
        None
    }
}

/// Reads a session id.
pub fn parse_session_id(s: &str) -> (r: Result<SessionId, DecodeError>)
    ensures
        match r {
            Ok(id) => session_of(s@) == Some(id.0),
            Err(e) => session_of(s@) is None && e == DecodeError::MalformedSessionId,
        },
        forall|x: u128|
            s@ == #[trigger] uuid_text(x) && hyphenated_shape(s@) ==> r == Ok::<SessionId, DecodeError>(
                SessionId(x),
            ),
{
    let n = s.unicode_len();
    if n != 36 || s.get_char(8) != '-' || s.get_char(13) != '-' || s.get_char(18) != '-'
        || s.get_char(23) != '-' {
        return Err(DecodeError::MalformedSessionId);
    }
    match uuid_parse(s) {
        Some(x) => Ok(SessionId(x)),
        None => Err(DecodeError::MalformedSessionId),
    }
}

/// The hyphenated text of a session id.
pub fn session_id_text(id: &SessionId) -> (r: String)
    ensures
        r@ == uuid_text(id.0),
        hyphenated_shape(r@),
{
    uuid_to_text(id.0)
}

/// A subscription to a query.
#[derive(Debug)]
pub struct Query {
    pub query_id: QueryId,
    pub udf_path: String,
    pub args: Vec<JsonValue>,
    /// Absent, a journal that is explicitly none, or a journal token.
    pub journal: Option<Option<String>>,
}

/// A change to the set of subscribed queries.
#[derive(Debug)]
pub enum QuerySetModification {
    Add(Query),
    Remove { query_id: QueryId },
}

/// The credentials a client presents.
#[derive(Debug)]
pub enum AuthenticationToken {
    /// An admin key, possibly acting as a user.
    Admin(String, Option<UserIdentityAttributes>),
    /// An OpenID Connect token.
    User(String),
    /// Logged out.
    Anonymous,
}

/// An event the client reports.
#[derive(Debug)]
pub struct ClientEvent {
    pub event_type: String,
    pub event: JsonValue,
}

/// A message from the client to the server.
#[derive(Debug)]
pub enum ClientMessage {
    Connect { session_id: SessionId, connection_count: u32, last_close_reason: String },
    ModifyQuerySet {
        base_version: u32,
        new_version: u32,
        modifications: Vec<QuerySetModification>,
    },
    Mutation { request_id: u32, udf_path: String, args: Vec<JsonValue> },
    Action { request_id: u32, udf_path: String, args: Vec<JsonValue> },
    Authenticate { base_version: u32, token: AuthenticationToken },
    Event(ClientEvent),
}

/// The view of a query-set modification.
pub enum ModificationView {
    Add {
        query_id: u32,
        udf_path: Seq<char>,
        args: Seq<Json>,
        journal: Option<Option<Seq<char>>>,
    },
    Remove { query_id: u32 },
}

/// The view of an authentication token; the identity acted as is given by
/// its JSON form.
pub enum TokenView {
    Admin(Seq<char>, Option<Json>),
    User(Seq<char>),
    Anonymous,
}

/// The view of a client message.
pub enum ClientView {
    Connect { session_id: u128, connection_count: u32, last_close_reason: Seq<char> },
    ModifyQuerySet { base_version: u32, new_version: u32, modifications: Seq<ModificationView> },
    Mutation { request_id: u32, udf_path: Seq<char>, args: Seq<Json> },
    Action { request_id: u32, udf_path: Seq<char>, args: Seq<Json> },
    Authenticate { base_version: u32, token: TokenView },
    Event { event_type: Seq<char>, event: Json },
}

impl View for QuerySetModification {
    type V = ModificationView;

    open spec fn view(&self) -> ModificationView {
        match self {
            QuerySetModification::Add(q) => ModificationView::Add {
                query_id: q.query_id.0,
                udf_path: q.udf_path@,
                args: items_view(&q.args),
                journal: match q.journal {
                    None => None,
                    Some(None) => Some(None),
                    Some(Some(s)) => Some(Some(s@)),
                },
            },
            QuerySetModification::Remove { query_id } => ModificationView::Remove {
                query_id: query_id.0,
            },
        }
    }
}

impl View for AuthenticationToken {
    type V = TokenView;

    open spec fn view(&self) -> TokenView {
        match self {
            AuthenticationToken::Admin(v, None) => TokenView::Admin(v@, None),
            AuthenticationToken::Admin(v, Some(u)) => TokenView::Admin(v@, Some(u.json())),
            AuthenticationToken::User(v) => TokenView::User(v@),
            AuthenticationToken::Anonymous => TokenView::Anonymous,
        }
    }
}

impl View for ClientMessage {
    type V = ClientView;

    open spec fn view(&self) -> ClientView {
        match self {
            ClientMessage::Connect { session_id, connection_count, last_close_reason } =>
                ClientView::Connect {
                session_id: session_id.0,
                connection_count: *connection_count,
                last_close_reason: last_close_reason@,
            },
            ClientMessage::ModifyQuerySet { base_version, new_version, modifications } =>
                ClientView::ModifyQuerySet {
                base_version: *base_version,
                new_version: *new_version,
                modifications: modifications@.map_values(|m: QuerySetModification| m@),
            },
            ClientMessage::Mutation { request_id, udf_path, args } => ClientView::Mutation {
                request_id: *request_id,
                udf_path: udf_path@,
                args: items_view(args),
            },
            ClientMessage::Action { request_id, udf_path, args } => ClientView::Action {
                request_id: *request_id,
                udf_path: udf_path@,
                args: items_view(args),
            },
            ClientMessage::Authenticate { base_version, token } => ClientView::Authenticate {
                base_version: *base_version,
                token: token@,
            },
            ClientMessage::Event(e) => ClientView::Event {
                event_type: e.event_type@,
                event: e.event@,
            },
        }
    }
}

/// The JSON form of a query-set modification.
pub open spec fn modification_json(m: ModificationView) -> Json {
    match m {
        ModificationView::Add { query_id, udf_path, args, journal } => {
            let head = seq![
                ("type"@, Json::Str("Add"@)),
                ("queryId"@, num(query_id)),
                ("udfPath"@, Json::Str(udf_path)),
                ("args"@, Json::Array(args)),
            ];
            Json::Object(
                match journal {
                    None => head,
                    Some(None) => head.push(("journal"@, Json::Null)),
                    Some(Some(t)) => head.push(("journal"@, Json::Str(t))),
                },
            )
        },
        ModificationView::Remove { query_id } => Json::Object(
            seq![("type"@, Json::Str("Remove"@)), ("queryId"@, num(query_id))],
        ),
    }
}

/// The members that a flattened authentication token contributes.
pub open spec fn token_members(t: TokenView) -> Seq<(Seq<char>, Json)> {
    match t {
        TokenView::Admin(v, None) => seq![("tokenType"@, Json::Str("Admin"@)), ("value"@, Json::Str(v))],
        TokenView::Admin(v, Some(a)) => seq![
            ("tokenType"@, Json::Str("Admin"@)),
            ("value"@, Json::Str(v)),
            ("actingAs"@, a),
        ],
        TokenView::User(v) => seq![("tokenType"@, Json::Str("User"@)), ("value"@, Json::Str(v))],
        TokenView::Anonymous => seq![("tokenType"@, Json::Str("None"@))],
    }
}

/// The JSON form of a client message. A request id is written both under
/// its own name and under its legacy name.
pub open spec fn client_json(m: ClientView) -> Json {
    match m {
        ClientView::Connect { session_id, connection_count, last_close_reason } => Json::Object(
            seq![
                ("type"@, Json::Str("Connect"@)),
                ("sessionId"@, Json::Str(uuid_text(session_id))),
                ("connectionCount"@, num(connection_count)),
                ("lastCloseReason"@, Json::Str(last_close_reason)),
            ],
        ),
        ClientView::ModifyQuerySet { base_version, new_version, modifications } => Json::Object(
            seq![
                ("type"@, Json::Str("ModifyQuerySet"@)),
                ("baseVersion"@, num(base_version)),
                ("newVersion"@, num(new_version)),
                ("modifications"@, Json::Array(modifications.map_values(|x| modification_json(x)))),
            ],
        ),
        ClientView::Mutation { request_id, udf_path, args } => Json::Object(
            seq![
                ("type"@, Json::Str("Mutation"@)),
                ("mutationId"@, num(request_id)),
                ("requestId"@, num(request_id)),
                ("udfPath"@, Json::Str(udf_path)),
                ("args"@, Json::Array(args)),
            ],
        ),
        ClientView::Action { request_id, udf_path, args } => Json::Object(
            seq![
                ("type"@, Json::Str("Action"@)),
                ("actionId"@, num(request_id)),
                ("requestId"@, num(request_id)),
                ("udfPath"@, Json::Str(udf_path)),
                ("args"@, Json::Array(args)),
            ],
        ),
        ClientView::Authenticate { base_version, token } => Json::Object(
            seq![("type"@, Json::Str("Authenticate"@)), ("baseVersion"@, num(base_version))]
                + token_members(token),
        ),
        ClientView::Event { event_type, event } => Json::Object(
            seq![
                ("type"@, Json::Str("Event"@)),
                ("eventType"@, Json::Str(event_type)),
                ("event"@, event),
            ],
        ),
    }
}

/// The journal member of an added query: absent, `null`, or a token.
pub open spec fn journal_of(m: Option<Json>) -> Result<Option<Option<Seq<char>>>, DecodeError> {
    match m {
        None => Ok(None),
        Some(Json::Null) => Ok(Some(None)),
        Some(Json::Str(t)) => Ok(Some(Some(t))),
        Some(_) => Err(DecodeError::InvalidType),
    }
}

/// A 32-bit unsigned member that is zero when absent.
pub open spec fn u32_or_zero(m: Option<Json>) -> Result<u32, DecodeError> {
    match m {
        None => Ok(0),
        Some(x) => u32_of(Some(x)),
    }
}

/// A text member that is empty when absent.
pub open spec fn str_or_empty(m: Option<Json>) -> Result<Seq<char>, DecodeError> {
    match m {
        None => Ok(Seq::empty()),
        Some(x) => str_of(Some(x)),
    }
}

/// What a JSON document decodes to as a query-set modification.
pub open spec fn modification_of(j: Json) -> Result<ModificationView, DecodeError> {
    match j {
        Json::Object(fs) => match str_of(lookup(fs, "type"@)) {
            Err(e) => Err(e),
            Ok(t) => if t == "Add"@ {
                match u32_or_zero(lookup(fs, "queryId"@)) {
                    Err(e) => Err(e),
                    Ok(q) => match str_or_empty(lookup(fs, "udfPath"@)) {
                        Err(e) => Err(e),
                        Ok(p) => match lookup(fs, "args"@) {
                            Some(Json::Array(a)) => match journal_of(lookup(fs, "journal"@)) {
                                Err(e) => Err(e),
                                Ok(jn) => Ok(
                                    ModificationView::Add {
                                        query_id: q,
                                        udf_path: p,
                                        args: a,
                                        journal: jn,
                                    },
                                ),
                            },
                            _ => Err(DecodeError::InvalidType),
                        },
                    },
                }
            } else if t == "Remove"@ {
                match u32_of(lookup(fs, "queryId"@)) {
                    Err(e) => Err(e),
                    Ok(q) => Ok(ModificationView::Remove { query_id: q }),
                }
            } else {
                Err(DecodeError::UnknownVariant)
            },
        },
        _ => Err(DecodeError::InvalidType),
    }
}

/// Decodes the first `n` modifications, stopping at the first error.
pub open spec fn modifications_of(xs: Seq<Json>, n: nat) -> Result<Seq<ModificationView>, DecodeError>
    decreases n,
{
    if n == 0 || n > xs.len() {
        Ok(Seq::empty())
    } else {
        match modifications_of(xs, (n - 1) as nat) {
            Err(e) => Err(e),
            Ok(ms) => match modification_of(xs[n - 1]) {
                Err(e) => Err(e),
                Ok(m) => Ok(ms.push(m)),
            },
        }
    }
}

/// The member that names the identity an admin acts as: `actingAs`, or its
/// legacy name `impersonating`.
pub open spec fn acting_member(fs: Seq<(Seq<char>, Json)>) -> Option<Json> {
    match lookup(fs, "actingAs"@) {
        Some(a) => Some(a),
        None => lookup(fs, "impersonating"@),
    }
}

/// What the members of a flattened authentication token decode to.
pub open spec fn token_of_members(fs: Seq<(Seq<char>, Json)>) -> Result<TokenView, DecodeError> {
    match str_of(lookup(fs, "tokenType"@)) {
        Err(e) => Err(e),
        Ok(t) => if t == "Admin"@ {
            match str_of(lookup(fs, "value"@)) {
                Err(e) => Err(e),
                Ok(v) => match acting_member(fs) {
                    None => Ok(TokenView::Admin(v, None)),
                    Some(Json::Null) => Ok(TokenView::Admin(v, None)),
                    Some(a) => match attributes_of(a) {
                        Err(e) => Err(e),
                        Ok(aj) => Ok(TokenView::Admin(v, Some(aj))),
                    },
                },
            }
        } else if t == "User"@ {
            match str_of(lookup(fs, "value"@)) {
                Err(e) => Err(e),
                Ok(v) => Ok(TokenView::User(v)),
            }
        } else if t == "None"@ {
            Ok(TokenView::Anonymous)
        } else {
            Err(DecodeError::UnknownVariant)
        },
    }
}

/// The request id of a mutation or an action: `requestId` if present, else
/// the legacy member.
pub open spec fn request_id_of(fs: Seq<(Seq<char>, Json)>, legacy: Seq<char>) -> Result<u32, DecodeError> {
    match opt_u32_of(lookup(fs, "requestId"@)) {
        Err(e) => Err(e),
        Ok(Some(r)) => match opt_u32_of(lookup(fs, legacy)) {
            Err(e) => Err(e),
            Ok(_) => Ok(r),
        },
        Ok(None) => match opt_u32_of(lookup(fs, legacy)) {
            Err(e) => Err(e),
            Ok(Some(r)) => Ok(r),
            Ok(None) => Err(DecodeError::MissingRequestId),
        },
    }
}

/// What the members of a mutation or an action decode to: its request id,
/// function path and arguments.
pub open spec fn request_of(fs: Seq<(Seq<char>, Json)>, legacy: Seq<char>) -> Result<
    (u32, Seq<char>, Seq<Json>),
    DecodeError,
> {
    match request_id_of(fs, legacy) {
        Err(e) => Err(e),
        Ok(r) => match str_of(lookup(fs, "udfPath"@)) {
            Err(e) => Err(e),
            Ok(p) => match array_of(lookup(fs, "args"@)) {
                Err(e) => Err(e),
                Ok(a) => Ok((r, p, a)),
            },
        },
    }
}

/// What a JSON document decodes to as a client message.
pub open spec fn client_of(j: Json) -> Result<ClientView, DecodeError> {
    match j {
        Json::Object(fs) => match str_of(lookup(fs, "type"@)) {
            Err(e) => Err(e),
            Ok(t) => if t == "Connect"@ {
                match str_of(lookup(fs, "sessionId"@)) {
                    Err(e) => Err(e),
                    Ok(s) => match u32_of(lookup(fs, "connectionCount"@)) {
                        Err(e) => Err(e),
                        Ok(c) => match opt_str_of(lookup(fs, "lastCloseReason"@)) {
                            Err(e) => Err(e),
                            Ok(r) => match session_of(s) {
                                None => Err(DecodeError::MalformedSessionId),
                                Some(x) => Ok(
                                    ClientView::Connect {
                                        session_id: x,
                                        connection_count: c,
                                        last_close_reason: match r {
                                            Some(r) => r,
                                            None => "unknown"@,
                                        },
                                    },
                                ),
                            },
                        },
                    },
                }
            } else if t == "ModifyQuerySet"@ {
                match u32_of(lookup(fs, "baseVersion"@)) {
                    Err(e) => Err(e),
                    Ok(b) => match u32_of(lookup(fs, "newVersion"@)) {
                        Err(e) => Err(e),
                        Ok(n) => match array_of(lookup(fs, "modifications"@)) {
                            Err(e) => Err(e),
                            Ok(xs) => match modifications_of(xs, xs.len()) {
                                Err(e) => Err(e),
                                Ok(ms) => Ok(
                                    ClientView::ModifyQuerySet {
                                        base_version: b,
                                        new_version: n,
                                        modifications: ms,
                                    },
                                ),
                            },
                        },
                    },
                }
            } else if t == "Mutation"@ {
                match request_of(fs, "mutationId"@) {
                    Err(e) => Err(e),
                    Ok((r, p, a)) => Ok(ClientView::Mutation { request_id: r, udf_path: p, args: a }),
                }
            } else if t == "Action"@ {
                match request_of(fs, "actionId"@) {
                    Err(e) => Err(e),
                    Ok((r, p, a)) => Ok(ClientView::Action { request_id: r, udf_path: p, args: a }),
                }
            } else if t == "Authenticate"@ {
                match u32_of(lookup(fs, "baseVersion"@)) {
                    Err(e) => Err(e),
                    Ok(b) => match token_of_members(fs) {
                        Err(e) => Err(e),
                        Ok(tk) => Ok(ClientView::Authenticate { base_version: b, token: tk }),
                    },
                }
            } else if t == "Event"@ {
                match str_of(lookup(fs, "eventType"@)) {
                    Err(e) => Err(e),
                    Ok(et) => match lookup(fs, "event"@) {
                        None => Err(DecodeError::MissingField),
                        Some(ev) => Ok(ClientView::Event { event_type: et, event: ev }),
                    },
                }
            } else {
                Err(DecodeError::UnknownVariant)
            },
        },
        _ => Err(DecodeError::InvalidType),
    }
}

/// The view of a member that may be absent.
pub open spec fn member_view(m: Option<&JsonValue>) -> Option<Json> {
    match m {
        Some(x) => Some(x@),
        None => None,
    }
}

/// Reads an optional member whose `null` is a value of its own: an absent
/// member is `None`, `null` is `Some(None)`, and a string is `Some(Some(..))`.
pub fn double_option(m: Option<&JsonValue>) -> (r: Result<Option<Option<String>>, DecodeError>)
    ensures
        match r {
            Ok(None) => journal_of(member_view(m)) == Ok::<
                Option<Option<Seq<char>>>,
                DecodeError,
            >(None),
            Ok(Some(None)) => journal_of(member_view(m)) == Ok::<
                Option<Option<Seq<char>>>,
                DecodeError,
            >(Some(None)),
            Ok(Some(Some(t))) => journal_of(member_view(m)) == Ok::<
                Option<Option<Seq<char>>>,
                DecodeError,
            >(Some(Some(t@))),
            Err(e) => journal_of(member_view(m)) == Err::<
                Option<Option<Seq<char>>>,
                DecodeError,
            >(e),
        },
{
    match m {
        None => Ok(None),
        Some(JsonValue::Null) => Ok(Some(None)),
        Some(JsonValue::String(t)) => Ok(Some(Some(t.clone()))),
        Some(_) => Err(DecodeError::InvalidType),
    }
}

/// A JSON string holding a literal.
fn text(lit: &str) -> (r: JsonValue)
    ensures
        r@ == Json::Str(lit@),
{
    JsonValue::String(String::from_str(lit))
}

/// An empty object under construction.
fn new_members() -> (r: Vec<(String, JsonValue)>)
    ensures
        fields_view(&r) == Seq::<(Seq<char>, Json)>::empty(),
{
    let r: Vec<(String, JsonValue)> = Vec::new();
    assert(fields_view(&r) =~= Seq::<(Seq<char>, Json)>::empty());
    r
}

impl QuerySetModification {
    /// The JSON form of this modification.
    pub fn to_json(&self) -> (r: JsonValue)
        ensures
            r@ == modification_json(self@),
    {
        let mut out = new_members();
        match self {
            QuerySetModification::Add(q) => {
                push_member(&mut out, "type", text("Add"));
                push_member(&mut out, "queryId", num_json(q.query_id.0));
                push_member(&mut out, "udfPath", JsonValue::String(q.udf_path.clone()));
                push_member(&mut out, "args", JsonValue::Array(copy_items(&q.args)));
                match &q.journal {
                    None => {},
                    Some(None) => push_member(&mut out, "journal", JsonValue::Null),
                    Some(Some(t)) => push_member(&mut out, "journal", JsonValue::String(t.clone())),
                }
                assert(fields_view(&out) =~= modification_json(self@)->Object_0);
            },
            QuerySetModification::Remove { query_id } => {
                push_member(&mut out, "type", text("Remove"));
                push_member(&mut out, "queryId", num_json(query_id.0));
                assert(fields_view(&out) =~= modification_json(self@)->Object_0);
            },
        }
        JsonValue::Object(out)
    }

    /// Decodes a query-set modification.
    pub fn from_json(j: &JsonValue) -> (r: Result<QuerySetModification, DecodeError>)
        ensures
            match r {
                Ok(m) => modification_of(j@) == Ok::<ModificationView, DecodeError>(m@),
                Err(e) => modification_of(j@) == Err::<ModificationView, DecodeError>(e),
            },
    {
        let fs = match j {
            JsonValue::Object(fs) => fs,
            _ => {
                return Err(DecodeError::InvalidType);
            },
        };
        let t = match read_str(fs, "type") {
            Ok(t) => t,
            Err(e) => {
                return Err(e);
            },
        };
        if str_is(&t, "Add") {
            let q = if get_field(fs, "queryId").is_none() {
                0
            } else {
                match read_u32(fs, "queryId") {
                    Ok(q) => q,
                    Err(e) => {
                        return Err(e);
                    },
                }
            };
            let p = if get_field(fs, "udfPath").is_none() {
                String::new()
            } else {
                match read_str(fs, "udfPath") {
                    Ok(p) => p,
                    Err(e) => {
                        return Err(e);
                    },
                }
            };
            let args = match get_field(fs, "args") {
                Some(JsonValue::Array(a)) => copy_items(a),
                _ => {
                    return Err(DecodeError::InvalidType);
                },
            };
            let journal = match double_option(get_field(fs, "journal")) {
                Ok(jn) => jn,
                Err(e) => {
                    return Err(e);
                },
            };
            Ok(
                QuerySetModification::Add(
                    Query { query_id: QueryId(q), udf_path: p, args, journal },
                ),
            )
        } else if str_is(&t, "Remove") {
            match read_u32(fs, "queryId") {
                Ok(q) => Ok(QuerySetModification::Remove { query_id: QueryId(q) }),
                Err(e) => Err(e),
            }
        } else {
            Err(DecodeError::UnknownVariant)
        }
    }
}

/// Decodes the modifications of a query-set change.
fn decode_modifications(a: &Vec<JsonValue>) -> (r: Result<Vec<QuerySetModification>, DecodeError>)
    ensures
        match r {
            Ok(ms) => modifications_of(items_view(a), a.len() as nat) == Ok::<
                Seq<ModificationView>,
                DecodeError,
            >(ms@.map_values(|m: QuerySetModification| m@)),
            Err(e) => modifications_of(items_view(a), a.len() as nat) == Err::<
                Seq<ModificationView>,
                DecodeError,
            >(e),
        },
{
    let ghost xs = items_view(a);
    let mut out: Vec<QuerySetModification> = Vec::new();
    let mut i: usize = 0;
    assert(out@.map_values(|m: QuerySetModification| m@) =~= Seq::<ModificationView>::empty());
    while i < a.len()
        invariant
            i <= a.len(),
            xs == items_view(a),
            out.len() == i,
            modifications_of(xs, i as nat) == Ok::<Seq<ModificationView>, DecodeError>(
                out@.map_values(|m: QuerySetModification| m@),
            ),
        decreases a.len() - i,
    {
        assert(xs[i as int] == a[i as int]@);
        match QuerySetModification::from_json(&a[i]) {
            Ok(m) => {
                let ghost before = out@.map_values(|m: QuerySetModification| m@);
                let ghost mv = m@;
                out.push(m);
                assert(out@.map_values(|m: QuerySetModification| m@) =~= before.push(mv));
            },
            Err(e) => {
                proof {
                    lemma_modifications_err(xs, (i + 1) as nat, a.len() as nat);
                }
                return Err(e);
            },
        }
        i += 1;
    }
    Ok(out)
}

/// Once a prefix of the modifications fails to decode, so do all of them.
proof fn lemma_modifications_err(xs: Seq<Json>, i: nat, n: nat)
    requires
        i <= n <= xs.len(),
        modifications_of(xs, i) is Err,
    ensures
        modifications_of(xs, n) == modifications_of(xs, i),
    decreases n - i,
{
    if i < n {
        lemma_modifications_err(xs, i, (n - 1) as nat);
    }
}

impl AuthenticationToken {
    /// Appends the members of this token, flattened into a message.
    fn push_members(&self, out: &mut Vec<(String, JsonValue)>)
        ensures
            fields_view(final(out)) == fields_view(old(out)) + token_members(self@),
    {
        let ghost before = fields_view(old(out));
        match self {
            AuthenticationToken::Admin(v, acting_as) => {
                push_member(out, "tokenType", text("Admin"));
                push_member(out, "value", JsonValue::String(v.clone()));
                match acting_as {
                    None => {},
                    Some(u) => push_member(out, "actingAs", u.to_json()),
                }
            },
            AuthenticationToken::User(v) => {
                push_member(out, "tokenType", text("User"));
                push_member(out, "value", JsonValue::String(v.clone()));
            },
            AuthenticationToken::Anonymous => {
                push_member(out, "tokenType", text("None"));
            },
        }
        assert(fields_view(out) =~= before + token_members(self@));
    }

    /// Decodes the members of a flattened token.
    fn from_members(fs: &Vec<(String, JsonValue)>) -> (r: Result<AuthenticationToken, DecodeError>)
        ensures
            match r {
                Ok(t) => token_of_members(fields_view(fs)) == Ok::<TokenView, DecodeError>(t@),
                Err(e) => token_of_members(fields_view(fs)) == Err::<TokenView, DecodeError>(e),
            },
    {
        let t = match read_str(fs, "tokenType") {
            Ok(t) => t,
            Err(e) => {
                return Err(e);
            },
        };
        if str_is(&t, "Admin") {
            let v = match read_str(fs, "value") {
                Ok(v) => v,
                Err(e) => {
                    return Err(e);
                },
            };
            let acting = match get_field(fs, "actingAs") {
                Some(a) => Some(a),
                None => get_field(fs, "impersonating"),
            };
            match acting {
                None => Ok(AuthenticationToken::Admin(v, None)),
                Some(JsonValue::Null) => Ok(AuthenticationToken::Admin(v, None)),
                Some(a) => match UserIdentityAttributes::from_json(a) {
                    Ok(u) => Ok(AuthenticationToken::Admin(v, Some(u))),
                    Err(e) => Err(e),
                },
            }
        } else if str_is(&t, "User") {
            match read_str(fs, "value") {
                Ok(v) => Ok(AuthenticationToken::User(v)),
                Err(e) => Err(e),
            }
        } else if str_is(&t, "None") {
            Ok(AuthenticationToken::Anonymous)
        } else {
            Err(DecodeError::UnknownVariant)
        }
    }
}

/// Reads the request id, function path and arguments of a mutation or an
/// action.
fn read_request(fs: &Vec<(String, JsonValue)>, legacy: &str) -> (r: Result<
    (u32, String, Vec<JsonValue>),
    DecodeError,
>)
    ensures
        match r {
            Ok((id, p, a)) => request_of(fields_view(fs), legacy@) == Ok::<
                (u32, Seq<char>, Seq<Json>),
                DecodeError,
            >((id, p@, items_view(&a))),
            Err(e) => request_of(fields_view(fs), legacy@) == Err::<
                (u32, Seq<char>, Seq<Json>),
                DecodeError,
            >(e),
        },
{
    let rid = match read_opt_u32(fs, "requestId") {
        Ok(x) => x,
        Err(e) => {
            return Err(e);
        },
    };
    let lid = match read_opt_u32(fs, legacy) {
        Ok(x) => x,
        Err(e) => {
            return Err(e);
        },
    };
    let id = match (rid, lid) {
        (Some(x), _) => x,
        (None, Some(x)) => x,
        (None, None) => {
            return Err(DecodeError::MissingRequestId);
        },
    };
    let p = match read_str(fs, "udfPath") {
        Ok(p) => p,
        Err(e) => {
            return Err(e);
        },
    };
    let a = match read_array(fs, "args") {
        Ok(a) => copy_items(a),
        Err(e) => {
            return Err(e);
        },
    };
    Ok((id, p, a))
}

impl ClientMessage {
    /// The JSON form of this message.
    pub fn to_json(&self) -> (r: JsonValue)
        ensures
            r@ == client_json(self@),
    {
        let mut out = new_members();
        match self {
            ClientMessage::Connect { session_id, connection_count, last_close_reason } => {
                push_member(&mut out, "type", text("Connect"));
                push_member(&mut out, "sessionId", JsonValue::String(session_id_text(session_id)));
                push_member(&mut out, "connectionCount", num_json(*connection_count));
                push_member(&mut out, "lastCloseReason", JsonValue::String(last_close_reason.clone()));
                assert(fields_view(&out) =~= client_json(self@)->Object_0);
            },
            ClientMessage::ModifyQuerySet { base_version, new_version, modifications } => {
                push_member(&mut out, "type", text("ModifyQuerySet"));
                push_member(&mut out, "baseVersion", num_json(*base_version));
                push_member(&mut out, "newVersion", num_json(*new_version));
                let mut items: Vec<JsonValue> = Vec::new();
                let mut i: usize = 0;
                while i < modifications.len()
                    invariant
                        i <= modifications.len(),
                        items.len() == i,
                        forall|k: int|
                            0 <= k < i ==> #[trigger] items_view(&items)[k] == modification_json(
                                modifications[k]@,
                            ),
                    decreases modifications.len() - i,
                {
                    let x = modifications[i].to_json();
                    let ghost before = items_view(&items);
                    items.push(x);
                    assert(items_view(&items) =~= before.push(x@));
                    i += 1;
                }
                let ghost mv = modifications@.map_values(|m: QuerySetModification| m@);
                assert(items_view(&items) =~= mv.map_values(|x| modification_json(x)));
                push_member(&mut out, "modifications", JsonValue::Array(items));
                assert(fields_view(&out) =~= client_json(self@)->Object_0);
            },
            ClientMessage::Mutation { request_id, udf_path, args } => {
                push_member(&mut out, "type", text("Mutation"));
                push_member(&mut out, "mutationId", num_json(*request_id));
                push_member(&mut out, "requestId", num_json(*request_id));
                push_member(&mut out, "udfPath", JsonValue::String(udf_path.clone()));
                push_member(&mut out, "args", JsonValue::Array(copy_items(args)));
                assert(fields_view(&out) =~= client_json(self@)->Object_0);
            },
            ClientMessage::Action { request_id, udf_path, args } => {
                push_member(&mut out, "type", text("Action"));
                push_member(&mut out, "actionId", num_json(*request_id));
                push_member(&mut out, "requestId", num_json(*request_id));
                push_member(&mut out, "udfPath", JsonValue::String(udf_path.clone()));
                push_member(&mut out, "args", JsonValue::Array(copy_items(args)));
                assert(fields_view(&out) =~= client_json(self@)->Object_0);
            },
            ClientMessage::Authenticate { base_version, token } => {
                push_member(&mut out, "type", text("Authenticate"));
                push_member(&mut out, "baseVersion", num_json(*base_version));
                token.push_members(&mut out);
                assert(fields_view(&out) =~= client_json(self@)->Object_0);
            },
            ClientMessage::Event(e) => {
                push_member(&mut out, "type", text("Event"));
                push_member(&mut out, "eventType", JsonValue::String(e.event_type.clone()));
                push_member(&mut out, "event", copy_json(&e.event));
                assert(fields_view(&out) =~= client_json(self@)->Object_0);
            },
        }
        JsonValue::Object(out)
    }

    /// Decodes a client message. A mutation or an action takes its request
    /// id from `requestId`, or else from the legacy member; a connection
    /// without a close reason gets `"unknown"`.
    #[verifier::rlimit(100)]
    #[verifier::spinoff_prover]
    pub fn from_json(j: &JsonValue) -> (r: Result<ClientMessage, DecodeError>)
        ensures
            match r {
                Ok(m) => client_of(j@) == Ok::<ClientView, DecodeError>(m@),
                Err(e) => client_of(j@) == Err::<ClientView, DecodeError>(e),
            },
    {
        let fs = match j {
            JsonValue::Object(fs) => fs,
            _ => {
                return Err(DecodeError::InvalidType);
            },
        };
        let t = match read_str(fs, "type") {
            Ok(t) => t,
            Err(e) => {
                return Err(e);
            },
        };
        if str_is(&t, "Connect") {
            let s = match read_str(fs, "sessionId") {
                Ok(s) => s,
                Err(e) => {
                    return Err(e);
                },
            };
            let c = match read_u32(fs, "connectionCount") {
                Ok(c) => c,
                Err(e) => {
                    return Err(e);
                },
            };
            let reason = match read_opt_str(fs, "lastCloseReason") {
                Ok(Some(r)) => r,
                Ok(None) => String::from_str("unknown"),
                Err(e) => {
                    return Err(e);
                },
            };
            match parse_session_id(s.as_str()) {
                Ok(id) => Ok(
                    ClientMessage::Connect {
                        session_id: id,
                        connection_count: c,
                        last_close_reason: reason,
                    },
                ),
                Err(e) => Err(e),
            }
        } else if str_is(&t, "ModifyQuerySet") {
            let b = match read_u32(fs, "baseVersion") {
                Ok(b) => b,
                Err(e) => {
                    return Err(e);
                },
            };
            let n = match read_u32(fs, "newVersion") {
                Ok(n) => n,
                Err(e) => {
                    return Err(e);
                },
            };
            let xs = match read_array(fs, "modifications") {
                Ok(xs) => xs,
                Err(e) => {
                    return Err(e);
                },
            };
            match decode_modifications(xs) {
                Ok(ms) => Ok(
                    ClientMessage::ModifyQuerySet {
                        base_version: b,
                        new_version: n,
                        modifications: ms,
                    },
                ),
                Err(e) => Err(e),
            }
        } else if str_is(&t, "Mutation") {
            match read_request(fs, "mutationId") {
                Ok((id, p, a)) => Ok(ClientMessage::Mutation { request_id: id, udf_path: p, args: a }),
                Err(e) => Err(e),
            }
        } else if str_is(&t, "Action") {
            match read_request(fs, "actionId") {
                Ok((id, p, a)) => Ok(ClientMessage::Action { request_id: id, udf_path: p, args: a }),
                Err(e) => Err(e),
            }
        } else if str_is(&t, "Authenticate") {
            let b = match read_u32(fs, "baseVersion") {
                Ok(b) => b,
                Err(e) => {
                    return Err(e);
                },
            };
            match AuthenticationToken::from_members(fs) {
                Ok(token) => Ok(ClientMessage::Authenticate { base_version: b, token }),
                Err(e) => Err(e),
            }
        } else if str_is(&t, "Event") {
            let et = match read_str(fs, "eventType") {
                Ok(et) => et,
                Err(e) => {
                    return Err(e);
                },
            };
            match get_field(fs, "event") {
                None => Err(DecodeError::MissingField),
                Some(ev) => Ok(ClientMessage::Event(ClientEvent { event_type: et, event: copy_json(ev) })),
            }
        } else {
            Err(DecodeError::UnknownVariant)
        }
    }
}

/// Decoding the JSON form of a mutation gives it back.
proof fn lemma_mutation_round_trip(request_id: u32, udf_path: Seq<char>, args: Seq<Json>)
    ensures
        client_of(client_json(ClientView::Mutation { request_id, udf_path, args })) == Ok::<
            ClientView,
            DecodeError,
        >(ClientView::Mutation { request_id, udf_path, args }),
{
    let m = ClientView::Mutation { request_id, udf_path, args };
    let fs = client_json(m)->Object_0;
    reveal_strlit("type");
    reveal_strlit("mutationId");
    reveal_strlit("requestId");
    reveal_strlit("udfPath");
    reveal_strlit("args");
    reveal_strlit("Mutation");
    reveal_strlit("Connect");
    reveal_strlit("ModifyQuerySet");
    assert(fs.len() == 5);
    assert(fs[0].0 == "type"@ && fs[1].0 == "mutationId"@ && fs[2].0 == "requestId"@ && fs[3].0
        == "udfPath"@ && fs[4].0 == "args"@);
    assert("type"@.len() == 4 && "mutationId"@.len() == 10 && "requestId"@.len() == 9
        && "udfPath"@.len() == 7 && "args"@.len() == 4 && "type"@[0] != "args"@[0]);
    lemma_lookup_at(fs, "type"@, 0);
    assert forall|j: int| 0 <= j < 2 implies #[trigger] fs[j].0 != "requestId"@ by {
        assert(j == 0 || j == 1);
    }
    lemma_lookup_at(fs, "requestId"@, 2);
    assert forall|j: int| 0 <= j < 1 implies #[trigger] fs[j].0 != "mutationId"@ by {}
    lemma_lookup_at(fs, "mutationId"@, 1);
    assert forall|j: int| 0 <= j < 3 implies #[trigger] fs[j].0 != "udfPath"@ by {
        assert(j == 0 || j == 1 || j == 2);
    }
    lemma_lookup_at(fs, "udfPath"@, 3);
    assert forall|j: int| 0 <= j < 4 implies #[trigger] fs[j].0 != "args"@ by {
        assert(j == 0 || j == 1 || j == 2 || j == 3);
    }
    lemma_lookup_at(fs, "args"@, 4);
    assert("Mutation"@ != "Connect"@ && "Mutation"@ != "ModifyQuerySet"@) by {
        assert("Mutation"@.len() == 8 && "Connect"@.len() == 7 && "ModifyQuerySet"@.len() == 14);
    }
    assert(request_id_of(fs, "mutationId"@) == Ok::<u32, DecodeError>(request_id));
    assert(request_of(fs, "mutationId"@) == Ok::<(u32, Seq<char>, Seq<Json>), DecodeError>(
        (request_id, udf_path, args),
    ));
}

/// Decoding the JSON form of an action gives it back.
proof fn lemma_action_round_trip(request_id: u32, udf_path: Seq<char>, args: Seq<Json>)
    ensures
        client_of(client_json(ClientView::Action { request_id, udf_path, args })) == Ok::<
            ClientView,
            DecodeError,
        >(ClientView::Action { request_id, udf_path, args }),
{
    let m = ClientView::Action { request_id, udf_path, args };
    let fs = client_json(m)->Object_0;
    reveal_strlit("type");
    assert("type"@.len() == 4 && "type"@[0] == 't' && "type"@[1] == 'y');
    reveal_strlit("actionId");
    assert("actionId"@.len() == 8 && "actionId"@[0] == 'a' && "actionId"@[1] == 'c');
    reveal_strlit("requestId");
    assert("requestId"@.len() == 9 && "requestId"@[0] == 'r' && "requestId"@[1] == 'e');
    reveal_strlit("udfPath");
    assert("udfPath"@.len() == 7 && "udfPath"@[0] == 'u' && "udfPath"@[1] == 'd');
    reveal_strlit("args");
    assert("args"@.len() == 4 && "args"@[0] == 'a' && "args"@[1] == 'r');
    reveal_strlit("Connect");
    assert("Connect"@.len() == 7 && "Connect"@[0] == 'C' && "Connect"@[1] == 'o');
    reveal_strlit("ModifyQuerySet");
    assert("ModifyQuerySet"@.len() == 14 && "ModifyQuerySet"@[0] == 'M' && "ModifyQuerySet"@[1] == 'o');
    reveal_strlit("Mutation");
    assert("Mutation"@.len() == 8 && "Mutation"@[0] == 'M' && "Mutation"@[1] == 'u');
    reveal_strlit("Action");
    assert("Action"@.len() == 6 && "Action"@[0] == 'A' && "Action"@[1] == 'c');
    reveal_strlit("Authenticate");
    assert("Authenticate"@.len() == 12 && "Authenticate"@[0] == 'A' && "Authenticate"@[1] == 'u');
    reveal_strlit("Event");
    assert("Event"@.len() == 5 && "Event"@[0] == 'E' && "Event"@[1] == 'v');
    assert(fs.len() == 5);
    assert(fs[0].0 == "type"@ && fs[1].0 == "actionId"@ && fs[2].0 == "requestId"@ && fs[3].0
        == "udfPath"@ && fs[4].0 == "args"@);
    lemma_lookup_at(fs, "type"@, 0);
    assert forall|j: int| 0 <= j < 1 implies #[trigger] fs[j].0 != "actionId"@ by {
        assert(j == 0);
    }
    lemma_lookup_at(fs, "actionId"@, 1);
    assert forall|j: int| 0 <= j < 2 implies #[trigger] fs[j].0 != "requestId"@ by {
        assert(j == 0 || j == 1);
    }
    lemma_lookup_at(fs, "requestId"@, 2);
    assert forall|j: int| 0 <= j < 3 implies #[trigger] fs[j].0 != "udfPath"@ by {
        assert(j == 0 || j == 1 || j == 2);
    }
    lemma_lookup_at(fs, "udfPath"@, 3);
    assert forall|j: int| 0 <= j < 4 implies #[trigger] fs[j].0 != "args"@ by {
        assert(j == 0 || j == 1 || j == 2 || j == 3);
    }
    lemma_lookup_at(fs, "args"@, 4);
    assert(request_id_of(fs, "actionId"@) == Ok::<u32, DecodeError>(request_id));
    assert(request_of(fs, "actionId"@) == Ok::<(u32, Seq<char>, Seq<Json>), DecodeError>(
        (request_id, udf_path, args),
    ));
}

/// Decoding the JSON form of an event gives it back.
proof fn lemma_event_round_trip(event_type: Seq<char>, event: Json)
    ensures
        client_of(client_json(ClientView::Event { event_type, event })) == Ok::<
            ClientView,
            DecodeError,
        >(ClientView::Event { event_type, event }),
{
    let m = ClientView::Event { event_type, event };
    let fs = client_json(m)->Object_0;
    reveal_strlit("type");
    assert("type"@.len() == 4 && "type"@[0] == 't' && "type"@[1] == 'y');
    reveal_strlit("eventType");
    assert("eventType"@.len() == 9 && "eventType"@[0] == 'e' && "eventType"@[1] == 'v');
    reveal_strlit("event");
    assert("event"@.len() == 5 && "event"@[0] == 'e' && "event"@[1] == 'v');
    reveal_strlit("Connect");
    assert("Connect"@.len() == 7 && "Connect"@[0] == 'C' && "Connect"@[1] == 'o');
    reveal_strlit("ModifyQuerySet");
    assert("ModifyQuerySet"@.len() == 14 && "ModifyQuerySet"@[0] == 'M' && "ModifyQuerySet"@[1] == 'o');
    reveal_strlit("Mutation");
    assert("Mutation"@.len() == 8 && "Mutation"@[0] == 'M' && "Mutation"@[1] == 'u');
    reveal_strlit("Action");
    assert("Action"@.len() == 6 && "Action"@[0] == 'A' && "Action"@[1] == 'c');
    reveal_strlit("Authenticate");
    assert("Authenticate"@.len() == 12 && "Authenticate"@[0] == 'A' && "Authenticate"@[1] == 'u');
    reveal_strlit("Event");
    assert("Event"@.len() == 5 && "Event"@[0] == 'E' && "Event"@[1] == 'v');
    assert(fs.len() == 3);
    assert(fs[0].0 == "type"@ && fs[1].0 == "eventType"@ && fs[2].0 == "event"@);
    lemma_lookup_at(fs, "type"@, 0);
    assert forall|j: int| 0 <= j < 1 implies #[trigger] fs[j].0 != "eventType"@ by {
        assert(j == 0);
    }
    lemma_lookup_at(fs, "eventType"@, 1);
    assert forall|j: int| 0 <= j < 2 implies #[trigger] fs[j].0 != "event"@ by {
        assert(j == 0 || j == 1);
    }
    lemma_lookup_at(fs, "event"@, 2);
}

/// Decoding the JSON form of an authentication gives it back.
proof fn lemma_authenticate_round_trip(base_version: u32, token: AuthenticationToken)
    ensures
        client_of(client_json(ClientView::Authenticate { base_version, token: token@ })) == Ok::<
            ClientView,
            DecodeError,
        >(ClientView::Authenticate { base_version, token: token@ }),
{
    let m = ClientView::Authenticate { base_version, token: token@ };
    let fs = client_json(m)->Object_0;
    reveal_strlit("type");
    assert("type"@.len() == 4 && "type"@[0] == 't' && "type"@[1] == 'y');
    reveal_strlit("baseVersion");
    assert("baseVersion"@.len() == 11 && "baseVersion"@[0] == 'b' && "baseVersion"@[1] == 'a');
    reveal_strlit("tokenType");
    assert("tokenType"@.len() == 9 && "tokenType"@[0] == 't' && "tokenType"@[1] == 'o');
    reveal_strlit("value");
    assert("value"@.len() == 5 && "value"@[0] == 'v' && "value"@[1] == 'a');
    reveal_strlit("actingAs");
    assert("actingAs"@.len() == 8 && "actingAs"@[0] == 'a' && "actingAs"@[1] == 'c');
    reveal_strlit("impersonating");
    assert("impersonating"@.len() == 13 && "impersonating"@[0] == 'i' && "impersonating"@[1] == 'm');
    reveal_strlit("Admin");
    assert("Admin"@.len() == 5 && "Admin"@[0] == 'A' && "Admin"@[1] == 'd');
    reveal_strlit("User");
    assert("User"@.len() == 4 && "User"@[0] == 'U' && "User"@[1] == 's');
    reveal_strlit("None");
    assert("None"@.len() == 4 && "None"@[0] == 'N' && "None"@[1] == 'o');
    reveal_strlit("Connect");
    assert("Connect"@.len() == 7 && "Connect"@[0] == 'C' && "Connect"@[1] == 'o');
    reveal_strlit("ModifyQuerySet");
    assert("ModifyQuerySet"@.len() == 14 && "ModifyQuerySet"@[0] == 'M' && "ModifyQuerySet"@[1] == 'o');
    reveal_strlit("Mutation");
    assert("Mutation"@.len() == 8 && "Mutation"@[0] == 'M' && "Mutation"@[1] == 'u');
    reveal_strlit("Action");
    assert("Action"@.len() == 6 && "Action"@[0] == 'A' && "Action"@[1] == 'c');
    reveal_strlit("Authenticate");
    assert("Authenticate"@.len() == 12 && "Authenticate"@[0] == 'A' && "Authenticate"@[1] == 'u');
    reveal_strlit("Event");
    assert("Event"@.len() == 5 && "Event"@[0] == 'E' && "Event"@[1] == 'v');
    let head = seq![("type"@, Json::Str("Authenticate"@)), ("baseVersion"@, num(base_version))];
    assert(fs == head + token_members(token@));
    assert(fs[0].0 == "type"@ && fs[1].0 == "baseVersion"@);
    lemma_lookup_at(fs, "type"@, 0);
    assert forall|j: int| 0 <= j < 1 implies #[trigger] fs[j].0 != "baseVersion"@ by {
        assert(j == 0);
    }
    lemma_lookup_at(fs, "baseVersion"@, 1);
    match token {
        AuthenticationToken::Admin(v, None) => {
            assert(fs.len() == 4 && fs[2].0 == "tokenType"@ && fs[3].0 == "value"@);
            lemma_lookup_at(fs, "type"@, 0);
            assert forall|j: int| 0 <= j < 1 implies #[trigger] fs[j].0 != "baseVersion"@ by {
                assert(j == 0);
            }
            lemma_lookup_at(fs, "baseVersion"@, 1);
            assert forall|j: int| 0 <= j < 2 implies #[trigger] fs[j].0 != "tokenType"@ by {
                assert(j == 0 || j == 1);
            }
            lemma_lookup_at(fs, "tokenType"@, 2);
            assert forall|j: int| 0 <= j < 3 implies #[trigger] fs[j].0 != "value"@ by {
                assert(j == 0 || j == 1 || j == 2);
            }
            lemma_lookup_at(fs, "value"@, 3);
            assert forall|j: int| 0 <= j < fs.len() implies #[trigger] fs[j].0 != "actingAs"@ by {
                assert(j == 0 || j == 1 || j == 2 || j == 3);
            }
            lemma_lookup_absent(fs, "actingAs"@);
            assert forall|j: int| 0 <= j < fs.len() implies #[trigger] fs[j].0 != "impersonating"@ by {
                assert(j == 0 || j == 1 || j == 2 || j == 3);
            }
            lemma_lookup_absent(fs, "impersonating"@);
        },
        AuthenticationToken::Admin(v, Some(u)) => {
            assert(fs.len() == 5 && fs[2].0 == "tokenType"@ && fs[3].0 == "value"@ && fs[4].0
                == "actingAs"@);
            lemma_lookup_at(fs, "type"@, 0);
            assert forall|j: int| 0 <= j < 1 implies #[trigger] fs[j].0 != "baseVersion"@ by {
                assert(j == 0);
            }
            lemma_lookup_at(fs, "baseVersion"@, 1);
            assert forall|j: int| 0 <= j < 2 implies #[trigger] fs[j].0 != "tokenType"@ by {
                assert(j == 0 || j == 1);
            }
            lemma_lookup_at(fs, "tokenType"@, 2);
            assert forall|j: int| 0 <= j < 3 implies #[trigger] fs[j].0 != "value"@ by {
                assert(j == 0 || j == 1 || j == 2);
            }
            lemma_lookup_at(fs, "value"@, 3);
            assert forall|j: int| 0 <= j < 4 implies #[trigger] fs[j].0 != "actingAs"@ by {
                assert(j == 0 || j == 1 || j == 2 || j == 3);
            }
            lemma_lookup_at(fs, "actingAs"@, 4);
            lemma_attributes_round_trip(u);
            assert(u.json() is Object);
        },
        AuthenticationToken::User(v) => {
            assert(fs.len() == 4 && fs[2].0 == "tokenType"@ && fs[3].0 == "value"@);
            lemma_lookup_at(fs, "type"@, 0);
            assert forall|j: int| 0 <= j < 1 implies #[trigger] fs[j].0 != "baseVersion"@ by {
                assert(j == 0);
            }
            lemma_lookup_at(fs, "baseVersion"@, 1);
            assert forall|j: int| 0 <= j < 2 implies #[trigger] fs[j].0 != "tokenType"@ by {
                assert(j == 0 || j == 1);
            }
            lemma_lookup_at(fs, "tokenType"@, 2);
            assert forall|j: int| 0 <= j < 3 implies #[trigger] fs[j].0 != "value"@ by {
                assert(j == 0 || j == 1 || j == 2);
            }
            lemma_lookup_at(fs, "value"@, 3);
        },
        AuthenticationToken::Anonymous => {
            assert(fs.len() == 3 && fs[2].0 == "tokenType"@);
            lemma_lookup_at(fs, "type"@, 0);
            assert forall|j: int| 0 <= j < 1 implies #[trigger] fs[j].0 != "baseVersion"@ by {
                assert(j == 0);
            }
            lemma_lookup_at(fs, "baseVersion"@, 1);
            assert forall|j: int| 0 <= j < 2 implies #[trigger] fs[j].0 != "tokenType"@ by {
                assert(j == 0 || j == 1);
            }
            lemma_lookup_at(fs, "tokenType"@, 2);
        },
    }
}

/// Decoding the JSON form of a modification gives it back.
proof fn lemma_modification_round_trip(m: ModificationView)
    ensures
        modification_of(modification_json(m)) == Ok::<ModificationView, DecodeError>(m),
{
    let fs = modification_json(m)->Object_0;
    reveal_strlit("type");
    assert("type"@.len() == 4 && "type"@[0] == 't' && "type"@[1] == 'y');
    reveal_strlit("queryId");
    assert("queryId"@.len() == 7 && "queryId"@[0] == 'q' && "queryId"@[1] == 'u');
    reveal_strlit("udfPath");
    assert("udfPath"@.len() == 7 && "udfPath"@[0] == 'u' && "udfPath"@[1] == 'd');
    reveal_strlit("args");
    assert("args"@.len() == 4 && "args"@[0] == 'a' && "args"@[1] == 'r');
    reveal_strlit("journal");
    assert("journal"@.len() == 7 && "journal"@[0] == 'j' && "journal"@[1] == 'o');
    reveal_strlit("Add");
    assert("Add"@.len() == 3 && "Add"@[0] == 'A' && "Add"@[1] == 'd');
    reveal_strlit("Remove");
    assert("Remove"@.len() == 6 && "Remove"@[0] == 'R' && "Remove"@[1] == 'e');
    match m {
        ModificationView::Add { query_id, udf_path, args, journal } => {
            assert(fs.len() >= 4 && fs[0].0 == "type"@ && fs[1].0 == "queryId"@ && fs[2].0
                == "udfPath"@ && fs[3].0 == "args"@);
            lemma_lookup_at(fs, "type"@, 0);
            assert forall|j: int| 0 <= j < 1 implies #[trigger] fs[j].0 != "queryId"@ by {
                assert(j == 0);
            }
            lemma_lookup_at(fs, "queryId"@, 1);
            assert forall|j: int| 0 <= j < 2 implies #[trigger] fs[j].0 != "udfPath"@ by {
                assert(j == 0 || j == 1);
            }
            lemma_lookup_at(fs, "udfPath"@, 2);
            assert forall|j: int| 0 <= j < 3 implies #[trigger] fs[j].0 != "args"@ by {
                assert(j == 0 || j == 1 || j == 2);
            }
            lemma_lookup_at(fs, "args"@, 3);
            if journal is Some {
                assert(fs.len() == 5 && fs[4].0 == "journal"@);
                lemma_lookup_at(fs, "type"@, 0);
                assert forall|j: int| 0 <= j < 1 implies #[trigger] fs[j].0 != "queryId"@ by {
                    assert(j == 0);
                }
                lemma_lookup_at(fs, "queryId"@, 1);
                assert forall|j: int| 0 <= j < 2 implies #[trigger] fs[j].0 != "udfPath"@ by {
                    assert(j == 0 || j == 1);
                }
                lemma_lookup_at(fs, "udfPath"@, 2);
                assert forall|j: int| 0 <= j < 3 implies #[trigger] fs[j].0 != "args"@ by {
                    assert(j == 0 || j == 1 || j == 2);
                }
                lemma_lookup_at(fs, "args"@, 3);
                assert forall|j: int| 0 <= j < 4 implies #[trigger] fs[j].0 != "journal"@ by {
                    assert(j == 0 || j == 1 || j == 2 || j == 3);
                }
                lemma_lookup_at(fs, "journal"@, 4);
            } else {
                assert(fs.len() == 4);
                assert forall|j: int| 0 <= j < fs.len() implies #[trigger] fs[j].0 != "journal"@ by {
                    assert(j == 0 || j == 1 || j == 2 || j == 3);
                }
                lemma_lookup_absent(fs, "journal"@);
            }
        },
        ModificationView::Remove { query_id } => {
            assert(fs.len() == 2 && fs[0].0 == "type"@ && fs[1].0 == "queryId"@);
            lemma_lookup_at(fs, "type"@, 0);
            assert forall|j: int| 0 <= j < 1 implies #[trigger] fs[j].0 != "queryId"@ by {
                assert(j == 0);
            }
            lemma_lookup_at(fs, "queryId"@, 1);
        },
    }
}

/// Decoding the JSON forms of modifications gives them back.
proof fn lemma_modifications_round_trip(ms: Seq<ModificationView>, n: nat)
    requires
        n <= ms.len(),
    ensures
        modifications_of(ms.map_values(|x| modification_json(x)), n) == Ok::<
            Seq<ModificationView>,
            DecodeError,
        >(ms.take(n as int)),
    decreases n,
{
    if n > 0 {
        lemma_modifications_round_trip(ms, (n - 1) as nat);
        lemma_modification_round_trip(ms[n - 1]);
        assert(ms.take(n as int) =~= ms.take(n - 1).push(ms[n - 1]));
    } else {
        assert(ms.take(0) =~= Seq::<ModificationView>::empty());
    }
}

/// Decoding the JSON form of a query-set change gives it back.
proof fn lemma_modify_round_trip(base_version: u32, new_version: u32, modifications: Seq<ModificationView>)
    ensures
        client_of(client_json(ClientView::ModifyQuerySet { base_version, new_version, modifications }))
            == Ok::<ClientView, DecodeError>(
            ClientView::ModifyQuerySet { base_version, new_version, modifications },
        ),
{
    let m = ClientView::ModifyQuerySet { base_version, new_version, modifications };
    let fs = client_json(m)->Object_0;
    reveal_strlit("type");
    assert("type"@.len() == 4 && "type"@[0] == 't' && "type"@[1] == 'y');
    reveal_strlit("baseVersion");
    assert("baseVersion"@.len() == 11 && "baseVersion"@[0] == 'b' && "baseVersion"@[1] == 'a');
    reveal_strlit("newVersion");
    assert("newVersion"@.len() == 10 && "newVersion"@[0] == 'n' && "newVersion"@[1] == 'e');
    reveal_strlit("modifications");
    assert("modifications"@.len() == 13 && "modifications"@[0] == 'm' && "modifications"@[1] == 'o');
    reveal_strlit("Connect");
    assert("Connect"@.len() == 7 && "Connect"@[0] == 'C' && "Connect"@[1] == 'o');
    reveal_strlit("ModifyQuerySet");
    assert("ModifyQuerySet"@.len() == 14 && "ModifyQuerySet"@[0] == 'M' && "ModifyQuerySet"@[1] == 'o');
    reveal_strlit("Mutation");
    assert("Mutation"@.len() == 8 && "Mutation"@[0] == 'M' && "Mutation"@[1] == 'u');
    reveal_strlit("Action");
    assert("Action"@.len() == 6 && "Action"@[0] == 'A' && "Action"@[1] == 'c');
    reveal_strlit("Authenticate");
    assert("Authenticate"@.len() == 12 && "Authenticate"@[0] == 'A' && "Authenticate"@[1] == 'u');
    reveal_strlit("Event");
    assert("Event"@.len() == 5 && "Event"@[0] == 'E' && "Event"@[1] == 'v');
    assert(fs.len() == 4);
    assert(fs[0].0 == "type"@ && fs[1].0 == "baseVersion"@ && fs[2].0 == "newVersion"@ && fs[3].0
        == "modifications"@);
    lemma_lookup_at(fs, "type"@, 0);
    assert forall|j: int| 0 <= j < 1 implies #[trigger] fs[j].0 != "baseVersion"@ by {
        assert(j == 0);
    }
    lemma_lookup_at(fs, "baseVersion"@, 1);
    assert forall|j: int| 0 <= j < 2 implies #[trigger] fs[j].0 != "newVersion"@ by {
        assert(j == 0 || j == 1);
    }
    lemma_lookup_at(fs, "newVersion"@, 2);
    assert forall|j: int| 0 <= j < 3 implies #[trigger] fs[j].0 != "modifications"@ by {
        assert(j == 0 || j == 1 || j == 2);
    }
    lemma_lookup_at(fs, "modifications"@, 3);
    lemma_modifications_round_trip(modifications, modifications.len());
    assert(modifications.take(modifications.len() as int) =~= modifications);
}

/// Decoding the JSON form of a connection gives it back, for a session id
/// whose hyphenated text reads back as that id.
proof fn lemma_connect_round_trip(session_id: u128, connection_count: u32, last_close_reason: Seq<char>)
    requires
        session_of(uuid_text(session_id)) == Some(session_id),
    ensures
        client_of(
            client_json(ClientView::Connect { session_id, connection_count, last_close_reason }),
        ) == Ok::<ClientView, DecodeError>(
            ClientView::Connect { session_id, connection_count, last_close_reason },
        ),
{
    let m = ClientView::Connect { session_id, connection_count, last_close_reason };
    let fs = client_json(m)->Object_0;
    reveal_strlit("type");
    assert("type"@.len() == 4 && "type"@[0] == 't' && "type"@[1] == 'y');
    reveal_strlit("sessionId");
    assert("sessionId"@.len() == 9 && "sessionId"@[0] == 's' && "sessionId"@[1] == 'e');
    reveal_strlit("connectionCount");
    assert("connectionCount"@.len() == 15 && "connectionCount"@[0] == 'c' && "connectionCount"@[1] == 'o');
    reveal_strlit("lastCloseReason");
    assert("lastCloseReason"@.len() == 15 && "lastCloseReason"@[0] == 'l' && "lastCloseReason"@[1] == 'a');
    reveal_strlit("Connect");
    assert("Connect"@.len() == 7 && "Connect"@[0] == 'C' && "Connect"@[1] == 'o');
    reveal_strlit("ModifyQuerySet");
    assert("ModifyQuerySet"@.len() == 14 && "ModifyQuerySet"@[0] == 'M' && "ModifyQuerySet"@[1] == 'o');
    reveal_strlit("Mutation");
    assert("Mutation"@.len() == 8 && "Mutation"@[0] == 'M' && "Mutation"@[1] == 'u');
    reveal_strlit("Action");
    assert("Action"@.len() == 6 && "Action"@[0] == 'A' && "Action"@[1] == 'c');
    reveal_strlit("Authenticate");
    assert("Authenticate"@.len() == 12 && "Authenticate"@[0] == 'A' && "Authenticate"@[1] == 'u');
    reveal_strlit("Event");
    assert("Event"@.len() == 5 && "Event"@[0] == 'E' && "Event"@[1] == 'v');
    assert(fs.len() == 4);
    assert(fs[0].0 == "type"@ && fs[1].0 == "sessionId"@ && fs[2].0 == "connectionCount"@ && fs[3].0
        == "lastCloseReason"@);
    lemma_lookup_at(fs, "type"@, 0);
    assert forall|j: int| 0 <= j < 1 implies #[trigger] fs[j].0 != "sessionId"@ by {
        assert(j == 0);
    }
    lemma_lookup_at(fs, "sessionId"@, 1);
    assert forall|j: int| 0 <= j < 2 implies #[trigger] fs[j].0 != "connectionCount"@ by {
        assert(j == 0 || j == 1);
    }
    lemma_lookup_at(fs, "connectionCount"@, 2);
    assert forall|j: int| 0 <= j < 3 implies #[trigger] fs[j].0 != "lastCloseReason"@ by {
        assert(j == 0 || j == 1 || j == 2);
    }
    lemma_lookup_at(fs, "lastCloseReason"@, 3);
}

/// Encoding a client message and decoding the result gives the message
/// back. A session id must be one whose hyphenated text reads back as that
/// id, as `parse_session_id` checks at run time for the text that
/// `session_id_text` writes.
pub proof fn lemma_client_round_trip(m: ClientMessage)
    requires
        match m {
            ClientMessage::Connect { session_id, .. } => session_of(uuid_text(session_id.0)) == Some(
                session_id.0,
            ),
            _ => true,
        },
    ensures
        client_of(client_json(m@)) == Ok::<ClientView, DecodeError>(m@),
{
    match m {
        ClientMessage::Connect { session_id, connection_count, last_close_reason } => {
            lemma_connect_round_trip(session_id.0, connection_count, last_close_reason@);
        },
        ClientMessage::ModifyQuerySet { base_version, new_version, modifications } => {
            lemma_modify_round_trip(
                base_version,
                new_version,
                modifications@.map_values(|x: QuerySetModification| x@),
            );
        },
        ClientMessage::Mutation { request_id, udf_path, args } => {
            lemma_mutation_round_trip(request_id, udf_path@, items_view(&args));
        },
        ClientMessage::Action { request_id, udf_path, args } => {
            lemma_action_round_trip(request_id, udf_path@, items_view(&args));
        },
        ClientMessage::Authenticate { base_version, token } => {
            lemma_authenticate_round_trip(base_version, token);
        },
        ClientMessage::Event(e) => {
            lemma_event_round_trip(e.event_type@, e.event@);
        },
    }
}

} // verus!
