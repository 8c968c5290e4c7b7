//! User identity attributes and their JSON form.

use vstd::prelude::*;
use vstd::string::*;

use crate::error::DecodeError;
use crate::json::{fields_view, get_field, lookup, Json, JsonValue};
use crate::types::{identifier_of, UserIdentifier};

verus! {

/// OpenID Connect claims about a user, with the user's canonical key.
#[derive(Debug)]
pub struct UserIdentityAttributes {
    pub token_identifier: UserIdentifier,
    pub issuer: Option<String>,
    pub subject: Option<String>,
    pub name: Option<String>,
    pub given_name: Option<String>,
    pub family_name: Option<String>,
    pub nickname: Option<String>,
    pub preferred_username: Option<String>,
    pub profile_url: Option<String>,
    pub picture_url: Option<String>,
    pub website_url: Option<String>,
    pub email: Option<String>,
    pub email_verified: Option<bool>,
    pub gender: Option<String>,
    pub birthday: Option<String>,
    pub timezone: Option<String>,
    pub language: Option<String>,
    pub phone_number: Option<String>,
    pub phone_number_verified: Option<bool>,
    pub address: Option<String>,
    /// An RFC 3339 date and time.
    pub updated_at: Option<String>,
}

/// The JSON form of an optional text claim.
pub open spec fn opt_str_json(o: Option<String>) -> Option<Json> {
    match o {
        Some(s) => Some(Json::Str(s@)),
        None => None,
    }
}

/// The JSON form of an optional yes/no claim.
pub open spec fn opt_bool_json(o: Option<bool>) -> Option<Json> {
    match o {
        Some(b) => Some(Json::Bool(b)),
        None => None,
    }
}

/// The member names of the optional claims, in the order they are written.
pub open spec fn claim_names() -> Seq<Seq<char>> {
    seq![
        "issuer"@,
        "subject"@,
        "name"@,
        "givenName"@,
        "familyName"@,
        "nickname"@,
        "preferredUsername"@,
        "profileUrl"@,
        "pictureUrl"@,
        "websiteUrl"@,
        "email"@,
        "emailVerified"@,
        "gender"@,
        "birthday"@,
        "timezone"@,
        "language"@,
        "phoneNumber"@,
        "phoneNumberVerified"@,
        "address"@,
        "updatedAt"@,
    ]
}

/// Whether the optional claim at `k` is a yes/no claim rather than text.
pub open spec fn is_bool_claim(k: int) -> bool {
    k == 11 || k == 17
}

/// The members that encode the optional claims: those of the first `n`
/// claims that are present.
pub open spec fn present_members(vals: Seq<Option<Json>>, n: nat) -> Seq<(Seq<char>, Json)>
    decreases n,
{
    if n == 0 || n > vals.len() {
        Seq::empty()
    } else {
        let prev = present_members(vals, (n - 1) as nat);
        match vals[n - 1] {
            Some(j) => prev.push((claim_names()[n - 1], j)),
            None => prev,
        }
    }
}

/// What an optional claim's member decodes to: absent and `null` are
/// missing; otherwise it must be text, or a boolean for a yes/no claim.
pub open spec fn claim_of(m: Option<Json>, is_bool: bool) -> Result<Option<Json>, DecodeError> {
    match m {
        None => Ok(None),
        Some(Json::Null) => Ok(None),
        Some(Json::Str(s)) => if is_bool {
            Err(DecodeError::InvalidType)
        } else {
            Ok(Some(Json::Str(s)))
        },
        Some(Json::Bool(b)) => if is_bool {
            Ok(Some(Json::Bool(b)))
        } else {
            Err(DecodeError::InvalidType)
        },
        _ => Err(DecodeError::InvalidType),
    }
}

/// Whether every optional claim among the members is of the right kind.
pub open spec fn claims_well_typed(fs: Seq<(Seq<char>, Json)>) -> bool {
    forall|k: int| 0 <= k < claim_names().len() ==> #[trigger] claim_of(lookup(fs, claim_names()[k]), is_bool_claim(k)) is Ok
}

impl UserIdentityAttributes {
    /// The optional claims in JSON form, in the order they are written.
    pub open spec fn claims(&self) -> Seq<Option<Json>> {
        seq![
            opt_str_json(self.issuer),
            opt_str_json(self.subject),
            opt_str_json(self.name),
            opt_str_json(self.given_name),
            opt_str_json(self.family_name),
            opt_str_json(self.nickname),
            opt_str_json(self.preferred_username),
            opt_str_json(self.profile_url),
            opt_str_json(self.picture_url),
            opt_str_json(self.website_url),
            opt_str_json(self.email),
            opt_bool_json(self.email_verified),
            opt_str_json(self.gender),
            opt_str_json(self.birthday),
            opt_str_json(self.timezone),
            opt_str_json(self.language),
            opt_str_json(self.phone_number),
            opt_bool_json(self.phone_number_verified),
            opt_str_json(self.address),
            opt_str_json(self.updated_at),
        ]
    }

    /// The JSON form: the token identifier, always, then each claim that is present.
    pub open spec fn json(&self) -> Json {
        Json::Object(
            seq![("tokenIdentifier"@, Json::Str(self.token_identifier.0@))] + present_members(
                self.claims(),
                20,
            ),
        )
    }

    /// Whether these attributes are what the members `fs` decode to.
    pub open spec fn decoded_from(&self, fs: Seq<(Seq<char>, Json)>) -> bool {
        &&& forall|k: int| 0 <= k < 20 ==> #[trigger] claim_of(lookup(fs, claim_names()[k]), is_bool_claim(k)) == Ok::<Option<Json>, DecodeError>(self.claims()[k])
        &&& self.token_identifier.0@ == match lookup(fs, "tokenIdentifier"@) {
            Some(Json::Str(t)) => t,
            _ => identifier_of(self.issuer->0@, self.subject->0@),
        }
    }
}

/// The optional claims that members decode to, when they are well typed.
pub open spec fn decoded_claims(fs: Seq<(Seq<char>, Json)>) -> Seq<Option<Json>> {
    Seq::new(
        claim_names().len(),
        |k: int| claim_of(lookup(fs, claim_names()[k]), is_bool_claim(k))->Ok_0,
    )
}

/// The token identifier that members decode to: the given one, or the one
/// derived from the issuer and the subject.
pub open spec fn token_of(fs: Seq<(Seq<char>, Json)>) -> Seq<char> {
    match lookup(fs, "tokenIdentifier"@) {
        Some(Json::Str(t)) => t,
        _ => identifier_of(decoded_claims(fs)[0]->0->Str_0, decoded_claims(fs)[1]->0->Str_0),
    }
}

/// The JSON form of the attributes that members decode to.
pub open spec fn attributes_json(fs: Seq<(Seq<char>, Json)>) -> Json {
    Json::Object(
        seq![("tokenIdentifier"@, Json::Str(token_of(fs)))] + present_members(decoded_claims(fs), 20),
    )
}

/// What a JSON document decodes to as identity attributes, given by its
/// JSON form.
pub open spec fn attributes_of(j: Json) -> Result<Json, DecodeError> {
    match j {
        Json::Object(fs) => match attributes_error(fs) {
            Some(e) => Err(e),
            None => Ok(attributes_json(fs)),
        },
        _ => Err(DecodeError::InvalidType),
    }
}

/// Why members fail to decode as identity attributes, if they do.
pub open spec fn attributes_error(fs: Seq<(Seq<char>, Json)>) -> Option<DecodeError> {
    match lookup(fs, "tokenIdentifier"@) {
        Some(Json::Str(_)) => if claims_well_typed(fs) {
            None
        } else {
            Some(DecodeError::InvalidType)
        },
        None | Some(Json::Null) => if !claims_well_typed(fs) {
            Some(DecodeError::InvalidType)
        } else if claim_of(lookup(fs, "issuer"@), false) != Ok::<Option<Json>, DecodeError>(None)
            && claim_of(lookup(fs, "subject"@), false) != Ok::<Option<Json>, DecodeError>(None) {
            None
        } else {
            Some(DecodeError::MissingIdentityKey)
        },
        _ => Some(DecodeError::InvalidType),
    }
}

/// Reads an optional text claim.
fn str_claim(fs: &Vec<(String, JsonValue)>, name: &str) -> (r: Result<Option<String>, DecodeError>)
    ensures
        match r {
            Ok(o) => claim_of(lookup(fields_view(fs), name@), false) == Ok::<Option<Json>, DecodeError>(opt_str_json(o)),
            Err(e) => claim_of(lookup(fields_view(fs), name@), false) == Err::<Option<Json>, DecodeError>(e),
        },
{
    match get_field(fs, name) {
        None => Ok(None),
        Some(JsonValue::Null) => Ok(None),
        Some(JsonValue::String(s)) => Ok(Some(s.clone())),
        Some(_) => Err(DecodeError::InvalidType),
    }
}

/// Reads an optional yes/no claim.
fn bool_claim(fs: &Vec<(String, JsonValue)>, name: &str) -> (r: Result<Option<bool>, DecodeError>)
    ensures
        match r {
            Ok(o) => claim_of(lookup(fields_view(fs), name@), true) == Ok::<Option<Json>, DecodeError>(opt_bool_json(o)),
            Err(e) => claim_of(lookup(fields_view(fs), name@), true) == Err::<Option<Json>, DecodeError>(e),
        },
{
    match get_field(fs, name) {
        None => Ok(None),
        Some(JsonValue::Null) => Ok(None),
        Some(JsonValue::Bool(b)) => Ok(Some(*b)),
        Some(_) => Err(DecodeError::InvalidType),
    }
}

/// Appends a member for a text claim, if it is present.
fn push_str_claim(out: &mut Vec<(String, JsonValue)>, name: &str, v: &Option<String>)
    ensures
        fields_view(final(out)) == match opt_str_json(*v) {
            Some(j) => fields_view(old(out)).push((name@, j)),
            None => fields_view(old(out)),
        },
{
    let ghost before = fields_view(old(out));
    match v {
        Some(s) => {
            out.push((String::from_str(name), JsonValue::String(s.clone())));
            assert(fields_view(out) =~= before.push((name@, Json::Str(s@))));
        },
        None => {},
    }
}

/// Appends a member for a yes/no claim, if it is present.
fn push_bool_claim(out: &mut Vec<(String, JsonValue)>, name: &str, v: &Option<bool>)
    ensures
        fields_view(final(out)) == match opt_bool_json(*v) {
            Some(j) => fields_view(old(out)).push((name@, j)),
            None => fields_view(old(out)),
        },
{
    let ghost before = fields_view(old(out));
    match v {
        Some(b) => {
            out.push((String::from_str(name), JsonValue::Bool(*b)));
            assert(fields_view(out) =~= before.push((name@, Json::Bool(*b))));
        },
        None => {},
    }
}

impl UserIdentityAttributes {
    /// The JSON form of these attributes.
    pub fn to_json(&self) -> (r: JsonValue)
        ensures
            r@ == self.json(),
    {
        let mut out: Vec<(String, JsonValue)> = Vec::new();
        out.push((String::from_str("tokenIdentifier"), JsonValue::String(self.token_identifier.0.clone())));
        let ghost head = seq![("tokenIdentifier"@, Json::Str(self.token_identifier.0@))];
        assert(fields_view(&out) =~= head);
        assert(present_members(self.claims(), 0) =~= Seq::<(Seq<char>, Json)>::empty());
        push_str_claim(&mut out, "issuer", &self.issuer);
        assert(claim_names()[0] == "issuer"@);
        assert(fields_view(&out) =~= head + present_members(self.claims(), 1));
        push_str_claim(&mut out, "subject", &self.subject);
        assert(claim_names()[1] == "subject"@);
        assert(fields_view(&out) =~= head + present_members(self.claims(), 2));
        push_str_claim(&mut out, "name", &self.name);
        assert(claim_names()[2] == "name"@);
        assert(fields_view(&out) =~= head + present_members(self.claims(), 3));
        push_str_claim(&mut out, "givenName", &self.given_name);
        assert(claim_names()[3] == "givenName"@);
        assert(fields_view(&out) =~= head + present_members(self.claims(), 4));
        push_str_claim(&mut out, "familyName", &self.family_name);
        assert(claim_names()[4] == "familyName"@);
        assert(fields_view(&out) =~= head + present_members(self.claims(), 5));
        push_str_claim(&mut out, "nickname", &self.nickname);
        assert(claim_names()[5] == "nickname"@);
        assert(fields_view(&out) =~= head + present_members(self.claims(), 6));
        push_str_claim(&mut out, "preferredUsername", &self.preferred_username);
        assert(claim_names()[6] == "preferredUsername"@);
        assert(fields_view(&out) =~= head + present_members(self.claims(), 7));
        push_str_claim(&mut out, "profileUrl", &self.profile_url);
        assert(claim_names()[7] == "profileUrl"@);
        assert(fields_view(&out) =~= head + present_members(self.claims(), 8));
        push_str_claim(&mut out, "pictureUrl", &self.picture_url);
        assert(claim_names()[8] == "pictureUrl"@);
        assert(fields_view(&out) =~= head + present_members(self.claims(), 9));
        push_str_claim(&mut out, "websiteUrl", &self.website_url);
        assert(claim_names()[9] == "websiteUrl"@);
        assert(fields_view(&out) =~= head + present_members(self.claims(), 10));
        push_str_claim(&mut out, "email", &self.email);
        assert(claim_names()[10] == "email"@);
        assert(fields_view(&out) =~= head + present_members(self.claims(), 11));
        push_bool_claim(&mut out, "emailVerified", &self.email_verified);
        assert(claim_names()[11] == "emailVerified"@);
        assert(fields_view(&out) =~= head + present_members(self.claims(), 12));
        push_str_claim(&mut out, "gender", &self.gender);
        assert(claim_names()[12] == "gender"@);
        assert(fields_view(&out) =~= head + present_members(self.claims(), 13));
        push_str_claim(&mut out, "birthday", &self.birthday);
        assert(claim_names()[13] == "birthday"@);
        assert(fields_view(&out) =~= head + present_members(self.claims(), 14));
        push_str_claim(&mut out, "timezone", &self.timezone);
        assert(claim_names()[14] == "timezone"@);
        assert(fields_view(&out) =~= head + present_members(self.claims(), 15));
        push_str_claim(&mut out, "language", &self.language);
        assert(claim_names()[15] == "language"@);
        assert(fields_view(&out) =~= head + present_members(self.claims(), 16));
        push_str_claim(&mut out, "phoneNumber", &self.phone_number);
        assert(claim_names()[16] == "phoneNumber"@);
        assert(fields_view(&out) =~= head + present_members(self.claims(), 17));
        push_bool_claim(&mut out, "phoneNumberVerified", &self.phone_number_verified);
        assert(claim_names()[17] == "phoneNumberVerified"@);
        assert(fields_view(&out) =~= head + present_members(self.claims(), 18));
        push_str_claim(&mut out, "address", &self.address);
        assert(claim_names()[18] == "address"@);
        assert(fields_view(&out) =~= head + present_members(self.claims(), 19));
        push_str_claim(&mut out, "updatedAt", &self.updated_at);
        assert(claim_names()[19] == "updatedAt"@);
        assert(fields_view(&out) =~= head + present_members(self.claims(), 20));
        JsonValue::Object(out)
    }

    /// Decodes identity attributes. Without a token identifier the key is
    /// derived from the issuer and the subject, which must then both be
    /// present.
    #[verifier::rlimit(100)]
    #[verifier::spinoff_prover]
    pub fn from_json(j: &JsonValue) -> (r: Result<UserIdentityAttributes, DecodeError>)
        ensures
            match r {
                Ok(u) => j@ is Object && attributes_error(j@->Object_0) is None && u.decoded_from(
                    j@->Object_0,
                ) && attributes_of(j@) == Ok::<Json, DecodeError>(u.json()),
                Err(e) => (!(j@ is Object) && e == DecodeError::InvalidType) || (j@ is Object && attributes_error(j@->Object_0) == Some(e)),
            },
    {
        let fs = match j {
            JsonValue::Object(fs) => fs,
            _ => {
                return Err(DecodeError::InvalidType);
            },
        };
        let ghost ms = fields_view(fs);
        assert(j@ == Json::Object(ms));
        let tid = match get_field(fs, "tokenIdentifier") {
            None => None,
            Some(JsonValue::Null) => None,
            Some(JsonValue::String(s)) => Some(s),
            Some(_) => {
                return Err(DecodeError::InvalidType);
            },
        };
        assert(claim_names()[0] == "issuer"@);
        let issuer = match str_claim(fs, "issuer") {
            Ok(x) => x,
            Err(e) => {
                assert(claim_of(lookup(ms, claim_names()[0]), is_bool_claim(0)) is Err);
                return Err(e);
            },
        };
        assert(claim_names()[1] == "subject"@);
        let subject = match str_claim(fs, "subject") {
            Ok(x) => x,
            Err(e) => {
                assert(claim_of(lookup(ms, claim_names()[1]), is_bool_claim(1)) is Err);
                return Err(e);
            },
        };
        assert(claim_names()[2] == "name"@);
        let name = match str_claim(fs, "name") {
            Ok(x) => x,
            Err(e) => {
                assert(claim_of(lookup(ms, claim_names()[2]), is_bool_claim(2)) is Err);
                return Err(e);
            },
        };
        assert(claim_names()[3] == "givenName"@);
        let given_name = match str_claim(fs, "givenName") {
            Ok(x) => x,
            Err(e) => {
                assert(claim_of(lookup(ms, claim_names()[3]), is_bool_claim(3)) is Err);
                return Err(e);
            },
        };
        assert(claim_names()[4] == "familyName"@);
        let family_name = match str_claim(fs, "familyName") {
            Ok(x) => x,
            Err(e) => {
                assert(claim_of(lookup(ms, claim_names()[4]), is_bool_claim(4)) is Err);
                return Err(e);
            },
        };
        assert(claim_names()[5] == "nickname"@);
        let nickname = match str_claim(fs, "nickname") {
            Ok(x) => x,
            Err(e) => {
                assert(claim_of(lookup(ms, claim_names()[5]), is_bool_claim(5)) is Err);
                return Err(e);
            },
        };
        assert(claim_names()[6] == "preferredUsername"@);
        let preferred_username = match str_claim(fs, "preferredUsername") {
            Ok(x) => x,
            Err(e) => {
                assert(claim_of(lookup(ms, claim_names()[6]), is_bool_claim(6)) is Err);
                return Err(e);
            },
        };
        assert(claim_names()[7] == "profileUrl"@);
        let profile_url = match str_claim(fs, "profileUrl") {
            Ok(x) => x,
            Err(e) => {
                assert(claim_of(lookup(ms, claim_names()[7]), is_bool_claim(7)) is Err);
                return Err(e);
            },
        };
        assert(claim_names()[8] == "pictureUrl"@);
        let picture_url = match str_claim(fs, "pictureUrl") {
            Ok(x) => x,
            Err(e) => {
                assert(claim_of(lookup(ms, claim_names()[8]), is_bool_claim(8)) is Err);
                return Err(e);
            },
        };
        assert(claim_names()[9] == "websiteUrl"@);
        let website_url = match str_claim(fs, "websiteUrl") {
            Ok(x) => x,
            Err(e) => {
                assert(claim_of(lookup(ms, claim_names()[9]), is_bool_claim(9)) is Err);
                return Err(e);
            },
        };
        assert(claim_names()[10] == "email"@);
        let email = match str_claim(fs, "email") {
            Ok(x) => x,
            Err(e) => {
                assert(claim_of(lookup(ms, claim_names()[10]), is_bool_claim(10)) is Err);
                return Err(e);
            },
        };
        assert(claim_names()[11] == "emailVerified"@);
        let email_verified = match bool_claim(fs, "emailVerified") {
            Ok(x) => x,
            Err(e) => {
                assert(claim_of(lookup(ms, claim_names()[11]), is_bool_claim(11)) is Err);
                return Err(e);
            },
        };
        assert(claim_names()[12] == "gender"@);
        let gender = match str_claim(fs, "gender") {
            Ok(x) => x,
            Err(e) => {
                assert(claim_of(lookup(ms, claim_names()[12]), is_bool_claim(12)) is Err);
                return Err(e);
            },
        };
        assert(claim_names()[13] == "birthday"@);
        let birthday = match str_claim(fs, "birthday") {
            Ok(x) => x,
            Err(e) => {
                assert(claim_of(lookup(ms, claim_names()[13]), is_bool_claim(13)) is Err);
                return Err(e);
            },
        };
        assert(claim_names()[14] == "timezone"@);
        let timezone = match str_claim(fs, "timezone") {
            Ok(x) => x,
            Err(e) => {
                assert(claim_of(lookup(ms, claim_names()[14]), is_bool_claim(14)) is Err);
                return Err(e);
            },
        };
        assert(claim_names()[15] == "language"@);
        let language = match str_claim(fs, "language") {
            Ok(x) => x,
            Err(e) => {
                assert(claim_of(lookup(ms, claim_names()[15]), is_bool_claim(15)) is Err);
                return Err(e);
            },
        };
        assert(claim_names()[16] == "phoneNumber"@);
        let phone_number = match str_claim(fs, "phoneNumber") {
            Ok(x) => x,
            Err(e) => {
                assert(claim_of(lookup(ms, claim_names()[16]), is_bool_claim(16)) is Err);
                return Err(e);
            },
        };
        assert(claim_names()[17] == "phoneNumberVerified"@);
        let phone_number_verified = match bool_claim(fs, "phoneNumberVerified") {
            Ok(x) => x,
            Err(e) => {
                assert(claim_of(lookup(ms, claim_names()[17]), is_bool_claim(17)) is Err);
                return Err(e);
            },
        };
        assert(claim_names()[18] == "address"@);
        let address = match str_claim(fs, "address") {
            Ok(x) => x,
            Err(e) => {
                assert(claim_of(lookup(ms, claim_names()[18]), is_bool_claim(18)) is Err);
                return Err(e);
            },
        };
        assert(claim_names()[19] == "updatedAt"@);
        let updated_at = match str_claim(fs, "updatedAt") {
            Ok(x) => x,
            Err(e) => {
                assert(claim_of(lookup(ms, claim_names()[19]), is_bool_claim(19)) is Err);
                return Err(e);
            },
        };
        let token_identifier = match tid {
            Some(t) => UserIdentifier(t.clone()),
            None => match (&issuer, &subject) {
                (Some(i), Some(s)) => UserIdentifier::construct(i.as_str(), s.as_str()),
                _ => {
                    return Err(DecodeError::MissingIdentityKey);
                },
            },
        };
        let u = UserIdentityAttributes {
            token_identifier,
            issuer,
            subject,
            name,
            given_name,
            family_name,
            nickname,
            preferred_username,
            profile_url,
            picture_url,
            website_url,
            email,
            email_verified,
            gender,
            birthday,
            timezone,
            language,
            phone_number,
            phone_number_verified,
            address,
            updated_at,
        };
        assert(u.claims() =~= seq![
            opt_str_json(issuer),
            opt_str_json(subject),
            opt_str_json(name),
            opt_str_json(given_name),
            opt_str_json(family_name),
            opt_str_json(nickname),
            opt_str_json(preferred_username),
            opt_str_json(profile_url),
            opt_str_json(picture_url),
            opt_str_json(website_url),
            opt_str_json(email),
            opt_bool_json(email_verified),
            opt_str_json(gender),
            opt_str_json(birthday),
            opt_str_json(timezone),
            opt_str_json(language),
            opt_str_json(phone_number),
            opt_bool_json(phone_number_verified),
            opt_str_json(address),
            opt_str_json(updated_at),
        ]);
        assert(u.claims() =~= decoded_claims(ms));
        Ok(u)
    }
}

/// Attributes of a placeholder user, with no claims.
impl Default for UserIdentityAttributes {
    fn default() -> (r: UserIdentityAttributes)
        ensures
            r.token_identifier.0@ == identifier_of("convex"@, "fake_user"@),
            r.claims() == Seq::new(claim_names().len(), |k: int| None::<Json>),
    {
        let r = UserIdentityAttributes {
            token_identifier: UserIdentifier::construct("convex", "fake_user"),
            issuer: None,
            subject: None,
            name: None,
            given_name: None,
            family_name: None,
            nickname: None,
            preferred_username: None,
            profile_url: None,
            picture_url: None,
            website_url: None,
            email: None,
            email_verified: None,
            gender: None,
            birthday: None,
            timezone: None,
            language: None,
            phone_number: None,
            phone_number_verified: None,
            address: None,
            updated_at: None,
        };
        assert(r.claims() =~= Seq::new(claim_names().len(), |k: int| None::<Json>));
        r
    }
}

/// The names of two different claims differ, and neither is
/// `tokenIdentifier`.
proof fn lemma_claim_names_distinct(i: int, j: int)
    requires
        0 <= i < 20,
        0 <= j < 20,
    ensures
        claim_names().len() == 20,
        i != j ==> claim_names()[i] != claim_names()[j],
        claim_names()[i] != "tokenIdentifier"@,
{
    let n = claim_names();
    reveal_strlit("tokenIdentifier");
    assert("tokenIdentifier"@.len() == 15);
    reveal_strlit("issuer");
    assert(n[0] == "issuer"@ && n[0].len() == 6 && n[0][0] == 'i' && n[0][1] == 's');
    reveal_strlit("subject");
    assert(n[1] == "subject"@ && n[1].len() == 7 && n[1][0] == 's' && n[1][1] == 'u');
    reveal_strlit("name");
    assert(n[2] == "name"@ && n[2].len() == 4 && n[2][0] == 'n' && n[2][1] == 'a');
    reveal_strlit("givenName");
    assert(n[3] == "givenName"@ && n[3].len() == 9 && n[3][0] == 'g' && n[3][1] == 'i');
    reveal_strlit("familyName");
    assert(n[4] == "familyName"@ && n[4].len() == 10 && n[4][0] == 'f' && n[4][1] == 'a');
    reveal_strlit("nickname");
    assert(n[5] == "nickname"@ && n[5].len() == 8 && n[5][0] == 'n' && n[5][1] == 'i');
    reveal_strlit("preferredUsername");
    assert(n[6] == "preferredUsername"@ && n[6].len() == 17 && n[6][0] == 'p' && n[6][1] == 'r');
    reveal_strlit("profileUrl");
    assert(n[7] == "profileUrl"@ && n[7].len() == 10 && n[7][0] == 'p' && n[7][1] == 'r');
    reveal_strlit("pictureUrl");
    assert(n[8] == "pictureUrl"@ && n[8].len() == 10 && n[8][0] == 'p' && n[8][1] == 'i');
    reveal_strlit("websiteUrl");
    assert(n[9] == "websiteUrl"@ && n[9].len() == 10 && n[9][0] == 'w' && n[9][1] == 'e');
    reveal_strlit("email");
    assert(n[10] == "email"@ && n[10].len() == 5 && n[10][0] == 'e' && n[10][1] == 'm');
    reveal_strlit("emailVerified");
    assert(n[11] == "emailVerified"@ && n[11].len() == 13 && n[11][0] == 'e' && n[11][1] == 'm');
    reveal_strlit("gender");
    assert(n[12] == "gender"@ && n[12].len() == 6 && n[12][0] == 'g' && n[12][1] == 'e');
    reveal_strlit("birthday");
    assert(n[13] == "birthday"@ && n[13].len() == 8 && n[13][0] == 'b' && n[13][1] == 'i');
    reveal_strlit("timezone");
    assert(n[14] == "timezone"@ && n[14].len() == 8 && n[14][0] == 't' && n[14][1] == 'i');
    reveal_strlit("language");
    assert(n[15] == "language"@ && n[15].len() == 8 && n[15][0] == 'l' && n[15][1] == 'a');
    reveal_strlit("phoneNumber");
    assert(n[16] == "phoneNumber"@ && n[16].len() == 11 && n[16][0] == 'p' && n[16][1] == 'h');
    reveal_strlit("phoneNumberVerified");
    assert(n[17] == "phoneNumberVerified"@ && n[17].len() == 19 && n[17][0] == 'p' && n[17][1] == 'h');
    reveal_strlit("address");
    assert(n[18] == "address"@ && n[18].len() == 7 && n[18][0] == 'a' && n[18][1] == 'd');
    reveal_strlit("updatedAt");
    assert(n[19] == "updatedAt"@ && n[19].len() == 9 && n[19][0] == 'u' && n[19][1] == 'p');
    assert(i == 0 || i == 1 || i == 2 || i == 3 || i == 4 || i == 5 || i == 6 || i == 7 || i == 8 || i
        == 9 || i == 10 || i == 11 || i == 12 || i == 13 || i == 14 || i == 15 || i == 16 || i == 17
        || i == 18 || i == 19);
    assert(j == 0 || j == 1 || j == 2 || j == 3 || j == 4 || j == 5 || j == 6 || j == 7 || j == 8 || j
        == 9 || j == 10 || j == 11 || j == 12 || j == 13 || j == 14 || j == 15 || j == 16 || j == 17
        || j == 18 || j == 19);
}

/// Looking a name up after appending a member.
proof fn lemma_lookup_push(fs: Seq<(Seq<char>, Json)>, e: (Seq<char>, Json), k: Seq<char>)
    ensures
        lookup(fs.push(e), k) == match lookup(fs, k) {
            Some(x) => Some(x),
            None => if e.0 == k {
                Some(e.1)
            } else {
                None
            },
        },
    decreases fs.len(),
{
    if fs.len() > 0 {
        assert(fs.push(e)[0] == fs[0]);
        assert(fs.push(e).drop_first() =~= fs.drop_first().push(e));
        lemma_lookup_push(fs.drop_first(), e, k);
    } else {
        assert(fs.push(e)[0] == e);
        assert(fs.push(e).drop_first() =~= Seq::<(Seq<char>, Json)>::empty());
        assert(lookup(Seq::<(Seq<char>, Json)>::empty(), k) is None);
    }
}

/// Looking a claim up among the members written for the first `n` claims.
proof fn lemma_lookup_present(vals: Seq<Option<Json>>, n: nat, k: int)
    requires
        vals.len() == 20,
        n <= 20,
        0 <= k < 20,
    ensures
        lookup(present_members(vals, n), claim_names()[k]) == if k < n {
            vals[k]
        } else {
            None
        },
    decreases n,
{
    if n > 0 {
        lemma_claim_names_distinct(k, n - 1);
        let prev = present_members(vals, (n - 1) as nat);
        lemma_lookup_present(vals, (n - 1) as nat, k);
        match vals[n - 1] {
            Some(j) => {
                lemma_lookup_push(prev, (claim_names()[n - 1], j), claim_names()[k]);
            },
            None => {},
        }
    }
}

/// Encoding identity attributes and decoding the result gives them back:
/// decoding succeeds, and every decoded record has the same claims and the
/// same token identifier.
pub proof fn lemma_attributes_round_trip(u: UserIdentityAttributes)
    ensures
        attributes_error(u.json()->Object_0) is None,
        attributes_of(u.json()) == Ok::<Json, DecodeError>(u.json()),
        u.decoded_from(u.json()->Object_0),
        forall|v: UserIdentityAttributes| #[trigger]
            v.decoded_from(u.json()->Object_0) ==> v.claims() == u.claims()
                && v.token_identifier.0@ == u.token_identifier.0@,
{
    let head = seq![("tokenIdentifier"@, Json::Str(u.token_identifier.0@))];
    let rest = present_members(u.claims(), 20);
    let fs = head + rest;
    assert(fs.drop_first() =~= rest);
    assert(fs[0] == head[0]);
    assert forall|k: int| 0 <= k < 20 implies #[trigger] lookup(fs, claim_names()[k]) == u.claims()[k] by {
        lemma_claim_names_distinct(k, k);
        lemma_lookup_present(u.claims(), 20, k);
    }
    assert(lookup(fs, "tokenIdentifier"@) == Some(Json::Str(u.token_identifier.0@)));
    assert forall|k: int| 0 <= k < 20 implies #[trigger] claim_of(lookup(fs, claim_names()[k]), is_bool_claim(k))
        == Ok::<Option<Json>, DecodeError>(u.claims()[k]) by {
        assert(lookup(fs, claim_names()[k]) == u.claims()[k]);
    }
    assert(claims_well_typed(fs));
    assert(decoded_claims(fs) =~= u.claims());
    assert forall|v: UserIdentityAttributes| #[trigger] v.decoded_from(fs) implies v.claims() == u.claims()
        && v.token_identifier.0@ == u.token_identifier.0@ by {
        assert forall|k: int| 0 <= k < 20 implies v.claims()[k] == u.claims()[k] by {
            assert(claim_of(lookup(fs, claim_names()[k]), is_bool_claim(k)) == Ok::<Option<Json>, DecodeError>(u.claims()[k]));
        }
        assert(v.claims() =~= u.claims());
    }
}

} // verus!
