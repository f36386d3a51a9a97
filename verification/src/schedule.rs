//! The schedule client: the appointment envelope, the error taxonomy, the
//! token-exchange response, and the request URLs.
//!
//! The two HTTP calls themselves live in the embedding application; the
//! functions here take the status code and body text of a response and do
//! everything after that point.

use vstd::prelude::*;
use vstd::string::*;
use crate::appointment::{Appointment, appointment_matches, fields_ok};
use crate::json::{JsonValue, json_of, obj_get, obj_lookup, parse_json};
use crate::sort::{
    lemma_stable_sort_permutation, lemma_stable_sort_sorted, sort_appointments, sorted_by_start,
    spec_stable_sort,
};
use crate::text::{fmt_i64, spec_dec};

verus! {

/// Why a response body does not hold a well-formed appointment envelope.
#[derive(Clone, Copy, Debug, PartialEq, Eq, Structural)]
pub enum Malformed {
    /// The body is not valid JSON.
    InvalidJson,
    /// The body's top level is not an object.
    BodyNotObject,
    /// The envelope lacks the `response` key.
    MissingResponse,
    /// The `response` value is not an object.
    ResponseNotObject,
    /// The `response` object lacks the `data` key.
    MissingData,
    /// The `data` value is not an array.
    DataNotArray,
    /// An entry of `data` is not an object.
    EntryNotObject,
    /// A field of an entry holds the wrong kind of value.
    InvalidField,
}

/// What went wrong fetching appointments.
#[derive(Clone, Copy, Debug, PartialEq, Eq, Structural)]
pub enum FetchError {
    /// The request could not be sent or the connection failed.
    Transport,
    /// A response arrived whose status is not 200; carries that status.
    UnexpectedStatus(u16),
    /// The response body could not be read to completion.
    BodyRead,
    /// The body does not hold a well-formed appointment envelope.
    MalformedResponse(Malformed),
}

/// What went wrong exchanging an authorization code for an access token.
#[derive(Clone, Copy, Debug, PartialEq, Eq, Structural)]
pub enum AuthError {
    /// The request could not be sent or the connection failed.
    Transport,
    /// A response arrived whose status is not 200; carries that status.
    UnexpectedStatus(u16),
    /// The response body could not be read to completion.
    BodyRead,
    /// The body is not valid JSON.
    MalformedResponse,
    /// The response carries no string `access_token` field: the key is
    /// absent, its value is not a string, or the body is no object at all.
    FieldMissing,
}

/// The entries of the `data` array inside the `response` object, or the
/// error naming what the envelope lacks.
pub open spec fn envelope_data(v: JsonValue) -> Result<Seq<JsonValue>, Malformed> {
    match v {
        JsonValue::Obj(fs) => match obj_lookup(fs@, "response"@) {
            Some(JsonValue::Obj(rfs)) => match obj_lookup(rfs@, "data"@) {
                Some(JsonValue::Arr(es)) => Ok(es@),
                Some(_) => Err(Malformed::DataNotArray),
                None => Err(Malformed::MissingData),
            },
            Some(_) => Err(Malformed::ResponseNotObject),
            None => Err(Malformed::MissingResponse),
        },
        _ => Err(Malformed::BodyNotObject),
    }
}

/// Unwraps the envelope `{ "response": { "data": [ ... ] } }`.
pub fn envelope_entries(v: &JsonValue) -> (r: Result<&Vec<JsonValue>, Malformed>)
    ensures
        match r {
            Ok(es) => envelope_data(*v) == Ok::<Seq<JsonValue>, Malformed>(es@),
            Err(m) => envelope_data(*v) == Err::<Seq<JsonValue>, Malformed>(m),
        },
{
    match v {
        JsonValue::Obj(fs) => match obj_get(fs, "response") {
            Some(rv) => match rv {
                JsonValue::Obj(rfs) => match obj_get(rfs, "data") {
                    Some(dv) => match dv {
                        JsonValue::Arr(es) => Ok(es),
                        _ => Err(Malformed::DataNotArray),
                    },
                    None => Err(Malformed::MissingData),
                },
                _ => Err(Malformed::ResponseNotObject),
            },
            None => Err(Malformed::MissingResponse),
        },
        _ => Err(Malformed::BodyNotObject),
    }
}

/// An entry of `data` is an object whose fields are all well-typed.
pub open spec fn entry_ok(e: JsonValue) -> bool {
    e matches JsonValue::Obj(fs) && fields_ok(fs@)
}

/// Every entry of `data` parses.
pub open spec fn entries_ok(es: Seq<JsonValue>) -> bool {
    forall|i: int| 0 <= i < es.len() ==> entry_ok(#[trigger] es[i])
}

/// The appointment `a` is what the entry `e` parses to.
pub open spec fn entry_matches(a: Appointment, e: JsonValue) -> bool {
    e matches JsonValue::Obj(fs) && appointment_matches(a, fs@)
}

/// The error of the leftmost entry that does not parse.
pub open spec fn entries_error(es: Seq<JsonValue>) -> Malformed
    decreases es.len(),
{
    if es.len() == 0 {
        Malformed::InvalidField
    } else if entry_ok(es[0]) {
        entries_error(es.skip(1))
    } else if es[0] matches JsonValue::Obj(_) {
        Malformed::InvalidField
    } else {
        Malformed::EntryNotObject
    }
}

/// When the first `i` entries parse and entry `i` does not, the whole
/// list's error is entry `i`'s error.
proof fn lemma_entries_error_at(es: Seq<JsonValue>, i: int)
    requires
        0 <= i < es.len(),
        forall|m: int| 0 <= m < i ==> entry_ok(#[trigger] es[m]),
        !entry_ok(es[i]),
    ensures
        !entries_ok(es),
        entries_error(es) == if es[i] matches JsonValue::Obj(_) {
            Malformed::InvalidField
        } else {
            Malformed::EntryNotObject
        },
    decreases i,
{
    if i == 0 {
    } else {
        assert(entry_ok(es[0]));
        assert(forall|m: int| 0 <= m < i - 1 ==> entry_ok(#[trigger] es.skip(1)[m]));
        assert(es.skip(1)[i - 1] == es[i]);
        lemma_entries_error_at(es.skip(1), i - 1);
    }
}

/// Parses every entry of `data` into an appointment, in order. The whole
/// list is rejected as soon as one entry does not parse.
pub fn parse_entries(es: &Vec<JsonValue>) -> (r: Result<Vec<Appointment>, Malformed>)
    ensures
        r is Ok <==> entries_ok(es@),
        r matches Ok(apps) ==> apps@.len() == es@.len() && (forall|i: int|
            0 <= i < es@.len() ==> entry_matches(#[trigger] apps@[i], es@[i])),
        r matches Err(m) ==> !entries_ok(es@) && m == entries_error(es@),
{
    let mut out: Vec<Appointment> = Vec::new();
    let mut i: usize = 0;
    while i < es.len()
        invariant
            i <= es@.len(),
            out@.len() == i,
            forall|m: int| 0 <= m < i ==> entry_ok(#[trigger] es@[m]),
            forall|m: int| 0 <= m < i ==> entry_matches(#[trigger] out@[m], es@[m]),
        decreases es@.len() - i,
    {
        match &es[i] {
            JsonValue::Obj(fs) => match Appointment::from_object(fs) {
                Ok(a) => {
                    out.push(a);
                },
                Err(_) => {
                    proof {
                        lemma_entries_error_at(es@, i as int);
                    }
                    return Err(Malformed::InvalidField);
                },
            },
            _ => {
                proof {
                    lemma_entries_error_at(es@, i as int);
                }
                return Err(Malformed::EntryNotObject);
            },
        }
        i += 1;
    }
    Ok(out)
}

/// The parsed document holds a well-formed envelope whose entries all parse.
pub open spec fn document_ok(v: JsonValue) -> bool {
    envelope_data(v) matches Ok(es) && entries_ok(es)
}

/// The error a document that does not parse is rejected with.
pub open spec fn document_error(v: JsonValue) -> Malformed {
    match envelope_data(v) {
        Err(m) => m,
        Ok(es) => entries_error(es),
    }
}

/// Parses a whole appointment document: unwraps the envelope and parses
/// each entry of `data`, in response order.
pub fn parse_document(v: &JsonValue) -> (r: Result<Vec<Appointment>, Malformed>)
    ensures
        r is Ok <==> document_ok(*v),
        r matches Ok(apps) ==> envelope_data(*v) matches Ok(es) && apps@.len() == es.len() && (
        forall|i: int| 0 <= i < es.len() ==> entry_matches(#[trigger] apps@[i], es[i])),
        r matches Err(m) ==> m == document_error(*v),
{
    let es = match envelope_entries(v) {
        Ok(es) => es,
        Err(m) => {
            return Err(m);
        },
    };
    match parse_entries(es) {
        Ok(a) => Ok(a),
        Err(m) => Err(m),
    }
}

/// The appointments `apps` are the sorted parse of the document `doc`:
/// some sequence parses `data` entry for entry, and `apps` is its stable
/// sort by start time.
pub open spec fn loaded_from(apps: Seq<Appointment>, doc: JsonValue) -> bool {
    exists|parsed: Seq<Appointment>|
        {
            &&& envelope_data(doc) matches Ok(es)
            &&& #[trigger] spec_stable_sort(parsed) == apps
            &&& parsed.len() == es.len()
            &&& forall|i: int| 0 <= i < es.len() ==> entry_matches(#[trigger] parsed[i], es[i])
        }
}

/// A schedule client: the school identifier, the bearer token, and the
/// appointments of the last successful fetch.
pub struct Schedule {
    /// The school identifier the API host is built from.
    pub school: String,
    /// The access token sent with each appointment request.
    pub access_token: String,
    /// The appointments of the last successful fetch, ascending by start
    /// time; empty until a fetch succeeds.
    pub appointments: Vec<Appointment>,
}

impl Schedule {
    /// A client for `school` from an already-obtained access token. This
    /// cannot fail; the appointment collection starts empty.
    pub fn with_access_token(school: String, access_token: String) -> (r: Self)
        ensures
            r.school == school,
            r.access_token == access_token,
            r.appointments@ == Seq::<Appointment>::empty(),
    {
        Schedule { school, access_token, appointments: Vec::new() }
    }

    /// Applies one appointment-endpoint response: requires status 200,
    /// parses the body as an appointment document, and replaces the stored
    /// appointments with the parsed list sorted ascending by start time.
    /// On any error the stored appointments are left exactly as they were.
    pub fn load_appointments(&mut self, status: u16, body: &str) -> (r: Result<(), FetchError>)
        ensures
            final(self).school == old(self).school,
            final(self).access_token == old(self).access_token,
            r is Err ==> final(self).appointments == old(self).appointments,
            status != 200 ==> r == Err::<(), FetchError>(FetchError::UnexpectedStatus(status)),
            status == 200 && json_of(body@) is None ==> r == Err::<(), FetchError>(
                FetchError::MalformedResponse(Malformed::InvalidJson),
            ),
            status == 200 ==> (json_of(body@) matches Some(doc) ==> {
                &&& r is Ok <==> document_ok(doc)
                &&& r matches Err(e) ==> e == FetchError::MalformedResponse(document_error(doc))
                &&& r is Ok ==> loaded_from(final(self).appointments@, doc)
            }),
    {
        if status != 200 {
            return Err(FetchError::UnexpectedStatus(status));
        }
        match parse_json(body) {
            None => Err(FetchError::MalformedResponse(Malformed::InvalidJson)),
            Some(doc) => match parse_document(&doc) {
                Err(m) => Err(FetchError::MalformedResponse(m)),
                Ok(mut apps) => {
                    let ghost parsed = apps@;
                    sort_appointments(&mut apps);
                    self.appointments = apps;
                    proof {
                        assert(spec_stable_sort(parsed) == self.appointments@);
                        assert(loaded_from(self.appointments@, doc));
                    }
                    Ok(())
                },
            },
        }
    }
}

/// Parses one appointment object standing alone in a JSON text.
pub fn parse_appointment(body: &str) -> (r: Result<Appointment, Malformed>)
    ensures
        json_of(body@) is None ==> r == Err::<Appointment, Malformed>(Malformed::InvalidJson),
        json_of(body@) matches Some(doc) ==> match doc {
            JsonValue::Obj(fs) => {
                &&& r is Ok <==> fields_ok(fs@)
                &&& (r matches Ok(a) ==> appointment_matches(a, fs@))
                &&& (r matches Err(m) ==> m == Malformed::InvalidField)
            },
            _ => r == Err::<Appointment, Malformed>(Malformed::EntryNotObject),
        },
{
    match parse_json(body) {
        None => Err(Malformed::InvalidJson),
        Some(doc) => match doc {
            JsonValue::Obj(fs) => match Appointment::from_object(&fs) {
                Ok(a) => Ok(a),
                Err(_) => Err(Malformed::InvalidField),
            },
            _ => Err(Malformed::EntryNotObject),
        },
    }
}

/// Law: appointments loaded from a well-formed document are sorted
/// ascending by start time, and are, with multiplicity, exactly the
/// records its `data` entries parse to, one per entry.
pub proof fn lemma_loaded_appointments(apps: Seq<Appointment>, doc: JsonValue)
    requires
        loaded_from(apps, doc),
    ensures
        sorted_by_start(apps),
        exists|parsed: Seq<Appointment>|
            {
                &&& #[trigger] parsed.to_multiset() == apps.to_multiset()
                &&& envelope_data(doc) matches Ok(es)
                &&& parsed.len() == es.len() && apps.len() == es.len()
                &&& forall|i: int|
                    0 <= i < parsed.len() ==> entry_matches(#[trigger] parsed[i], es[i])
            },
{
    broadcast use vstd::seq_lib::group_to_multiset_ensures;

    let parsed = choose|parsed: Seq<Appointment>|
        {
            &&& envelope_data(doc) matches Ok(es)
            &&& #[trigger] spec_stable_sort(parsed) == apps
            &&& parsed.len() == es.len()
            &&& forall|i: int| 0 <= i < es.len() ==> entry_matches(#[trigger] parsed[i], es[i])
        };
    lemma_stable_sort_sorted(parsed);
    lemma_stable_sort_permutation(parsed);
    assert(parsed.to_multiset().len() == parsed.len());
    assert(apps.to_multiset().len() == apps.len());
    assert(parsed.to_multiset() == apps.to_multiset());
}

/// The access token of a token-exchange response: the string under
/// `access_token`. A response that lacks a string under that key — the
/// key absent, its value of another kind, or the body no object at all —
/// lacks the field.
pub open spec fn spec_token(v: JsonValue) -> Result<String, AuthError> {
    match v {
        JsonValue::Obj(fs) => match obj_lookup(fs@, "access_token"@) {
            Some(JsonValue::Str(s)) => Ok(s),
            Some(_) => Err(AuthError::FieldMissing),
            None => Err(AuthError::FieldMissing),
        },
        _ => Err(AuthError::FieldMissing),
    }
}

/// Extracts the `access_token` string from a parsed token-exchange body.
pub fn token_value(v: &JsonValue) -> (r: Result<String, AuthError>)
    ensures
        match r {
            Ok(t) => spec_token(*v) == Ok::<String, AuthError>(t),
            Err(e) => spec_token(*v) == Err::<String, AuthError>(e),
        },
{
    match v {
        JsonValue::Obj(fs) => match obj_get(fs, "access_token") {
            Some(tv) => match tv {
                JsonValue::Str(s) => Ok(s.clone()),
                _ => Err(AuthError::FieldMissing),
            },
            None => Err(AuthError::FieldMissing),
        },
        _ => Err(AuthError::FieldMissing),
    }
}

/// Handles one token-endpoint response: requires status 200, parses the
/// body as JSON, and extracts the string `access_token` field. The status
/// is checked before the body is looked at, so no token ever comes out of
/// a non-200 response.
pub fn access_token_from_response(status: u16, body: &str) -> (r: Result<String, AuthError>)
    ensures
        status != 200 ==> r == Err::<String, AuthError>(AuthError::UnexpectedStatus(status)),
        status == 200 && json_of(body@) is None ==> r == Err::<String, AuthError>(
            AuthError::MalformedResponse,
        ),
        status == 200 ==> (json_of(body@) matches Some(doc) ==> r == spec_token(doc)),
{
    if status != 200 {
        return Err(AuthError::UnexpectedStatus(status));
    }
    match parse_json(body) {
        None => Err(AuthError::MalformedResponse),
        Some(doc) => token_value(&doc),
    }
}

impl Schedule {
    /// Builds a client for `school` out of one token-endpoint response:
    /// succeeds exactly when the response carries a token, and then starts
    /// with that token and no appointments.
    pub fn from_token_response(school: String, status: u16, body: &str) -> (r: Result<
        Schedule,
        AuthError,
    >)
        ensures
            status != 200 ==> (r matches Err(e) && e == AuthError::UnexpectedStatus(status)),
            status == 200 && json_of(body@) is None ==> (r matches Err(e) && e
                == AuthError::MalformedResponse),
            status == 200 ==> (json_of(body@) matches Some(doc) ==> match r {
                Ok(s) => {
                    &&& spec_token(doc) == Ok::<String, AuthError>(s.access_token)
                    &&& s.school == school
                    &&& s.appointments@ == Seq::<Appointment>::empty()
                },
                Err(e) => spec_token(doc) == Err::<String, AuthError>(e),
            }),
    {
        match access_token_from_response(status, body) {
            Ok(token) => Ok(Schedule::with_access_token(school, token)),
            Err(e) => Err(e),
        }
    }
}

/// The URL of the token endpoint for a school.
pub fn token_url(school: &str) -> (r: String)
    ensures
        r@ == "https://"@ + school@ + ".zportal.nl/api/v3/oauth/token"@,
{
    let mut s = String::from_str("https://");
    s.append(school);
    s.append(".zportal.nl/api/v3/oauth/token");
    s
}

/// The URL of the appointments endpoint for a school, a time window, and
/// an access token. The window bounds are inclusive Unix timestamps; their
/// ordering is the caller's to get right and is not checked here.
pub fn appointments_url(school: &str, start: i64, end: i64, access_token: &str) -> (r: String)
    ensures
        r@ == "https://"@ + school@ + ".zportal.nl/api/v3/appointments?user=~me&start="@
            + spec_dec(start as int) + "&end="@ + spec_dec(end as int) + "&access_token="@
            + access_token@,
{
    let mut s = String::from_str("https://");
    s.append(school);
    s.append(".zportal.nl/api/v3/appointments?user=~me&start=");
    let st = fmt_i64(start);
    s.append(st.as_str());
    s.append("&end=");
    let en = fmt_i64(end);
    s.append(en.as_str());
    s.append("&access_token=");
    s.append(access_token);
    s
}

} // verus!
