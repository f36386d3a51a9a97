use zermelo::{AppointmentType, AuthError, FetchError, Malformed, Schedule};
use zermelo::schedule::{access_token_from_response, appointments_url, token_url};
use zermelo::text::normalize_code;

fn client() -> Schedule {
    Schedule::with_access_token(String::from("example"), String::from("token"))
}

#[test]
fn parse_request() {
    let json = r#"{
            "response": {
                "status": 200,
                "message": "",
                "startRow": 0,
                "endRow": 27,
                "totalRows": 27,
                "data": [
                    {
                        "id": 5,
                        "start": 42364236,
                        "end": 436234523,
                        "startTimeSlot": 1,
                        "endTimeSlot": 1,
                        "subjects": ["ne"],
                        "teachers": ["KRO"],
                        "groups": ["v1a"],
                        "locations": ["M92"],
                        "type": "lesson",
                        "remark": "Take care to bring your books",
                        "valid": true,
                        "cancelled": false,
                        "modified": true,
                        "moved": false,
                        "new": false,
                        "changeDescription": "The location has been changed from M13 to M92"
                    }
                ]
            }
        }"#;

    let json = json
        .replace("appointmentInstance", "appointment_instance")
        .replace("startTimeSlot", "start_time_slot")
        .replace("endTimeSlot", "end_time_slot")
        .replace("type", "appointment_type")
        .replace("lastModified", "lastModified")
        .replace("changeDescription", "change_description")
        .replace("branchOfSchool", "branch_of_school");

    let mut schedule = client();
    schedule.load_appointments(200, json.as_str()).unwrap();
    let appointment = &schedule.appointments[0];
    assert_eq!(appointment.id, Some(5));
    assert_eq!(appointment.start, Some(42364236));
    assert_eq!(appointment.start_time_slot, Some(1));
    assert_eq!(appointment.subjects, Some(vec![String::from("ne")]));
    assert_eq!(appointment.appointment_type, Some(String::from("lesson")));
    assert_eq!(appointment.cancelled, Some(false));
}

#[test]
fn fetch_example_end_to_end() {
    let body = r#"{"response":{"data":[{"id":5,"start":42364236,"end":436234523,"startTimeSlot":1,"endTimeSlot":1,"subjects":["ne"],"teachers":["KRO"],"groups":["v1a"],"locations":["M92"],"type":"lesson","cancelled":false}]}}"#;
    let mut schedule = client();
    schedule.load_appointments(200, body).unwrap();
    assert_eq!(schedule.appointments.len(), 1);
    let a = &schedule.appointments[0];
    assert_eq!(a.id, Some(5));
    assert_eq!(a.start, Some(42364236));
    assert_eq!(a.end, Some(436234523));
    assert_eq!(a.start_time_slot, Some(1));
    assert_eq!(a.end_time_slot, Some(1));
    assert_eq!(a.subjects, Some(vec![String::from("ne")]));
    assert_eq!(a.teachers, Some(vec![String::from("KRO")]));
    assert_eq!(a.groups, Some(vec![String::from("v1a")]));
    assert_eq!(a.locations, Some(vec![String::from("M92")]));
    assert_eq!(
        AppointmentType::parse(a.appointment_type.as_deref().unwrap()),
        Some(AppointmentType::Lesson)
    );
    assert_eq!(a.cancelled, Some(false));
    assert_eq!(a.appointment_instance, None);
    assert_eq!(a.remark, None);
    assert_eq!(a.valid, None);
    assert_eq!(a.hidden, None);
    assert_eq!(a.modified, None);
    assert_eq!(a.moved, None);
    assert_eq!(a.new, None);
    assert_eq!(a.change_description, None);
    assert_eq!(a.created, None);
    assert_eq!(a.last_modified, None);
    assert_eq!(a.branch_of_school, None);
    assert_eq!(a.branch, None);
}

#[test]
fn round_trip_keeps_every_record() {
    let body = r#"{"response":{"data":[{"id":1},{"id":2},{"id":3},{"id":4}]}}"#;
    let mut schedule = client();
    schedule.load_appointments(200, body).unwrap();
    assert_eq!(schedule.appointments.len(), 4);
    let mut ids: Vec<i64> = schedule.appointments.iter().map(|a| a.id.unwrap()).collect();
    ids.sort();
    assert_eq!(ids, vec![1, 2, 3, 4]);
}

#[test]
fn fetch_sorts_by_start_time() {
    let body = r#"{"response":{"data":[{"start":30},{"start":10},{"start":20}]}}"#;
    let mut schedule = client();
    schedule.load_appointments(200, body).unwrap();
    let starts: Vec<i64> = schedule.appointments.iter().map(|a| a.start.unwrap()).collect();
    assert_eq!(starts, vec![10, 20, 30]);
}

#[test]
fn absent_start_sorts_first() {
    let body = r#"{"response":{"data":[{"start":30,"id":1},{"id":2},{"start":10,"id":3}]}}"#;
    let mut schedule = client();
    schedule.load_appointments(200, body).unwrap();
    let ids: Vec<i64> = schedule.appointments.iter().map(|a| a.id.unwrap()).collect();
    assert_eq!(ids, vec![2, 3, 1]);
    assert_eq!(schedule.appointments[0].start, None);
}

#[test]
fn sort_is_stable_for_equal_starts() {
    let body = r#"{"response":{"data":[{"start":10,"id":1},{"start":5,"id":2},{"start":10,"id":3},{"start":10,"id":4}]}}"#;
    let mut schedule = client();
    schedule.load_appointments(200, body).unwrap();
    let ids: Vec<i64> = schedule.appointments.iter().map(|a| a.id.unwrap()).collect();
    assert_eq!(ids, vec![2, 1, 3, 4]);
}

#[test]
fn each_fetch_replaces_the_collection() {
    let mut schedule = client();
    schedule
        .load_appointments(200, r#"{"response":{"data":[{"id":1},{"id":2}]}}"#)
        .unwrap();
    assert_eq!(schedule.appointments.len(), 2);
    schedule
        .load_appointments(200, r#"{"response":{"data":[{"id":7}]}}"#)
        .unwrap();
    assert_eq!(schedule.appointments.len(), 1);
    assert_eq!(schedule.appointments[0].id, Some(7));
}

#[test]
fn missing_response_key_is_named_and_state_kept() {
    let mut schedule = client();
    schedule
        .load_appointments(200, r#"{"response":{"data":[{"id":1}]}}"#)
        .unwrap();
    let r = schedule.load_appointments(200, r#"{"data":[{"id":9}]}"#);
    assert_eq!(
        r,
        Err(FetchError::MalformedResponse(Malformed::MissingResponse))
    );
    assert_eq!(schedule.appointments.len(), 1);
    assert_eq!(schedule.appointments[0].id, Some(1));
}

#[test]
fn missing_data_key_is_named_and_state_kept() {
    let mut schedule = client();
    schedule
        .load_appointments(200, r#"{"response":{"data":[{"id":1}]}}"#)
        .unwrap();
    let r = schedule.load_appointments(200, r#"{"response":{"status":200}}"#);
    assert_eq!(r, Err(FetchError::MalformedResponse(Malformed::MissingData)));
    assert_eq!(schedule.appointments.len(), 1);
}

#[test]
fn malformed_bodies_are_rejected_by_kind() {
    let mut schedule = client();
    assert_eq!(
        schedule.load_appointments(200, "no json at all"),
        Err(FetchError::MalformedResponse(Malformed::InvalidJson))
    );
    assert_eq!(
        schedule.load_appointments(200, "[1,2]"),
        Err(FetchError::MalformedResponse(Malformed::BodyNotObject))
    );
    assert_eq!(
        schedule.load_appointments(200, r#"{"response":17}"#),
        Err(FetchError::MalformedResponse(Malformed::ResponseNotObject))
    );
    assert_eq!(
        schedule.load_appointments(200, r#"{"response":{"data":5}}"#),
        Err(FetchError::MalformedResponse(Malformed::DataNotArray))
    );
    assert_eq!(
        schedule.load_appointments(200, r#"{"response":{"data":[3]}}"#),
        Err(FetchError::MalformedResponse(Malformed::EntryNotObject))
    );
    assert_eq!(
        schedule.load_appointments(200, r#"{"response":{"data":[{"start":"x"}]}}"#),
        Err(FetchError::MalformedResponse(Malformed::InvalidField))
    );
    assert!(schedule.appointments.is_empty());
}

#[test]
fn one_bad_entry_rejects_the_whole_fetch() {
    let mut schedule = client();
    let body = r#"{"response":{"data":[{"id":1},{"start":true},{"id":3}]}}"#;
    assert_eq!(
        schedule.load_appointments(200, body),
        Err(FetchError::MalformedResponse(Malformed::InvalidField))
    );
    assert!(schedule.appointments.is_empty());
}

#[test]
fn non_200_fetch_status_is_surfaced() {
    let mut schedule = client();
    let good = r#"{"response":{"data":[{"id":1}]}}"#;
    assert_eq!(
        schedule.load_appointments(404, good),
        Err(FetchError::UnexpectedStatus(404))
    );
    assert_eq!(
        schedule.load_appointments(500, good),
        Err(FetchError::UnexpectedStatus(500))
    );
    assert!(schedule.appointments.is_empty());
}

#[test]
fn with_access_token_always_succeeds_and_starts_empty() {
    let schedule = Schedule::with_access_token(String::from("school"), String::from("abc"));
    assert_eq!(schedule.school, "school");
    assert_eq!(schedule.access_token, "abc");
    assert!(schedule.appointments.is_empty());
}

#[test]
fn token_exchange_reads_access_token() {
    let token = access_token_from_response(200, r#"{"access_token":"secret123"}"#).unwrap();
    assert_eq!(token, "secret123");

    let schedule =
        Schedule::from_token_response(String::from("example"), 200, r#"{"access_token":"tk"}"#)
            .unwrap();
    assert_eq!(schedule.school, "example");
    assert_eq!(schedule.access_token, "tk");
    assert!(schedule.appointments.is_empty());
}

#[test]
fn token_exchange_never_proceeds_on_bad_status() {
    assert_eq!(
        access_token_from_response(403, r#"{"access_token":"tk"}"#),
        Err(AuthError::UnexpectedStatus(403))
    );
    let r = Schedule::from_token_response(String::from("example"), 502, r#"{"access_token":"tk"}"#);
    match r {
        Err(e) => assert_eq!(e, AuthError::UnexpectedStatus(502)),
        Ok(_) => panic!("a client must not be built from a non-200 response"),
    }
}

#[test]
fn token_exchange_errors_by_kind() {
    assert_eq!(
        access_token_from_response(200, "not json"),
        Err(AuthError::MalformedResponse)
    );
    assert_eq!(
        access_token_from_response(200, "[]"),
        Err(AuthError::FieldMissing)
    );
    assert_eq!(
        access_token_from_response(200, "\"token\""),
        Err(AuthError::FieldMissing)
    );
    assert_eq!(
        access_token_from_response(200, "{}"),
        Err(AuthError::FieldMissing)
    );
    assert_eq!(
        access_token_from_response(200, r#"{"access_token":5}"#),
        Err(AuthError::FieldMissing)
    );
}

#[test]
fn code_normalization_strips_whitespace() {
    assert_eq!(normalize_code("123 456 789"), "123456789");
    assert_eq!(normalize_code(" a b c "), "abc");
    assert_eq!(normalize_code("12\t34\n56\r78"), "12345678");
    assert_eq!(normalize_code("plain"), "plain");
    assert_eq!(normalize_code(""), "");
}

#[test]
fn urls_are_built_from_school_window_and_token() {
    assert_eq!(
        token_url("example"),
        "https://example.zportal.nl/api/v3/oauth/token"
    );
    assert_eq!(
        appointments_url("example", 0, 10, "tok"),
        "https://example.zportal.nl/api/v3/appointments?user=~me&start=0&end=10&access_token=tok"
    );
    assert_eq!(
        appointments_url("s", -5, 1510271999, "t"),
        "https://s.zportal.nl/api/v3/appointments?user=~me&start=-5&end=1510271999&access_token=t"
    );
}
