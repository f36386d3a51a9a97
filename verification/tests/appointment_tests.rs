use zermelo::AppointmentType;
use zermelo::schedule::parse_appointment;

#[test]
fn appointment_from_json() {
    let json = r#"{
            "start": 1510185600,
            "end": 1510271999,
            "start_time_slot": 0,
            "end_time_slot": 9,
            "subjects": [
                "netl"
            ]
        }"#;

    let appointment = parse_appointment(json).unwrap();
    assert_eq!(appointment.start, Some(1510185600));
    assert_eq!(appointment.end, Some(1510271999));
    assert_eq!(appointment.start_time_slot, Some(0));
    assert_eq!(appointment.end_time_slot, Some(9));
    assert_eq!(appointment.subjects, Some(vec![String::from("netl")]));
}

#[test]
fn sparse_object_leaves_other_fields_absent() {
    let json = r#"{"start":1,"end":2,"startTimeSlot":3,"endTimeSlot":4,"subjects":["ne"]}"#;
    let a = parse_appointment(json).unwrap();
    assert_eq!(a.start, Some(1));
    assert_eq!(a.end, Some(2));
    assert_eq!(a.start_time_slot, Some(3));
    assert_eq!(a.end_time_slot, Some(4));
    assert_eq!(a.subjects, Some(vec![String::from("ne")]));
    assert_eq!(a.appointment_instance, None);
    assert_eq!(a.id, None);
    assert_eq!(a.appointment_type, None);
    assert_eq!(a.remark, None);
    assert_eq!(a.locations, None);
    assert_eq!(a.teachers, None);
    assert_eq!(a.groups, None);
    assert_eq!(a.created, None);
    assert_eq!(a.last_modified, None);
    assert_eq!(a.valid, None);
    assert_eq!(a.hidden, None);
    assert_eq!(a.cancelled, None);
    assert_eq!(a.modified, None);
    assert_eq!(a.moved, None);
    assert_eq!(a.new, None);
    assert_eq!(a.change_description, None);
    assert_eq!(a.branch_of_school, None);
    assert_eq!(a.branch, None);
}

#[test]
fn absence_is_distinct_from_false_and_zero() {
    let json = r#"{"start":0,"cancelled":false,"remark":""}"#;
    let a = parse_appointment(json).unwrap();
    assert_eq!(a.start, Some(0));
    assert_eq!(a.cancelled, Some(false));
    assert_eq!(a.remark, Some(String::new()));
    assert_eq!(a.end, None);
    assert_eq!(a.valid, None);
}

#[test]
fn null_field_counts_as_absent() {
    let json = r#"{"start":null,"subjects":null}"#;
    let a = parse_appointment(json).unwrap();
    assert_eq!(a.start, None);
    assert_eq!(a.subjects, None);
}

#[test]
fn known_types_parse() {
    assert_eq!(AppointmentType::parse("unknown"), Some(AppointmentType::Unknown));
    assert_eq!(AppointmentType::parse("lesson"), Some(AppointmentType::Lesson));
    assert_eq!(AppointmentType::parse("exam"), Some(AppointmentType::Exam));
    assert_eq!(AppointmentType::parse("activity"), Some(AppointmentType::Activity));
    assert_eq!(AppointmentType::parse("choice"), Some(AppointmentType::Choice));
    assert_eq!(AppointmentType::parse("talk"), Some(AppointmentType::Talk));
    assert_eq!(AppointmentType::parse("other"), Some(AppointmentType::Other));
}

#[test]
fn unknown_type_string_is_absent_not_an_error() {
    assert_eq!(AppointmentType::parse("xyz"), None);
    assert_eq!(AppointmentType::parse(""), None);
    assert_eq!(AppointmentType::parse("Lesson"), None);

    let json = r#"{"id":1,"type":"xyz"}"#;
    let a = parse_appointment(json).unwrap();
    assert_eq!(a.id, Some(1));
    assert_eq!(a.appointment_type, Some(String::from("xyz")));
    assert_eq!(AppointmentType::parse(a.appointment_type.as_deref().unwrap()), None);
}

#[test]
fn wrongly_typed_field_rejects_the_object() {
    assert!(parse_appointment(r#"{"start":"abc"}"#).is_err());
    assert!(parse_appointment(r#"{"start":1.5}"#).is_err());
    assert!(parse_appointment(r#"{"start":99999999999999999999999999}"#).is_err());
    assert!(parse_appointment(r#"{"cancelled":0}"#).is_err());
    assert!(parse_appointment(r#"{"subjects":["ne",3]}"#).is_err());
    assert!(parse_appointment(r#"{"subjects":"ne"}"#).is_err());
}

#[test]
fn summary_lists_slot_and_names() {
    let json = r#"{"startTimeSlot":2,"subjects":["ne","en"],"locations":["M92"]}"#;
    let a = parse_appointment(json).unwrap();
    assert_eq!(
        a.summary(),
        "#2\nsubjects: \"ne, en\"\nlocations: \"M92\"\nteachers: \"\"\ngroups: \"\"\n"
    );
}

#[test]
fn summary_of_empty_appointment_uses_minus_one() {
    let a = parse_appointment("{}").unwrap();
    assert_eq!(
        a.summary(),
        "#-1\nsubjects: \"\"\nlocations: \"\"\nteachers: \"\"\ngroups: \"\"\n"
    );
}
