//! The appointment record and its extraction from a parsed JSON object.
//!
//! Every field of an appointment is independently optional: the upstream
//! API omits fields freely, and an absent field is kept distinct from a
//! `false`/`0`/empty value. Each field is read under either its camelCase
//! wire spelling or its snake_case spelling, so both a raw server response
//! and a body whose keys were rewritten beforehand parse alike.

use vstd::prelude::*;
use vstd::string::*;
use crate::text::{fmt_i64, join_comma, spec_dec, spec_join};
use crate::json::{
    JsonValue, str_eq, obj_lookup, obj_lookup2, str_items, as_opt_int, as_opt_bool, as_opt_str,
    as_opt_str_list, get_opt_int, get_opt_bool, get_opt_str, get_opt_str_list,
};

verus! {

/// The closed set of appointment types the API names.
///
/// A wire string outside this set parses to `None` rather than an error,
/// so an unrecognized type never aborts parsing of its appointment.
#[derive(Clone, Copy, Debug, PartialEq, Eq, Structural)]
pub enum AppointmentType {
    Unknown,
    Lesson,
    Exam,
    Activity,
    Choice,
    Talk,
    Other,
}

/// The appointment type a wire string names, if any.
pub open spec fn spec_parse_type(s: Seq<char>) -> Option<AppointmentType> {
    if s == "unknown"@ {
        Some(AppointmentType::Unknown)
    } else if s == "lesson"@ {
        Some(AppointmentType::Lesson)
    } else if s == "exam"@ {
        Some(AppointmentType::Exam)
    } else if s == "activity"@ {
        Some(AppointmentType::Activity)
    } else if s == "choice"@ {
        Some(AppointmentType::Choice)
    } else if s == "talk"@ {
        Some(AppointmentType::Talk)
    } else if s == "other"@ {
        Some(AppointmentType::Other)
    } else {
        None
    }
}

impl AppointmentType {
    /// Parses an appointment type from its wire string.
    pub fn parse(t: &str) -> (r: Option<Self>)
        ensures
            r == spec_parse_type(t@),
    {
        if str_eq(t, "unknown") {
            Some(AppointmentType::Unknown)
        } else if str_eq(t, "lesson") {
            Some(AppointmentType::Lesson)
        } else if str_eq(t, "exam") {
            Some(AppointmentType::Exam)
        } else if str_eq(t, "activity") {
            Some(AppointmentType::Activity)
        } else if str_eq(t, "choice") {
            Some(AppointmentType::Choice)
        } else if str_eq(t, "talk") {
            Some(AppointmentType::Talk)
        } else if str_eq(t, "other") {
            Some(AppointmentType::Other)
        } else {
            None
        }
    }
}

/// One scheduled event version. Every field is optional; an absent field
/// means the response did not carry it.
#[derive(Debug)]
pub struct Appointment {
    /// Id of the appointment instance this version belongs to.
    pub appointment_instance: Option<i64>,
    /// Internal id of this version of the appointment.
    pub id: Option<i64>,
    /// Start of the appointment, in Unix seconds (UTC).
    pub start: Option<i64>,
    /// End of the appointment, in Unix seconds (UTC).
    pub end: Option<i64>,
    /// Number of the time slot the appointment starts in.
    pub start_time_slot: Option<i64>,
    /// Number of the time slot the appointment ends in.
    pub end_time_slot: Option<i64>,
    /// Subject names or abbreviations.
    pub subjects: Option<Vec<String>>,
    /// The wire string of the appointment's type; see [`AppointmentType`].
    pub appointment_type: Option<String>,
    /// Free-form remark for the appointment.
    pub remark: Option<String>,
    /// Names of the locations (classrooms) involved.
    pub locations: Option<Vec<String>>,
    /// Codes of the teachers participating.
    pub teachers: Option<Vec<String>>,
    /// Names of the student groups participating.
    pub groups: Option<Vec<String>>,
    /// When this version was created, in Unix seconds (UTC).
    pub created: Option<i64>,
    /// When this version was last modified, in Unix seconds (UTC).
    pub last_modified: Option<i64>,
    /// True if this version belongs to the most up-to-date schedule.
    pub valid: Option<bool>,
    /// True if this version is hidden from users.
    pub hidden: Option<bool>,
    /// True if the appointment was cancelled.
    pub cancelled: Option<bool>,
    /// True if anything was changed in this version.
    pub modified: Option<bool>,
    /// True if the time or location was changed.
    pub moved: Option<bool>,
    /// True if the appointment was newly added.
    pub new: Option<bool>,
    /// Textual description of the change.
    pub change_description: Option<String>,
    /// Id of the school branch the appointment belongs to.
    pub branch_of_school: Option<i64>,
    /// Branch code of that school branch.
    pub branch: Option<String>,
}

/// An optional list field agrees with what the object stores: present
/// exactly when the extraction gives a list, and then with the same strings.
pub open spec fn list_matches(o: Option<Vec<String>>, r: Result<Option<Seq<String>>, ()>) -> bool {
    match r {
        Ok(rv) => match (o, rv) {
            (Some(v), Some(s)) => v@ == s,
            (None, None) => true,
            _ => false,
        },
        Err(_) => false,
    }
}

/// Every field of the object is either absent or of its expected kind.
pub open spec fn fields_ok(fs: Seq<(String, JsonValue)>) -> bool {
    &&& as_opt_int(obj_lookup2(fs, "appointmentInstance"@, "appointment_instance"@)) is Ok
    &&& as_opt_int(obj_lookup2(fs, "id"@, "id"@)) is Ok
    &&& as_opt_int(obj_lookup2(fs, "start"@, "start"@)) is Ok
    &&& as_opt_int(obj_lookup2(fs, "end"@, "end"@)) is Ok
    &&& as_opt_int(obj_lookup2(fs, "startTimeSlot"@, "start_time_slot"@)) is Ok
    &&& as_opt_int(obj_lookup2(fs, "endTimeSlot"@, "end_time_slot"@)) is Ok
    &&& as_opt_str_list(obj_lookup2(fs, "subjects"@, "subjects"@)) is Ok
    &&& as_opt_str(obj_lookup2(fs, "type"@, "appointment_type"@)) is Ok
    &&& as_opt_str(obj_lookup2(fs, "remark"@, "remark"@)) is Ok
    &&& as_opt_str_list(obj_lookup2(fs, "locations"@, "locations"@)) is Ok
    &&& as_opt_str_list(obj_lookup2(fs, "teachers"@, "teachers"@)) is Ok
    &&& as_opt_str_list(obj_lookup2(fs, "groups"@, "groups"@)) is Ok
    &&& as_opt_int(obj_lookup2(fs, "created"@, "created"@)) is Ok
    &&& as_opt_int(obj_lookup2(fs, "lastModified"@, "last_modified"@)) is Ok
    &&& as_opt_bool(obj_lookup2(fs, "valid"@, "valid"@)) is Ok
    &&& as_opt_bool(obj_lookup2(fs, "hidden"@, "hidden"@)) is Ok
    &&& as_opt_bool(obj_lookup2(fs, "cancelled"@, "cancelled"@)) is Ok
    &&& as_opt_bool(obj_lookup2(fs, "modified"@, "modified"@)) is Ok
    &&& as_opt_bool(obj_lookup2(fs, "moved"@, "moved"@)) is Ok
    &&& as_opt_bool(obj_lookup2(fs, "new"@, "isNew"@)) is Ok
    &&& as_opt_str(obj_lookup2(fs, "changeDescription"@, "change_description"@)) is Ok
    &&& as_opt_int(obj_lookup2(fs, "branchOfSchool"@, "branch_of_school"@)) is Ok
    &&& as_opt_str(obj_lookup2(fs, "branch"@, "branch"@)) is Ok
}

/// The appointment `a` holds exactly the field values stored in the object:
/// each present field with its stored value, each other field absent.
pub open spec fn appointment_matches(a: Appointment, fs: Seq<(String, JsonValue)>) -> bool {
    &&& as_opt_int(obj_lookup2(fs, "appointmentInstance"@, "appointment_instance"@))
        matches Ok(v) && v == a.appointment_instance
    &&& as_opt_int(obj_lookup2(fs, "id"@, "id"@)) matches Ok(v) && v == a.id
    &&& as_opt_int(obj_lookup2(fs, "start"@, "start"@)) matches Ok(v) && v == a.start
    &&& as_opt_int(obj_lookup2(fs, "end"@, "end"@)) matches Ok(v) && v == a.end
    &&& as_opt_int(obj_lookup2(fs, "startTimeSlot"@, "start_time_slot"@))
        matches Ok(v) && v == a.start_time_slot
    &&& as_opt_int(obj_lookup2(fs, "endTimeSlot"@, "end_time_slot"@))
        matches Ok(v) && v == a.end_time_slot
    &&& list_matches(a.subjects, as_opt_str_list(obj_lookup2(fs, "subjects"@, "subjects"@)))
    &&& as_opt_str(obj_lookup2(fs, "type"@, "appointment_type"@))
        matches Ok(v) && v == a.appointment_type
    &&& as_opt_str(obj_lookup2(fs, "remark"@, "remark"@)) matches Ok(v) && v == a.remark
    &&& list_matches(a.locations, as_opt_str_list(obj_lookup2(fs, "locations"@, "locations"@)))
    &&& list_matches(a.teachers, as_opt_str_list(obj_lookup2(fs, "teachers"@, "teachers"@)))
    &&& list_matches(a.groups, as_opt_str_list(obj_lookup2(fs, "groups"@, "groups"@)))
    &&& as_opt_int(obj_lookup2(fs, "created"@, "created"@)) matches Ok(v) && v == a.created
    &&& as_opt_int(obj_lookup2(fs, "lastModified"@, "last_modified"@))
        matches Ok(v) && v == a.last_modified
    &&& as_opt_bool(obj_lookup2(fs, "valid"@, "valid"@)) matches Ok(v) && v == a.valid
    &&& as_opt_bool(obj_lookup2(fs, "hidden"@, "hidden"@)) matches Ok(v) && v == a.hidden
    &&& as_opt_bool(obj_lookup2(fs, "cancelled"@, "cancelled"@)) matches Ok(v) && v == a.cancelled
    &&& as_opt_bool(obj_lookup2(fs, "modified"@, "modified"@)) matches Ok(v) && v == a.modified
    &&& as_opt_bool(obj_lookup2(fs, "moved"@, "moved"@)) matches Ok(v) && v == a.moved
    &&& as_opt_bool(obj_lookup2(fs, "new"@, "isNew"@)) matches Ok(v) && v == a.new
    &&& as_opt_str(obj_lookup2(fs, "changeDescription"@, "change_description"@))
        matches Ok(v) && v == a.change_description
    &&& as_opt_int(obj_lookup2(fs, "branchOfSchool"@, "branch_of_school"@))
        matches Ok(v) && v == a.branch_of_school
    &&& as_opt_str(obj_lookup2(fs, "branch"@, "branch"@)) matches Ok(v) && v == a.branch
}

/// A key that no entry of the object carries is not found.
proof fn lemma_lookup_absent(fs: Seq<(String, JsonValue)>, key: Seq<char>)
    requires
        forall|i: int| 0 <= i < fs.len() ==> (#[trigger] fs[i].0@) != key,
    ensures
        obj_lookup(fs, key) is None,
    decreases fs.len(),
{
    if fs.len() > 0 {
        assert(forall|i: int|
            0 <= i < fs.skip(1).len() ==> (#[trigger] fs.skip(1)[i].0@) == fs[i + 1].0@);
        lemma_lookup_absent(fs.skip(1), key);
    }
}

/// Law: an appointment object carrying only the keys `start`, `end`,
/// `startTimeSlot`, `endTimeSlot` and `subjects` parses to an appointment
/// with exactly those five fields present, holding the stored values, and
/// with every other field absent.
pub proof fn lemma_sparse_appointment(
    a: Appointment,
    fs: Seq<(String, JsonValue)>,
    st: i64,
    en: i64,
    sts: i64,
    ets: i64,
    subj: Seq<String>,
)
    requires
        forall|i: int|
            0 <= i < fs.len() ==> {
                ||| (#[trigger] fs[i].0@) == "start"@
                ||| fs[i].0@ == "end"@
                ||| fs[i].0@ == "startTimeSlot"@
                ||| fs[i].0@ == "endTimeSlot"@
                ||| fs[i].0@ == "subjects"@
            },
        obj_lookup(fs, "start"@) == Some(JsonValue::Int(st)),
        obj_lookup(fs, "end"@) == Some(JsonValue::Int(en)),
        obj_lookup(fs, "startTimeSlot"@) == Some(JsonValue::Int(sts)),
        obj_lookup(fs, "endTimeSlot"@) == Some(JsonValue::Int(ets)),
        obj_lookup(fs, "subjects"@) matches Some(sv) && sv matches JsonValue::Arr(items)
            && str_items(items@) == Some(subj),
        appointment_matches(a, fs),
    ensures
        a.start == Some(st),
        a.end == Some(en),
        a.start_time_slot == Some(sts),
        a.end_time_slot == Some(ets),
        a.subjects matches Some(v) && v@ == subj,
        a.appointment_instance is None,
        a.id is None,
        a.appointment_type is None,
        a.remark is None,
        a.locations is None,
        a.teachers is None,
        a.groups is None,
        a.created is None,
        a.last_modified is None,
        a.valid is None,
        a.hidden is None,
        a.cancelled is None,
        a.modified is None,
        a.moved is None,
        a.new is None,
        a.change_description is None,
        a.branch_of_school is None,
        a.branch is None,
{
    reveal_strlit("start");
    reveal_strlit("end");
    reveal_strlit("startTimeSlot");
    reveal_strlit("endTimeSlot");
    reveal_strlit("subjects");
    reveal_strlit("appointmentInstance");
    reveal_strlit("appointment_instance");
    reveal_strlit("id");
    reveal_strlit("start_time_slot");
    reveal_strlit("end_time_slot");
    reveal_strlit("type");
    reveal_strlit("appointment_type");
    reveal_strlit("remark");
    reveal_strlit("locations");
    reveal_strlit("teachers");
    reveal_strlit("groups");
    reveal_strlit("created");
    reveal_strlit("lastModified");
    reveal_strlit("last_modified");
    reveal_strlit("valid");
    reveal_strlit("hidden");
    reveal_strlit("cancelled");
    reveal_strlit("modified");
    reveal_strlit("moved");
    reveal_strlit("new");
    reveal_strlit("isNew");
    reveal_strlit("changeDescription");
    reveal_strlit("change_description");
    reveal_strlit("branchOfSchool");
    reveal_strlit("branch_of_school");
    reveal_strlit("branch");
    assert("start"@.len() == 5 && "end"@.len() == 3 && "startTimeSlot"@.len() == 13
        && "endTimeSlot"@.len() == 11 && "subjects"@.len() == 8);
    assert("appointmentInstance"@.len() == 19 && "appointment_instance"@.len() == 20
        && "id"@.len() == 2 && "type"@.len() == 4 && "appointment_type"@.len() == 16);
    assert("remark"@.len() == 6 && "locations"@.len() == 9 && "teachers"@.len() == 8
        && "groups"@.len() == 6 && "created"@.len() == 7 && "lastModified"@.len() == 12);
    assert("last_modified"@.len() == 13 && "valid"@.len() == 5 && "hidden"@.len() == 6
        && "cancelled"@.len() == 9 && "modified"@.len() == 8 && "moved"@.len() == 5);
    assert("new"@.len() == 3 && "isNew"@.len() == 5 && "changeDescription"@.len() == 17
        && "change_description"@.len() == 18 && "branchOfSchool"@.len() == 14
        && "branch_of_school"@.len() == 16 && "branch"@.len() == 6);
    assert("start"@[0] == 's' && "end"@[0] == 'e' && "startTimeSlot"@[0] == 's'
        && "subjects"@[0] == 's');
    assert("valid"@[0] == 'v' && "moved"@[0] == 'm' && "isNew"@[0] == 'i' && "new"@[0] == 'n'
        && "teachers"@[0] == 't' && "modified"@[0] == 'm' && "last_modified"@[0] == 'l');
    lemma_lookup_absent(fs, "appointmentInstance"@);
    lemma_lookup_absent(fs, "appointment_instance"@);
    lemma_lookup_absent(fs, "id"@);
    lemma_lookup_absent(fs, "type"@);
    lemma_lookup_absent(fs, "appointment_type"@);
    lemma_lookup_absent(fs, "remark"@);
    lemma_lookup_absent(fs, "locations"@);
    lemma_lookup_absent(fs, "teachers"@);
    lemma_lookup_absent(fs, "groups"@);
    lemma_lookup_absent(fs, "created"@);
    lemma_lookup_absent(fs, "lastModified"@);
    lemma_lookup_absent(fs, "last_modified"@);
    lemma_lookup_absent(fs, "valid"@);
    lemma_lookup_absent(fs, "hidden"@);
    lemma_lookup_absent(fs, "cancelled"@);
    lemma_lookup_absent(fs, "modified"@);
    lemma_lookup_absent(fs, "moved"@);
    lemma_lookup_absent(fs, "new"@);
    lemma_lookup_absent(fs, "isNew"@);
    lemma_lookup_absent(fs, "changeDescription"@);
    lemma_lookup_absent(fs, "change_description"@);
    lemma_lookup_absent(fs, "branchOfSchool"@);
    lemma_lookup_absent(fs, "branch_of_school"@);
    lemma_lookup_absent(fs, "branch"@);
}

impl Appointment {
    /// Builds an appointment from a parsed JSON object's entries: succeeds
    /// exactly when every field is absent or of its expected kind, and then
    /// carries over exactly the stored values.
    pub fn from_object(fields: &Vec<(String, JsonValue)>) -> (r: Result<Appointment, ()>)
        ensures
            r is Ok <==> fields_ok(fields@),
            r matches Ok(a) ==> appointment_matches(a, fields@),
    {
        let appointment_instance = match get_opt_int(
            fields,
            "appointmentInstance",
            "appointment_instance",
        ) {
            Ok(v) => v,
            Err(_) => return Err(()),
        };
        let id = match get_opt_int(fields, "id", "id") {
            Ok(v) => v,
            Err(_) => return Err(()),
        };
        let start = match get_opt_int(fields, "start", "start") {
            Ok(v) => v,
            Err(_) => return Err(()),
        };
        let end = match get_opt_int(fields, "end", "end") {
            Ok(v) => v,
            Err(_) => return Err(()),
        };
        let start_time_slot = match get_opt_int(fields, "startTimeSlot", "start_time_slot") {
            Ok(v) => v,
            Err(_) => return Err(()),
        };
        let end_time_slot = match get_opt_int(fields, "endTimeSlot", "end_time_slot") {
            Ok(v) => v,
            Err(_) => return Err(()),
        };
        let subjects = match get_opt_str_list(fields, "subjects", "subjects") {
            Ok(v) => v,
            Err(_) => return Err(()),
        };
        let appointment_type = match get_opt_str(fields, "type", "appointment_type") {
            Ok(v) => v,
            Err(_) => return Err(()),
        };
        let remark = match get_opt_str(fields, "remark", "remark") {
            Ok(v) => v,
            Err(_) => return Err(()),
        };
        let locations = match get_opt_str_list(fields, "locations", "locations") {
            Ok(v) => v,
            Err(_) => return Err(()),
        };
        let teachers = match get_opt_str_list(fields, "teachers", "teachers") {
            Ok(v) => v,
            Err(_) => return Err(()),
        };
        let groups = match get_opt_str_list(fields, "groups", "groups") {
            Ok(v) => v,
            Err(_) => return Err(()),
        };
        let created = match get_opt_int(fields, "created", "created") {
            Ok(v) => v,
            Err(_) => return Err(()),
        };
        let last_modified = match get_opt_int(fields, "lastModified", "last_modified") {
            Ok(v) => v,
            Err(_) => return Err(()),
        };
        let valid = match get_opt_bool(fields, "valid", "valid") {
            Ok(v) => v,
            Err(_) => return Err(()),
        };
        let hidden = match get_opt_bool(fields, "hidden", "hidden") {
            Ok(v) => v,
            Err(_) => return Err(()),
        };
        let cancelled = match get_opt_bool(fields, "cancelled", "cancelled") {
            Ok(v) => v,
            Err(_) => return Err(()),
        };
        let modified = match get_opt_bool(fields, "modified", "modified") {
            Ok(v) => v,
            Err(_) => return Err(()),
        };
        let moved = match get_opt_bool(fields, "moved", "moved") {
            Ok(v) => v,
            Err(_) => return Err(()),
        };
        let new = match get_opt_bool(fields, "new", "isNew") {
            Ok(v) => v,
            Err(_) => return Err(()),
        };
        let change_description = match get_opt_str(
            fields,
            "changeDescription",
            "change_description",
        ) {
            Ok(v) => v,
            Err(_) => return Err(()),
        };
        let branch_of_school = match get_opt_int(fields, "branchOfSchool", "branch_of_school") {
            Ok(v) => v,
            Err(_) => return Err(()),
        };
        let branch = match get_opt_str(fields, "branch", "branch") {
            Ok(v) => v,
            Err(_) => return Err(()),
        };
        Ok(
            Appointment {
                appointment_instance,
                id,
                start,
                end,
                start_time_slot,
                end_time_slot,
                subjects,
                appointment_type,
                remark,
                locations,
                teachers,
                groups,
                created,
                last_modified,
                valid,
                hidden,
                cancelled,
                modified,
                moved,
                new,
                change_description,
                branch_of_school,
                branch,
            },
        )
    }
}

/// The strings of an optional list field, an absent list counting as empty.
pub open spec fn opt_list_items(o: Option<Vec<String>>) -> Seq<String> {
    match o {
        Some(v) => v@,
        None => Seq::empty(),
    }
}

/// The slot number a summary leads with: the start time slot, or -1 when
/// it is absent.
pub open spec fn spec_slot_of(a: Appointment) -> int {
    match a.start_time_slot {
        Some(s) => s as int,
        None => -1,
    }
}

/// The text of [`Appointment::summary`]: the start slot, then each of the
/// four name lists joined with commas and quoted, one line per part.
pub open spec fn spec_summary(a: Appointment) -> Seq<char> {
    "#"@ + spec_dec(spec_slot_of(a)) + "\nsubjects: \""@ + spec_join(opt_list_items(a.subjects))
        + "\"\nlocations: \""@ + spec_join(opt_list_items(a.locations)) + "\"\nteachers: \""@
        + spec_join(opt_list_items(a.teachers)) + "\"\ngroups: \""@ + spec_join(
        opt_list_items(a.groups),
    ) + "\"\n"@
}

impl Appointment {
    /// A short textual account of the appointment: its start time slot
    /// (-1 when absent), then its subjects, locations, teachers and
    /// groups, each list joined with commas and set in plain quotes. The
    /// names are written as they are, with no escaping of a quote or a
    /// backslash they may contain.
    pub fn summary(&self) -> (r: String)
        ensures
            r@ == spec_summary(*self),
    {
        let slot: i64 = match self.start_time_slot {
            Some(v) => v,
            None => -1,
        };
        let mut s = String::from_str("#");
        let d = fmt_i64(slot);
        s.append(d.as_str());
        s.append("\nsubjects: \"");
        let j = Self::joined_list(&self.subjects);
        s.append(j.as_str());
        s.append("\"\nlocations: \"");
        let j = Self::joined_list(&self.locations);
        s.append(j.as_str());
        s.append("\"\nteachers: \"");
        let j = Self::joined_list(&self.teachers);
        s.append(j.as_str());
        s.append("\"\ngroups: \"");
        let j = Self::joined_list(&self.groups);
        s.append(j.as_str());
        s.append("\"\n");
        proof {
            assert(s@ =~= spec_summary(*self));
        }
        s
    }

    /// Joins an optional list of names, an absent list counting as empty.
    fn joined_list(o: &Option<Vec<String>>) -> (r: String)
        ensures
            r@ == spec_join(opt_list_items(*o)),
    {
        match o {
            Some(v) => join_comma(v),
            None => String::new(),
        }
    }
}

} // verus!
