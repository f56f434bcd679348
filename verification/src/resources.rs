//! The resource directory: the snapshot of courses, students, teachers,
//! classes, rooms and ancillary resources for a school period, decoded from
//! one JSON payload. Every record type rejects unrecognized fields, so that
//! upstream schema drift fails loudly instead of silently dropping data.

use vstd::prelude::*;

use crate::decode::get_bool_field;
use crate::decode::get_nat_field;
use crate::decode::get_nat_list_field;
use crate::decode::get_number_field;
use crate::decode::get_opt_number_field;
use crate::decode::get_opt_string_field;
use crate::decode::get_string_array_field;
use crate::decode::get_string_field;
use crate::decode::narrow_u16;
use crate::decode::narrow_u32;
use crate::decode::opt_str_view;
use crate::decode::opt_u8_view;
use crate::decode::spec_bool_field;
use crate::decode::spec_nat_field;
use crate::decode::spec_nat_list_field;
use crate::decode::spec_number_field;
use crate::decode::spec_opt_number_field;
use crate::decode::spec_opt_string_field;
use crate::decode::spec_string_array_field;
use crate::decode::spec_string_field;
use crate::json::spec_keys_known;
use crate::decode::req_field;
use crate::json::spec_lookup;
use crate::name::spec_canonical_of;

use crate::json::JsonValue;
use crate::name::Name;
use crate::Error;

verus! {

/// A teacher entry of the directory.
#[derive(Debug)]
pub struct Teacher {
    pub person_id: u32,
    pub name: String,
    pub acronym: Option<String>,
    pub occupied: bool,
}

/// The field names a teacher record may carry.
pub open spec fn spec_teacher_keys() -> Seq<Seq<char>> {
    seq!["personId"@, "name"@, "acronym"@, "occupied"@]
}

fn teacher_keys() -> (r: Vec<&'static str>)
    ensures
        r.deep_view() == spec_teacher_keys(),
{
    let r = vec!["personId", "name", "acronym", "occupied"];
    proof {
        assert(r.deep_view() =~= spec_teacher_keys());
    }
    r
}

/// A teacher object decodes: known fields only, and every field reads
/// under its rule.
pub open spec fn spec_teacher_ok(v: JsonValue) -> bool {
    &&& v matches JsonValue::Obj(fs)
    &&& spec_keys_known(fs@, spec_teacher_keys())
    &&& spec_nat_field(fs@, "personId"@, u32::MAX as int) is Some
    &&& spec_string_field(fs@, "name"@) is Some
    &&& spec_opt_string_field(fs@, "acronym"@) is Some
    &&& spec_bool_field(fs@, "occupied"@) is Some
}

/// `t` holds exactly what the teacher object says.
pub open spec fn spec_teacher_matches(t: Teacher, v: JsonValue) -> bool {
    &&& v matches JsonValue::Obj(fs)
    &&& spec_nat_field(fs@, "personId"@, u32::MAX as int) == Some(t.person_id as int)
    &&& spec_string_field(fs@, "name"@) == Some(t.name@)
    &&& spec_opt_string_field(fs@, "acronym"@) == Some(opt_str_view(t.acronym))
    &&& spec_bool_field(fs@, "occupied"@) == Some(t.occupied)
}

/// Decodes one teacher record, strictly.
pub fn decode_teacher(v: &JsonValue) -> (r: Result<Teacher, Error>)
    ensures
        r is Ok <==> spec_teacher_ok(*v),
        r matches Ok(t) ==> spec_teacher_matches(t, *v),
        r matches Err(e) ==> e == Error::DecodeError,
{
    let fields = match v {
        JsonValue::Obj(fs) => fs,
        _ => {
            return Err(Error::DecodeError);
        },
    };
    let keys = teacher_keys();
    let unk = crate::json::unknown_keys(fields, &keys);
    if unk.len() > 0 {
        return Err(Error::DecodeError);
    }
    let person_id = get_nat_field(fields, "personId", u32::MAX as u64)?;
    let name = get_string_field(fields, "name")?;
    let acronym = get_opt_string_field(fields, "acronym")?;
    let occupied = get_bool_field(fields, "occupied")?;
    Ok(Teacher { person_id: person_id as u32, name, acronym, occupied })
}


/// A student entry of the directory: a numeric identifier and the
/// canonicalized name.
#[derive(Debug)]
pub struct Student {
    pub id: u32,
    pub name: Name,
}

/// The field names a student record may carry.
pub open spec fn spec_student_keys() -> Seq<Seq<char>> {
    seq!["id"@, "personId"@, "studentId"@, "name"@, "studentName"@]
}

fn student_keys() -> (r: Vec<&'static str>)
    ensures
        r.deep_view() == spec_student_keys(),
{
    let r = vec!["id", "personId", "studentId", "name", "studentName"];
    proof {
        assert(r.deep_view() =~= spec_student_keys());
    }
    r
}

/// The student identifier, read from `id`, `personId` or `studentId`,
/// whichever is present first.
pub open spec fn spec_student_id_field(fields: Seq<(String, JsonValue)>) -> Option<int> {
    if spec_lookup(fields, "id"@) is Some {
        spec_nat_field(fields, "id"@, u32::MAX as int)
    } else if spec_lookup(fields, "personId"@) is Some {
        spec_nat_field(fields, "personId"@, u32::MAX as int)
    } else {
        spec_nat_field(fields, "studentId"@, u32::MAX as int)
    }
}

/// The raw student name, read from `name` or `studentName`.
pub open spec fn spec_student_name_field(fields: Seq<(String, JsonValue)>) -> Option<Seq<char>> {
    if spec_lookup(fields, "name"@) is Some {
        spec_string_field(fields, "name"@)
    } else {
        spec_string_field(fields, "studentName"@)
    }
}

/// A student object decodes: known fields only, an identifier under one of
/// its accepted names, and a name string.
pub open spec fn spec_student_ok(v: JsonValue) -> bool {
    &&& v matches JsonValue::Obj(fs)
    &&& spec_keys_known(fs@, spec_student_keys())
    &&& spec_student_id_field(fs@) is Some
    &&& spec_student_name_field(fs@) is Some
}

/// `s` holds the identifier and the canonicalized name of the object.
pub open spec fn spec_student_matches(s: Student, v: JsonValue) -> bool {
    &&& v matches JsonValue::Obj(fs)
    &&& spec_student_id_field(fs@) == Some(s.id as int)
    &&& match spec_student_name_field(fs@) {
        Some(raw) => s.name.string@ == spec_canonical_of(raw),
        None => false,
    }
}

/// Decodes one student record, strictly; the server-provided
/// `"Lastname, Firstname"` string becomes the canonical name.
pub fn decode_student(v: &JsonValue) -> (r: Result<Student, Error>)
    ensures
        r is Ok <==> spec_student_ok(*v),
        r matches Ok(s) ==> spec_student_matches(s, *v),
        r matches Err(e) ==> e == Error::DecodeError,
{
    let fields = match v {
        JsonValue::Obj(fs) => fs,
        _ => {
            return Err(Error::DecodeError);
        },
    };
    let keys = student_keys();
    let unk = crate::json::unknown_keys(fields, &keys);
    if unk.len() > 0 {
        return Err(Error::DecodeError);
    }
    let id = match JsonValue::get_field(fields, "id") {
        Some(_) => get_nat_field(fields, "id", u32::MAX as u64)?,
        None => match JsonValue::get_field(fields, "personId") {
            Some(_) => get_nat_field(fields, "personId", u32::MAX as u64)?,
            None => get_nat_field(fields, "studentId", u32::MAX as u64)?,
        },
    };
    let raw = match JsonValue::get_field(fields, "name") {
        Some(_) => get_string_field(fields, "name")?,
        None => get_string_field(fields, "studentName")?,
    };
    let name = Name::from_lastname_firstname(raw.as_str());
    Ok(Student { id: id as u32, name })
}

/// Every element decodes as a student record.
pub open spec fn spec_student_list_ok(items: Seq<JsonValue>) -> bool {
    forall|i: int| 0 <= i < items.len() ==> spec_student_ok(#[trigger] items[i])
}

/// `xs` holds exactly the decoded elements of the array `v`.
pub open spec fn spec_student_list_matches(xs: Seq<Student>, v: JsonValue) -> bool {
    &&& v matches JsonValue::Arr(items)
    &&& xs.len() == items@.len()
    &&& forall|i: int| 0 <= i < xs.len() ==> spec_student_matches(#[trigger] xs[i], items@[i])
}

/// Decodes an array of student records, strictly.
#[verifier::loop_isolation(false)]
pub fn decode_student_list(v: &JsonValue) -> (r: Result<Vec<Student>, Error>)
    ensures
        r is Ok <==> (*v matches JsonValue::Arr(items) && spec_student_list_ok(items@)),
        r matches Ok(xs) ==> spec_student_list_matches(xs@, *v),
        r matches Err(e) ==> e == Error::DecodeError,
{
    let items = match v {
        JsonValue::Arr(items) => items,
        _ => {
            return Err(Error::DecodeError);
        },
    };
    let mut xs: Vec<Student> = Vec::new();
    let n = items.len();
    let mut i: usize = 0;
    while i < n
        invariant
            i <= n,
            n == items@.len(),
            xs@.len() == i,
            forall|k: int| 0 <= k < i ==> spec_student_ok(#[trigger] items@[k]),
            forall|k: int| 0 <= k < i ==> spec_student_matches(#[trigger] xs@[k], items@[k]),
        decreases n - i,
    {
        match decode_student(&items[i]) {
            Ok(x) => {
                xs.push(x);
            },
            Err(e) => {
                proof {
                    assert(!spec_student_ok(items@[i as int]));
                }
                return Err(e);
            },
        }
        i = i + 1;
    }
    Ok(xs)
}

/// A required field holding an array of student records.
pub open spec fn spec_student_list_field_ok(fields: Seq<(String, JsonValue)>, key: Seq<char>) -> bool {
    match spec_lookup(fields, key) {
        Some(f) => f matches JsonValue::Arr(items) && spec_student_list_ok(items@),
        None => false,
    }
}

/// The decoded records of the field named `key`.
pub open spec fn spec_student_list_field_matches(
    xs: Seq<Student>,
    fields: Seq<(String, JsonValue)>,
    key: Seq<char>,
) -> bool {
    match spec_lookup(fields, key) {
        Some(f) => spec_student_list_matches(xs, f),
        None => false,
    }
}

/// Every element decodes as a teacher record.
pub open spec fn spec_teacher_list_ok(items: Seq<JsonValue>) -> bool {
    forall|i: int| 0 <= i < items.len() ==> spec_teacher_ok(#[trigger] items[i])
}

/// `xs` holds exactly the decoded elements of the array `v`.
pub open spec fn spec_teacher_list_matches(xs: Seq<Teacher>, v: JsonValue) -> bool {
    &&& v matches JsonValue::Arr(items)
    &&& xs.len() == items@.len()
    &&& forall|i: int| 0 <= i < xs.len() ==> spec_teacher_matches(#[trigger] xs[i], items@[i])
}

/// Decodes an array of teacher records, strictly.
#[verifier::loop_isolation(false)]
pub fn decode_teacher_list(v: &JsonValue) -> (r: Result<Vec<Teacher>, Error>)
    ensures
        r is Ok <==> (*v matches JsonValue::Arr(items) && spec_teacher_list_ok(items@)),
        r matches Ok(xs) ==> spec_teacher_list_matches(xs@, *v),
        r matches Err(e) ==> e == Error::DecodeError,
{
    let items = match v {
        JsonValue::Arr(items) => items,
        _ => {
            return Err(Error::DecodeError);
        },
    };
    let mut xs: Vec<Teacher> = Vec::new();
    let n = items.len();
    let mut i: usize = 0;
    while i < n
        invariant
            i <= n,
            n == items@.len(),
            xs@.len() == i,
            forall|k: int| 0 <= k < i ==> spec_teacher_ok(#[trigger] items@[k]),
            forall|k: int| 0 <= k < i ==> spec_teacher_matches(#[trigger] xs@[k], items@[k]),
        decreases n - i,
    {
        match decode_teacher(&items[i]) {
            Ok(x) => {
                xs.push(x);
            },
            Err(e) => {
                proof {
                    assert(!spec_teacher_ok(items@[i as int]));
                }
                return Err(e);
            },
        }
        i = i + 1;
    }
    Ok(xs)
}

/// A required field holding an array of teacher records.
pub open spec fn spec_teacher_list_field_ok(fields: Seq<(String, JsonValue)>, key: Seq<char>) -> bool {
    match spec_lookup(fields, key) {
        Some(f) => f matches JsonValue::Arr(items) && spec_teacher_list_ok(items@),
        None => false,
    }
}

/// The decoded records of the field named `key`.
pub open spec fn spec_teacher_list_field_matches(
    xs: Seq<Teacher>,
    fields: Seq<(String, JsonValue)>,
    key: Seq<char>,
) -> bool {
    match spec_lookup(fields, key) {
        Some(f) => spec_teacher_list_matches(xs, f),
        None => false,
    }
}

/// A course entry of the directory.
#[derive(Debug)]
pub struct Course {
    pub course: String,
    pub course_id: u32,
    pub course_short: String,
    pub course_label_or_course_description: String,
    pub course_short_with_classes: String,
    pub period_id: u8,
    pub teacher_name: String,
    pub student_name: String,
    pub subject_id: u16,
    pub teacher_id: Vec<u32>,
    pub student_id: Vec<u32>,
    pub class_id: Vec<u16>,
    pub class_name: Vec<String>,
}

/// The field names a course record may carry.
pub open spec fn spec_course_keys() -> Seq<Seq<char>> {
    seq!["course"@, "courseId"@, "courseShort"@, "courseLabelOrCourseDescription"@, "courseShortWithClasses"@, "periodId"@, "teacherName"@, "studentName"@, "subjectId"@, "teacherId"@, "studentId"@, "classId"@, "className"@]
}

fn course_keys() -> (r: Vec<&'static str>)
    ensures
        r.deep_view() == spec_course_keys(),
{
    let r = vec!["course", "courseId", "courseShort", "courseLabelOrCourseDescription", "courseShortWithClasses", "periodId", "teacherName", "studentName", "subjectId", "teacherId", "studentId", "classId", "className"];
    proof {
        assert(r.deep_view() =~= spec_course_keys());
    }
    r
}

/// A course object decodes: known fields only, and every field reads
/// under its rule.
pub open spec fn spec_course_ok(v: JsonValue) -> bool {
    &&& v matches JsonValue::Obj(fs)
    &&& spec_keys_known(fs@, spec_course_keys())
    &&& spec_string_field(fs@, "course"@) is Some
    &&& spec_nat_field(fs@, "courseId"@, u32::MAX as int) is Some
    &&& spec_string_field(fs@, "courseShort"@) is Some
    &&& spec_string_field(fs@, "courseLabelOrCourseDescription"@) is Some
    &&& spec_string_field(fs@, "courseShortWithClasses"@) is Some
    &&& spec_nat_field(fs@, "periodId"@, u8::MAX as int) is Some
    &&& spec_string_field(fs@, "teacherName"@) is Some
    &&& spec_string_field(fs@, "studentName"@) is Some
    &&& spec_nat_field(fs@, "subjectId"@, u16::MAX as int) is Some
    &&& spec_nat_list_field(fs@, "teacherId"@, u32::MAX as int) is Some
    &&& spec_nat_list_field(fs@, "studentId"@, u32::MAX as int) is Some
    &&& spec_nat_list_field(fs@, "classId"@, u16::MAX as int) is Some
    &&& spec_string_array_field(fs@, "className"@) is Some
}

/// `c` holds exactly what the course object says.
pub open spec fn spec_course_matches(c: Course, v: JsonValue) -> bool {
    &&& v matches JsonValue::Obj(fs)
    &&& spec_string_field(fs@, "course"@) == Some(c.course@)
    &&& spec_nat_field(fs@, "courseId"@, u32::MAX as int) == Some(c.course_id as int)
    &&& spec_string_field(fs@, "courseShort"@) == Some(c.course_short@)
    &&& spec_string_field(fs@, "courseLabelOrCourseDescription"@) == Some(
        c.course_label_or_course_description@,
    )
    &&& spec_string_field(fs@, "courseShortWithClasses"@) == Some(c.course_short_with_classes@)
    &&& spec_nat_field(fs@, "periodId"@, u8::MAX as int) == Some(c.period_id as int)
    &&& spec_string_field(fs@, "teacherName"@) == Some(c.teacher_name@)
    &&& spec_string_field(fs@, "studentName"@) == Some(c.student_name@)
    &&& spec_nat_field(fs@, "subjectId"@, u16::MAX as int) == Some(c.subject_id as int)
    &&& spec_nat_list_field(fs@, "teacherId"@, u32::MAX as int) == Some(
        c.teacher_id@.map_values(|x: u32| x as int),
    )
    &&& spec_nat_list_field(fs@, "studentId"@, u32::MAX as int) == Some(
        c.student_id@.map_values(|x: u32| x as int),
    )
    &&& spec_nat_list_field(fs@, "classId"@, u16::MAX as int) == Some(
        c.class_id@.map_values(|x: u16| x as int),
    )
    &&& spec_string_array_field(fs@, "className"@) == Some(c.class_name.deep_view())
}

/// Decodes one course record, strictly.
pub fn decode_course(v: &JsonValue) -> (r: Result<Course, Error>)
    ensures
        r is Ok <==> spec_course_ok(*v),
        r matches Ok(c) ==> spec_course_matches(c, *v),
        r matches Err(e) ==> e == Error::DecodeError,
{
    let fields = match v {
        JsonValue::Obj(fs) => fs,
        _ => {
            return Err(Error::DecodeError);
        },
    };
    let keys = course_keys();
    let unk = crate::json::unknown_keys(fields, &keys);
    if unk.len() > 0 {
        return Err(Error::DecodeError);
    }
    let course = get_string_field(fields, "course")?;
    let course_id = get_nat_field(fields, "courseId", u32::MAX as u64)?;
    let course_short = get_string_field(fields, "courseShort")?;
    let course_label_or_course_description = get_string_field(
        fields,
        "courseLabelOrCourseDescription",
    )?;
    let course_short_with_classes = get_string_field(fields, "courseShortWithClasses")?;
    let period_id = get_nat_field(fields, "periodId", u8::MAX as u64)?;
    let teacher_name = get_string_field(fields, "teacherName")?;
    let student_name = get_string_field(fields, "studentName")?;
    let subject_id = get_nat_field(fields, "subjectId", u16::MAX as u64)?;
    let teacher_id_raw = get_nat_list_field(fields, "teacherId", u32::MAX as u64)?;
    let student_id_raw = get_nat_list_field(fields, "studentId", u32::MAX as u64)?;
    let class_id_raw = get_nat_list_field(fields, "classId", u16::MAX as u64)?;
    let class_name = get_string_array_field(fields, "className")?;
    let teacher_id = narrow_u32(&teacher_id_raw);
    let student_id = narrow_u32(&student_id_raw);
    let class_id = narrow_u16(&class_id_raw);
    Ok(Course {
        course,
        course_id: course_id as u32,
        course_short,
        course_label_or_course_description,
        course_short_with_classes,
        period_id: period_id as u8,
        teacher_name,
        student_name,
        subject_id: subject_id as u16,
        teacher_id,
        student_id,
        class_id,
        class_name,
    })
}

/// Every element decodes as a course record.
pub open spec fn spec_course_list_ok(items: Seq<JsonValue>) -> bool {
    forall|i: int| 0 <= i < items.len() ==> spec_course_ok(#[trigger] items[i])
}

/// `xs` holds exactly the decoded elements of the array `v`.
pub open spec fn spec_course_list_matches(xs: Seq<Course>, v: JsonValue) -> bool {
    &&& v matches JsonValue::Arr(items)
    &&& xs.len() == items@.len()
    &&& forall|i: int| 0 <= i < xs.len() ==> spec_course_matches(#[trigger] xs[i], items@[i])
}

/// Decodes an array of course records, strictly.
#[verifier::loop_isolation(false)]
pub fn decode_course_list(v: &JsonValue) -> (r: Result<Vec<Course>, Error>)
    ensures
        r is Ok <==> (*v matches JsonValue::Arr(items) && spec_course_list_ok(items@)),
        r matches Ok(xs) ==> spec_course_list_matches(xs@, *v),
        r matches Err(e) ==> e == Error::DecodeError,
{
    let items = match v {
        JsonValue::Arr(items) => items,
        _ => {
            return Err(Error::DecodeError);
        },
    };
    let mut xs: Vec<Course> = Vec::new();
    let n = items.len();
    let mut i: usize = 0;
    while i < n
        invariant
            i <= n,
            n == items@.len(),
            xs@.len() == i,
            forall|k: int| 0 <= k < i ==> spec_course_ok(#[trigger] items@[k]),
            forall|k: int| 0 <= k < i ==> spec_course_matches(#[trigger] xs@[k], items@[k]),
        decreases n - i,
    {
        match decode_course(&items[i]) {
            Ok(x) => {
                xs.push(x);
            },
            Err(e) => {
                proof {
                    assert(!spec_course_ok(items@[i as int]));
                }
                return Err(e);
            },
        }
        i = i + 1;
    }
    Ok(xs)
}

/// A required field holding an array of course records.
pub open spec fn spec_course_list_field_ok(fields: Seq<(String, JsonValue)>, key: Seq<char>) -> bool {
    match spec_lookup(fields, key) {
        Some(f) => f matches JsonValue::Arr(items) && spec_course_list_ok(items@),
        None => false,
    }
}

/// The decoded records of the field named `key`.
pub open spec fn spec_course_list_field_matches(
    xs: Seq<Course>,
    fields: Seq<(String, JsonValue)>,
    key: Seq<char>,
) -> bool {
    match spec_lookup(fields, key) {
        Some(f) => spec_course_list_matches(xs, f),
        None => false,
    }
}

/// A class entry of the directory.
#[derive(Debug)]
pub struct Class {
    pub class_id: u16,
    pub class_name: String,
    pub class_short: String,
    pub class_common_name: String,
    pub period_id: u8,
    pub class_level: u8,
    pub occupied: bool,
}

/// The field names a class record record may carry.
pub open spec fn spec_class_record_keys() -> Seq<Seq<char>> {
    seq!["classId"@, "className"@, "classShort"@, "classCommonName"@, "periodId"@, "classLevel"@, "occupied"@]
}

fn class_record_keys() -> (r: Vec<&'static str>)
    ensures
        r.deep_view() == spec_class_record_keys(),
{
    let r = vec!["classId", "className", "classShort", "classCommonName", "periodId", "classLevel", "occupied"];
    proof {
        assert(r.deep_view() =~= spec_class_record_keys());
    }
    r
}

/// A class object decodes: known fields only, and every field reads
/// under its rule.
pub open spec fn spec_class_record_ok(v: JsonValue) -> bool {
    &&& v matches JsonValue::Obj(fs)
    &&& spec_keys_known(fs@, spec_class_record_keys())
    &&& spec_nat_field(fs@, "classId"@, u16::MAX as int) is Some
    &&& spec_string_field(fs@, "className"@) is Some
    &&& spec_string_field(fs@, "classShort"@) is Some
    &&& spec_string_field(fs@, "classCommonName"@) is Some
    &&& spec_nat_field(fs@, "periodId"@, u8::MAX as int) is Some
    &&& spec_number_field(fs@, "classLevel"@, u8::MAX as int) is Some
    &&& spec_bool_field(fs@, "occupied"@) is Some
}

/// `c` holds exactly what the class object says.
pub open spec fn spec_class_record_matches(c: Class, v: JsonValue) -> bool {
    &&& v matches JsonValue::Obj(fs)
    &&& spec_nat_field(fs@, "classId"@, u16::MAX as int) == Some(c.class_id as int)
    &&& spec_string_field(fs@, "className"@) == Some(c.class_name@)
    &&& spec_string_field(fs@, "classShort"@) == Some(c.class_short@)
    &&& spec_string_field(fs@, "classCommonName"@) == Some(c.class_common_name@)
    &&& spec_nat_field(fs@, "periodId"@, u8::MAX as int) == Some(c.period_id as int)
    &&& spec_number_field(fs@, "classLevel"@, u8::MAX as int) == Some(c.class_level as int)
    &&& spec_bool_field(fs@, "occupied"@) == Some(c.occupied)
}

/// Decodes one class record, strictly.
pub fn decode_class_record(v: &JsonValue) -> (r: Result<Class, Error>)
    ensures
        r is Ok <==> spec_class_record_ok(*v),
        r matches Ok(c) ==> spec_class_record_matches(c, *v),
        r matches Err(e) ==> e == Error::DecodeError,
{
    let fields = match v {
        JsonValue::Obj(fs) => fs,
        _ => {
            return Err(Error::DecodeError);
        },
    };
    let keys = class_record_keys();
    let unk = crate::json::unknown_keys(fields, &keys);
    if unk.len() > 0 {
        return Err(Error::DecodeError);
    }
    let class_id = get_nat_field(fields, "classId", u16::MAX as u64)?;
    let class_name = get_string_field(fields, "className")?;
    let class_short = get_string_field(fields, "classShort")?;
    let class_common_name = get_string_field(fields, "classCommonName")?;
    let period_id = get_nat_field(fields, "periodId", u8::MAX as u64)?;
    let class_level = get_number_field(fields, "classLevel", u8::MAX as u64)?;
    let occupied = get_bool_field(fields, "occupied")?;
    Ok(Class {
        class_id: class_id as u16,
        class_name,
        class_short,
        class_common_name,
        period_id: period_id as u8,
        class_level: class_level as u8,
        occupied,
    })
}

/// Every element decodes as a class record record.
pub open spec fn spec_class_record_list_ok(items: Seq<JsonValue>) -> bool {
    forall|i: int| 0 <= i < items.len() ==> spec_class_record_ok(#[trigger] items[i])
}

/// `xs` holds exactly the decoded elements of the array `v`.
pub open spec fn spec_class_record_list_matches(xs: Seq<Class>, v: JsonValue) -> bool {
    &&& v matches JsonValue::Arr(items)
    &&& xs.len() == items@.len()
    &&& forall|i: int| 0 <= i < xs.len() ==> spec_class_record_matches(#[trigger] xs[i], items@[i])
}

/// Decodes an array of class record records, strictly.
#[verifier::loop_isolation(false)]
pub fn decode_class_record_list(v: &JsonValue) -> (r: Result<Vec<Class>, Error>)
    ensures
        r is Ok <==> (*v matches JsonValue::Arr(items) && spec_class_record_list_ok(items@)),
        r matches Ok(xs) ==> spec_class_record_list_matches(xs@, *v),
        r matches Err(e) ==> e == Error::DecodeError,
{
    let items = match v {
        JsonValue::Arr(items) => items,
        _ => {
            return Err(Error::DecodeError);
        },
    };
    let mut xs: Vec<Class> = Vec::new();
    let n = items.len();
    let mut i: usize = 0;
    while i < n
        invariant
            i <= n,
            n == items@.len(),
            xs@.len() == i,
            forall|k: int| 0 <= k < i ==> spec_class_record_ok(#[trigger] items@[k]),
            forall|k: int| 0 <= k < i ==> spec_class_record_matches(#[trigger] xs@[k], items@[k]),
        decreases n - i,
    {
        match decode_class_record(&items[i]) {
            Ok(x) => {
                xs.push(x);
            },
            Err(e) => {
                proof {
                    assert(!spec_class_record_ok(items@[i as int]));
                }
                return Err(e);
            },
        }
        i = i + 1;
    }
    Ok(xs)
}

/// A required field holding an array of class record records.
pub open spec fn spec_class_record_list_field_ok(fields: Seq<(String, JsonValue)>, key: Seq<char>) -> bool {
    match spec_lookup(fields, key) {
        Some(f) => f matches JsonValue::Arr(items) && spec_class_record_list_ok(items@),
        None => false,
    }
}

/// The decoded records of the field named `key`.
pub open spec fn spec_class_record_list_field_matches(
    xs: Seq<Class>,
    fields: Seq<(String, JsonValue)>,
    key: Seq<char>,
) -> bool {
    match spec_lookup(fields, key) {
        Some(f) => spec_class_record_list_matches(xs, f),
        None => false,
    }
}

/// A room entry of the directory.
#[derive(Debug)]
pub struct Room {
    pub room_id: u16,
    pub room: String,
    pub description: Option<String>,
    pub occupied: bool,
    pub sort1: u8,
    pub sort2: u8,
    pub room_category: Option<u8>,
    pub building: Option<String>,
}

/// The field names a room record may carry.
pub open spec fn spec_room_keys() -> Seq<Seq<char>> {
    seq!["roomId"@, "room"@, "description"@, "occupied"@, "sort1"@, "sort2"@, "roomCategory"@, "building"@]
}

fn room_keys() -> (r: Vec<&'static str>)
    ensures
        r.deep_view() == spec_room_keys(),
{
    let r = vec!["roomId", "room", "description", "occupied", "sort1", "sort2", "roomCategory", "building"];
    proof {
        assert(r.deep_view() =~= spec_room_keys());
    }
    r
}

/// A room object decodes: known fields only, and every field reads under
/// its rule.
pub open spec fn spec_room_ok(v: JsonValue) -> bool {
    &&& v matches JsonValue::Obj(fs)
    &&& spec_keys_known(fs@, spec_room_keys())
    &&& spec_nat_field(fs@, "roomId"@, u16::MAX as int) is Some
    &&& spec_string_field(fs@, "room"@) is Some
    &&& spec_opt_string_field(fs@, "description"@) is Some
    &&& spec_bool_field(fs@, "occupied"@) is Some
    &&& spec_number_field(fs@, "sort1"@, u8::MAX as int) is Some
    &&& spec_number_field(fs@, "sort2"@, u8::MAX as int) is Some
    &&& spec_opt_number_field(fs@, "roomCategory"@, u8::MAX as int) is Some
    &&& spec_opt_string_field(fs@, "building"@) is Some
}

/// `rm` holds exactly what the room object says.
pub open spec fn spec_room_matches(rm: Room, v: JsonValue) -> bool {
    &&& v matches JsonValue::Obj(fs)
    &&& spec_nat_field(fs@, "roomId"@, u16::MAX as int) == Some(rm.room_id as int)
    &&& spec_string_field(fs@, "room"@) == Some(rm.room@)
    &&& spec_opt_string_field(fs@, "description"@) == Some(opt_str_view(rm.description))
    &&& spec_bool_field(fs@, "occupied"@) == Some(rm.occupied)
    &&& spec_number_field(fs@, "sort1"@, u8::MAX as int) == Some(rm.sort1 as int)
    &&& spec_number_field(fs@, "sort2"@, u8::MAX as int) == Some(rm.sort2 as int)
    &&& spec_opt_number_field(fs@, "roomCategory"@, u8::MAX as int) == Some(
        opt_u8_view(rm.room_category),
    )
    &&& spec_opt_string_field(fs@, "building"@) == Some(opt_str_view(rm.building))
}

/// Decodes one room record, strictly.
pub fn decode_room(v: &JsonValue) -> (r: Result<Room, Error>)
    ensures
        r is Ok <==> spec_room_ok(*v),
        r matches Ok(rm) ==> spec_room_matches(rm, *v),
        r matches Err(e) ==> e == Error::DecodeError,
{
    let fields = match v {
        JsonValue::Obj(fs) => fs,
        _ => {
            return Err(Error::DecodeError);
        },
    };
    let keys = room_keys();
    let unk = crate::json::unknown_keys(fields, &keys);
    if unk.len() > 0 {
        return Err(Error::DecodeError);
    }
    let room_id = get_nat_field(fields, "roomId", u16::MAX as u64)?;
    let room = get_string_field(fields, "room")?;
    let description = get_opt_string_field(fields, "description")?;
    let occupied = get_bool_field(fields, "occupied")?;
    let sort1 = get_number_field(fields, "sort1", u8::MAX as u64)?;
    let sort2 = get_number_field(fields, "sort2", u8::MAX as u64)?;
    let room_category_raw = get_opt_number_field(fields, "roomCategory", u8::MAX as u64)?;
    let building = get_opt_string_field(fields, "building")?;
    let room_category = match room_category_raw {
        Some(x) => Some(x as u8),
        None => None,
    };
    Ok(Room {
        room_id: room_id as u16,
        room,
        description,
        occupied,
        sort1: sort1 as u8,
        sort2: sort2 as u8,
        room_category,
        building,
    })
}

/// Every element decodes as a room record.
pub open spec fn spec_room_list_ok(items: Seq<JsonValue>) -> bool {
    forall|i: int| 0 <= i < items.len() ==> spec_room_ok(#[trigger] items[i])
}

/// `xs` holds exactly the decoded elements of the array `v`.
pub open spec fn spec_room_list_matches(xs: Seq<Room>, v: JsonValue) -> bool {
    &&& v matches JsonValue::Arr(items)
    &&& xs.len() == items@.len()
    &&& forall|i: int| 0 <= i < xs.len() ==> spec_room_matches(#[trigger] xs[i], items@[i])
}

/// Decodes an array of room records, strictly.
#[verifier::loop_isolation(false)]
pub fn decode_room_list(v: &JsonValue) -> (r: Result<Vec<Room>, Error>)
    ensures
        r is Ok <==> (*v matches JsonValue::Arr(items) && spec_room_list_ok(items@)),
        r matches Ok(xs) ==> spec_room_list_matches(xs@, *v),
        r matches Err(e) ==> e == Error::DecodeError,
{
    let items = match v {
        JsonValue::Arr(items) => items,
        _ => {
            return Err(Error::DecodeError);
        },
    };
    let mut xs: Vec<Room> = Vec::new();
    let n = items.len();
    let mut i: usize = 0;
    while i < n
        invariant
            i <= n,
            n == items@.len(),
            xs@.len() == i,
            forall|k: int| 0 <= k < i ==> spec_room_ok(#[trigger] items@[k]),
            forall|k: int| 0 <= k < i ==> spec_room_matches(#[trigger] xs@[k], items@[k]),
        decreases n - i,
    {
        match decode_room(&items[i]) {
            Ok(x) => {
                xs.push(x);
            },
            Err(e) => {
                proof {
                    assert(!spec_room_ok(items@[i as int]));
                }
                return Err(e);
            },
        }
        i = i + 1;
    }
    Ok(xs)
}

/// A required field holding an array of room records.
pub open spec fn spec_room_list_field_ok(fields: Seq<(String, JsonValue)>, key: Seq<char>) -> bool {
    match spec_lookup(fields, key) {
        Some(f) => f matches JsonValue::Arr(items) && spec_room_list_ok(items@),
        None => false,
    }
}

/// The decoded records of the field named `key`.
pub open spec fn spec_room_list_field_matches(
    xs: Seq<Room>,
    fields: Seq<(String, JsonValue)>,
    key: Seq<char>,
) -> bool {
    match spec_lookup(fields, key) {
        Some(f) => spec_room_list_matches(xs, f),
        None => false,
    }
}

/// An ancillary resource entry of the directory.
#[derive(Debug)]
pub struct Resource {
    pub resource_id: u8,
    pub resource: String,
    pub description: String,
    pub sort1: u8,
    pub sort2: u8,
    pub resource_category: u8,
}

/// The field names a resource record may carry.
pub open spec fn spec_resource_keys() -> Seq<Seq<char>> {
    seq!["resourceId"@, "resource"@, "description"@, "sort1"@, "sort2"@, "resourceCategory"@]
}

fn resource_keys() -> (r: Vec<&'static str>)
    ensures
        r.deep_view() == spec_resource_keys(),
{
    let r = vec!["resourceId", "resource", "description", "sort1", "sort2", "resourceCategory"];
    proof {
        assert(r.deep_view() =~= spec_resource_keys());
    }
    r
}

/// A resource object decodes: known fields only, and every field reads
/// under its rule.
pub open spec fn spec_resource_ok(v: JsonValue) -> bool {
    &&& v matches JsonValue::Obj(fs)
    &&& spec_keys_known(fs@, spec_resource_keys())
    &&& spec_nat_field(fs@, "resourceId"@, u8::MAX as int) is Some
    &&& spec_string_field(fs@, "resource"@) is Some
    &&& spec_string_field(fs@, "description"@) is Some
    &&& spec_number_field(fs@, "sort1"@, u8::MAX as int) is Some
    &&& spec_number_field(fs@, "sort2"@, u8::MAX as int) is Some
    &&& spec_number_field(fs@, "resourceCategory"@, u8::MAX as int) is Some
}

/// `rs` holds exactly what the resource object says.
pub open spec fn spec_resource_matches(rs: Resource, v: JsonValue) -> bool {
    &&& v matches JsonValue::Obj(fs)
    &&& spec_nat_field(fs@, "resourceId"@, u8::MAX as int) == Some(rs.resource_id as int)
    &&& spec_string_field(fs@, "resource"@) == Some(rs.resource@)
    &&& spec_string_field(fs@, "description"@) == Some(rs.description@)
    &&& spec_number_field(fs@, "sort1"@, u8::MAX as int) == Some(rs.sort1 as int)
    &&& spec_number_field(fs@, "sort2"@, u8::MAX as int) == Some(rs.sort2 as int)
    &&& spec_number_field(fs@, "resourceCategory"@, u8::MAX as int) == Some(
        rs.resource_category as int,
    )
}

/// Decodes one resource record, strictly.
pub fn decode_resource(v: &JsonValue) -> (r: Result<Resource, Error>)
    ensures
        r is Ok <==> spec_resource_ok(*v),
        r matches Ok(rs) ==> spec_resource_matches(rs, *v),
        r matches Err(e) ==> e == Error::DecodeError,
{
    let fields = match v {
        JsonValue::Obj(fs) => fs,
        _ => {
            return Err(Error::DecodeError);
        },
    };
    let keys = resource_keys();
    let unk = crate::json::unknown_keys(fields, &keys);
    if unk.len() > 0 {
        return Err(Error::DecodeError);
    }
    let resource_id = get_nat_field(fields, "resourceId", u8::MAX as u64)?;
    let resource = get_string_field(fields, "resource")?;
    let description = get_string_field(fields, "description")?;
    let sort1 = get_number_field(fields, "sort1", u8::MAX as u64)?;
    let sort2 = get_number_field(fields, "sort2", u8::MAX as u64)?;
    let resource_category = get_number_field(fields, "resourceCategory", u8::MAX as u64)?;
    Ok(Resource {
        resource_id: resource_id as u8,
        resource,
        description,
        sort1: sort1 as u8,
        sort2: sort2 as u8,
        resource_category: resource_category as u8,
    })
}

/// Every element decodes as a resource record.
pub open spec fn spec_resource_list_ok(items: Seq<JsonValue>) -> bool {
    forall|i: int| 0 <= i < items.len() ==> spec_resource_ok(#[trigger] items[i])
}

/// `xs` holds exactly the decoded elements of the array `v`.
pub open spec fn spec_resource_list_matches(xs: Seq<Resource>, v: JsonValue) -> bool {
    &&& v matches JsonValue::Arr(items)
    &&& xs.len() == items@.len()
    &&& forall|i: int| 0 <= i < xs.len() ==> spec_resource_matches(#[trigger] xs[i], items@[i])
}

/// Decodes an array of resource records, strictly.
#[verifier::loop_isolation(false)]
pub fn decode_resource_list(v: &JsonValue) -> (r: Result<Vec<Resource>, Error>)
    ensures
        r is Ok <==> (*v matches JsonValue::Arr(items) && spec_resource_list_ok(items@)),
        r matches Ok(xs) ==> spec_resource_list_matches(xs@, *v),
        r matches Err(e) ==> e == Error::DecodeError,
{
    let items = match v {
        JsonValue::Arr(items) => items,
        _ => {
            return Err(Error::DecodeError);
        },
    };
    let mut xs: Vec<Resource> = Vec::new();
    let n = items.len();
    let mut i: usize = 0;
    while i < n
        invariant
            i <= n,
            n == items@.len(),
            xs@.len() == i,
            forall|k: int| 0 <= k < i ==> spec_resource_ok(#[trigger] items@[k]),
            forall|k: int| 0 <= k < i ==> spec_resource_matches(#[trigger] xs@[k], items@[k]),
        decreases n - i,
    {
        match decode_resource(&items[i]) {
            Ok(x) => {
                xs.push(x);
            },
            Err(e) => {
                proof {
                    assert(!spec_resource_ok(items@[i as int]));
                }
                return Err(e);
            },
        }
        i = i + 1;
    }
    Ok(xs)
}

/// A required field holding an array of resource records.
pub open spec fn spec_resource_list_field_ok(fields: Seq<(String, JsonValue)>, key: Seq<char>) -> bool {
    match spec_lookup(fields, key) {
        Some(f) => f matches JsonValue::Arr(items) && spec_resource_list_ok(items@),
        None => false,
    }
}

/// The decoded records of the field named `key`.
pub open spec fn spec_resource_list_field_matches(
    xs: Seq<Resource>,
    fields: Seq<(String, JsonValue)>,
    key: Seq<char>,
) -> bool {
    match spec_lookup(fields, key) {
        Some(f) => spec_resource_list_matches(xs, f),
        None => false,
    }
}

/// The six collections of the directory.
#[derive(Debug)]
pub struct ResourceData {
    pub courses: Vec<Course>,
    pub students: Vec<Student>,
    pub teachers: Vec<Teacher>,
    pub classes: Vec<Class>,
    pub rooms: Vec<Room>,
    pub resources: Vec<Resource>,
}

/// The field names a resource data record may carry.
pub open spec fn spec_resource_data_keys() -> Seq<Seq<char>> {
    seq!["courses"@, "students"@, "teachers"@, "classes"@, "rooms"@, "resources"@]
}

fn resource_data_keys() -> (r: Vec<&'static str>)
    ensures
        r.deep_view() == spec_resource_data_keys(),
{
    let r = vec!["courses", "students", "teachers", "classes", "rooms", "resources"];
    proof {
        assert(r.deep_view() =~= spec_resource_data_keys());
    }
    r
}

/// A directory data object decodes: known fields only, and each collection
/// decodes element by element.
pub open spec fn spec_resource_data_ok(v: JsonValue) -> bool {
    &&& v matches JsonValue::Obj(fs)
    &&& spec_keys_known(fs@, spec_resource_data_keys())
    &&& spec_course_list_field_ok(fs@, "courses"@)
    &&& spec_student_list_field_ok(fs@, "students"@)
    &&& spec_teacher_list_field_ok(fs@, "teachers"@)
    &&& spec_class_record_list_field_ok(fs@, "classes"@)
    &&& spec_room_list_field_ok(fs@, "rooms"@)
    &&& spec_resource_list_field_ok(fs@, "resources"@)
}

/// `d` holds exactly the decoded collections of the object.
pub open spec fn spec_resource_data_matches(d: ResourceData, v: JsonValue) -> bool {
    &&& v matches JsonValue::Obj(fs)
    &&& spec_course_list_field_matches(d.courses@, fs@, "courses"@)
    &&& spec_student_list_field_matches(d.students@, fs@, "students"@)
    &&& spec_teacher_list_field_matches(d.teachers@, fs@, "teachers"@)
    &&& spec_class_record_list_field_matches(d.classes@, fs@, "classes"@)
    &&& spec_room_list_field_matches(d.rooms@, fs@, "rooms"@)
    &&& spec_resource_list_field_matches(d.resources@, fs@, "resources"@)
}

/// Decodes the directory data object, strictly.
pub fn decode_resource_data(v: &JsonValue) -> (r: Result<ResourceData, Error>)
    ensures
        r is Ok <==> spec_resource_data_ok(*v),
        r matches Ok(d) ==> spec_resource_data_matches(d, *v),
        r matches Err(e) ==> e == Error::DecodeError,
{
    let fields = match v {
        JsonValue::Obj(fs) => fs,
        _ => {
            return Err(Error::DecodeError);
        },
    };
    let keys = resource_data_keys();
    let unk = crate::json::unknown_keys(fields, &keys);
    if unk.len() > 0 {
        return Err(Error::DecodeError);
    }
    let courses = decode_course_list(req_field(fields, "courses")?)?;
    let students = decode_student_list(req_field(fields, "students")?)?;
    let teachers = decode_teacher_list(req_field(fields, "teachers")?)?;
    let classes = decode_class_record_list(req_field(fields, "classes")?)?;
    let rooms = decode_room_list(req_field(fields, "rooms")?)?;
    let resources = decode_resource_list(req_field(fields, "resources")?)?;
    Ok(ResourceData { courses, students, teachers, classes, rooms, resources })
}

/// The decoded resource directory: a status code and the collections.
#[derive(Debug)]
pub struct Resources {
    pub status: u8,
    pub data: ResourceData,
}

/// The field names the directory payload may carry.
pub open spec fn spec_resources_keys() -> Seq<Seq<char>> {
    seq!["status"@, "data"@]
}

fn resources_keys() -> (r: Vec<&'static str>)
    ensures
        r.deep_view() == spec_resources_keys(),
{
    let r = vec!["status", "data"];
    proof {
        assert(r.deep_view() =~= spec_resources_keys());
    }
    r
}

/// A directory payload decodes: known fields only, a native status code
/// and a data object.
pub open spec fn spec_resources_ok(v: JsonValue) -> bool {
    &&& v matches JsonValue::Obj(fs)
    &&& spec_keys_known(fs@, spec_resources_keys())
    &&& spec_nat_field(fs@, "status"@, u8::MAX as int) is Some
    &&& match spec_lookup(fs@, "data"@) {
        Some(d) => spec_resource_data_ok(d),
        None => false,
    }
}

/// `rs` holds exactly the decoded payload.
pub open spec fn spec_resources_matches(rs: Resources, v: JsonValue) -> bool {
    &&& v matches JsonValue::Obj(fs)
    &&& spec_nat_field(fs@, "status"@, u8::MAX as int) == Some(rs.status as int)
    &&& match spec_lookup(fs@, "data"@) {
        Some(d) => spec_resource_data_matches(rs.data, d),
        None => false,
    }
}

/// Decodes one resource directory payload, strictly: either every record
/// of every collection decodes, or the whole decode fails with the first
/// error and no partial directory is returned.
pub fn decode_resources(v: &JsonValue) -> (r: Result<Resources, Error>)
    ensures
        r is Ok <==> spec_resources_ok(*v),
        r matches Ok(rs) ==> spec_resources_matches(rs, *v),
        r matches Err(e) ==> e == Error::DecodeError,
{
    let fields = match v {
        JsonValue::Obj(fs) => fs,
        _ => {
            return Err(Error::DecodeError);
        },
    };
    let keys = resources_keys();
    let unk = crate::json::unknown_keys(fields, &keys);
    if unk.len() > 0 {
        return Err(Error::DecodeError);
    }
    let status = get_nat_field(fields, "status", u8::MAX as u64)?;
    let data = decode_resource_data(req_field(fields, "data")?)?;
    Ok(Resources { status: status as u8, data })
}

/// Decodes a resource directory payload while tolerating unknown fields at
/// its top level: the known part decodes as usual, and every unrecognized
/// field name is captured so that upstream schema drift can be detected
/// without failing the decode. The records themselves stay strict.
pub fn decode_resources_lenient(v: &JsonValue) -> (r: Result<(Resources, Vec<String>), Error>)
    ensures
        r is Ok <==> (*v matches JsonValue::Obj(fs) && spec_nat_field(fs@, "status"@, u8::MAX as int) is Some
            && match spec_lookup(fs@, "data"@) {
            Some(d) => spec_resource_data_ok(d),
            None => false,
        }),
        match r {
            Ok((rs, unknown)) => {
                &&& *v matches JsonValue::Obj(fs)
                &&& unknown.deep_view() == crate::json::spec_unknown_keys(
                    fs@,
                    spec_resources_keys(),
                )
                &&& spec_nat_field(fs@, "status"@, u8::MAX as int) == Some(rs.status as int)
                &&& match spec_lookup(fs@, "data"@) {
                    Some(d) => spec_resource_data_matches(rs.data, d),
                    None => false,
                }
            },
            Err(e) => e == Error::DecodeError,
        },
{
    let fields = match v {
        JsonValue::Obj(fs) => fs,
        _ => {
            return Err(Error::DecodeError);
        },
    };
    let keys = resources_keys();
    let unknown = crate::json::unknown_keys(fields, &keys);
    let status = get_nat_field(fields, "status", u8::MAX as u64)?;
    let data = decode_resource_data(req_field(fields, "data")?)?;
    Ok((Resources { status: status as u8, data }, unknown))
}

/// The identifier of the first student whose canonical name equals `name`.
pub open spec fn spec_student_lookup(students: Seq<Student>, name: Seq<char>) -> Option<u32>
    decreases students.len(),
{
    if students.len() == 0 {
        None
    } else if students[0].name.string@ == name {
        Some(students[0].id)
    } else {
        spec_student_lookup(students.drop_first(), name)
    }
}

impl Resources {
    /// Looks a student up by canonical name; name lookup returns the first
    /// matching identifier, or nothing.
    #[verifier::loop_isolation(false)]
    pub fn get_student_id(&self, student_name: &Name) -> (r: Option<u32>)
        ensures
            r == spec_student_lookup(self.data.students@, student_name.string@),
    {
        let students = &self.data.students;
        let n = students.len();
        proof {
            assert(students@.subrange(0, n as int) =~= students@);
        }
        let mut i: usize = 0;
        while i < n
            invariant
                i <= n,
                n == students@.len(),
                spec_student_lookup(students@, student_name.string@) == spec_student_lookup(
                    students@.subrange(i as int, n as int),
                    student_name.string@,
                ),
            decreases n - i,
        {
            let ghost suffix = students@.subrange(i as int, n as int);
            proof {
                assert(suffix[0] == students@[i as int]);
                assert(suffix.drop_first() =~= students@.subrange(i + 1, n as int));
            }
            if crate::strutil::str_eq(students[i].name.string.as_str(), student_name.string.as_str()) {
                proof {
                    assert(spec_student_lookup(suffix, student_name.string@) == Some(
                        students@[i as int].id,
                    ));
                }
                return Some(students[i].id);
            }
            i = i + 1;
        }
        proof {
            assert(students@.subrange(n as int, n as int).len() == 0);
        }
        None
    }

    /// Looks a student up by canonical name, reporting a missing entry as
    /// the distinct lookup failure.
    pub fn lookup_student_id(&self, student_name: &Name) -> (r: Result<u32, Error>)
        ensures
            match r {
                Ok(id) => spec_student_lookup(self.data.students@, student_name.string@) == Some(
                    id,
                ),
                Err(e) => spec_student_lookup(self.data.students@, student_name.string@) is None
                    && e == Error::LookupNotFound,
            },
    {
        match self.get_student_id(student_name) {
            Some(id) => Ok(id),
            None => Err(Error::LookupNotFound),
        }
    }
}

} // verus!
