//! The timetable: one student's lessons over a date window, decoded from
//! one JSON payload, and the computation of the window itself. The two
//! supported window strategies are a window centered on today and the
//! current Monday-to-Sunday week.

use vstd::prelude::*;

use crate::decode::get_bool_field;
use crate::decode::get_date_field;
use crate::decode::get_epoch_field;
use crate::decode::get_nat_field;
use crate::decode::get_nat_list_field;
use crate::decode::get_number_list_field;
use crate::decode::get_opt_number_field;
use crate::decode::get_opt_string_field;
use crate::decode::get_string_field;
use crate::decode::get_string_array_field;
use crate::decode::get_string_list_field;
use crate::decode::get_native_bool_field;
use crate::decode::get_opt_string_array_field;
use crate::decode::check_absent_or_null_field;
use crate::decode::check_empty_array_field;
use crate::decode::get_time_field;
use crate::decode::narrow_u32;
use crate::decode::narrow_u16;
use crate::decode::narrow_u8;
use crate::decode::opt_str_view;
use crate::decode::opt_u32_view;
use crate::decode::opt_u8_view;
use crate::decode::req_field;
use crate::decode::spec_bool_field;
use crate::decode::spec_date_field;
use crate::decode::spec_epoch_field;
use crate::decode::spec_nat_field;
use crate::decode::spec_nat_list_field;
use crate::decode::spec_number_list_field;
use crate::decode::spec_opt_number_field;
use crate::decode::spec_opt_string_field;
use crate::decode::spec_string_field;
use crate::decode::spec_string_list_field;
use crate::decode::spec_native_bool_field;
use crate::decode::spec_empty_array_field;
use crate::decode::spec_absent_or_null_field;
use crate::decode::spec_opt_string_array_field;
use crate::decode::spec_string_array_field;
use crate::decode::opt_vec_str_view;
use crate::decode::spec_time_field;
use crate::decode::DateYmd;
use crate::decode::TimeHms;
use crate::json::spec_keys_known;
use crate::json::spec_lookup;
use crate::json::JsonValue;
use crate::resources::decode_student_list;
use crate::resources::spec_student_list_matches;
use crate::resources::spec_student_list_ok;
use crate::resources::Student;
use crate::Error;

verus! {

/// The two supported date-window strategies: three days either side of
/// today, or the current Monday-to-Sunday week.
#[derive(Clone, Copy, Debug, PartialEq, Eq, Structural)]
pub enum TimeTableLayout {
    Centered,
    Week,
}

/// The closed set of entry classifications a lesson may carry.
#[derive(Clone, Copy, Debug, PartialEq, Eq, Structural)]
pub enum TimeTableEntryType {
    Lesson,
    RoomChanged,
    TeacherChanged,
    CanceledLesson,
    BlockSubstitution,
    InstrumentalDefinitive,
}

/// The wire names of the entry classifications.
pub open spec fn spec_entry_type_of(s: Seq<char>) -> Option<TimeTableEntryType> {
    if s == "lesson"@ {
        Some(TimeTableEntryType::Lesson)
    } else if s == "room changed"@ {
        Some(TimeTableEntryType::RoomChanged)
    } else if s == "teacher changed"@ {
        Some(TimeTableEntryType::TeacherChanged)
    } else if s == "canceled lesson"@ {
        Some(TimeTableEntryType::CanceledLesson)
    } else if s == "block substitution"@ {
        Some(TimeTableEntryType::BlockSubstitution)
    } else if s == "instrumental definitive"@ {
        Some(TimeTableEntryType::InstrumentalDefinitive)
    } else {
        None
    }
}

/// Decodes an entry classification from its wire name.
pub fn entry_type_from_str(s: &str) -> (r: Result<TimeTableEntryType, Error>)
    ensures
        match r {
            Ok(t) => spec_entry_type_of(s@) == Some(t),
            Err(e) => spec_entry_type_of(s@) is None && e == Error::DecodeError,
        },
{
    if crate::strutil::str_eq(s, "lesson") {
        Ok(TimeTableEntryType::Lesson)
    } else if crate::strutil::str_eq(s, "room changed") {
        Ok(TimeTableEntryType::RoomChanged)
    } else if crate::strutil::str_eq(s, "teacher changed") {
        Ok(TimeTableEntryType::TeacherChanged)
    } else if crate::strutil::str_eq(s, "canceled lesson") {
        Ok(TimeTableEntryType::CanceledLesson)
    } else if crate::strutil::str_eq(s, "block substitution") {
        Ok(TimeTableEntryType::BlockSubstitution)
    } else if crate::strutil::str_eq(s, "instrumental definitive") {
        Ok(TimeTableEntryType::InstrumentalDefinitive)
    } else {
        Err(Error::DecodeError)
    }
}

/// The entry classification field, read from its long wire name.
pub open spec fn spec_entry_type_field(fields: Seq<(String, JsonValue)>, key: Seq<char>) -> Option<
    TimeTableEntryType,
> {
    match spec_lookup(fields, key) {
        Some(f) => match f {
            JsonValue::Str(s) => spec_entry_type_of(s@),
            _ => None,
        },
        None => None,
    }
}

fn get_entry_type_field(fields: &Vec<(String, JsonValue)>, key: &str) -> (r: Result<
    TimeTableEntryType,
    Error,
>)
    ensures
        match r {
            Ok(t) => spec_entry_type_field(fields@, key@) == Some(t),
            Err(e) => spec_entry_type_field(fields@, key@) is None && e == Error::DecodeError,
        },
{
    let f = req_field(fields, key)?;
    match f {
        JsonValue::Str(s) => entry_type_from_str(s.as_str()),
        _ => Err(Error::DecodeError),
    }
}

/// One lesson of the timetable: the full record the server sends. Beyond
/// the identifiers, instants and classification, the record carries the
/// denormalized labels of the related teacher, class, room and student
/// entities; a block lesson may span several identifiers of each kind.
/// Three collections (`connectedTeacherId`, `connectedTeacherFullName`,
/// `studentId`, `resourceId`) are always sent empty, and `resource` is
/// always `null`; the decoder checks that shape and keeps no field for
/// them.
#[derive(Debug)]
pub struct Lesson {
    pub id: u32,
    pub timetable_element_id: u32,
    pub holiday_id: u8,
    pub block_id: Vec<u32>,
    pub block_teacher_id: Vec<u32>,
    pub block_class_id: Vec<u16>,
    pub block_room_id: Vec<u8>,
    pub mod_id: u32,
    pub period_id: u8,
    pub start: i64,
    pub end: i64,
    pub lesson_date: DateYmd,
    pub lesson_start: TimeHms,
    pub lesson_end: TimeHms,
    pub exam_modification: u8,
    pub lesson_duration: TimeHms,
    pub nbr_of_modified_lessons: Option<u8>,
    pub connected_id: Option<u32>,
    pub is_all_day: bool,
    pub timetable_entry_type: TimeTableEntryType,
    pub message_id: u32,
    pub message: Option<String>,
    pub output: Option<String>,
    pub title: String,
    pub half_class_lesson: Option<String>,
    pub course_id: u32,
    pub course_name: Option<String>,
    pub course: Option<String>,
    pub course_long: String,
    pub is_exam_lesson: bool,
    pub is_checked_lesson: bool,
    pub lesson_absence_count: u8,
    pub subject_id: u16,
    pub subject_name: Option<String>,
    pub timegrid_id: u8,
    pub class_id: Vec<u32>,
    pub class_name: Vec<String>,
    pub profile_id: Vec<u8>,
    pub team_id: String,
    pub teacher_id: Vec<u32>,
    pub teacher_acronym: String,
    pub teacher_full_name: Vec<String>,
    pub teacher_lastname: String,
    pub teacher_firstname: String,
    pub student: Vec<Student>,
    pub student_full_name: String,
    pub student_lastname: String,
    pub student_firstname: String,
    pub room_id: Vec<u8>,
    pub room_name: String,
    pub location_description: String,
    pub timetable_class_book_id: u16,
    pub has_homework: bool,
    pub has_homework_files: bool,
    pub has_exam: bool,
    pub has_exam_files: bool,
    pub privileges: Option<Vec<String>>,
    pub reserved_resources: u8,
    pub total_stock: u8,
    pub school: String,
    pub related_id: Vec<String>,
}

/// The field names a lesson record may carry.
pub open spec fn spec_lesson_keys() -> Seq<Seq<char>> {
    seq![
        "id"@,
        "timetableElementId"@,
        "holidayId"@,
        "blockId"@,
        "blockTeacherId"@,
        "blockClassId"@,
        "blockRoomId"@,
        "modId"@,
        "periodId"@,
        "start"@,
        "end"@,
        "lessonDate"@,
        "lessonStart"@,
        "lessonEnd"@,
        "examModification"@,
        "lessonDuration"@,
        "nbrOfModifiedLessons"@,
        "connectedId"@,
        "isAllDay"@,
        "timetableEntryTypeLong"@,
        "messageId"@,
        "message"@,
        "output"@,
        "title"@,
        "halfClassLesson"@,
        "courseId"@,
        "courseName"@,
        "course"@,
        "courseLong"@,
        "isExamLesson"@,
        "isCheckedLesson"@,
        "lessonAbsenceCount"@,
        "subjectId"@,
        "subjectName"@,
        "timegridId"@,
        "classId"@,
        "className"@,
        "profileId"@,
        "teamId"@,
        "teacherId"@,
        "teacherAcronym"@,
        "teacherFullName"@,
        "teacherLastname"@,
        "teacherFirstname"@,
        "connectedTeacherId"@,
        "connectedTeacherFullName"@,
        "student"@,
        "studentId"@,
        "studentFullName"@,
        "studentLastname"@,
        "studentFirstname"@,
        "roomId"@,
        "roomName"@,
        "locationDescription"@,
        "resourceId"@,
        "timetableClassBookId"@,
        "hasHomework"@,
        "hasHomeworkFiles"@,
        "hasExam"@,
        "hasExamFiles"@,
        "privileges"@,
        "resource"@,
        "reservedResources"@,
        "totalStock"@,
        "school"@,
        "relatedId"@,
    ]
}

fn lesson_keys() -> (r: Vec<&'static str>)
    ensures
        r.deep_view() == spec_lesson_keys(),
{
    let r = vec![
        "id",
        "timetableElementId",
        "holidayId",
        "blockId",
        "blockTeacherId",
        "blockClassId",
        "blockRoomId",
        "modId",
        "periodId",
        "start",
        "end",
        "lessonDate",
        "lessonStart",
        "lessonEnd",
        "examModification",
        "lessonDuration",
        "nbrOfModifiedLessons",
        "connectedId",
        "isAllDay",
        "timetableEntryTypeLong",
        "messageId",
        "message",
        "output",
        "title",
        "halfClassLesson",
        "courseId",
        "courseName",
        "course",
        "courseLong",
        "isExamLesson",
        "isCheckedLesson",
        "lessonAbsenceCount",
        "subjectId",
        "subjectName",
        "timegridId",
        "classId",
        "className",
        "profileId",
        "teamId",
        "teacherId",
        "teacherAcronym",
        "teacherFullName",
        "teacherLastname",
        "teacherFirstname",
        "connectedTeacherId",
        "connectedTeacherFullName",
        "student",
        "studentId",
        "studentFullName",
        "studentLastname",
        "studentFirstname",
        "roomId",
        "roomName",
        "locationDescription",
        "resourceId",
        "timetableClassBookId",
        "hasHomework",
        "hasHomeworkFiles",
        "hasExam",
        "hasExamFiles",
        "privileges",
        "resource",
        "reservedResources",
        "totalStock",
        "school",
        "relatedId",
    ];
    proof {
        assert(r.deep_view() =~= spec_lesson_keys());
    }
    r
}

/// A lesson object decodes: known fields only, and every field reads under
/// its rule.
pub open spec fn spec_lesson_ok(v: JsonValue) -> bool {
    &&& v matches JsonValue::Obj(fs)
    &&& spec_keys_known(fs@, spec_lesson_keys())
    &&& spec_nat_field(fs@, "id"@, u32::MAX as int) is Some
    &&& spec_nat_field(fs@, "timetableElementId"@, u32::MAX as int) is Some
    &&& spec_nat_field(fs@, "holidayId"@, u8::MAX as int) is Some
    &&& spec_nat_list_field(fs@, "blockId"@, u32::MAX as int) is Some
    &&& spec_nat_list_field(fs@, "blockTeacherId"@, u32::MAX as int) is Some
    &&& spec_nat_list_field(fs@, "blockClassId"@, u16::MAX as int) is Some
    &&& spec_nat_list_field(fs@, "blockRoomId"@, u8::MAX as int) is Some
    &&& spec_nat_field(fs@, "modId"@, u32::MAX as int) is Some
    &&& spec_nat_field(fs@, "periodId"@, u8::MAX as int) is Some
    &&& spec_epoch_field(fs@, "start"@) is Some
    &&& spec_epoch_field(fs@, "end"@) is Some
    &&& spec_date_field(fs@, "lessonDate"@) is Some
    &&& spec_time_field(fs@, "lessonStart"@) is Some
    &&& spec_time_field(fs@, "lessonEnd"@) is Some
    &&& spec_nat_field(fs@, "examModification"@, u8::MAX as int) is Some
    &&& spec_time_field(fs@, "lessonDuration"@) is Some
    &&& spec_opt_number_field(fs@, "nbrOfModifiedLessons"@, u8::MAX as int) is Some
    &&& spec_opt_number_field(fs@, "connectedId"@, u32::MAX as int) is Some
    &&& spec_bool_field(fs@, "isAllDay"@) is Some
    &&& spec_entry_type_field(fs@, "timetableEntryTypeLong"@) is Some
    &&& spec_nat_field(fs@, "messageId"@, u32::MAX as int) is Some
    &&& spec_opt_string_field(fs@, "message"@) is Some
    &&& spec_opt_string_field(fs@, "output"@) is Some
    &&& spec_string_field(fs@, "title"@) is Some
    &&& spec_opt_string_field(fs@, "halfClassLesson"@) is Some
    &&& spec_nat_field(fs@, "courseId"@, u32::MAX as int) is Some
    &&& spec_opt_string_field(fs@, "courseName"@) is Some
    &&& spec_opt_string_field(fs@, "course"@) is Some
    &&& spec_string_field(fs@, "courseLong"@) is Some
    &&& spec_native_bool_field(fs@, "isExamLesson"@) is Some
    &&& spec_native_bool_field(fs@, "isCheckedLesson"@) is Some
    &&& spec_nat_field(fs@, "lessonAbsenceCount"@, u8::MAX as int) is Some
    &&& spec_nat_field(fs@, "subjectId"@, u16::MAX as int) is Some
    &&& spec_opt_string_field(fs@, "subjectName"@) is Some
    &&& spec_nat_field(fs@, "timegridId"@, u8::MAX as int) is Some
    &&& spec_nat_list_field(fs@, "classId"@, u32::MAX as int) is Some
    &&& spec_string_list_field(fs@, "className"@) is Some
    &&& spec_number_list_field(fs@, "profileId"@, u8::MAX as int) is Some
    &&& spec_string_field(fs@, "teamId"@) is Some
    &&& spec_nat_list_field(fs@, "teacherId"@, u32::MAX as int) is Some
    &&& spec_string_field(fs@, "teacherAcronym"@) is Some
    &&& spec_string_array_field(fs@, "teacherFullName"@) is Some
    &&& spec_string_field(fs@, "teacherLastname"@) is Some
    &&& spec_string_field(fs@, "teacherFirstname"@) is Some
    &&& spec_empty_array_field(fs@, "connectedTeacherId"@)
    &&& spec_empty_array_field(fs@, "connectedTeacherFullName"@)
    &&& match spec_lookup(fs@, "student"@) {
        Some(f) => f matches JsonValue::Arr(items) && spec_student_list_ok(items@),
        None => false,
    }
    &&& spec_empty_array_field(fs@, "studentId"@)
    &&& spec_string_field(fs@, "studentFullName"@) is Some
    &&& spec_string_field(fs@, "studentLastname"@) is Some
    &&& spec_string_field(fs@, "studentFirstname"@) is Some
    &&& spec_nat_list_field(fs@, "roomId"@, u8::MAX as int) is Some
    &&& spec_string_field(fs@, "roomName"@) is Some
    &&& spec_string_field(fs@, "locationDescription"@) is Some
    &&& spec_empty_array_field(fs@, "resourceId"@)
    &&& spec_nat_field(fs@, "timetableClassBookId"@, u16::MAX as int) is Some
    &&& spec_native_bool_field(fs@, "hasHomework"@) is Some
    &&& spec_native_bool_field(fs@, "hasHomeworkFiles"@) is Some
    &&& spec_native_bool_field(fs@, "hasExam"@) is Some
    &&& spec_native_bool_field(fs@, "hasExamFiles"@) is Some
    &&& spec_opt_string_array_field(fs@, "privileges"@) is Some
    &&& spec_absent_or_null_field(fs@, "resource"@)
    &&& spec_nat_field(fs@, "reservedResources"@, u8::MAX as int) is Some
    &&& spec_nat_field(fs@, "totalStock"@, u8::MAX as int) is Some
    &&& spec_string_field(fs@, "school"@) is Some
    &&& spec_string_array_field(fs@, "relatedId"@) is Some
}

/// `l` holds exactly what the lesson object says.
pub open spec fn spec_lesson_matches(l: Lesson, v: JsonValue) -> bool {
    &&& v matches JsonValue::Obj(fs)
    &&& spec_nat_field(fs@, "id"@, u32::MAX as int) == Some(l.id as int)
    &&& spec_nat_field(fs@, "timetableElementId"@, u32::MAX as int) == Some(l.timetable_element_id as int)
    &&& spec_nat_field(fs@, "holidayId"@, u8::MAX as int) == Some(l.holiday_id as int)
    &&& spec_nat_list_field(fs@, "blockId"@, u32::MAX as int) == Some(l.block_id@.map_values(|x: u32| x as int))
    &&& spec_nat_list_field(fs@, "blockTeacherId"@, u32::MAX as int) == Some(l.block_teacher_id@.map_values(|x: u32| x as int))
    &&& spec_nat_list_field(fs@, "blockClassId"@, u16::MAX as int) == Some(l.block_class_id@.map_values(|x: u16| x as int))
    &&& spec_nat_list_field(fs@, "blockRoomId"@, u8::MAX as int) == Some(l.block_room_id@.map_values(|x: u8| x as int))
    &&& spec_nat_field(fs@, "modId"@, u32::MAX as int) == Some(l.mod_id as int)
    &&& spec_nat_field(fs@, "periodId"@, u8::MAX as int) == Some(l.period_id as int)
    &&& spec_epoch_field(fs@, "start"@) == Some(l.start as int)
    &&& spec_epoch_field(fs@, "end"@) == Some(l.end as int)
    &&& spec_date_field(fs@, "lessonDate"@) == Some((l.lesson_date.year as int, l.lesson_date.month as int, l.lesson_date.day as int))
    &&& spec_time_field(fs@, "lessonStart"@) == Some((l.lesson_start.hour as int, l.lesson_start.minute as int, l.lesson_start.second as int))
    &&& spec_time_field(fs@, "lessonEnd"@) == Some((l.lesson_end.hour as int, l.lesson_end.minute as int, l.lesson_end.second as int))
    &&& spec_nat_field(fs@, "examModification"@, u8::MAX as int) == Some(l.exam_modification as int)
    &&& spec_time_field(fs@, "lessonDuration"@) == Some((l.lesson_duration.hour as int, l.lesson_duration.minute as int, l.lesson_duration.second as int))
    &&& spec_opt_number_field(fs@, "nbrOfModifiedLessons"@, u8::MAX as int) == Some(opt_u8_view(l.nbr_of_modified_lessons))
    &&& spec_opt_number_field(fs@, "connectedId"@, u32::MAX as int) == Some(opt_u32_view(l.connected_id))
    &&& spec_bool_field(fs@, "isAllDay"@) == Some(l.is_all_day)
    &&& spec_entry_type_field(fs@, "timetableEntryTypeLong"@) == Some(l.timetable_entry_type)
    &&& spec_nat_field(fs@, "messageId"@, u32::MAX as int) == Some(l.message_id as int)
    &&& spec_opt_string_field(fs@, "message"@) == Some(opt_str_view(l.message))
    &&& spec_opt_string_field(fs@, "output"@) == Some(opt_str_view(l.output))
    &&& spec_string_field(fs@, "title"@) == Some(l.title@)
    &&& spec_opt_string_field(fs@, "halfClassLesson"@) == Some(opt_str_view(l.half_class_lesson))
    &&& spec_nat_field(fs@, "courseId"@, u32::MAX as int) == Some(l.course_id as int)
    &&& spec_opt_string_field(fs@, "courseName"@) == Some(opt_str_view(l.course_name))
    &&& spec_opt_string_field(fs@, "course"@) == Some(opt_str_view(l.course))
    &&& spec_string_field(fs@, "courseLong"@) == Some(l.course_long@)
    &&& spec_native_bool_field(fs@, "isExamLesson"@) == Some(l.is_exam_lesson)
    &&& spec_native_bool_field(fs@, "isCheckedLesson"@) == Some(l.is_checked_lesson)
    &&& spec_nat_field(fs@, "lessonAbsenceCount"@, u8::MAX as int) == Some(l.lesson_absence_count as int)
    &&& spec_nat_field(fs@, "subjectId"@, u16::MAX as int) == Some(l.subject_id as int)
    &&& spec_opt_string_field(fs@, "subjectName"@) == Some(opt_str_view(l.subject_name))
    &&& spec_nat_field(fs@, "timegridId"@, u8::MAX as int) == Some(l.timegrid_id as int)
    &&& spec_nat_list_field(fs@, "classId"@, u32::MAX as int) == Some(l.class_id@.map_values(|x: u32| x as int))
    &&& spec_string_list_field(fs@, "className"@) == Some(l.class_name.deep_view())
    &&& spec_number_list_field(fs@, "profileId"@, u8::MAX as int) == Some(l.profile_id@.map_values(|x: u8| x as int))
    &&& spec_string_field(fs@, "teamId"@) == Some(l.team_id@)
    &&& spec_nat_list_field(fs@, "teacherId"@, u32::MAX as int) == Some(l.teacher_id@.map_values(|x: u32| x as int))
    &&& spec_string_field(fs@, "teacherAcronym"@) == Some(l.teacher_acronym@)
    &&& spec_string_array_field(fs@, "teacherFullName"@) == Some(l.teacher_full_name.deep_view())
    &&& spec_string_field(fs@, "teacherLastname"@) == Some(l.teacher_lastname@)
    &&& spec_string_field(fs@, "teacherFirstname"@) == Some(l.teacher_firstname@)
    &&& match spec_lookup(fs@, "student"@) {
        Some(f) => spec_student_list_matches(l.student@, f),
        None => false,
    }
    &&& spec_string_field(fs@, "studentFullName"@) == Some(l.student_full_name@)
    &&& spec_string_field(fs@, "studentLastname"@) == Some(l.student_lastname@)
    &&& spec_string_field(fs@, "studentFirstname"@) == Some(l.student_firstname@)
    &&& spec_nat_list_field(fs@, "roomId"@, u8::MAX as int) == Some(l.room_id@.map_values(|x: u8| x as int))
    &&& spec_string_field(fs@, "roomName"@) == Some(l.room_name@)
    &&& spec_string_field(fs@, "locationDescription"@) == Some(l.location_description@)
    &&& spec_nat_field(fs@, "timetableClassBookId"@, u16::MAX as int) == Some(l.timetable_class_book_id as int)
    &&& spec_native_bool_field(fs@, "hasHomework"@) == Some(l.has_homework)
    &&& spec_native_bool_field(fs@, "hasHomeworkFiles"@) == Some(l.has_homework_files)
    &&& spec_native_bool_field(fs@, "hasExam"@) == Some(l.has_exam)
    &&& spec_native_bool_field(fs@, "hasExamFiles"@) == Some(l.has_exam_files)
    &&& spec_opt_string_array_field(fs@, "privileges"@) == Some(opt_vec_str_view(l.privileges))
    &&& spec_nat_field(fs@, "reservedResources"@, u8::MAX as int) == Some(l.reserved_resources as int)
    &&& spec_nat_field(fs@, "totalStock"@, u8::MAX as int) == Some(l.total_stock as int)
    &&& spec_string_field(fs@, "school"@) == Some(l.school@)
    &&& spec_string_array_field(fs@, "relatedId"@) == Some(l.related_id.deep_view())
}

/// Decodes one lesson record, strictly.
#[verifier::rlimit(60)]
pub fn decode_lesson(v: &JsonValue) -> (r: Result<Lesson, Error>)
    ensures
        r is Ok <==> spec_lesson_ok(*v),
        r matches Ok(l) ==> spec_lesson_matches(l, *v),
        r matches Err(e) ==> e == Error::DecodeError,
{
    let fields = match v {
        JsonValue::Obj(fs) => fs,
        _ => {
            return Err(Error::DecodeError);
        },
    };
    let keys = lesson_keys();
    let unk = crate::json::unknown_keys(fields, &keys);
    if unk.len() > 0 {
        return Err(Error::DecodeError);
    }
    let id = get_nat_field(fields, "id", u32::MAX as u64)?;
    let timetable_element_id = get_nat_field(fields, "timetableElementId", u32::MAX as u64)?;
    let holiday_id = get_nat_field(fields, "holidayId", u8::MAX as u64)?;
    let block_id_raw = get_nat_list_field(fields, "blockId", u32::MAX as u64)?;
    let block_teacher_id_raw = get_nat_list_field(fields, "blockTeacherId", u32::MAX as u64)?;
    let block_class_id_raw = get_nat_list_field(fields, "blockClassId", u16::MAX as u64)?;
    let block_room_id_raw = get_nat_list_field(fields, "blockRoomId", u8::MAX as u64)?;
    let mod_id = get_nat_field(fields, "modId", u32::MAX as u64)?;
    let period_id = get_nat_field(fields, "periodId", u8::MAX as u64)?;
    let start = get_epoch_field(fields, "start")?;
    let end = get_epoch_field(fields, "end")?;
    let lesson_date = get_date_field(fields, "lessonDate")?;
    let lesson_start = get_time_field(fields, "lessonStart")?;
    let lesson_end = get_time_field(fields, "lessonEnd")?;
    let exam_modification = get_nat_field(fields, "examModification", u8::MAX as u64)?;
    let lesson_duration = get_time_field(fields, "lessonDuration")?;
    let nbr_of_modified_lessons_raw = get_opt_number_field(fields, "nbrOfModifiedLessons", u8::MAX as u64)?;
    let connected_id_raw = get_opt_number_field(fields, "connectedId", u32::MAX as u64)?;
    let is_all_day = get_bool_field(fields, "isAllDay")?;
    let timetable_entry_type = get_entry_type_field(fields, "timetableEntryTypeLong")?;
    let message_id = get_nat_field(fields, "messageId", u32::MAX as u64)?;
    let message = get_opt_string_field(fields, "message")?;
    let output = get_opt_string_field(fields, "output")?;
    let title = get_string_field(fields, "title")?;
    let half_class_lesson = get_opt_string_field(fields, "halfClassLesson")?;
    let course_id = get_nat_field(fields, "courseId", u32::MAX as u64)?;
    let course_name = get_opt_string_field(fields, "courseName")?;
    let course = get_opt_string_field(fields, "course")?;
    let course_long = get_string_field(fields, "courseLong")?;
    let is_exam_lesson = get_native_bool_field(fields, "isExamLesson")?;
    let is_checked_lesson = get_native_bool_field(fields, "isCheckedLesson")?;
    let lesson_absence_count = get_nat_field(fields, "lessonAbsenceCount", u8::MAX as u64)?;
    let subject_id = get_nat_field(fields, "subjectId", u16::MAX as u64)?;
    let subject_name = get_opt_string_field(fields, "subjectName")?;
    let timegrid_id = get_nat_field(fields, "timegridId", u8::MAX as u64)?;
    let class_id_raw = get_nat_list_field(fields, "classId", u32::MAX as u64)?;
    let class_name = get_string_list_field(fields, "className")?;
    let profile_id_raw = get_number_list_field(fields, "profileId", u8::MAX as u64)?;
    let team_id = get_string_field(fields, "teamId")?;
    let teacher_id_raw = get_nat_list_field(fields, "teacherId", u32::MAX as u64)?;
    let teacher_acronym = get_string_field(fields, "teacherAcronym")?;
    let teacher_full_name = get_string_array_field(fields, "teacherFullName")?;
    let teacher_lastname = get_string_field(fields, "teacherLastname")?;
    let teacher_firstname = get_string_field(fields, "teacherFirstname")?;
    check_empty_array_field(fields, "connectedTeacherId")?;
    check_empty_array_field(fields, "connectedTeacherFullName")?;
    let student = decode_student_list(req_field(fields, "student")?)?;
    check_empty_array_field(fields, "studentId")?;
    let student_full_name = get_string_field(fields, "studentFullName")?;
    let student_lastname = get_string_field(fields, "studentLastname")?;
    let student_firstname = get_string_field(fields, "studentFirstname")?;
    let room_id_raw = get_nat_list_field(fields, "roomId", u8::MAX as u64)?;
    let room_name = get_string_field(fields, "roomName")?;
    let location_description = get_string_field(fields, "locationDescription")?;
    check_empty_array_field(fields, "resourceId")?;
    let timetable_class_book_id = get_nat_field(fields, "timetableClassBookId", u16::MAX as u64)?;
    let has_homework = get_native_bool_field(fields, "hasHomework")?;
    let has_homework_files = get_native_bool_field(fields, "hasHomeworkFiles")?;
    let has_exam = get_native_bool_field(fields, "hasExam")?;
    let has_exam_files = get_native_bool_field(fields, "hasExamFiles")?;
    let privileges = get_opt_string_array_field(fields, "privileges")?;
    check_absent_or_null_field(fields, "resource")?;
    let reserved_resources = get_nat_field(fields, "reservedResources", u8::MAX as u64)?;
    let total_stock = get_nat_field(fields, "totalStock", u8::MAX as u64)?;
    let school = get_string_field(fields, "school")?;
    let related_id = get_string_array_field(fields, "relatedId")?;
    let block_id = narrow_u32(&block_id_raw);
    let block_teacher_id = narrow_u32(&block_teacher_id_raw);
    let block_class_id = narrow_u16(&block_class_id_raw);
    let block_room_id = narrow_u8(&block_room_id_raw);
    let nbr_of_modified_lessons = match nbr_of_modified_lessons_raw {
        Some(x) => Some(x as u8),
        None => None,
    };
    let connected_id = match connected_id_raw {
        Some(x) => Some(x as u32),
        None => None,
    };
    let class_id = narrow_u32(&class_id_raw);
    let profile_id = narrow_u8(&profile_id_raw);
    let teacher_id = narrow_u32(&teacher_id_raw);
    let room_id = narrow_u8(&room_id_raw);
    Ok(Lesson {
        id: id as u32,
        timetable_element_id: timetable_element_id as u32,
        holiday_id: holiday_id as u8,
        block_id,
        block_teacher_id,
        block_class_id,
        block_room_id,
        mod_id: mod_id as u32,
        period_id: period_id as u8,
        start,
        end,
        lesson_date,
        lesson_start,
        lesson_end,
        exam_modification: exam_modification as u8,
        lesson_duration,
        nbr_of_modified_lessons,
        connected_id,
        is_all_day,
        timetable_entry_type,
        message_id: message_id as u32,
        message,
        output,
        title,
        half_class_lesson,
        course_id: course_id as u32,
        course_name,
        course,
        course_long,
        is_exam_lesson,
        is_checked_lesson,
        lesson_absence_count: lesson_absence_count as u8,
        subject_id: subject_id as u16,
        subject_name,
        timegrid_id: timegrid_id as u8,
        class_id,
        class_name,
        profile_id,
        team_id,
        teacher_id,
        teacher_acronym,
        teacher_full_name,
        teacher_lastname,
        teacher_firstname,
        student,
        student_full_name,
        student_lastname,
        student_firstname,
        room_id,
        room_name,
        location_description,
        timetable_class_book_id: timetable_class_book_id as u16,
        has_homework,
        has_homework_files,
        has_exam,
        has_exam_files,
        privileges,
        reserved_resources: reserved_resources as u8,
        total_stock: total_stock as u8,
        school,
        related_id,
    })
}

/// The decoded timetable: the lessons in server order.
#[derive(Debug)]
pub struct TimeTable {
    pub lessons: Vec<Lesson>,
}

/// The field names a timetable payload may carry: the lesson array under
/// `lessons` or its alias `data`.
pub open spec fn spec_timetable_keys() -> Seq<Seq<char>> {
    seq!["lessons"@, "data"@]
}

fn timetable_keys() -> (r: Vec<&'static str>)
    ensures
        r.deep_view() == spec_timetable_keys(),
{
    let r = vec!["lessons", "data"];
    proof {
        assert(r.deep_view() =~= spec_timetable_keys());
    }
    r
}

/// Every element decodes as a lesson.
pub open spec fn spec_lesson_list_ok(items: Seq<JsonValue>) -> bool {
    forall|i: int| 0 <= i < items.len() ==> spec_lesson_ok(#[trigger] items[i])
}

/// `xs` holds exactly the decoded elements of the array `v`.
pub open spec fn spec_lesson_list_matches(xs: Seq<Lesson>, v: JsonValue) -> bool {
    &&& v matches JsonValue::Arr(items)
    &&& xs.len() == items@.len()
    &&& forall|i: int| 0 <= i < xs.len() ==> spec_lesson_matches(#[trigger] xs[i], items@[i])
}

/// Decodes an array of lessons, strictly.
#[verifier::loop_isolation(false)]
pub fn decode_lesson_list(v: &JsonValue) -> (r: Result<Vec<Lesson>, Error>)
    ensures
        r is Ok <==> (*v matches JsonValue::Arr(items) && spec_lesson_list_ok(items@)),
        r matches Ok(xs) ==> spec_lesson_list_matches(xs@, *v),
        r matches Err(e) ==> e == Error::DecodeError,
{
    let items = match v {
        JsonValue::Arr(items) => items,
        _ => {
            return Err(Error::DecodeError);
        },
    };
    let mut xs: Vec<Lesson> = Vec::new();
    let n = items.len();
    let mut i: usize = 0;
    while i < n
        invariant
            i <= n,
            n == items@.len(),
            xs@.len() == i,
            forall|k: int| 0 <= k < i ==> spec_lesson_ok(#[trigger] items@[k]),
            forall|k: int| 0 <= k < i ==> spec_lesson_matches(#[trigger] xs@[k], items@[k]),
        decreases n - i,
    {
        match decode_lesson(&items[i]) {
            Ok(x) => {
                xs.push(x);
            },
            Err(e) => {
                proof {
                    assert(!spec_lesson_ok(items@[i as int]));
                }
                return Err(e);
            },
        }
        i = i + 1;
    }
    Ok(xs)
}

/// The lesson array, read from `lessons` or its alias `data`.
pub open spec fn spec_timetable_lessons_field(fields: Seq<(String, JsonValue)>) -> Option<
    JsonValue,
> {
    if spec_lookup(fields, "lessons"@) is Some {
        spec_lookup(fields, "lessons"@)
    } else {
        spec_lookup(fields, "data"@)
    }
}

/// A timetable payload decodes: known fields only, and a lesson array
/// under one of its accepted names.
pub open spec fn spec_timetable_ok(v: JsonValue) -> bool {
    &&& v matches JsonValue::Obj(fs)
    &&& spec_keys_known(fs@, spec_timetable_keys())
    &&& match spec_timetable_lessons_field(fs@) {
        Some(f) => f matches JsonValue::Arr(items) && spec_lesson_list_ok(items@),
        None => false,
    }
}

/// `t` holds exactly the decoded lessons, in server order.
pub open spec fn spec_timetable_matches(t: TimeTable, v: JsonValue) -> bool {
    &&& v matches JsonValue::Obj(fs)
    &&& match spec_timetable_lessons_field(fs@) {
        Some(f) => spec_lesson_list_matches(t.lessons@, f),
        None => false,
    }
}

/// Decodes one timetable payload, strictly: either every lesson decodes,
/// or the whole decode fails and no partial timetable is returned.
pub fn decode_timetable(v: &JsonValue) -> (r: Result<TimeTable, Error>)
    ensures
        r is Ok <==> spec_timetable_ok(*v),
        r matches Ok(t) ==> spec_timetable_matches(t, *v),
        r matches Err(e) ==> e == Error::DecodeError,
{
    let fields = match v {
        JsonValue::Obj(fs) => fs,
        _ => {
            return Err(Error::DecodeError);
        },
    };
    let keys = timetable_keys();
    let unk = crate::json::unknown_keys(fields, &keys);
    if unk.len() > 0 {
        return Err(Error::DecodeError);
    }
    let f = match JsonValue::get_field(fields, "lessons") {
        Some(f) => f,
        None => req_field(fields, "data")?,
    };
    let lessons = decode_lesson_list(f)?;
    Ok(TimeTable { lessons })
}

/// Decodes a timetable payload while tolerating unknown fields: the known
/// part decodes as usual, and every unrecognized field name is captured so
/// that upstream schema drift can be detected without failing the decode.
pub fn decode_timetable_lenient(v: &JsonValue) -> (r: Result<(TimeTable, Vec<String>), Error>)
    ensures
        r is Ok <==> (*v matches JsonValue::Obj(fs) && match spec_timetable_lessons_field(fs@) {
            Some(f) => f matches JsonValue::Arr(items) && spec_lesson_list_ok(items@),
            None => false,
        }),
        match r {
            Ok((t, unknown)) => {
                &&& *v matches JsonValue::Obj(fs)
                &&& unknown.deep_view() == crate::json::spec_unknown_keys(
                    fs@,
                    spec_timetable_keys(),
                )
                &&& match spec_timetable_lessons_field(fs@) {
                    Some(f) => spec_lesson_list_matches(t.lessons@, f),
                    None => false,
                }
            },
            Err(e) => e == Error::DecodeError,
        },
{
    let fields = match v {
        JsonValue::Obj(fs) => fs,
        _ => {
            return Err(Error::DecodeError);
        },
    };
    let keys = timetable_keys();
    let unknown = crate::json::unknown_keys(fields, &keys);
    let f = match JsonValue::get_field(fields, "lessons") {
        Some(f) => f,
        None => req_field(fields, "data")?,
    };
    let lessons = decode_lesson_list(f)?;
    Ok((TimeTable { lessons }, unknown))
}

/// A payload that decodes under the strict completeness guard shows no
/// schema drift: the drift-detecting decoder's catch-all bag for the same
/// payload is empty.
pub proof fn lemma_strict_decode_no_drift(v: JsonValue)
    requires
        spec_timetable_ok(v),
    ensures
        (v matches JsonValue::Obj(fs) && crate::json::spec_unknown_keys(
            fs@,
            spec_timetable_keys(),
        ).len() == 0),
{
    let fs = v->Obj_0;
    crate::json::lemma_unknown_keys_empty(fs@, spec_timetable_keys());
}

/// The day number of a Gregorian calendar date, counted from the epoch
/// (negative before it).
pub open spec fn spec_days_from_civil(y: int, m: int, d: int) -> int {
    let yy = if m <= 2 {
        y - 1
    } else {
        y
    };
    let era = yy / 400;
    let yoe = yy % 400;
    let mp = if m > 2 {
        m - 3
    } else {
        m + 9
    };
    let doy = (153 * mp + 2) / 5 + d - 1;
    let doe = yoe * 365 + yoe / 4 - yoe / 100 + doy;
    era * 146097 + doe - 719468
}

/// A time of day in seconds.
pub open spec fn spec_hms_seconds(t: TimeHms) -> int {
    t.hour * 3600 + t.minute * 60 + t.second
}

/// The redundant local fields of a lesson agree with its instants under
/// the given UTC offset: the local date and start time name exactly the
/// start instant, and the end time is the end instant's local time of day.
/// The shifted instants must lie in the representable signed 64-bit range
/// and at or after the epoch; outside it there is no agreement.
pub open spec fn spec_lesson_times_agree(l: Lesson, offset_seconds: int) -> bool {
    let ts = l.start + offset_seconds;
    let te = l.end + offset_seconds;
    &&& ts >= 0
    &&& te >= 0
    &&& ts <= i64::MAX
    &&& te <= i64::MAX
    &&& ts == spec_days_from_civil(
        l.lesson_date.year as int,
        l.lesson_date.month as int,
        l.lesson_date.day as int,
    ) * 86400 + spec_hms_seconds(l.lesson_start)
    &&& te % 86400 == spec_hms_seconds(l.lesson_end)
}

/// The day number shifted to a non-negative base, plus one.
fn civil_days_shifted(y: u16, m: u8, d: u8) -> (r: u64)
    requires
        !(y == 0 && m <= 2),
    ensures
        r as int == spec_days_from_civil(y as int, m as int, d as int) + 719469,
{
    let yy: u64 = if m <= 2 {
        (y as u64) - 1
    } else {
        y as u64
    };
    let era: u64 = yy / 400;
    let yoe: u64 = yy % 400;
    let mp: u64 = if m > 2 {
        (m as u64) - 3
    } else {
        (m as u64) + 9
    };
    let doy_plus: u64 = (153 * mp + 2) / 5 + (d as u64);
    let doe_plus: u64 = yoe * 365 + yoe / 4 - yoe / 100 + doy_plus;
    era * 146097 + doe_plus
}

/// Checks the agreement of a lesson's redundant local fields with its
/// instants, for an explicit UTC offset in seconds (the offset is an input
/// because only the caller can know the portal's local time zone).
#[verifier::rlimit(40)]
pub fn lesson_times_agree(l: &Lesson, offset_seconds: i64) -> (r: bool)
    ensures
        r == spec_lesson_times_agree(*l, offset_seconds as int),
{
    let ghost days = spec_days_from_civil(
        l.lesson_date.year as int,
        l.lesson_date.month as int,
        l.lesson_date.day as int,
    );
    let ghost tod = spec_hms_seconds(l.lesson_start);
    let ts = match l.start.checked_add(offset_seconds) {
        Some(t) => t,
        None => {
            return false;
        },
    };
    if ts < 0 {
        return false;
    }
    let te = match l.end.checked_add(offset_seconds) {
        Some(t) => t,
        None => {
            return false;
        },
    };
    if te < 0 {
        return false;
    }
    if l.lesson_date.year == 0 && l.lesson_date.month <= 2 {
        proof {
            lemma_days_from_civil_bounds(
                l.lesson_date.year as int,
                l.lesson_date.month as int,
                l.lesson_date.day as int,
            );
            assert(days < -8000);
            assert(0 <= tod < 933856);
            assert(days * 86400 + tod < 0);
        }
        return false;
    }
    let days_shifted = civil_days_shifted(
        l.lesson_date.year,
        l.lesson_date.month,
        l.lesson_date.day,
    );
    let tod_start: u64 = (l.lesson_start.hour as u64) * 3600 + (l.lesson_start.minute as u64) * 60
        + (l.lesson_start.second as u64);
    let tod_end: u64 = (l.lesson_end.hour as u64) * 3600 + (l.lesson_end.minute as u64) * 60 + (
    l.lesson_end.second as u64);
    let start_ok = (ts as u64) + 62162121600u64 == days_shifted * 86400 + tod_start;
    let end_ok = (te as u64) % 86400 == tod_end;
    start_ok && end_ok
}

/// The day number of any representable date stays within a fixed band.
proof fn lemma_days_from_civil_bounds(y: int, m: int, d: int)
    requires
        0 <= y <= 65535,
        0 <= m <= 255,
        0 <= d <= 255,
    ensures
        spec_days_from_civil(y, m, d) <= 24000000,
        spec_days_from_civil(y, m, d) >= -1000000,
        y == 0 && m <= 2 ==> spec_days_from_civil(y, m, d) < -8000,
{
    let yy = if m <= 2 {
        y - 1
    } else {
        y
    };
    let era = yy / 400;
    let yoe = yy % 400;
    let mp = if m > 2 {
        m - 3
    } else {
        m + 9
    };
    let doy = (153 * mp + 2) / 5 + d - 1;
    let doe = yoe * 365 + yoe / 4 - yoe / 100 + doy;
    assert(-1 <= yy <= 65535);
    assert(-1 <= era <= 163);
    assert(0 <= yoe <= 399);
    assert(0 <= yoe / 4 <= 99);
    assert(0 <= yoe / 100 <= 3);
    assert(0 <= mp <= 264);
    assert(0 <= (153 * mp + 2) / 5 <= 8080);
    assert(-1 <= doy <= 8334);
    assert(-4 <= doe <= 145734 + 8334);
    if y == 0 && m <= 2 {
        assert(yy == -1);
        assert(era == -1 && yoe == 399);
    }
}

/// One day in milliseconds.
pub open spec fn spec_day_ms() -> int {
    86400000
}

/// Signed 64-bit saturation.
pub open spec fn spec_sat_i64(x: int) -> int {
    if x > i64::MAX as int {
        i64::MAX as int
    } else if x < i64::MIN as int {
        i64::MIN as int
    } else {
        x
    }
}

/// The timetable window bounds in epoch milliseconds: three days either
/// side of now, or the Monday-to-Sunday span of the current week, each
/// bound saturating at the representable range.
pub open spec fn spec_window(now_ms: int, weekday_from_monday: int, layout: TimeTableLayout) -> (
    int,
    int,
) {
    match layout {
        TimeTableLayout::Centered => (
            spec_sat_i64(now_ms - 3 * spec_day_ms()),
            spec_sat_i64(now_ms + 3 * spec_day_ms()),
        ),
        TimeTableLayout::Week => {
            let monday = spec_sat_i64(now_ms - weekday_from_monday * spec_day_ms());
            (monday, spec_sat_i64(monday + 6 * spec_day_ms()))
        },
    }
}

fn sat_add_i64(a: i64, b: i64) -> (r: i64)
    ensures
        r as int == spec_sat_i64(a as int + b as int),
{
    match a.checked_add(b) {
        Some(x) => x,
        None => {
            if b > 0 {
                i64::MAX
            } else {
                i64::MIN
            }
        },
    }
}

/// Computes the timetable window bounds from the current instant and
/// weekday.
pub fn timetable_window(now_ms: i64, weekday_from_monday: u8, layout: TimeTableLayout) -> (r: (
    i64,
    i64,
))
    requires
        weekday_from_monday < 7,
    ensures
        (r.0 as int, r.1 as int) == spec_window(
            now_ms as int,
            weekday_from_monday as int,
            layout,
        ),
{
    match layout {
        TimeTableLayout::Centered => {
            (sat_add_i64(now_ms, -259200000), sat_add_i64(now_ms, 259200000))
        },
        TimeTableLayout::Week => {
            let offset: i64 = (weekday_from_monday as i64) * 86400000;
            let monday = sat_add_i64(now_ms, -offset);
            (monday, sat_add_i64(monday, 518400000))
        },
    }
}

} // verus!
