use tam_intranet::decode::decode_bool_from_anything;
use tam_intranet::decode::decode_naive_date;
use tam_intranet::decode::decode_naive_time;
use tam_intranet::decode::decode_number_from_string;
use tam_intranet::decode::decode_option_number_from_string;
use tam_intranet::decode::deserialize_date_time;
use tam_intranet::decode::deserialize_vec_from_string_or_vec;
use tam_intranet::decode::DateYmd;
use tam_intranet::decode::TimeHms;
use tam_intranet::intranet_client::extract_login_hash;
use tam_intranet::intranet_client::HttpMethod;
use tam_intranet::intranet_client::IntranetClient;
use tam_intranet::intranet_client::School;
use tam_intranet::json::JsonValue;
use tam_intranet::name::Name;
use tam_intranet::resources::decode_resources;
use tam_intranet::resources::decode_resources_lenient;
use tam_intranet::timetable::decode_timetable;
use tam_intranet::timetable::decode_timetable_lenient;
use tam_intranet::timetable::entry_type_from_str;
use tam_intranet::timetable::lesson_times_agree;
use tam_intranet::timetable::timetable_window;
use tam_intranet::timetable::TimeTableEntryType;
use tam_intranet::timetable::TimeTableLayout;
use tam_intranet::Error;

fn s(v: &str) -> JsonValue {
    JsonValue::Str(v.to_string())
}

fn obj(fields: Vec<(&str, JsonValue)>) -> JsonValue {
    let mut out: Vec<(String, JsonValue)> = Vec::new();
    for (k, v) in fields {
        out.push((k.to_string(), v));
    }
    JsonValue::Obj(out)
}

fn teacher_value() -> JsonValue {
    obj(vec![
        ("personId", JsonValue::Int(42)),
        ("name", s("Doe, Jane")),
        ("acronym", s("jd")),
        ("occupied", s("1")),
    ])
}

fn student_value(id: i64, name: &str) -> JsonValue {
    obj(vec![("personId", JsonValue::Int(id)), ("name", s(name))])
}

fn course_value() -> JsonValue {
    obj(vec![
        ("course", s("Mathematics")),
        ("courseId", JsonValue::Int(7)),
        ("courseShort", s("M")),
        ("courseLabelOrCourseDescription", s("Mathematics, level 4")),
        ("courseShortWithClasses", s("M4a")),
        ("periodId", JsonValue::Int(81)),
        ("teacherName", s("Doe")),
        ("studentName", s("Roe Richard")),
        ("subjectId", JsonValue::Int(12)),
        ("teacherId", JsonValue::Arr(vec![JsonValue::Int(42)])),
        ("studentId", JsonValue::Arr(vec![JsonValue::Int(1001)])),
        ("classId", JsonValue::Arr(vec![JsonValue::Int(301)])),
        ("className", JsonValue::Arr(vec![s("4a")])),
    ])
}

fn class_value() -> JsonValue {
    obj(vec![
        ("classId", JsonValue::Int(301)),
        ("className", s("4a")),
        ("classShort", s("4a")),
        ("classCommonName", s("4a common")),
        ("periodId", JsonValue::Int(81)),
        ("classLevel", s("4")),
        ("occupied", JsonValue::Int(0)),
    ])
}

fn room_value() -> JsonValue {
    obj(vec![
        ("roomId", JsonValue::Int(9)),
        ("room", s("A12")),
        ("description", JsonValue::Null),
        ("occupied", JsonValue::Bool(false)),
        ("sort1", s("3")),
        ("sort2", s("4")),
        ("roomCategory", JsonValue::Null),
        ("building", JsonValue::Null),
    ])
}

fn resource_value() -> JsonValue {
    obj(vec![
        ("resourceId", JsonValue::Int(2)),
        ("resource", s("Beamer")),
        ("description", s("portable")),
        ("sort1", s("1")),
        ("sort2", s("2")),
        ("resourceCategory", s("5")),
    ])
}

fn resources_value(student_id: i64, student_name: &str) -> JsonValue {
    obj(vec![
        ("status", JsonValue::Int(0)),
        (
            "data",
            obj(vec![
                ("courses", JsonValue::Arr(vec![course_value()])),
                ("students", JsonValue::Arr(vec![student_value(student_id, student_name)])),
                ("teachers", JsonValue::Arr(vec![teacher_value()])),
                ("classes", JsonValue::Arr(vec![class_value()])),
                ("rooms", JsonValue::Arr(vec![room_value()])),
                ("resources", JsonValue::Arr(vec![resource_value()])),
            ]),
        ),
    ])
}

fn lesson_value() -> JsonValue {
    obj(vec![
        ("id", JsonValue::Int(555)),
        ("timetableElementId", JsonValue::Int(900)),
        ("holidayId", JsonValue::Int(0)),
        ("blockId", JsonValue::Arr(vec![JsonValue::Int(1)])),
        ("blockTeacherId", JsonValue::Arr(vec![JsonValue::Int(42)])),
        ("blockClassId", JsonValue::Arr(vec![JsonValue::Int(301)])),
        ("blockRoomId", JsonValue::Arr(vec![JsonValue::Int(9)])),
        ("modId", JsonValue::Int(4)),
        ("periodId", JsonValue::Int(81)),
        ("start", s("/Date(1727349600000.000000)/")),
        ("end", s("/Date(1727353200000.000000)/")),
        ("lessonDate", s("2024-09-26")),
        ("lessonStart", s("13:20:00")),
        ("lessonEnd", s("14:20:00")),
        ("examModification", JsonValue::Int(0)),
        ("lessonDuration", s("01:00:00")),
        ("nbrOfModifiedLessons", JsonValue::Null),
        ("connectedId", s("17")),
        ("isAllDay", JsonValue::Int(0)),
        ("timetableEntryTypeLong", s("lesson")),
        ("messageId", JsonValue::Int(0)),
        ("message", JsonValue::Null),
        ("output", JsonValue::Null),
        ("title", s("M4a")),
        ("halfClassLesson", s("0")),
        ("courseId", JsonValue::Int(7)),
        ("courseName", s("Mathematics")),
        ("course", JsonValue::Null),
        ("courseLong", s("")),
        ("isExamLesson", JsonValue::Bool(false)),
        ("isCheckedLesson", JsonValue::Bool(true)),
        ("lessonAbsenceCount", JsonValue::Int(0)),
        ("subjectId", JsonValue::Int(12)),
        ("subjectName", JsonValue::Null),
        ("timegridId", JsonValue::Int(1)),
        ("classId", JsonValue::Arr(vec![JsonValue::Int(301)])),
        ("className", s("4a, 4b")),
        ("profileId", s("1, 2")),
        ("teamId", s("")),
        ("teacherId", JsonValue::Arr(vec![JsonValue::Int(42)])),
        ("teacherAcronym", s("jd")),
        ("teacherFullName", JsonValue::Arr(vec![s("Jane Doe")])),
        ("teacherLastname", s("Doe")),
        ("teacherFirstname", s("Jane")),
        ("connectedTeacherId", JsonValue::Arr(vec![])),
        ("connectedTeacherFullName", JsonValue::Arr(vec![])),
        ("student", JsonValue::Arr(vec![student_value(1001, "Doe, Jane")])),
        ("studentId", JsonValue::Arr(vec![])),
        ("studentFullName", s("Jane Doe")),
        ("studentLastname", s("Doe")),
        ("studentFirstname", s("Jane")),
        ("roomId", JsonValue::Arr(vec![JsonValue::Int(9)])),
        ("roomName", s("A12")),
        ("locationDescription", s("")),
        ("resourceId", JsonValue::Arr(vec![])),
        ("timetableClassBookId", JsonValue::Int(77)),
        ("hasHomework", JsonValue::Bool(false)),
        ("hasHomeworkFiles", JsonValue::Bool(false)),
        ("hasExam", JsonValue::Bool(false)),
        ("hasExamFiles", JsonValue::Bool(false)),
        ("privileges", JsonValue::Null),
        ("resource", JsonValue::Null),
        ("reservedResources", JsonValue::Int(0)),
        ("totalStock", JsonValue::Int(0)),
        ("school", s("")),
        ("relatedId", JsonValue::Arr(vec![s("r1")])),
    ])
}

fn lesson_with(key: &str, value: JsonValue) -> JsonValue {
    match lesson_value() {
        JsonValue::Obj(mut fields) => {
            for f in fields.iter_mut() {
                if f.0 == key {
                    f.1 = value;
                    break;
                }
            }
            JsonValue::Obj(fields)
        }
        _ => unreachable!(),
    }
}

fn timetable_of(lesson: JsonValue) -> JsonValue {
    obj(vec![("data", JsonValue::Arr(vec![lesson]))])
}

fn timetable_value() -> JsonValue {
    obj(vec![("data", JsonValue::Arr(vec![lesson_value()]))])
}

#[test]
fn canonical_name_inversion() {
    let n = Name::from_lastname_firstname("Doe, Jane");
    assert_eq!(n.string, "jane.doe");
    let other = Name::from_lastname_firstname("Langhoff, Julius");
    assert_eq!(other.string, "julius.langhoff");
}

#[test]
fn canonical_name_idempotent() {
    let once = Name::from_lastname_firstname("Doe, Jane");
    let twice = Name::from_lastname_firstname(&once.string);
    assert_eq!(once.string, twice.string);
    let direct = Name::from_lastname_firstname("jane.doe");
    assert_eq!(direct.string, "jane.doe");
}

#[test]
fn bool_coercion_totality() {
    assert_eq!(decode_bool_from_anything(&JsonValue::Bool(false)), Ok(false));
    assert_eq!(decode_bool_from_anything(&JsonValue::Bool(true)), Ok(true));
    assert_eq!(decode_bool_from_anything(&s("0")), Ok(false));
    assert_eq!(decode_bool_from_anything(&s("1")), Ok(true));
    assert_eq!(decode_bool_from_anything(&JsonValue::Int(0)), Ok(false));
    assert_eq!(decode_bool_from_anything(&JsonValue::Int(1)), Ok(true));
    assert_eq!(decode_bool_from_anything(&s("yes")), Err(Error::DecodeError));
    assert_eq!(decode_bool_from_anything(&JsonValue::Int(2)), Err(Error::DecodeError));
    assert_eq!(decode_bool_from_anything(&JsonValue::Null), Err(Error::DecodeError));
}

#[test]
fn epoch_date_extraction() {
    let ok = deserialize_date_time(&s("/Date(1727349600000.000000)/"));
    assert_eq!(ok, Ok(1727349600));
    let short = deserialize_date_time(&s("/Date(1)/"));
    assert_eq!(short, Err(Error::DecodeError));
    let non_digit = deserialize_date_time(&s("/Date(17273496xx000.000000)/"));
    assert_eq!(non_digit, Err(Error::DecodeError));
    assert_eq!(deserialize_date_time(&JsonValue::Int(5)), Err(Error::DecodeError));
}

#[test]
fn list_coercion_equivalence() {
    let from_array =
        deserialize_vec_from_string_or_vec(&JsonValue::Arr(vec![s("a"), s("b")])).unwrap();
    let from_string = deserialize_vec_from_string_or_vec(&s("a, b")).unwrap();
    assert_eq!(from_array, vec!["a".to_string(), "b".to_string()]);
    assert_eq!(from_array, from_string);
}

#[test]
fn number_from_string_coercion() {
    assert_eq!(decode_number_from_string(&s("42"), u32::MAX as u64), Ok(42));
    assert_eq!(decode_number_from_string(&JsonValue::Int(42), u32::MAX as u64), Ok(42));
    assert_eq!(decode_number_from_string(&s("x42"), u32::MAX as u64), Err(Error::DecodeError));
    assert_eq!(decode_number_from_string(&s(""), u32::MAX as u64), Err(Error::DecodeError));
    assert_eq!(decode_number_from_string(&s("300"), u8::MAX as u64), Err(Error::DecodeError));
    assert_eq!(decode_number_from_string(&JsonValue::Int(-1), u32::MAX as u64), Err(Error::DecodeError));
}

#[test]
fn optional_number_from_string() {
    assert_eq!(decode_option_number_from_string(&JsonValue::Null, 255), Ok(None));
    assert_eq!(decode_option_number_from_string(&s("7"), 255), Ok(Some(7)));
    assert_eq!(decode_option_number_from_string(&s("abc"), 255), Err(Error::DecodeError));
}

#[test]
fn naive_date_parsing() {
    assert_eq!(
        decode_naive_date(&s("2024-09-26")),
        Ok(DateYmd { year: 2024, month: 9, day: 26 })
    );
    assert_eq!(decode_naive_date(&s("2023-02-29")), Err(Error::DecodeError));
    assert_eq!(
        decode_naive_date(&s("2024-02-29")),
        Ok(DateYmd { year: 2024, month: 2, day: 29 })
    );
    assert_eq!(decode_naive_date(&s("2024-13-01")), Err(Error::DecodeError));
    assert_eq!(decode_naive_date(&s("2024-9-26")), Err(Error::DecodeError));
}

#[test]
fn naive_time_parsing() {
    assert_eq!(
        decode_naive_time(&s("13:20:05")),
        Ok(TimeHms { hour: 13, minute: 20, second: 5 })
    );
    assert_eq!(decode_naive_time(&s("24:00:00")), Err(Error::DecodeError));
    assert_eq!(decode_naive_time(&s("1:00:00")), Err(Error::DecodeError));
}

#[test]
fn entry_type_names() {
    assert_eq!(entry_type_from_str("lesson"), Ok(TimeTableEntryType::Lesson));
    assert_eq!(entry_type_from_str("room changed"), Ok(TimeTableEntryType::RoomChanged));
    assert_eq!(entry_type_from_str("teacher changed"), Ok(TimeTableEntryType::TeacherChanged));
    assert_eq!(entry_type_from_str("canceled lesson"), Ok(TimeTableEntryType::CanceledLesson));
    assert_eq!(
        entry_type_from_str("block substitution"),
        Ok(TimeTableEntryType::BlockSubstitution)
    );
    assert_eq!(
        entry_type_from_str("instrumental definitive"),
        Ok(TimeTableEntryType::InstrumentalDefinitive)
    );
    assert_eq!(entry_type_from_str("recess"), Err(Error::DecodeError));
}

#[test]
fn resources_schema_completeness() {
    let payload = resources_value(1001, "Doe, Jane");
    let decoded = decode_resources(&payload).unwrap();
    assert_eq!(decoded.status, 0);
    assert_eq!(decoded.data.courses.len(), 1);
    assert_eq!(decoded.data.students.len(), 1);
    assert_eq!(decoded.data.students[0].id, 1001);
    assert_eq!(decoded.data.students[0].name.string, "jane.doe");
    assert_eq!(decoded.data.teachers[0].person_id, 42);
    assert!(decoded.data.teachers[0].occupied);
    assert_eq!(decoded.data.classes[0].class_level, 4);
    assert_eq!(decoded.data.rooms[0].room_category, None);
    assert_eq!(decoded.data.resources[0].resource_category, 5);
}

#[test]
fn resources_rejects_unknown_field() {
    let payload = resources_value(1001, "Doe, Jane");
    let with_extra = match payload {
        JsonValue::Obj(mut fields) => {
            fields.push(("surprise".to_string(), JsonValue::Int(1)));
            JsonValue::Obj(fields)
        }
        _ => unreachable!(),
    };
    assert!(matches!(decode_resources(&with_extra), Err(Error::DecodeError)));

    let nested_extra = resources_value(1001, "Doe, Jane");
    let nested = match nested_extra {
        JsonValue::Obj(mut top) => {
            let data = top.remove(1).1;
            let data = match data {
                JsonValue::Obj(mut inner) => {
                    let teachers = inner.remove(2).1;
                    let teachers = match teachers {
                        JsonValue::Arr(mut xs) => {
                            let t = xs.remove(0);
                            let t = match t {
                                JsonValue::Obj(mut tf) => {
                                    tf.push(("newField".to_string(), JsonValue::Bool(true)));
                                    JsonValue::Obj(tf)
                                }
                                _ => unreachable!(),
                            };
                            xs.insert(0, t);
                            JsonValue::Arr(xs)
                        }
                        _ => unreachable!(),
                    };
                    inner.insert(2, ("teachers".to_string(), teachers));
                    JsonValue::Obj(inner)
                }
                _ => unreachable!(),
            };
            top.insert(1, ("data".to_string(), data));
            JsonValue::Obj(top)
        }
        _ => unreachable!(),
    };
    assert!(matches!(decode_resources(&nested), Err(Error::DecodeError)));
}

#[test]
fn timetable_decodes_and_detects_drift() {
    let payload = timetable_value();
    let decoded = decode_timetable(&payload).unwrap();
    assert_eq!(decoded.lessons.len(), 1);
    let lesson = &decoded.lessons[0];
    assert_eq!(lesson.id, 555);
    assert_eq!(lesson.start, 1727349600);
    assert_eq!(lesson.end, 1727353200);
    assert_eq!(lesson.lesson_date, DateYmd { year: 2024, month: 9, day: 26 });
    assert_eq!(lesson.timetable_entry_type, TimeTableEntryType::Lesson);
    assert!(!lesson.is_all_day);
    assert_eq!(lesson.nbr_of_modified_lessons, None);
    assert_eq!(lesson.connected_id, Some(17));
    assert_eq!(lesson.class_name, vec!["4a".to_string(), "4b".to_string()]);
    assert_eq!(lesson.profile_id, vec![1u8, 2u8]);
    assert_eq!(lesson.student[0].name.string, "jane.doe");
    assert_eq!(lesson.timetable_element_id, 900);
    assert_eq!(lesson.lesson_duration, TimeHms { hour: 1, minute: 0, second: 0 });
    assert!(lesson.is_checked_lesson);
    assert!(!lesson.has_homework);
    assert_eq!(lesson.teacher_full_name, vec!["Jane Doe".to_string()]);
    assert_eq!(lesson.half_class_lesson, Some("0".to_string()));
    assert_eq!(lesson.privileges, None);
    assert_eq!(lesson.related_id, vec!["r1".to_string()]);
    assert_eq!(lesson.block_class_id, vec![301u16]);

    let with_extra = match timetable_value() {
        JsonValue::Obj(mut fields) => {
            fields.push(("driftField".to_string(), JsonValue::Int(3)));
            JsonValue::Obj(fields)
        }
        _ => unreachable!(),
    };
    assert!(matches!(decode_timetable(&with_extra), Err(Error::DecodeError)));

    let with_extra = match timetable_value() {
        JsonValue::Obj(mut fields) => {
            fields.push(("driftField".to_string(), JsonValue::Int(3)));
            JsonValue::Obj(fields)
        }
        _ => unreachable!(),
    };
    let (lenient, unknown) = decode_timetable_lenient(&with_extra).unwrap();
    assert_eq!(lenient.lessons.len(), 1);
    assert_eq!(unknown, vec!["driftField".to_string()]);
}

#[test]
fn csrf_token_extraction() {
    let client = IntranetClient::new(School::Mng, "jane.doe");
    let body = "<script>var csrfToken = 'a1B2c3';</script>";
    assert_eq!(client.get_csrf_token(body).unwrap(), "a1B2c3");
    let spaced = "csrfToken\t=\n'zz9'";
    assert_eq!(client.get_csrf_token(spaced).unwrap(), "zz9");
    let first_match = "csrfTokenX csrfToken = 'first' csrfToken = 'second'";
    assert_eq!(client.get_csrf_token(first_match).unwrap(), "first");
    assert_eq!(client.get_csrf_token("no token here"), Err(Error::TokenNotFound));
    assert_eq!(client.get_csrf_token("csrfToken = ''"), Err(Error::TokenNotFound));
}

#[test]
fn login_hash_extraction() {
    let html = "<html><body><form><input name=\"other\" value=\"x\" />\
                <input name=\"hash\" value=\"abc123\" /></form></body></html>";
    assert_eq!(extract_login_hash(html).unwrap(), "abc123");
    let without = "<html><body><p>no form</p></body></html>";
    assert_eq!(extract_login_hash(without), Err(Error::TokenNotFound));
}

#[test]
fn urls_and_school_code() {
    let client = IntranetClient::new(School::Mng, "jane.doe");
    assert_eq!(School::Mng.code(), "krm");
    assert_eq!(client.url(), "https://intranet.tam.ch");
    assert_eq!(client.school_url(), "https://intranet.tam.ch/krm");
}

#[test]
fn authenticate_status_handling() {
    let client = IntranetClient::new(School::Mng, "jane.doe");
    assert!(matches!(
        client.authenticate(403),
        Err(Error::HttpStatusError(403))
    ));
    let client = IntranetClient::new(School::Mng, "jane.doe");
    assert!(client.authenticate(200).is_ok());
}

#[test]
fn window_computation() {
    let now: i64 = 1_000_000_000_000;
    let (start, end) = timetable_window(now, 3, TimeTableLayout::Centered);
    assert_eq!(start, now - 3 * 86_400_000);
    assert_eq!(end, now + 3 * 86_400_000);
    let (monday, sunday) = timetable_window(now, 3, TimeTableLayout::Week);
    assert_eq!(monday, now - 3 * 86_400_000);
    assert_eq!(sunday, monday + 6 * 86_400_000);
    let (clamped, _) = timetable_window(i64::MIN + 1, 0, TimeTableLayout::Centered);
    assert_eq!(clamped, i64::MIN);
}

#[test]
fn timetable_request_form() {
    let client = IntranetClient::new(School::Mng, "jane.doe")
        .authenticate(200)
        .unwrap();
    let request = client.timetable_request_at(1001, -5, 1727349600000);
    assert_eq!(request.method, HttpMethod::Post);
    assert!(request.ajax);
    assert_eq!(request.url, "https://intranet.tam.ch/krm/timetable/ajax-get-timetable");
    assert_eq!(request.form[0], ("startDate".to_string(), "-5".to_string()));
    assert_eq!(request.form[1], ("endDate".to_string(), "1727349600000".to_string()));
    assert_eq!(request.form[2], ("studentId[]".to_string(), "1001".to_string()));
    assert_eq!(request.form[3], ("holidaysOnly".to_string(), "0".to_string()));
}

#[test]
fn end_to_end_scenario() {
    // An unauthenticated session for school code "krm" and user "jane.doe".
    let client = IntranetClient::new(School::Mng, "jane.doe");
    assert_eq!(client.school_url(), "https://intranet.tam.ch/krm");

    // The scripted login page carries the fixed hash.
    let login_page = "<html><body><input name=\"hash\" value=\"abc123\"></body></html>";
    let page_request = client.login_page_request();
    assert_eq!(page_request.method, HttpMethod::Get);
    let hash = extract_login_hash(login_page).unwrap();
    assert_eq!(hash, "abc123");

    // The login POST carries the hash, the school code and the username.
    let login = client.login_request(&hash, "pw");
    assert_eq!(login.method, HttpMethod::Post);
    assert_eq!(login.url, "https://intranet.tam.ch/krm");
    assert_eq!(login.form[0], ("hash".to_string(), "abc123".to_string()));
    assert_eq!(login.form[1], ("loginschool".to_string(), "krm".to_string()));
    assert_eq!(login.form[2], ("loginuser".to_string(), "jane.doe".to_string()));

    // The scripted server answers the POST with HTTP 200: the session
    // transitions, and the data operations become reachable.
    let client = client.authenticate(200).unwrap();

    // Fetching resources is exactly one GET (classbook, for the token)
    // followed by one POST.
    let classbook = client.classbook_request();
    assert_eq!(classbook.method, HttpMethod::Get);
    assert_eq!(classbook.url, "https://intranet.tam.ch/krm/timetable/classbook");
    let token = client
        .get_csrf_token("<script>csrfToken = 'tok42';</script>")
        .unwrap();
    let post = client.resources_request(&token, 81);
    assert_eq!(post.method, HttpMethod::Post);
    assert!(post.ajax);
    assert_eq!(post.url, "https://intranet.tam.ch/krm/timetable/ajax-get-resources");
    assert_eq!(post.form[0], ("periodId".to_string(), "81".to_string()));
    assert_eq!(post.form[1], ("csrfToken".to_string(), "tok42".to_string()));

    // The scripted directory maps the canonical name to the scripted id.
    let directory = decode_resources(&resources_value(7007, "Doe, Jane")).unwrap();
    let id = directory.get_student_id(client.student());
    assert_eq!(id, Some(7007));
    assert_eq!(directory.lookup_student_id(client.student()), Ok(7007));
    let stranger = Name::from_lastname_firstname("Roe, Richard");
    assert_eq!(
        directory.lookup_student_id(&stranger),
        Err(Error::LookupNotFound)
    );
}

#[test]
fn lesson_field_shapes_enforced() {
    // A native boolean field rejects the 0/1 coercion forms.
    let coerced_bool = timetable_of(lesson_with("isExamLesson", s("1")));
    assert!(matches!(decode_timetable(&coerced_bool), Err(Error::DecodeError)));
    // An always-empty collection rejects content.
    let filled = timetable_of(lesson_with("studentId", JsonValue::Arr(vec![JsonValue::Int(1)])));
    assert!(matches!(decode_timetable(&filled), Err(Error::DecodeError)));
    // The always-null field rejects any other value.
    let non_null = timetable_of(lesson_with("resource", JsonValue::Bool(true)));
    assert!(matches!(decode_timetable(&non_null), Err(Error::DecodeError)));
    // An optional string array takes an array of strings.
    let with_privileges = timetable_of(lesson_with(
        "privileges",
        JsonValue::Arr(vec![s("read")]),
    ));
    let decoded = decode_timetable(&with_privileges).unwrap();
    assert_eq!(decoded.lessons[0].privileges, Some(vec!["read".to_string()]));
}

#[test]
fn fractional_seconds_accepted() {
    assert_eq!(
        decode_naive_time(&s("13:20:00.000")),
        Ok(TimeHms { hour: 13, minute: 20, second: 0 })
    );
    assert_eq!(decode_naive_time(&s("13:20:00.")), Err(Error::DecodeError));
    assert_eq!(decode_naive_time(&s("13:20:00.0x0")), Err(Error::DecodeError));
    let timed = timetable_of(lesson_with("lessonStart", s("13:20:00.500")));
    let decoded = decode_timetable(&timed).unwrap();
    assert_eq!(decoded.lessons[0].lesson_start, TimeHms { hour: 13, minute: 20, second: 0 });
}

#[test]
fn csrf_whitespace_forms() {
    let client = IntranetClient::new(School::Mng, "jane.doe");
    let form_feed = "csrfToken\u{0C}= 'ff1'";
    assert_eq!(client.get_csrf_token(form_feed).unwrap(), "ff1");
    let vertical_tab = "csrfToken \u{0B}=\u{0B} 'vt2'";
    assert_eq!(client.get_csrf_token(vertical_tab).unwrap(), "vt2");
}

#[test]
fn resources_drift_detection() {
    let payload = resources_value(1001, "Doe, Jane");
    let (decoded, unknown) = decode_resources_lenient(&payload).unwrap();
    assert_eq!(decoded.data.students[0].id, 1001);
    assert!(unknown.is_empty());

    let with_extra = match resources_value(1001, "Doe, Jane") {
        JsonValue::Obj(mut fields) => {
            fields.push(("surprise".to_string(), JsonValue::Int(1)));
            JsonValue::Obj(fields)
        }
        _ => unreachable!(),
    };
    let (_, unknown) = decode_resources_lenient(&with_extra).unwrap();
    assert_eq!(unknown, vec!["surprise".to_string()]);
}

#[test]
fn lesson_local_fields_agree_with_instants() {
    let decoded = decode_timetable(&timetable_value()).unwrap();
    let lesson = &decoded.lessons[0];
    // The captured instants are two hours behind the local fields, the
    // portal's summer offset.
    assert!(lesson_times_agree(lesson, 7200));
    assert!(!lesson_times_agree(lesson, 0));
    assert!(!lesson_times_agree(lesson, 7260));
}
