use comcigan_rs::class::{Class, Day, Grade, Period, SchoolData};
use comcigan_rs::client::{body_text, WasmClient};
use comcigan_rs::codec::{can_decode, can_encode};
use comcigan_rs::data::{RawSchoolDataKey, School, SchoolList};
use comcigan_rs::error::ComciganError;

fn period(n: u8, subject: &str, teacher: &str) -> Period {
    Period { period_num: n, subject: subject.to_string(), teacher: teacher.to_string() }
}

fn school() -> SchoolData {
    let mut day = Day::new(4);
    day.add_period(period(0, "국어", "김"));
    day.add_period(period(1, "수학", "이"));
    let mut class = Class::new(0);
    class.add_day(Day::new(0));
    class.add_day(day);
    let mut grade = Grade::new(2);
    grade.add_class(class);
    grade.add_class(Class::new(1));
    let mut school = SchoolData::new("세종과학고등학교".to_string());
    school.add_grade(Grade::new(0));
    school.add_grade(grade);
    school
}

#[test]
fn new_values_are_empty() {
    assert_eq!(Grade::new(3).grade_num, 3);
    assert_eq!(Grade::new(3).number(), 3);
    assert_eq!(Class::new(5).number(), 5);
    assert_eq!(Grade::new(3).list_classes().len(), 0);
    assert_eq!(Class::new(5).class_num, 5);
    assert_eq!(Class::new(5).list_days().len(), 0);
    assert_eq!(Day::new(6).number(), 6);
    assert_eq!(Day::new(6).list_periods().len(), 0);
    assert_eq!(SchoolData::new("s".to_string()).list_grades().len(), 0);
}

#[test]
fn lookups_count_from_one() {
    let school = school();
    assert_eq!(school.grade(1), Grade::new(0));
    assert_eq!(school.grade(2).grade_num, 2);
    assert_eq!(school.grade(2).class(2), Class::new(1));
    assert_eq!(school.grade(2).class(1).day(1), Day::new(0));
    let day = school.grade(2).class(1).day(2);
    assert_eq!(day.number(), 4);
    assert_eq!(day.period(1), period(0, "국어", "김"));
    assert_eq!(day.period(2), period(1, "수학", "이"));
}

#[test]
fn lists_keep_the_order() {
    let school = school();
    let grades = school.list_grades();
    assert_eq!(grades.len(), 2);
    assert_eq!(grades[0].grade_num, 0);
    assert_eq!(grades[1].grade_num, 2);
    let classes = grades[1].list_classes();
    assert_eq!(classes.len(), 2);
    assert_eq!(classes[1].class_num, 1);
    let days = classes[0].list_days();
    assert_eq!(days.len(), 2);
    assert_eq!(days[1].list_periods(), vec![period(0, "국어", "김"), period(1, "수학", "이")]);
}

#[test]
fn clones_are_equal() {
    let school = school();
    assert_eq!(school.clone(), school);
    let grade = school.grade(2);
    assert_eq!(grade.clone(), grade);
    let key = RawSchoolDataKey {
        timetable: "a".to_string(),
        subjects: "b".to_string(),
        teachers: "c".to_string(),
        encode_header: "d".to_string(),
        url_piece: "e".to_string(),
    };
    assert_eq!(key.clone(), key);
    let row = School(1, "a".to_string(), "b".to_string(), 2);
    assert_eq!(row.clone(), row);
}

#[test]
fn labels_read_as_the_service_shows_them() {
    assert_eq!(Grade::new(1).label(), "1 학년");
    assert_eq!(Grade::new(255).label(), "255 학년");
    assert_eq!(Class::new(0).label(), "0 반");
    assert_eq!(Class::new(12).label(), "12 반");
    assert_eq!(school().label(), "세종과학고등학교");
    assert_eq!(period(3, "수학", "이").label(), "3교시\n선생님: 이\n과목: 수학");
    assert_eq!(period(100, "", "").label(), "100교시\n선생님: \n과목: ");
}

#[test]
fn weekdays_start_on_monday_and_repeat() {
    let names = ["월요일", "화요일", "수요일", "목요일", "금요일", "토요일", "일요일"];
    let mut n: u8 = 0;
    loop {
        assert_eq!(Day::new(n).label(), names[(n % 7) as usize]);
        if n == 255 {
            break;
        }
        n += 1;
    }
    assert_eq!(Day::new(0).label(), "월요일");
    assert_eq!(Day::new(6).label(), "일요일");
    assert_eq!(Day::new(7).label(), "월요일");
}

#[test]
fn school_list_hands_out_its_rows() {
    let rows = vec![
        School(1, "a".to_string(), "b".to_string(), 2),
        School(3, "c".to_string(), "d".to_string(), 4),
    ];
    let list = SchoolList::new(rows.clone());
    assert_eq!(list.len(), 2);
    assert_eq!(list.into_schools(), rows);
    assert_eq!(SchoolList::new(vec![]).len(), 0);
}

#[test]
fn every_failure_has_a_message() {
    assert_eq!(ComciganError::Transport.message(), "transport failure");
    assert_eq!(ComciganError::SchemaNotFound.message(), "schema anchors not found");
    assert_eq!(ComciganError::MissingField.message(), "missing field");
    assert_eq!(ComciganError::MalformedPayload.message(), "malformed payload");
    assert_eq!(ComciganError::CodeDecode.message(), "timetable code out of range");
    assert_eq!(ComciganError::EmptyResult.message(), "no school matched");
}

#[test]
fn a_proxied_address_has_the_proxy_in_front() {
    let client = WasmClient::new("https://proxy.example/?".to_string());
    assert_eq!(client.proxy, "https://proxy.example/?");
    assert_eq!(
        client.proxied("http://comci.net:4082/st"),
        "https://proxy.example/?http://comci.net:4082/st"
    );
    assert_eq!(WasmClient::new(String::new()).proxied("x"), "x");
}

#[test]
fn body_text_reads_utf8() {
    assert_eq!(body_text("{\"학교검색\":[]}".as_bytes()), "{\"학교검색\":[]}");
    assert_eq!(body_text(b""), "");
    assert_eq!(body_text(b"a\0b"), "a\0b");
    // a malformed sequence is replaced
    assert_eq!(body_text(&[0x61, 0xff, 0x62]), "a\u{fffd}b");
    // a byte order mark is not part of the text
    assert_eq!(body_text(&[0xef, 0xbb, 0xbf, 0x61]), "a");
}

#[test]
fn short_texts_can_be_encoded() {
    assert!(can_encode(""));
    assert!(can_encode("향동중"));
    assert!(can_decode(b"abc"));
}
