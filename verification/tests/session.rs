use comcigan_rs::data::{RawSchoolDataKey, School};
use comcigan_rs::error::ComciganError;
use comcigan_rs::schema::{init_request, init_response, keys_from, resolve};
use comcigan_rs::search::{
    first_school, search_school_request, search_school_response,
};
use comcigan_rs::timetable::{view_id, view_request, view_response};

fn page() -> String {
    let mut page = String::new();
    page.push_str("<script>function school_ra(sc){$.ajax({ url:'./36179?17384l'+sc,success:function(data){}});}\n");
    page.push_str("function sc_disp(sc){var da=sc_data('73629_',sc,1,'0');}\n");
    page.push_str("var 원자료=Q자료(자료.자료481[학년][반][요일][교시]);\n");
    page.push_str("th=분리;if(th<자료.자료446.length) {성명=자료.자료446[th];}\n");
    page.push_str("속성+=\"style='font-size:12px;'>\"+m2+자료.자료492[sb]+\"<br>\"+성명+\"</td>\";\n");
    page.push_str("</script>");
    page
}

fn keys() -> RawSchoolDataKey {
    RawSchoolDataKey {
        timetable: "자료481".to_string(),
        subjects: "자료492".to_string(),
        teachers: "자료446".to_string(),
        encode_header: "73629_".to_string(),
        url_piece: "36179?17384l".to_string(),
    }
}

#[test]
fn resolve_finds_the_five_names() {
    assert_eq!(resolve(&page()), Ok(keys()));
}

#[test]
fn resolve_takes_a_teacher_field_with_a_zero() {
    let text = page().replace("자료446", "자료108");
    let mut expected = keys();
    expected.teachers = "자료108".to_string();
    assert_eq!(resolve(&text), Ok(expected));
    let text = page().replace("자료446", "자료100");
    let mut expected = keys();
    expected.teachers = "자료100".to_string();
    assert_eq!(resolve(&text), Ok(expected));
}

#[test]
fn resolve_fails_without_the_search_path() {
    let text = page().replace("$.ajax({ url:'./", "$.get({ url:'./");
    assert_eq!(resolve(&text), Err(ComciganError::SchemaNotFound));
}

#[test]
fn resolve_fails_without_the_header() {
    let text = page().replace("sc_data('", "sc_load('");
    assert_eq!(resolve(&text), Err(ComciganError::SchemaNotFound));
}

#[test]
fn resolve_fails_without_the_timetable_field() {
    let text = page().replace("[학년][반][요일][교시]", "[학년][반]");
    assert_eq!(resolve(&text), Err(ComciganError::SchemaNotFound));
}

#[test]
fn resolve_fails_without_the_teacher_field() {
    let text = page().replace(".length) {성명", ".length){성명");
    assert_eq!(resolve(&text), Err(ComciganError::SchemaNotFound));
}

#[test]
fn resolve_fails_without_the_subject_field() {
    let text = page().replace("[sb]+\"<br>\"", "[sb]+\"<p>\"");
    assert_eq!(resolve(&text), Err(ComciganError::SchemaNotFound));
}

#[test]
fn resolve_fails_on_an_empty_page() {
    assert_eq!(resolve(""), Err(ComciganError::SchemaNotFound));
}

#[test]
fn resolve_is_case_sensitive() {
    let text = page().replace("sc_data('", "SC_DATA('");
    assert_eq!(resolve(&text), Err(ComciganError::SchemaNotFound));
}

#[test]
fn keys_from_needs_every_name() {
    let some = |s: &str| Some(s.to_string());
    assert_eq!(
        keys_from(some("36179?17384l"), some("73629_"), some("자료481"), some("자료446"), some("자료492")),
        Ok(keys())
    );
    assert_eq!(
        keys_from(None, some("73629_"), some("자료481"), some("자료446"), some("자료492")),
        Err(ComciganError::SchemaNotFound)
    );
    assert_eq!(
        keys_from(some("36179?17384l"), some("73629_"), some("자료481"), some("자료446"), None),
        Err(ComciganError::SchemaNotFound)
    );
}

#[test]
fn init_request_is_the_bootstrap_address() {
    assert_eq!(init_request(), "http://comci.net:4082/st");
}

#[test]
fn init_response_reads_the_legacy_encoding() {
    // "sc_data('" and the other ASCII anchors are the same bytes in EUC-KR; the
    // Korean anchors are written here in their EUC-KR bytes.
    let mut bytes: Vec<u8> = Vec::new();
    bytes.extend_from_slice(b"$.ajax({ url:'./36179?17384l'+sc,success\n");
    bytes.extend_from_slice(b"sc_data('73629_',sc,1\n");
    // 원자료=Q자료(자료.자료481[학년][반][요일][교시]
    bytes.extend_from_slice(&[0xbf, 0xf8, 0xc0, 0xda, 0xb7, 0xe1]);
    bytes.extend_from_slice(b"=Q");
    bytes.extend_from_slice(&[0xc0, 0xda, 0xb7, 0xe1]);
    bytes.extend_from_slice(b"(");
    bytes.extend_from_slice(&[0xc0, 0xda, 0xb7, 0xe1]);
    bytes.extend_from_slice(b".");
    bytes.extend_from_slice(&[0xc0, 0xda, 0xb7, 0xe1]);
    bytes.extend_from_slice(b"481[");
    bytes.extend_from_slice(&[0xc7, 0xd0, 0xb3, 0xe2]);
    bytes.extend_from_slice(b"][");
    bytes.extend_from_slice(&[0xb9, 0xdd]);
    bytes.extend_from_slice(b"][");
    bytes.extend_from_slice(&[0xbf, 0xe4, 0xc0, 0xcf]);
    bytes.extend_from_slice(b"][");
    bytes.extend_from_slice(&[0xb1, 0xb3, 0xbd, 0xc3]);
    bytes.extend_from_slice(b"]\n");
    // 분리;if(th<자료.자료446.length) {성명
    bytes.extend_from_slice(&[0xba, 0xd0, 0xb8, 0xae]);
    bytes.extend_from_slice(b";if(th<");
    bytes.extend_from_slice(&[0xc0, 0xda, 0xb7, 0xe1]);
    bytes.extend_from_slice(b".");
    bytes.extend_from_slice(&[0xc0, 0xda, 0xb7, 0xe1]);
    bytes.extend_from_slice(b"446.length) {");
    bytes.extend_from_slice(&[0xbc, 0xba, 0xb8, 0xed]);
    bytes.extend_from_slice(b"\n");
    // 2px;'>"+m2+자료.자료492[sb]+"<br>"+성명
    bytes.extend_from_slice(b"2px;'>\"+m2+");
    bytes.extend_from_slice(&[0xc0, 0xda, 0xb7, 0xe1]);
    bytes.extend_from_slice(b".");
    bytes.extend_from_slice(&[0xc0, 0xda, 0xb7, 0xe1]);
    bytes.extend_from_slice(b"492[sb]+\"<br>\"+");
    bytes.extend_from_slice(&[0xbc, 0xba, 0xb8, 0xed]);
    bytes.extend_from_slice(b"\n");
    assert_eq!(init_response(&bytes), Ok(keys()));
}

#[test]
fn init_response_fails_on_a_page_without_anchors() {
    assert_eq!(init_response(b"<html></html>"), Err(ComciganError::SchemaNotFound));
}

#[test]
fn search_request_escapes_the_legacy_bytes() {
    assert_eq!(
        search_school_request("향동중", &keys()),
        "http://comci.net:4082/36179?17384l%C7%E2%B5%BF%C1%DF"
    );
}

#[test]
fn search_request_escapes_ascii_with_two_digits() {
    assert_eq!(
        search_school_request("a\n", &keys()),
        "http://comci.net:4082/36179?17384l%61%0A"
    );
}

#[test]
fn search_request_mixes_ascii_and_legacy_bytes() {
    assert_eq!(
        search_school_request("A중1", &keys()),
        "http://comci.net:4082/36179?17384l%41%C1%DF%31"
    );
}

#[test]
fn search_request_of_an_empty_query() {
    assert_eq!(search_school_request("", &keys()), "http://comci.net:4082/36179?17384l");
}

#[test]
fn search_response_reads_the_rows() {
    let text = "{\"학교검색\":[[24966,\"경기\",\"향동중학교\",12045],[24966,\"세종\",\"세종과학고등학교\",38232]]}\0\0\0";
    assert_eq!(
        search_school_response(text),
        Ok(vec![
            School(24966, "경기".to_string(), "향동중학교".to_string(), 12045),
            School(24966, "세종".to_string(), "세종과학고등학교".to_string(), 38232),
        ])
    );
}

#[test]
fn search_response_with_no_match_is_an_empty_list() {
    assert_eq!(search_school_response("{\"학교검색\":[]}"), Ok(vec![]));
}

#[test]
fn search_response_that_is_no_json_is_malformed() {
    assert_eq!(search_school_response("<html>"), Err(ComciganError::MalformedPayload));
    assert_eq!(search_school_response(""), Err(ComciganError::MalformedPayload));
}

#[test]
fn search_response_that_is_no_object_is_malformed() {
    assert_eq!(search_school_response("[1,2]"), Err(ComciganError::MalformedPayload));
}

#[test]
fn search_response_without_the_list_misses_a_field() {
    assert_eq!(search_school_response("{\"other\":[]}"), Err(ComciganError::MissingField));
}

#[test]
fn search_response_with_a_short_row_is_malformed() {
    assert_eq!(
        search_school_response("{\"학교검색\":[[1,\"a\",\"b\"]]}"),
        Err(ComciganError::MalformedPayload)
    );
    assert_eq!(
        search_school_response("{\"학교검색\":[[1,\"a\",\"b\",-4]]}"),
        Err(ComciganError::MalformedPayload)
    );
    assert_eq!(
        search_school_response("{\"학교검색\":[[1,\"a\",\"b\",4.5]]}"),
        Err(ComciganError::MalformedPayload)
    );
    assert_eq!(
        search_school_response("{\"학교검색\":{\"a\":1}}"),
        Err(ComciganError::MalformedPayload)
    );
}

#[test]
fn first_school_needs_a_match() {
    let none: Vec<School> = Vec::new();
    assert_eq!(first_school(&none), Err(ComciganError::EmptyResult));
    let one = vec![School(1, "a".to_string(), "b".to_string(), 2)];
    assert_eq!(first_school(&one), Ok(School(1, "a".to_string(), "b".to_string(), 2)));
}

#[test]
fn view_id_joins_header_id_and_suffix() {
    let school = School(24966, "세종".to_string(), "세종과학고등학교".to_string(), 38232);
    assert_eq!(view_id(&school, &keys()), "73629_38232_0_1");
    let zero = School(0, String::new(), String::new(), 0);
    assert_eq!(view_id(&zero, &keys()), "73629_0_0_1");
    let most = School(0, String::new(), String::new(), 4294967295);
    assert_eq!(view_id(&most, &keys()), "73629_4294967295_0_1");
}

#[test]
fn view_request_encodes_the_id() {
    let school = School(24966, "세종".to_string(), "세종과학고등학교".to_string(), 38232);
    // base64 of "73629_38232_0_1"
    assert_eq!(
        view_request(&school, &keys()),
        "http://comci.net:4082/36179?NzM2MjlfMzgyMzJfMF8x"
    );
}

#[test]
fn view_request_keeps_a_path_without_a_query() {
    let mut k = keys();
    k.url_piece = "36179".to_string();
    let school = School(1, String::new(), String::new(), 7);
    // base64 of "73629_7_0_1"
    assert_eq!(view_request(&school, &k), "http://comci.net:4082/36179?NzM2MjlfN18wXzE=");
}

fn response() -> String {
    let mut text = String::new();
    text.push_str("{\"자료446\":[\"\",\"김\",\"이\",\"박\"],");
    text.push_str("\"자료492\":[0,\"국어\",19,\"수학\"],");
    text.push_str("\"자료481\":[0,[0,[0,[0,1001,3002,2003],[0,3001]],[0,[0,1003]]]],");
    text.push_str("\"다른\":1.5}");
    text.push('\0');
    text.push('\0');
    text
}

#[test]
fn view_response_builds_the_timetable() {
    let school = School(24966, "세종".to_string(), "세종과학고등학교".to_string(), 38232);
    let data = view_response(&response(), &school, &keys()).unwrap();
    assert_eq!(data.name, "세종과학고등학교");
    assert_eq!(data.list_grades().len(), 1);
    let grade = data.grade(1);
    assert_eq!(grade.grade_num, 0);
    assert_eq!(grade.list_classes().len(), 2);
    let class = grade.class(1);
    assert_eq!(class.class_num, 0);
    assert_eq!(class.list_days().len(), 2);
    let day = class.day(1);
    let periods = day.list_periods();
    assert_eq!(periods.len(), 3);
    assert_eq!(periods[0].period_num, 0);
    assert_eq!(periods[0].subject, "국어");
    assert_eq!(periods[0].teacher, "김");
    assert_eq!(periods[1].period_num, 1);
    assert_eq!(periods[1].subject, "수학");
    assert_eq!(periods[1].teacher, "이");
    // the second subject is the number 19, which stands for no class
    assert_eq!(periods[2].period_num, 2);
    assert_eq!(periods[2].subject, "");
    assert_eq!(periods[2].teacher, "");
    let second = class.day(2).list_periods();
    assert_eq!(second.len(), 1);
    assert_eq!(second[0].subject, "수학");
    assert_eq!(second[0].teacher, "김");
    let other = grade.class(2);
    assert_eq!(other.class_num, 1);
    assert_eq!(other.day(1).list_periods()[0].teacher, "박");
}

fn plain_keys() -> RawSchoolDataKey {
    RawSchoolDataKey {
        timetable: "T".to_string(),
        subjects: "S".to_string(),
        teachers: "H".to_string(),
        encode_header: "73629_".to_string(),
        url_piece: "36179?17384l".to_string(),
    }
}

#[test]
fn view_response_reads_a_subject_string_as_it_is() {
    let school = School(1, "R".to_string(), "N".to_string(), 12345);
    let body = "{\"H\":[\"a\",\"b\"],\"S\":[\"\",\"x\"],\"T\":[0,[0,[0,[0,1000]]]]}";
    let data = view_response(body, &school, &plain_keys()).unwrap();
    assert_eq!(data.name, "N");
    assert_eq!(data.list_grades().len(), 1);
    assert_eq!(data.grade(1).list_classes().len(), 1);
    assert_eq!(data.grade(1).class(1).list_days().len(), 1);
    let periods = data.grade(1).class(1).day(1).list_periods();
    assert_eq!(periods.len(), 1);
    assert_eq!(periods[0].period_num, 0);
    assert_eq!(periods[0].subject, "x");
    assert_eq!(periods[0].teacher, "a");
}

#[test]
fn view_response_clears_the_empty_subject_whoever_teaches() {
    let school = School(1, "R".to_string(), "N".to_string(), 12345);
    let body = "{\"H\":[\"a\",\"b\",\"c\"],\"S\":[\"\",\"x\",\"19\",\"y\"],\"T\":[0,[0,[0,[0,2000,2001,2002]]]]}";
    let data = view_response(body, &school, &plain_keys()).unwrap();
    let periods = data.grade(1).class(1).day(1).list_periods();
    assert_eq!(periods.len(), 3);
    for (i, period) in periods.iter().enumerate() {
        assert_eq!(period.period_num as usize, i);
        assert_eq!(period.subject, "");
        assert_eq!(period.teacher, "");
    }
}

#[test]
fn view_response_never_decodes_a_placeholder() {
    let school = School(1, String::new(), "N".to_string(), 2);
    // the placeholders are a string, null, an object, an array and a number
    // that is no cell of the tables
    let mut body = String::new();
    body.push_str("{\"H\":[\"a\",\"b\"],\"S\":[null,\"x\",\"y\"],");
    body.push_str("\"T\":[\"pad\",[null,[{\"a\":1},[[9],1000,2001],[999999,2000]],[0,[0]]],[7]]}");
    let data = view_response(&body, &school, &plain_keys()).unwrap();
    let grades = data.list_grades();
    assert_eq!(grades.len(), 2);
    assert_eq!(grades[1].list_classes().len(), 0);
    let classes = grades[0].list_classes();
    assert_eq!(classes.len(), 2);
    let days = classes[0].list_days();
    assert_eq!(days.len(), 2);
    let first = days[0].list_periods();
    assert_eq!(first.len(), 2);
    assert_eq!((first[0].period_num, first[0].subject.as_str(), first[0].teacher.as_str()), (0, "x", "a"));
    assert_eq!((first[1].period_num, first[1].subject.as_str(), first[1].teacher.as_str()), (1, "y", "b"));
    let second = days[1].list_periods();
    assert_eq!(second.len(), 1);
    assert_eq!((second[0].period_num, second[0].subject.as_str(), second[0].teacher.as_str()), (0, "y", "a"));
    let other = classes[1].list_days();
    assert_eq!(other.len(), 1);
    assert_eq!(other[0].list_periods().len(), 0);
}

#[test]
fn view_response_keeps_the_escapes_of_a_subject_out() {
    let school = School(1, String::new(), "N".to_string(), 2);
    let body = "{\"H\":[\"a\"],\"S\":[0,\"a\\\"b\\n\",true],\"T\":[0,[0,[0,[0,1000,2000]]]]}";
    let data = view_response(body, &school, &plain_keys()).unwrap();
    let periods = data.grade(1).class(1).day(1).list_periods();
    assert_eq!(periods[0].subject, "a\"b\n");
    assert_eq!(periods[1].subject, "true");
}

#[test]
fn view_response_that_is_no_json_is_malformed() {
    let school = School(1, String::new(), "x".to_string(), 2);
    assert_eq!(view_response("not json", &school, &keys()), Err(ComciganError::MalformedPayload));
    assert_eq!(view_response("[]", &school, &keys()), Err(ComciganError::MalformedPayload));
}

#[test]
fn view_response_without_a_field_misses_it() {
    let school = School(1, String::new(), "x".to_string(), 2);
    let text = response().replace("자료492", "자료493");
    assert_eq!(view_response(&text, &school, &keys()), Err(ComciganError::MissingField));
    assert_eq!(view_response("{}", &school, &keys()), Err(ComciganError::MissingField));
}

#[test]
fn view_response_of_another_shape_is_malformed() {
    let school = School(1, String::new(), "x".to_string(), 2);
    let text = response().replace("[0,3001]", "[0,\"3001\"]");
    assert_eq!(view_response(&text, &school, &keys()), Err(ComciganError::MalformedPayload));
    let text = response().replace("[\"\",\"김\",\"이\",\"박\"]", "[\"\",\"김\",2,\"박\"]");
    assert_eq!(view_response(&text, &school, &keys()), Err(ComciganError::MalformedPayload));
    let text = response().replace("[0,\"국어\",19,\"수학\"]", "7");
    assert_eq!(view_response(&text, &school, &keys()), Err(ComciganError::MalformedPayload));
}

#[test]
fn view_response_with_a_cell_out_of_range_is_a_decoding_fault() {
    let school = School(1, String::new(), "x".to_string(), 2);
    let text = response().replace("3001", "4001");
    assert_eq!(view_response(&text, &school, &keys()), Err(ComciganError::CodeDecode));
    let text = response().replace("3001", "3004");
    assert_eq!(view_response(&text, &school, &keys()), Err(ComciganError::CodeDecode));
    let text = response().replace("3001", "1");
    assert_eq!(view_response(&text, &school, &keys()), Err(ComciganError::CodeDecode));
}
