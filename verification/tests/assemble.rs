use comcigan_rs::assembler::{assemble, cube_within_limit, LEVEL_LIMIT};
use comcigan_rs::class::Period;
use comcigan_rs::data::RawSchoolData;
use comcigan_rs::error::ComciganError;

fn table(names: &[&str]) -> Vec<String> {
    names.iter().map(|s| s.to_string()).collect()
}

fn data(timetable: Vec<Vec<Vec<Vec<u32>>>>) -> RawSchoolData {
    RawSchoolData {
        timetable,
        subjects: table(&["x", "19", "y"]),
        teachers: table(&["a", "b", "c"]),
    }
}

#[test]
fn a_single_cell_becomes_a_single_period_numbered_zero() {
    let school = assemble("학교", &data(vec![vec![vec![vec![3002]]]])).unwrap();
    assert_eq!(school.name, "학교");
    let grades = school.list_grades();
    assert_eq!(grades.len(), 1);
    assert_eq!(grades[0].grade_num, 0);
    let classes = grades[0].list_classes();
    assert_eq!(classes.len(), 1);
    assert_eq!(classes[0].class_num, 0);
    let days = classes[0].list_days();
    assert_eq!(days.len(), 1);
    assert_eq!(days[0].number(), 0);
    assert_eq!(
        days[0].periods,
        vec![Period { period_num: 0, subject: "y".to_string(), teacher: "c".to_string() }]
    );
}

#[test]
fn every_level_is_numbered_by_position() {
    let cube = vec![
        vec![vec![vec![1000, 1001], vec![1002]], vec![vec![3000]]],
        vec![vec![vec![], vec![2001, 3001, 1001]]],
    ];
    let school = assemble("s", &data(cube.clone())).unwrap();
    let grades = school.list_grades();
    assert_eq!(grades.len(), cube.len());
    for (g, grade) in grades.iter().enumerate() {
        assert_eq!(grade.grade_num as usize, g);
        let classes = grade.list_classes();
        assert_eq!(classes.len(), cube[g].len());
        for (c, class) in classes.iter().enumerate() {
            assert_eq!(class.class_num as usize, c);
            let days = class.list_days();
            assert_eq!(days.len(), cube[g][c].len());
            for (d, day) in days.iter().enumerate() {
                assert_eq!(day.number() as usize, d);
                assert_eq!(day.periods.len(), cube[g][c][d].len());
                for (p, period) in day.periods.iter().enumerate() {
                    assert_eq!(period.period_num as usize, p);
                }
            }
        }
    }
    let last = school.grade(2).class(1).day(2).list_periods();
    assert_eq!(last[0].subject, "");
    assert_eq!(last[0].teacher, "");
    assert_eq!(last[1].subject, "y");
    assert_eq!(last[1].teacher, "b");
    assert_eq!(last[2].subject, "x");
    assert_eq!(last[2].teacher, "b");
}

#[test]
fn an_empty_timetable_is_a_school_without_grades() {
    let school = assemble("s", &data(vec![])).unwrap();
    assert_eq!(school.list_grades().len(), 0);
    let school = assemble("s", &data(vec![vec![]])).unwrap();
    assert_eq!(school.list_grades().len(), 1);
    assert_eq!(school.grade(1).list_classes().len(), 0);
}

#[test]
fn a_cell_out_of_range_is_a_decoding_fault() {
    assert_eq!(assemble("s", &data(vec![vec![vec![vec![5]]]])), Err(ComciganError::CodeDecode));
    assert_eq!(
        assemble("s", &data(vec![vec![vec![vec![1000, 4000]]]])),
        Err(ComciganError::CodeDecode)
    );
    assert_eq!(
        assemble("s", &data(vec![vec![vec![vec![1000]]], vec![vec![vec![1003]]]])),
        Err(ComciganError::CodeDecode)
    );
}

#[test]
fn a_level_with_more_entries_than_numbers_is_malformed() {
    assert_eq!(LEVEL_LIMIT, 256);
    let full: Vec<u32> = vec![1000; 256];
    let school = assemble("s", &data(vec![vec![vec![full.clone()]]])).unwrap();
    let periods = school.grade(1).class(1).day(1).list_periods();
    assert_eq!(periods.len(), 256);
    assert_eq!(periods[255].period_num, 255);
    let over: Vec<u32> = vec![1000; 257];
    assert!(!cube_within_limit(&vec![vec![vec![over.clone()]]]));
    assert!(cube_within_limit(&vec![vec![vec![full]]]));
    assert_eq!(
        assemble("s", &data(vec![vec![vec![over]]])),
        Err(ComciganError::MalformedPayload)
    );
    let many_grades: Vec<Vec<Vec<Vec<u32>>>> = vec![vec![]; 257];
    assert_eq!(assemble("s", &data(many_grades)), Err(ComciganError::MalformedPayload));
}

#[test]
fn the_size_is_judged_before_the_cells() {
    let over: Vec<u32> = vec![1000; 257];
    assert_eq!(
        assemble("s", &data(vec![vec![vec![vec![5]]], vec![vec![over]]])),
        Err(ComciganError::MalformedPayload)
    );
}
