use comcigan_rs::json::{parse_json, JsonNumber, JsonValue};
use comcigan_rs::shape::read_cube;
use comcigan_rs::util::pop_first_element;

fn number(n: u64) -> JsonValue {
    JsonValue::Number(JsonNumber::Unsigned(n))
}

fn text(s: &str) -> JsonValue {
    JsonValue::String(s.to_string())
}

#[test]
fn trim_drops_the_placeholder_of_every_level() {
    // [[PAD],[PAD,[[PAD,5019],[PAD,1002]]]]
    let pad = || number(0);
    let raw = JsonValue::Array(vec![
        JsonValue::Array(vec![pad()]),
        JsonValue::Array(vec![
            pad(),
            JsonValue::Array(vec![
                JsonValue::Array(vec![pad(), number(5019)]),
                JsonValue::Array(vec![pad(), number(1002)]),
            ]),
        ]),
    ]);
    let expected = JsonValue::Array(vec![JsonValue::Array(vec![JsonValue::Array(vec![
        JsonValue::Array(vec![number(1002)]),
    ])])]);
    assert_eq!(pop_first_element(&raw), expected);
    assert_eq!(read_cube(&expected), Some(vec![vec![vec![vec![1002]]]]));
}

#[test]
fn trim_never_hands_a_placeholder_to_the_reader() {
    let raw = parse_json("[9,[9,[9,[9,1001,2002],[9,1003]],[9,[9,3001]]],[9,[9,[9]]]]").unwrap();
    let cube = read_cube(&pop_first_element(&raw)).unwrap();
    assert_eq!(
        cube,
        vec![
            vec![vec![vec![1001, 2002], vec![1003]], vec![vec![3001]]],
            vec![vec![vec![]]],
        ]
    );
}

#[test]
fn trim_leaves_scalars_alone() {
    assert_eq!(pop_first_element(&number(7)), number(7));
    assert_eq!(pop_first_element(&text("a")), text("a"));
    assert_eq!(pop_first_element(&JsonValue::Null), JsonValue::Null);
    assert_eq!(pop_first_element(&JsonValue::Bool(true)), JsonValue::Bool(true));
}

#[test]
fn trim_leaves_objects_alone() {
    let object = JsonValue::Object(vec![(
        "a".to_string(),
        JsonValue::Array(vec![number(1), number(2)]),
    )]);
    assert_eq!(pop_first_element(&object), object);
    let inside = JsonValue::Array(vec![number(0), object]);
    let expected = JsonValue::Array(vec![JsonValue::Object(vec![(
        "a".to_string(),
        JsonValue::Array(vec![number(1), number(2)]),
    )])]);
    assert_eq!(pop_first_element(&inside), expected);
}

#[test]
fn trim_of_a_flat_array_drops_one_element() {
    let subjects = JsonValue::Array(vec![number(0), text("국어"), text("수학")]);
    assert_eq!(
        pop_first_element(&subjects),
        JsonValue::Array(vec![text("국어"), text("수학")])
    );
}

#[test]
fn trim_of_an_empty_array_is_empty() {
    assert_eq!(pop_first_element(&JsonValue::Array(vec![])), JsonValue::Array(vec![]));
    assert_eq!(
        pop_first_element(&JsonValue::Array(vec![number(0)])),
        JsonValue::Array(vec![])
    );
    assert_eq!(
        pop_first_element(&JsonValue::Array(vec![number(0), JsonValue::Array(vec![])])),
        JsonValue::Array(vec![JsonValue::Array(vec![])])
    );
}

#[test]
fn trim_is_one_level_and_then_the_levels_below() {
    let raw = parse_json("[0,[0,1,2],[0,[0,3]],4]").unwrap();
    // one level: drop the first element of the outermost array
    let once = match &raw {
        JsonValue::Array(items) => JsonValue::Array(items[1..].to_vec()),
        _ => unreachable!(),
    };
    // then one level deeper: trim each element that is left
    let below = match &once {
        JsonValue::Array(items) => JsonValue::Array(items.iter().map(pop_first_element).collect()),
        _ => unreachable!(),
    };
    assert_eq!(pop_first_element(&raw), below);
    assert_eq!(below, parse_json("[[1,2],[[3]],4]").unwrap());
}

#[test]
fn trim_twice_drops_two() {
    let raw = parse_json("[0,1,2,3]").unwrap();
    let once = pop_first_element(&raw);
    assert_eq!(once, parse_json("[1,2,3]").unwrap());
    assert_eq!(pop_first_element(&once), parse_json("[2,3]").unwrap());
}
