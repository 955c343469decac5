use toml_path::parse::{
    bracket_index_list, bracket_name_list, number, op, range, space_colon_space,
};
use toml_path::path::{Index, Op, Range};

#[test]
fn test_positive_number() {
    let input = "1";
    let expected = Some((1, 1));
    let result = number(input, 0);
    assert_eq!(expected, result);
}

#[test]
fn test_zero() {
    let input = "0";
    let expected = Some((0, 1));
    let result = number(input, 0);
    assert_eq!(expected, result);
    assert_eq!(input.chars().count(), result.unwrap().1);
}

#[test]
fn test_negative_number() {
    let input = "-1";
    let expected = Some((-1, 2));
    let result = number(input, 0);
    assert_eq!(expected, result);
    assert_eq!(input.chars().count(), result.unwrap().1);
}

#[test]
fn test_space_colon_space_1() {
    let input = ":";
    let result = space_colon_space(input, 0);
    assert_eq!(Some(1), result);
}

#[test]
fn test_space_colon_space_2() {
    let input = " :";
    let result = space_colon_space(input, 0);
    assert_eq!(Some(2), result);
}

#[test]
fn test_space_colon_space_3() {
    let input = ": ";
    let result = space_colon_space(input, 0);
    assert_eq!(Some(2), result);
}

#[test]
fn test_space_colon_space_4() {
    let input = " : ";
    let result = space_colon_space(input, 0);
    assert_eq!(Some(3), result);
}

#[test]
fn test_range() {
    let input = "1:3";
    let expected = Some((Range::new(1, 3), 3));
    let result = range(input, 0);
    assert_eq!(expected, result);
    assert_eq!(input.chars().count(), result.unwrap().1);
}

#[test]
fn test_bracket_range_list_one_item() {
    let input = "1:4";
    let expected = Some((
        Op::BracketIndex(vec![Index::Range(Range::new(1, 4))]),
        input.chars().count(),
    ));
    let result = bracket_index_list(input, 0);
    assert_eq!(expected, result);
}

#[test]
fn test_bracket_range_list_one_item_trailing_comma() {
    let input = "1:4,";
    let expected = Some((
        Op::BracketIndex(vec![Index::Range(Range::new(1, 4))]),
        input.chars().count(),
    ));
    let result = bracket_index_list(input, 0);
    assert_eq!(expected, result);
}

#[test]
fn test_bracket_range_list_multiple_items() {
    let input = "1:2, 2:3, 3, 4";
    let expected = Some((
        Op::BracketIndex(vec![
            Index::Range(Range::new(1, 2)),
            Index::Range(Range::new(2, 3)),
            Index::Number(3),
            Index::Number(4),
        ]),
        input.chars().count(),
    ));
    let result = bracket_index_list(input, 0);
    assert_eq!(expected, result);
}

#[test]
fn test_bracket_range_list_no_space() {
    let input = "1:1,2:2,3:3";
    let expected = Some((
        Op::BracketIndex(vec![
            Index::Range(Range::new(1, 1)),
            Index::Range(Range::new(2, 2)),
            Index::Range(Range::new(3, 3)),
        ]),
        input.chars().count(),
    ));
    let result = bracket_index_list(input, 0);
    assert_eq!(expected, result);
}

#[test]
fn test_bracket_range_list_trailing_comma() {
    let input = "0:1,1:2,2:3,";
    let expected = Some((
        Op::BracketIndex(vec![
            Index::Range(Range::new(0, 1)),
            Index::Range(Range::new(1, 2)),
            Index::Range(Range::new(2, 3)),
        ]),
        input.chars().count(),
    ));
    let result = bracket_index_list(input, 0);
    assert_eq!(expected, result);
}

#[test]
fn test_bracket_range_list_negatives() {
    let input = "0:1, 0:-2,-2, -3";
    let expected = Some((
        Op::BracketIndex(vec![
            Index::Range(Range::new(0, 1)),
            Index::Range(Range::new(0, -2)),
            Index::Number(-2),
            Index::Number(-3),
        ]),
        input.chars().count(),
    ));
    let result = bracket_index_list(input, 0);
    assert_eq!(expected, result);
}

#[test]
fn test_bracket_num_list_one_item() {
    let input = "1";
    let expected = Some((Op::BracketIndex(vec![Index::Number(1)]), 1));
    let result = bracket_index_list(input, 0);
    assert_eq!(expected, result);
}

#[test]
fn test_bracket_num_list_one_item_trailing_comma() {
    let input = "1,";
    let expected = Some((Op::BracketIndex(vec![Index::Number(1)]), 2));
    let result = bracket_index_list(input, 0);
    assert_eq!(expected, result);
}

#[test]
fn test_bracket_num_list_multiple_items() {
    let input = "1, 2, 3";
    let expected = Some((
        Op::BracketIndex(vec![Index::Number(1), Index::Number(2), Index::Number(3)]),
        input.chars().count(),
    ));
    let result = bracket_index_list(input, 0);
    assert_eq!(expected, result);
}

#[test]
fn test_bracket_num_list_no_space() {
    let input = "1,2,3";
    let expected = Some((
        Op::BracketIndex(vec![Index::Number(1), Index::Number(2), Index::Number(3)]),
        input.chars().count(),
    ));
    let result = bracket_index_list(input, 0);
    assert_eq!(expected, result);
}

#[test]
fn test_bracket_num_list_trailing_comma() {
    let input = "1,2,3,";
    let expected = Some((
        Op::BracketIndex(vec![Index::Number(1), Index::Number(2), Index::Number(3)]),
        input.chars().count(),
    ));
    let result = bracket_index_list(input, 0);
    assert_eq!(expected, result);
}

#[test]
fn test_bracket_num_list_negatives() {
    let input = "1, -2,-3";
    let expected = Some((
        Op::BracketIndex(vec![Index::Number(1), Index::Number(-2), Index::Number(-3)]),
        input.chars().count(),
    ));
    let result = bracket_index_list(input, 0);
    assert_eq!(expected, result);
}

#[test]
fn test_bracket_name_list_one_item() {
    let input = "\"1\"";
    let expected = Some((Op::BracketName(vec![String::from("1")]), 3));
    let result = bracket_name_list(input, 0);
    assert_eq!(expected, result);
}

#[test]
fn test_bracket_name_list_one_item_trailing_comma() {
    let input = "\"1\",";
    let expected = Some((Op::BracketName(vec![String::from("1")]), 4));
    let result = bracket_name_list(input, 0);
    assert_eq!(expected, result);
}

#[test]
fn test_bracket_name_list_multiple_items() {
    let input = "\"1\", \"2\", \"3\"";
    let expected = Some((
        Op::BracketName(vec![
            String::from("1"),
            String::from("2"),
            String::from("3"),
        ]),
        input.chars().count(),
    ));
    let result = bracket_name_list(input, 0);
    assert_eq!(expected, result);
}

#[test]
fn test_bracket_name_list_no_space() {
    let input = "\"1\",\"2\",\"3\"";
    let expected = Some((
        Op::BracketName(vec![
            String::from("1"),
            String::from("2"),
            String::from("3"),
        ]),
        input.chars().count(),
    ));
    let result = bracket_name_list(input, 0);
    assert_eq!(expected, result);
}

#[test]
fn test_bracket_name_list_trailing_comma() {
    let input = "\"1\",\"2\",\"3\",";
    let expected = Some((
        Op::BracketName(vec![
            String::from("1"),
            String::from("2"),
            String::from("3"),
        ]),
        input.chars().count(),
    ));
    let result = bracket_name_list(input, 0);
    assert_eq!(expected, result);
}

#[test]
fn test_op_dot() {
    let input = ".";
    let expected = Some((Op::Dot, 1));
    let result = op(input, 0);
    assert_eq!(expected, result);
}

#[test]
fn test_op_name() {
    let input = "name";
    let expected = Some((Op::Name(String::from("name")), 4));
    let result = op(input, 0);
    assert_eq!(expected, result);
}

#[test]
fn test_op_bracket_name_list() {
    let input = "[\"name\"]";
    let expected = Some((
        Op::BracketName(vec![String::from("name")]),
        input.chars().count(),
    ));
    let result = op(input, 0);
    assert_eq!(expected, result);
}

#[test]
fn test_op_bracket_num_list() {
    let input = "[1, 2, 3]";
    let expected = Some((
        Op::BracketIndex(vec![Index::Number(1), Index::Number(2), Index::Number(3)]),
        input.chars().count(),
    ));
    let result = op(input, 0);
    assert_eq!(expected, result);
}

#[test]
fn test_op_bracket_range() {
    let input = "[1:4]";
    let expected = Some((
        Op::BracketIndex(vec![Index::Range(Range::new(1, 4))]),
        input.chars().count(),
    ));
    let result = op(input, 0);
    assert_eq!(expected, result);
}
