use polars::prelude::Series;
use rust_tesseract::error::OcrError;
use rust_tesseract::output::{merge_outputs, parse_box_records, parse_output, ModelOutput};

fn column(s: &Series) -> (String, Vec<i32>) {
    let values = s.i32().unwrap();
    let mut v = Vec::new();
    for i in 0..s.len() {
        v.push(values.get(i).unwrap());
    }
    (s.name().to_string(), v)
}

fn strings(v: &[&str]) -> Vec<String> {
    v.iter().map(|s| s.to_string()).collect()
}

#[test]
fn empty_output_holds_nothing() {
    let out = ModelOutput::new();
    assert_eq!(out.output_info, "");
    assert!(out.output_bytes.is_empty());
    assert!(out.output_dict.is_empty());
    assert_eq!(out.output_string, "");
    assert!(out.output_dataframe.is_empty());
    assert_eq!(out.to_string(), "");
}

#[test]
fn box_mode_parsing_of_two_characters() {
    let out = parse_output(String::new(), String::from("A 10 20 30 40\nB 11 21 31 41"), true).unwrap();
    assert_eq!(out.output_dict.len(), 2);
    assert_eq!(out.output_dict.get_vec("A"), Some(&strings(&["10 20 30 40"])));
    assert_eq!(out.output_dict.get_vec("B"), Some(&strings(&["11 21 31 41"])));
    assert_eq!(out.output_dataframe.len(), 2);
    assert_eq!(column(&out.output_dataframe[0]), (String::from("A"), vec![10, 20, 30, 40]));
    assert_eq!(column(&out.output_dataframe[1]), (String::from("B"), vec![11, 21, 31, 41]));
    assert_eq!(out.output_string, "A 10 20 30 40\nB 11 21 31 41");
    assert_eq!(out.output_bytes, b"A 10 20 30 40\nB 11 21 31 41".to_vec());
}

#[test]
fn text_mode_parsing_of_hello_world() {
    let out = parse_output(String::from("\ninfo"), String::from("hello world"), false).unwrap();
    assert_eq!(out.output_string, "hello world");
    assert_eq!(out.to_string(), "hello world");
    assert_eq!(out.output_bytes, b"hello world".to_vec());
    assert_eq!(out.output_info, "\ninfo");
    assert!(out.output_dict.is_empty());
    assert!(out.output_dataframe.is_empty());
}

#[test]
fn text_mode_does_not_read_box_lines() {
    let out = parse_output(String::new(), String::from("A 10 20\nB x y"), false).unwrap();
    assert!(out.output_dict.is_empty());
    assert!(out.output_dataframe.is_empty());
    assert_eq!(out.output_string, "A 10 20\nB x y");
}

#[test]
fn text_mode_keeps_the_bytes_of_other_scripts() {
    let out = parse_output(String::new(), String::from("汉字 é"), false).unwrap();
    assert_eq!(out.output_bytes, "汉字 é".as_bytes().to_vec());
}

#[test]
fn a_repeated_character_collects_its_boxes_in_order() {
    let text = "l 1 2 3 4 0\no 5 6 7 8 0\nl 9 10 11 12 0\n";
    let out = parse_output(String::new(), String::from(text), true).unwrap();
    assert_eq!(out.output_dict.len(), 2);
    assert_eq!(out.output_dict.get_vec("l"), Some(&strings(&["1 2 3 4 0", "9 10 11 12 0"])));
    assert_eq!(out.output_dict.get_vec("o"), Some(&strings(&["5 6 7 8 0"])));
    assert_eq!(out.output_dataframe.len(), 3);
    assert_eq!(column(&out.output_dataframe[0]), (String::from("l"), vec![1, 2, 3, 4, 0]));
    assert_eq!(column(&out.output_dataframe[1]), (String::from("o"), vec![5, 6, 7, 8, 0]));
    assert_eq!(column(&out.output_dataframe[2]), (String::from("l"), vec![9, 10, 11, 12, 0]));
}

#[test]
fn lines_without_a_space_and_blank_lines_describe_nothing() {
    let text = "\nheader\n   \nA 1 2\n \r\n\t \n";
    let records = parse_box_records(text).unwrap();
    assert_eq!(records.len(), 1);
    assert_eq!(records[0].key, "A");
    assert_eq!(records[0].rest, "1 2");
    assert_eq!(records[0].values, vec![1, 2]);
}

#[test]
fn box_lines_may_end_with_carriage_return_and_line_feed() {
    let records = parse_box_records("A 1 2\r\nB -3 +4\r\n").unwrap();
    assert_eq!(records.len(), 2);
    assert_eq!(records[1].key, "B");
    assert_eq!(records[1].rest, "-3 +4");
    assert_eq!(records[1].values, vec![-3, 4]);
}

#[test]
fn a_key_may_be_any_token_before_the_first_space() {
    let records = parse_box_records("汉 1 2 3 4\nfi 5 6 7 8\n~ 9").unwrap();
    assert_eq!(records.len(), 3);
    assert_eq!(records[0].key, "汉");
    assert_eq!(records[1].key, "fi");
    assert_eq!(records[2].key, "~");
    assert_eq!(records[2].values, vec![9]);
}

#[test]
fn a_malformed_coordinate_fails_the_whole_reading() {
    for text in [
        "A 10 2x 30 40",
        "A 10 20\nB 1 two",
        "A 10  20",
        "A 10 20 ",
        "A ",
        "  10 20",
        "A 99999999999",
        "A 1.5",
        "A 10 20\r",
    ] {
        assert_eq!(parse_box_records(text).err(), Some(OcrError::CoordinateParseFailure), "{:?}", text);
        assert_eq!(
            parse_output(String::new(), String::from(text), true).err(),
            Some(OcrError::CoordinateParseFailure)
        );
    }
}

#[test]
fn a_line_that_starts_with_a_space_has_the_empty_key() {
    let records = parse_box_records(" 10 20").unwrap();
    assert_eq!(records.len(), 1);
    assert_eq!(records[0].key, "");
    assert_eq!(records[0].rest, "10 20");
    assert_eq!(records[0].values, vec![10, 20]);
}

#[test]
fn an_empty_box_file_gives_no_records() {
    let out = parse_output(String::from("i"), String::new(), true).unwrap();
    assert!(out.output_dict.is_empty());
    assert!(out.output_dataframe.is_empty());
    assert_eq!(out.output_info, "i");
}

#[test]
fn merging_takes_text_from_one_and_boxes_from_the_other() {
    let text = parse_output(String::from("\nt"), String::from("AB"), false).unwrap();
    let boxes = parse_output(String::from("\nb"), String::from("A 1 2 3 4\nB 5 6 7 8"), true).unwrap();
    let out = merge_outputs(text, boxes);
    assert_eq!(out.output_info, "\nt");
    assert_eq!(out.output_string, "AB");
    assert_eq!(out.output_bytes, b"AB".to_vec());
    assert_eq!(out.output_dict.get_vec("A"), Some(&strings(&["1 2 3 4"])));
    assert_eq!(out.output_dict.get_vec("B"), Some(&strings(&["5 6 7 8"])));
    assert_eq!(out.output_dataframe.len(), 2);
    assert_eq!(column(&out.output_dataframe[1]), (String::from("B"), vec![5, 6, 7, 8]));
}
