use course_chat::lecture05::csv_processing::{CsvError, CsvTable};
use course_chat::lecture07::csv_processing::create_csv_table;

fn table(lines: &[&str]) -> CsvTable {
    let mut t = CsvTable::new();
    for line in lines {
        t.write(line.as_bytes()).unwrap();
    }
    t
}

#[test]
fn empty_table_renders_nothing() {
    let mut t = CsvTable::new();
    assert_eq!(t.output_to(), "");
}

#[test]
fn columns_line_up() {
    let mut t = table(&["name, age", "alice, 30", "bob,7"]);
    let out = t.output_to();
    assert_eq!(out, "name  | age\n-----------\nalice | 30 \nbob   | 7  ");
    let widths: Vec<usize> = out.lines().map(|l| l.chars().count()).collect();
    assert!(widths.iter().all(|w| *w == widths[0]));
}

#[test]
fn rendering_twice_gives_the_same_text() {
    let mut t = table(&["a,bb", "ccc,d"]);
    let first = t.output_to();
    let second = t.output_to();
    assert_eq!(first, second);
}

#[test]
fn blank_lines_are_skipped() {
    let mut t = CsvTable::new();
    assert_eq!(t.write(b"   \n").unwrap(), 4);
    assert_eq!(t.output_to(), "");
    assert_eq!(t.write(b"x\n").unwrap(), 2);
    assert_eq!(t.output_to(), "x\n-\n");
}

#[test]
fn wrong_number_of_columns_is_refused() {
    let mut t = table(&["a,b"]);
    match t.write(b"1,2,3") {
        Err(CsvError::InvalidInput { message }) => assert_eq!(message, "invalid number of columns"),
        _ => panic!("expected an error"),
    }
    assert_eq!(t.output_to(), "a | b\n-----\n");
}

#[test]
fn invalid_utf8_is_refused() {
    let mut t = CsvTable::new();
    match t.write(&[0xff, 0xfe]) {
        Err(CsvError::InvalidData { message }) => assert!(!message.is_empty()),
        _ => panic!("expected an error"),
    }
}

#[test]
fn unicode_widths_count_characters() {
    let mut t = table(&["é,x", "ab,y"]);
    assert_eq!(t.output_to(), "é  | x\n------\nab | y");
}

#[test]
fn csv_text_renders_as_table() {
    assert_eq!(create_csv_table("h1,h2\n1,2\n3\n"), "h1 | h2\n-------\n1  | 2 ");
    assert_eq!(create_csv_table(""), "");
}

#[test]
fn fits_rendering_small_table() {
    let t = table(&["a,b"]);
    assert!(t.fits_rendering());
    assert!(CsvTable::new().fits_rendering());
}

#[test]
fn stored_fields_carry_no_surrounding_space() {
    let mut t = table(&["  x ,\ty  ", " 1 ,2", "\u{a0}33\u{2003},  4 "]);
    assert_eq!(t.output_to(), "x  | y\n------\n1  | 2\n33 | 4");
}
