use course_chat::clock::{current_timestamp, log_file_name, log_file_name_at, log_file_name_for_date};
use course_chat::lecture07::commands::{file_read_error, get_text_transformer, Command};
use course_chat::lecture07::custom_errors::AppError as CommandError;
use course_chat::lecture07::extensions::OnlyFirstCliArg;
use course_chat::lecture13::anyhow_personal::{any_error, io_error, string_error, test_context};
use course_chat::lecture13::borrowed_error::MyError as BorrowedError;
use course_chat::lecture13::downcasting_errors::{process_num, MyErr};
use course_chat::lecture13::error_conversions::{number_in, MyError as FileNumberError};
use course_chat::lecture13::thiserror_personal::{test_app_error, try_parse, AppErr, MyError};
use course_chat::lecture13::with_anyhow::{ensure_ex, might_fail_anyhow, task_one, task_two, Failure};
use course_chat::lecture13::with_thiserror::{check_data, check_path, DataProcessingError};
use course_chat::lecture02::{arr, block_of_code, gimme, test_result, tuples};

#[test]
fn anyhow_results() {
    assert!(might_fail_anyhow(true).is_ok());
    assert_eq!(might_fail_anyhow(false).unwrap_err().chain, vec!["Fuck!".to_string()]);
    assert_eq!(ensure_ex().unwrap_err().message(), "bad :(");
    assert_eq!(task_one().unwrap_err().chain, vec!["task one failed!".to_string()]);
    let e = task_two().unwrap_err();
    assert_eq!(e.message(), "task two failed with executing task one");
    assert_eq!(e.chain.last().unwrap(), "task one failed!");
    assert_eq!(e.chain.len(), 2);
    assert!(string_error(true).is_ok());
    assert_eq!(string_error(false).unwrap_err().message(), "string error");
    assert!(io_error(true).is_ok());
    assert_eq!(io_error(false).unwrap_err().message(), "io error");
    assert_eq!(any_error().unwrap_err().chain, vec!["io error".to_string()]);
}

#[test]
fn parse_with_context() {
    assert_eq!(test_context("12").unwrap(), 12);
    let e = test_context("1a").unwrap_err();
    assert_eq!(e.message(), "cannot parse '1a'");
    assert_eq!(e.chain[1], "invalid digit found in string");
    assert_eq!(e.chain.len(), 2);
    let a = test_context("99999999999").unwrap_err();
    assert_eq!(a.chain[1], "number too large to fit in target type");
    let chained = task_two().unwrap_err().into_anyhow();
    assert_eq!(chained.to_string(), "task two failed with executing task one");
    assert_eq!(chained.root_cause().to_string(), "task one failed!");
    assert_eq!(chained.chain().count(), 2);
    let context = Failure::msg("root").context("outer".to_string());
    assert_eq!(context.chain, vec!["outer".to_string(), "root".to_string()]);
}

#[test]
fn parse_errors() {
    assert_eq!(try_parse("-7").ok(), Some(-7));
    let e = try_parse("x").unwrap_err();
    assert_eq!(e.message(), "cannot be parsed: invalid digit found in string");
    assert!(matches!(e, MyError::NotParsable(_)));
    match test_app_error() {
        Err(AppErr::InvalidNum { expected, found }) => {
            assert_eq!((expected, found), (0, 10));
        }
        _ => panic!(),
    }
    assert_eq!(
        AppErr::InvalidNum { expected: 0, found: -10 }.message(),
        "Invalid number (expected: 0, found: -10)"
    );
    assert_eq!(process_num("42"), Ok("Num: 42".to_string()));
    assert_eq!(process_num("-3"), Ok("Num: -3".to_string()));
    assert_eq!(process_num(""), Err("cannot parse integer from empty string".to_string()));
    assert_eq!(process_num("-"), Err("invalid digit found in string".to_string()));
    assert_eq!(try_parse("-99999999999").unwrap_err().message(), "cannot be parsed: number too small to fit in target type");
    match try_parse("12x") {
        Err(MyError::NotParsable(f)) => {
            assert_eq!(f.message, f.error.to_string());
            assert_eq!(AppErr::NotParsable(f).message(), "Cannot parse 'invalid digit found in string' - invalid number");
        }
        _ => panic!(),
    }
    assert_eq!(number_in(" 17\n").ok(), Some(17));
    assert!(matches!(number_in("seventeen"), Err(FileNumberError::Parse(_))));
}

#[test]
fn error_texts() {
    assert_eq!(BorrowedError { message: "oops" }.display(), "MyError: oops");
    assert_eq!(MyErr.display(), "MyErr");
    assert_eq!(DataProcessingError::NotFound("x".to_string()).message(), "Data not found: x");
    assert_eq!(DataProcessingError::InvalidFormat.message(), "Invalid data format");
    assert_eq!(DataProcessingError::StructLike { name: "n".to_string() }.message(), "Lol: n");
    assert!(matches!(check_path(""), Err(DataProcessingError::NotFound(p)) if p.is_empty()));
    assert!(check_path("a.txt").is_ok());
    assert!(matches!(check_data(""), Err(DataProcessingError::InvalidFormat)));
    assert!(check_data("x").is_ok());
}

#[test]
fn commands() {
    let t = get_text_transformer("scream").unwrap();
    assert!(!t.reads_file());
    assert_eq!(Command::new(t, "hi".to_string()).apply(), "hi!!!\n");
    match get_text_transformer("nope") {
        Err(CommandError::InvalidCliArgument { message }) => assert_eq!(
            message,
            "Invalid argument 'nope'. Allowed are: lowercase | uppercase | no-spaces | slugify | scream | reverse | csv"
        ),
        _ => panic!(),
    }
    let (t, input) = Command::try_from_line("reverse abc def", None).unwrap();
    assert_eq!(Command::new(t, input).apply(), "cba\n");
    let (t, input) = Command::try_from_line("  Some Text  ", Some(" lowercase ")).unwrap();
    assert_eq!(Command::new(t, input).apply(), "some text\n");
    assert!(matches!(Command::try_from_line("scream", None), Err(CommandError::MissingArgument)));
    let csv = get_text_transformer("csv").unwrap();
    assert!(csv.reads_file());
    assert_eq!(Command::new(csv, "a,b\n1,2".to_string()).apply(), "a | b\n-----\n1 | 2\n");
    match file_read_error("f.csv", "No such file") {
        CommandError::FileRead { message } => assert_eq!(message, "Unable to read 'f.csv'. No such file"),
        _ => panic!(),
    }
    assert_eq!(CommandError::MissingCommand.message(), "Missing command.");
    assert_eq!(CommandError::MissingArgument.message(), "Missing argument for command.");
    assert_eq!(vec!["p".to_string(), "a".to_string()].only_first_provided(), Some("a".to_string()));
}

#[test]
fn clock_texts() {
    let stamp = current_timestamp().unwrap();
    assert!(stamp.len() >= 13 && stamp.chars().all(|c| c.is_ascii_digit()));
    assert_eq!(log_file_name_for_date(1, 2, 2024), "01-02-2024.log");
    assert_eq!(log_file_name_for_date(31, 12, 999), "31-12-0999.log");
    assert_eq!(log_file_name_for_date(5, 11, 12345), "05-11-+12345.log");
    assert_eq!(log_file_name_for_date(5, 11, -44), "05-11--0044.log");
    assert_eq!(log_file_name_at(0), Some("01-01-1970.log".to_string()));
    assert_eq!(log_file_name_at(1_431_648_000), Some("15-05-2015.log".to_string()));
    assert_eq!(log_file_name_at(-86_400), Some("31-12-1969.log".to_string()));
    assert_eq!(log_file_name_at(8_210_266_876_799), Some("31-12-+262142.log".to_string()));
    assert_eq!(log_file_name_at(8_210_266_876_800), None);
    assert_eq!(log_file_name_at(i64::MAX), None);
    let name = log_file_name().unwrap();
    let today = chrono::Utc::now().format("%d-%m-%Y").to_string() + ".log";
    assert!(name == today || name.len() == today.len());
    assert!(name.ends_with(".log"));
    assert_eq!(name.len(), "dd-mm-yyyy.log".len());
}

#[test]
fn small_exercises() {
    assert_eq!(gimme(), None);
    block_of_code();
    tuples();
    arr();
    test_result();
}
