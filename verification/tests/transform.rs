use course_chat::lecture02::{argument_count_problem, get_string_modifier, respond_to_line};
use course_chat::lecture05::custom_errors::AppError;
use course_chat::lecture05::helpers::{InputSession, LineOutcome, OnlyFirstCliArg, TextTransformer};
use course_chat::transform::{allowed_names_text, select, transform, Transformation};

#[test]
fn transformations() {
    assert_eq!(transform(Transformation::Lowercase, "HeLLo ÄÖ"), "hello äö");
    assert_eq!(transform(Transformation::Uppercase, "straße"), "STRASSE");
    assert_eq!(transform(Transformation::NoSpaces, " a b  c "), "abc");
    assert_eq!(transform(Transformation::Slugify, "My Test String!!!1!1"), "my-test-string-1-1");
    assert_eq!(transform(Transformation::Scream, "hey"), "hey!!!");
    assert_eq!(transform(Transformation::Reverse, "abc→d"), "d→cba");
    assert_eq!(transform(Transformation::Csv, "a,b"), "a,b");
}

#[test]
fn names_select_transformations() {
    assert_eq!(select("scream", false), Some(Transformation::Scream));
    assert_eq!(select("csv", false), None);
    assert_eq!(select("csv", true), Some(Transformation::Csv));
    assert_eq!(select("Scream", true), None);
    assert_eq!(allowed_names_text(false), "lowercase | uppercase | no-spaces | slugify | scream | reverse");
}

#[test]
fn unknown_method_is_refused() {
    match TextTransformer::new("shout") {
        Err(AppError::InvalidCliArgument { message }) => assert_eq!(
            message,
            "Invalid argument: 'shout'\nAllowed arguments: lowercase | uppercase | no-spaces | slugify | scream | reverse | csv"
        ),
        _ => panic!(),
    }
}

#[test]
fn apply_writes_a_line() {
    let t = TextTransformer::new("uppercase").ok().unwrap();
    assert_eq!(t.method_name, "uppercase");
    assert_eq!(t.apply("abc"), "ABC\n");
    assert!(!t.is_csv());
}

#[test]
fn session_transforms_until_exit() {
    let t = TextTransformer::new("reverse").ok().unwrap();
    let mut s = InputSession::new(t);
    assert_eq!(s.prompt(), "Provide your input. Type 'exit' for exiting the program.");
    match s.on_line("  abc ").ok().unwrap() {
        LineOutcome::Write(x) => assert_eq!(x, "cba\n"),
        _ => panic!(),
    }
    match s.on_line("exit").ok().unwrap() {
        LineOutcome::Finish(x) => assert_eq!(x, ""),
        _ => panic!(),
    }
}

#[test]
fn csv_session_shows_table_at_exit() {
    let t = TextTransformer::new("csv").ok().unwrap();
    let mut s = InputSession::new(t);
    for line in ["x, y", "10,20"] {
        match s.on_line(line).ok().unwrap() {
            LineOutcome::Write(x) => assert_eq!(x, ""),
            _ => panic!(),
        }
    }
    match s.on_line("1,2,3") {
        Err(AppError::OnOutput(m)) => assert_eq!(m, "invalid number of columns"),
        _ => panic!(),
    }
    match s.on_line("exit").ok().unwrap() {
        LineOutcome::Finish(x) => assert_eq!(x, "x  | y \n-------\n10 | 20"),
        _ => panic!(),
    }
}

#[test]
fn app_error_messages() {
    assert_eq!(AppError::MissingCliArgument.message(), "Missing CLI argument.");
    assert_eq!(AppError::OnOutput("boom".to_string()).message(), "boom");
}

#[test]
fn only_first_argument() {
    let args = vec!["prog".to_string(), "one".to_string(), "two".to_string()];
    assert_eq!(args.only_first_provided(), Some("one".to_string()));
    assert_eq!(vec!["prog".to_string()].only_first_provided(), None);
}

#[test]
fn string_modifier_and_argument_count() {
    assert_eq!(get_string_modifier("reverse"), Some(Transformation::Reverse));
    assert_eq!(get_string_modifier("csv"), None);
    assert_eq!(argument_count_problem(0), Some("No argument provided.".to_string()));
    assert_eq!(argument_count_problem(1), None);
    assert_eq!(
        argument_count_problem(2),
        Some("Too much arguments provided. Only one argument is allowed.".to_string())
    );
}

#[test]
fn reversing_twice_gives_the_text_back() {
    for s in ["", "a", "abc→d", "hello world"] {
        let once = transform(Transformation::Reverse, s);
        assert_eq!(transform(Transformation::Reverse, &once), s);
    }
}

#[test]
fn removing_spaces_twice_changes_nothing_more() {
    for s in ["", " ", " a b  c ", "abc"] {
        let once = transform(Transformation::NoSpaces, s);
        assert_eq!(transform(Transformation::NoSpaces, &once), once);
    }
}

#[test]
fn lines_are_transformed_until_exit() {
    assert_eq!(respond_to_line(Transformation::Scream, "hey", "exit"), Some("hey!!!".to_string()));
    assert_eq!(respond_to_line(Transformation::Scream, "exit", "exit"), None);
    assert_eq!(respond_to_line(Transformation::Reverse, " exit", "exit"), Some("tixe ".to_string()));
}
