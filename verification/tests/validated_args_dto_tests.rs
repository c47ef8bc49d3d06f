use builder::entities::page_meta::humanize;
use builder::{Args, ArgumentsValidationError, ValidatedArgsDto};

#[test]
fn valid_input_directory_returns_validated_args() {
    let temp = "/tmp".to_string();

    let args = Args {
        input: temp.clone(),
        out: "/tmp/output".to_string(),
    };

    let result: Result<ValidatedArgsDto, ArgumentsValidationError> = args.try_into();

    assert!(result.is_ok());
    let validated = result.unwrap();
    assert_eq!(validated.input_directory, temp);
}

#[test]
fn non_existent_input_directory_returns_error() {
    let args = Args {
        input: "/tmp/nonexistent_builder_dir_12345".to_string(),
        out: "/tmp/output".to_string(),
    };

    let result: Result<ValidatedArgsDto, ArgumentsValidationError> = args.try_into();

    assert!(result.is_err());
    match result.unwrap_err() {
        ArgumentsValidationError::InputDirectoryDoesNotExist(path) => {
            assert_eq!(path, "/tmp/nonexistent_builder_dir_12345");
        }
        _ => panic!("Expected InputDirectoryDoesNotExist, but got a different error"),
    }
}

#[test]
fn input_path_is_file_returns_error() {
    let file_path = "/etc/passwd".to_string();

    let args = Args {
        input: file_path.clone(),
        out: "/tmp/output".to_string(),
    };

    let result: Result<ValidatedArgsDto, ArgumentsValidationError> = args.try_into();

    assert!(result.is_err());
    match result.unwrap_err() {
        ArgumentsValidationError::InputShouldBeDirectory(path) => {
            assert_eq!(path, file_path);
        }
        _ => panic!("Expected InputShouldBeDirectory, but got a different error"),
    }
}

#[test]
fn output_directory_is_preserved_as_provided() {
    let output_path = "/tmp/custom_output_dir".to_string();
    let args = Args {
        input: "/tmp".to_string(),
        out: output_path.clone(),
    };

    let result: Result<ValidatedArgsDto, ArgumentsValidationError> = args.try_into();

    assert!(result.is_ok());
    let validated = result.unwrap();
    assert_eq!(validated.output_directory, output_path);
}

#[test]
fn validation_error_display_format() {
    let path = "/some/path".to_string();

    match ArgumentsValidationError::InputDirectoryDoesNotExist(path.clone()) {
        e => assert!(e.to_string().contains("does not exist")),
    }

    match ArgumentsValidationError::InputShouldBeDirectory(path) {
        e => assert!(e.to_string().contains("not a directory")),
    }
}

#[test]
fn validation_error_messages_quote_the_path() {
    let e = ArgumentsValidationError::InputDirectoryDoesNotExist("/a b".to_string());
    assert_eq!(e.to_string(), "Input directory does not exist: \"/a b\"");
    let e = ArgumentsValidationError::InputShouldBeDirectory("x\"y".to_string());
    assert_eq!(e.to_string(), "Input path is not a directory: \"x\\\"y\"");
}

#[test]
fn checked_arguments_follow_the_disk_answers() {
    let args = || Args { input: "in".to_string(), out: "out".to_string() };
    match ValidatedArgsDto::from_checked_args(args(), false, false) {
        Err(ArgumentsValidationError::InputDirectoryDoesNotExist(p)) => assert_eq!(p, "in"),
        _ => panic!("expected InputDirectoryDoesNotExist"),
    }
    match ValidatedArgsDto::from_checked_args(args(), true, false) {
        Err(ArgumentsValidationError::InputShouldBeDirectory(p)) => assert_eq!(p, "in"),
        _ => panic!("expected InputShouldBeDirectory"),
    }
    let ok = ValidatedArgsDto::from_checked_args(args(), true, true).unwrap();
    assert_eq!(ok.input_directory, "in");
    assert_eq!(ok.output_directory, "out");
}

#[test]
fn humanize_splits_capitalizes_and_joins() {
    assert_eq!(humanize("my_writing"), "My Writing");
    assert_eq!(humanize("a__b_"), "A B");
    assert_eq!(humanize("word"), "Word");
    assert_eq!(humanize("word_"), humanize("word"));
    assert_eq!(humanize("___"), "");
    assert_eq!(humanize("ß_éclair"), "SS Éclair");
    assert_eq!(humanize("1st_place"), "1st Place");
}

#[test]
fn validation_error_messages_quote_like_a_path() {
    let e = ArgumentsValidationError::InputShouldBeDirectory("it's".to_string());
    assert_eq!(
        e.to_string(),
        format!("Input path is not a directory: {:?}", std::path::Path::new("it's"))
    );
}
