use tv_sweep::args::{validate_args, ArgError};

#[test]
fn valid_arguments_pass() {
    assert_eq!(validate_args(true, true, true), Ok(()));
}

#[test]
fn missing_input_file_is_refused() {
    assert_eq!(validate_args(false, true, true), Err(ArgError::InputNotFile));
}

#[test]
fn missing_output_directory_is_refused() {
    assert_eq!(validate_args(true, false, true), Err(ArgError::OutputNotDirectory));
}

#[test]
fn unordered_lambdas_are_refused() {
    assert_eq!(validate_args(true, true, false), Err(ArgError::LambdaOrder));
}

#[test]
fn the_first_failing_check_is_reported() {
    assert_eq!(validate_args(false, false, false), Err(ArgError::InputNotFile));
    assert_eq!(validate_args(false, false, true), Err(ArgError::InputNotFile));
    assert_eq!(validate_args(false, true, false), Err(ArgError::InputNotFile));
    assert_eq!(validate_args(true, false, false), Err(ArgError::OutputNotDirectory));
}

#[test]
fn lambda_order_is_judged_as_the_caller_compares_floats() {
    let cases: [(f64, f64, bool); 5] = [
        (0.01, 1.0, true),
        (1.0, 0.01, false),
        (0.5, 0.5, false),
        (f64::NAN, 1.0, false),
        (0.1, f64::NAN, false),
    ];
    for (start, end, ok) in cases {
        assert_eq!(validate_args(true, true, start < end).is_ok(), ok);
    }
}

#[test]
fn error_messages_name_the_argument() {
    assert_eq!(ArgError::InputNotFile.message(), "`input_image` must bet a valid file");
    assert_eq!(ArgError::OutputNotDirectory.message(), "`output_path` must be a valid directory");
    assert_eq!(
        ArgError::LambdaOrder.message(),
        "`start_lambda` must be smaller than `end_lambda`"
    );
}
