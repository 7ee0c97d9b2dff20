//! The checks made on the arguments of a run before any work begins.
use vstd::prelude::*;

verus! {

/// Why the arguments of a run were refused.
#[derive(Clone, Copy, Debug, PartialEq, Eq, Structural)]
pub enum ArgError {
    /// The input image is not an existing file.
    InputNotFile,
    /// The output folder is not an existing directory.
    OutputNotDirectory,
    /// The first regularisation weight is not below the last.
    LambdaOrder,
}

impl ArgError {
    /// The text shown to the user for this error.
    pub open spec fn spec_message(self) -> Seq<char> {
        match self {
            ArgError::InputNotFile => "`input_image` must bet a valid file"@,
            ArgError::OutputNotDirectory => "`output_path` must be a valid directory"@,
            ArgError::LambdaOrder => "`start_lambda` must be smaller than `end_lambda`"@,
        }
    }

    /// Returns the text shown to the user for this error.
    pub fn message(self) -> (r: &'static str)
        ensures
            r@ == self.spec_message(),
    {
        match self {
            ArgError::InputNotFile => "`input_image` must bet a valid file",
            ArgError::OutputNotDirectory => "`output_path` must be a valid directory",
            ArgError::LambdaOrder => "`start_lambda` must be smaller than `end_lambda`",
        }
    }
}

/// The first check that fails, in the order input file, output folder,
/// order of the weights; `None` where all three hold.
pub open spec fn first_violation(
    input_is_file: bool,
    output_is_dir: bool,
    start_below_end: bool,
) -> Option<ArgError> {
    if !input_is_file {
        Some(ArgError::InputNotFile)
    } else if !output_is_dir {
        Some(ArgError::OutputNotDirectory)
    } else if !start_below_end {
        Some(ArgError::LambdaOrder)
    } else {
        None
    }
}

/// Checks the arguments of a run.
///
/// `input_is_file` says whether the input path names a file, `output_is_dir`
/// whether the output path names a directory, and `start_below_end` whether
/// the first weight is strictly below the last (false where either is not a
/// number). The result is `Ok` exactly when all three hold; otherwise it is
/// the first failure in that order.
pub fn validate_args(input_is_file: bool, output_is_dir: bool, start_below_end: bool) -> (r: Result<
    (),
    ArgError,
>)
    ensures
        r.is_ok() <==> input_is_file && output_is_dir && start_below_end,
        r.is_err() ==> first_violation(input_is_file, output_is_dir, start_below_end) == Some(
            r.unwrap_err(),
        ),
{
    if !input_is_file {
        return Err(ArgError::InputNotFile);
    }
    if !output_is_dir {
        return Err(ArgError::OutputNotDirectory);
    }
    if !start_below_end {
        return Err(ArgError::LambdaOrder);
    }
    Ok(())
}

} // verus!
