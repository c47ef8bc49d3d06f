use crate::entities::args_dto::Args;
use crate::paths::{path_exists, path_is_dir, DiskAnswer};
use crate::text::{path_debug_format, path_debug_text};
use vstd::prelude::*;
use vstd::string::*;

verus! {

/// Arguments whose input folder was found to be an existing directory.
#[derive(Debug)]
pub struct ValidatedArgsDto {
    /// Source folder with markdowns
    pub input_directory: String,
    /// Destination folder for prepared html
    pub output_directory: String,
}

/// Why arguments were refused.
#[derive(Debug)]
pub enum ArgumentsValidationError {
    InputDirectoryDoesNotExist(String),
    InputShouldBeDirectory(String),
}

/// The outcome of validating `args`, given whether its input path exists and whether it is
/// a directory: the input must exist, then it must be a directory; the output folder is
/// kept as given.
pub open spec fn validation_outcome(args: Args, exists: bool, is_dir: bool) -> Result<
    ValidatedArgsDto,
    ArgumentsValidationError,
> {
    if !exists {
        Err(ArgumentsValidationError::InputDirectoryDoesNotExist(args.input))
    } else if !is_dir {
        Err(ArgumentsValidationError::InputShouldBeDirectory(args.input))
    } else {
        Ok(ValidatedArgsDto { input_directory: args.input, output_directory: args.out })
    }
}

/// The message of a validation error.
pub open spec fn validation_message(e: ArgumentsValidationError) -> Seq<char> {
    match e {
        ArgumentsValidationError::InputDirectoryDoesNotExist(p) => "Input directory does not exist: "@
            + path_debug_text(p@),
        ArgumentsValidationError::InputShouldBeDirectory(p) => "Input path is not a directory: "@
            + path_debug_text(p@),
    }
}

/// Validation succeeds exactly when the input path exists and is a directory; then both
/// folders are kept as given, and otherwise the error names the input path.
pub proof fn lemma_validation_succeeds_iff_directory(args: Args, exists: bool, is_dir: bool)
    ensures
        validation_outcome(args, exists, is_dir) is Ok <==> exists && is_dir,
        validation_outcome(args, exists, is_dir) matches Ok(v) ==> v.input_directory
            == args.input && v.output_directory == args.out,
        validation_outcome(args, exists, is_dir) matches Err(e) ==> match e {
            ArgumentsValidationError::InputDirectoryDoesNotExist(p) => p == args.input && !exists,
            ArgumentsValidationError::InputShouldBeDirectory(p) => p == args.input && exists
                && !is_dir,
        },
{
}

impl ValidatedArgsDto {
    /// Validates `value` given what the disk answered: whether its input path exists and,
    /// if so, whether it is a directory.
    pub fn from_checked_args(value: Args, exists: bool, is_dir: bool) -> (r: Result<
        Self,
        ArgumentsValidationError,
    >)
        ensures
            r == validation_outcome(value, exists, is_dir),
    {
        if !exists {
            Err(ArgumentsValidationError::InputDirectoryDoesNotExist(value.input))
        } else if !is_dir {
            Err(ArgumentsValidationError::InputShouldBeDirectory(value.input))
        } else {
            Ok(Self { input_directory: value.input, output_directory: value.out })
        }
    }

    /// Validates `value` against the disk: its input path must exist and be a directory.
    /// Both questions are asked of the input path itself, the second only where the first
    /// was answered yes, and the outcome is what the answers decide.
    pub fn validate(value: Args) -> (r: Result<Self, ArgumentsValidationError>)
        ensures
            exists|exists: DiskAnswer|
                #![trigger exists.asked()]
                exists.asked() == value.input@ && if exists.answer() {
                    exists|is_dir: DiskAnswer|
                        #![trigger is_dir.asked()]
                        is_dir.asked() == value.input@ && r == validation_outcome(
                            value,
                            true,
                            is_dir.answer(),
                        )
                } else {
                    r == validation_outcome(value, false, false)
                },
    {
        let ghost args = value;
        let exists = path_exists(value.input.as_str());
        if exists.holds() {
            let is_dir = path_is_dir(value.input.as_str());
            let r = Self::from_checked_args(value, true, is_dir.holds());
            assert(is_dir.asked() == args.input@);
            assert(exists.asked() == args.input@);
            r
        } else {
            let r = Self::from_checked_args(value, false, false);
            assert(exists.asked() == args.input@);
            r
        }
    }
}

impl TryFrom<Args> for ValidatedArgsDto {
    type Error = ArgumentsValidationError;

    fn try_from(value: Args) -> (r: Result<Self, Self::Error>)
        ensures
            exists|exists: DiskAnswer|
                #![trigger exists.asked()]
                exists.asked() == value.input@ && if exists.answer() {
                    exists|is_dir: DiskAnswer|
                        #![trigger is_dir.asked()]
                        is_dir.asked() == value.input@ && r == validation_outcome(
                            value,
                            true,
                            is_dir.answer(),
                        )
                } else {
                    r == validation_outcome(value, false, false)
                },
    {
        Self::validate(value)
    }
}

/// The outcome of `try_from` depends on the disk, so it is not one value of the arguments:
/// no such value is claimed here, and `try_from` states what holds of every outcome.
impl vstd::std_specs::convert::TryFromSpecImpl<Args> for ValidatedArgsDto {
    open spec fn obeys_try_from_spec() -> bool {
        false
    }

    open spec fn try_from_spec(v: Args) -> Result<Self, Self::Error> {
        vstd::pervasive::arbitrary()
    }
}

impl ArgumentsValidationError {
    /// The error's message.
    pub fn to_string(&self) -> (s: String)
        ensures
            s@ == validation_message(*self),
    {
        match self {
            ArgumentsValidationError::InputDirectoryDoesNotExist(p) => {
                let mut s = String::from_str("Input directory does not exist: ");
                s.append(path_debug_format(p.as_str()).as_str());
                s
            },
            ArgumentsValidationError::InputShouldBeDirectory(p) => {
                let mut s = String::from_str("Input path is not a directory: ");
                s.append(path_debug_format(p.as_str()).as_str());
                s
            },
        }
    }
}

} // verus!
