//! The operations of the command line, and what each asks for.

use crate::file_type::{kind_of_extension, path_extension, FileType, TargetFile};
use crate::token::{delete_token, set_token, update_token, TokenStep};
use vstd::prelude::*;

verus! {

/// What the command line holds.
#[derive(Debug)]
pub struct CliApp {
    /// The target Markdown document or image.
    pub filepath: Option<String>,
    /// Set the token.
    pub set_token: bool,
    /// Update the token.
    pub update_token: bool,
    /// Delete the token.
    pub delete_token: bool,
}

/// Operations on the stored token.
#[derive(Debug, Copy, Clone, Eq, PartialEq, Structural)]
pub enum TokenOperation {
    /// Store a token where none is stored.
    SetToken,
    /// Replace the stored token.
    Update,
    /// Remove the stored token.
    Delete,
}

impl TokenOperation {
    /// The step that this operation asks for, given whether a token is stored.
    pub open spec fn step(&self, token_stored: bool) -> TokenStep {
        match self {
            TokenOperation::SetToken => if token_stored {
                TokenStep::AlreadySet
            } else {
                TokenStep::AskAndStore
            },
            TokenOperation::Update => if token_stored {
                TokenStep::AskAndReplace
            } else {
                TokenStep::NotSetYet
            },
            TokenOperation::Delete => TokenStep::Remove,
        }
    }

    /// Decides what to do for this operation, given whether a token is
    /// stored; the caller carries the step out.
    pub fn execute(&self, token_stored: bool) -> (step: TokenStep)
        ensures
            step == self.step(token_stored),
    {
        match self {
            TokenOperation::SetToken => set_token(token_stored),
            TokenOperation::Update => update_token(token_stored),
            TokenOperation::Delete => delete_token(),
        }
    }
}

/// What one run does.
#[derive(Debug, Clone, Eq, PartialEq)]
pub enum Operation {
    /// Check the settings and the token.
    Check,
    /// Work on the stored token.
    Token(TokenOperation),
    /// Work on a file.
    File(TargetFile),
}

/// The named file is not there.
#[derive(Debug, Clone, Eq, PartialEq)]
pub struct FileNotFound {
    /// The path as it was given.
    pub file_path: String,
}

impl FileNotFound {
    /// The words in which the error is reported.
    pub fn message(&self) -> (text: String)
        ensures
            text@ == "File "@ + self.file_path@ + " does not exist."@,
    {
        let mut text = "File ".to_owned();
        text.append(self.file_path.as_str());
        text.append(" does not exist.");
        text
    }
}

/// What the caller has to do for an operation.
#[derive(Debug, Copy, Clone, Eq, PartialEq, Structural)]
pub enum Task {
    /// Load the settings and the token, nothing more.
    CheckConfig,
    /// Carry out a token operation.
    Token(TokenOperation),
    /// Give up: the file is neither a document nor an image.
    RejectUnknown,
    /// Rewrite the image links of a Markdown document.
    RewriteDocument,
    /// Upload one image and hand out its URL.
    UploadImage,
}

impl Operation {
    /// The operation that a command line asks for: the token flags come
    /// first, in the order set, update, delete; then the file, which has to
    /// exist; with neither, the check.
    pub open spec fn requested(value: &CliApp, file_exists: bool, op: Operation) -> bool {
        if value.set_token {
            op == Operation::Token(TokenOperation::SetToken)
        } else if value.update_token {
            op == Operation::Token(TokenOperation::Update)
        } else if value.delete_token {
            op == Operation::Token(TokenOperation::Delete)
        } else {
            match value.filepath {
                Some(path) => file_exists && match op {
                    Operation::File(target) => target.file_path@ == path@ && target.file_type
                        == kind_of_extension(path_extension(path@)),
                    _ => false,
                },
                None => op == Operation::Check,
            }
        }
    }

    /// The command line names a file that is not there, and no token flag.
    pub open spec fn names_missing_file(value: &CliApp, file_exists: bool) -> bool {
        !value.set_token && !value.update_token && !value.delete_token && value.filepath is Some
            && !file_exists
    }

    /// Reads the operation off the command line. `file_exists` says whether
    /// the named file is there; it is not looked at where no file is named.
    pub fn try_from(value: &CliApp, file_exists: bool) -> (r: Result<Operation, FileNotFound>)
        ensures
            r is Err <==> Self::names_missing_file(value, file_exists),
            r matches Ok(op) ==> Self::requested(value, file_exists, op),
            r matches Err(e) ==> value.filepath matches Some(path) && e.file_path@ == path@,
    {
        if value.set_token {
            return Ok(Operation::Token(TokenOperation::SetToken));
        }
        if value.update_token {
            return Ok(Operation::Token(TokenOperation::Update));
        }
        if value.delete_token {
            return Ok(Operation::Token(TokenOperation::Delete));
        }
        match &value.filepath {
            Some(file_path) => {
                if !file_exists {
                    return Err(FileNotFound { file_path: file_path.clone() });
                }
                Ok(Operation::File(TargetFile::new(file_path.as_str())))
            },
            None => Ok(Operation::Check),
        }
    }

    /// The task that this operation asks for.
    pub open spec fn task(&self) -> Task {
        match self {
            Operation::Check => Task::CheckConfig,
            Operation::Token(op) => Task::Token(*op),
            Operation::File(target) => match target.file_type {
                FileType::Unknown => Task::RejectUnknown,
                FileType::Markdown => Task::RewriteDocument,
                FileType::Image => Task::UploadImage,
            },
        }
    }

    /// Decides what to do for this operation; the caller carries the task out.
    pub fn execute(&self) -> (task: Task)
        ensures
            task == self.task(),
    {
        match self {
            Operation::Check => Task::CheckConfig,
            Operation::Token(op) => Task::Token(*op),
            Operation::File(target) => match target.file_type {
                FileType::Unknown => Task::RejectUnknown,
                FileType::Markdown => Task::RewriteDocument,
                FileType::Image => Task::UploadImage,
            },
        }
    }
}

} // verus!
