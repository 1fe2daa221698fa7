use pup::file_type::{FileType, TargetFile};
use pup::operation::{CliApp, FileNotFound, Operation, Task, TokenOperation};
use pup::token::{
    can_trim_line_end, delete_token, set_token, trim_line_end, update_token, TokenStep,
};

fn cli(filepath: Option<&str>, set: bool, update: bool, delete: bool) -> CliApp {
    CliApp {
        filepath: filepath.map(String::from),
        set_token: set,
        update_token: update,
        delete_token: delete,
    }
}

#[test]
fn token_flags_come_first() {
    assert_eq!(
        Operation::try_from(&cli(None, true, false, false), false),
        Ok(Operation::Token(TokenOperation::SetToken))
    );
    assert_eq!(
        Operation::try_from(&cli(None, false, true, false), false),
        Ok(Operation::Token(TokenOperation::Update))
    );
    assert_eq!(
        Operation::try_from(&cli(None, false, false, true), false),
        Ok(Operation::Token(TokenOperation::Delete))
    );
    assert_eq!(
        Operation::try_from(&cli(Some("missing.md"), true, true, true), false),
        Ok(Operation::Token(TokenOperation::SetToken))
    );
    assert_eq!(
        Operation::try_from(&cli(Some("missing.md"), false, true, true), false),
        Ok(Operation::Token(TokenOperation::Update))
    );
}

#[test]
fn file_has_to_exist() {
    assert_eq!(
        Operation::try_from(&cli(Some("notes.md"), false, false, false), false),
        Err(FileNotFound { file_path: String::from("notes.md") })
    );
    assert_eq!(
        Operation::try_from(&cli(Some("notes.md"), false, false, false), true),
        Ok(Operation::File(TargetFile {
            file_path: String::from("notes.md"),
            file_type: FileType::Markdown
        }))
    );
    assert_eq!(
        FileNotFound { file_path: String::from("notes.md") }.message(),
        "File notes.md does not exist."
    );
}

#[test]
fn no_argument_is_a_check() {
    assert_eq!(Operation::try_from(&cli(None, false, false, false), false), Ok(Operation::Check));
    assert_eq!(Operation::try_from(&cli(None, false, false, false), true), Ok(Operation::Check));
}

#[test]
fn tasks_by_operation() {
    assert_eq!(Operation::Check.execute(), Task::CheckConfig);
    assert_eq!(
        Operation::Token(TokenOperation::Delete).execute(),
        Task::Token(TokenOperation::Delete)
    );
    assert_eq!(Operation::File(TargetFile::new("a.md")).execute(), Task::RewriteDocument);
    assert_eq!(Operation::File(TargetFile::new("a.gif")).execute(), Task::UploadImage);
    assert_eq!(Operation::File(TargetFile::new("a.txt")).execute(), Task::RejectUnknown);
}

#[test]
fn token_steps() {
    assert_eq!(TokenOperation::SetToken.execute(false), TokenStep::AskAndStore);
    assert_eq!(TokenOperation::SetToken.execute(true), TokenStep::AlreadySet);
    assert_eq!(TokenOperation::Update.execute(true), TokenStep::AskAndReplace);
    assert_eq!(TokenOperation::Update.execute(false), TokenStep::NotSetYet);
    assert_eq!(TokenOperation::Delete.execute(true), TokenStep::Remove);
    assert_eq!(TokenOperation::Delete.execute(false), TokenStep::Remove);
    assert_eq!(set_token(true), TokenStep::AlreadySet);
    assert_eq!(update_token(false), TokenStep::NotSetYet);
    assert_eq!(delete_token(), TokenStep::Remove);
}

#[test]
fn token_step_words() {
    assert_eq!(TokenStep::AlreadySet.refusal(), "The TOKEN has already been set");
    assert_eq!(
        TokenStep::NotSetYet.refusal(),
        "No TOKEN has been set before, use `pup --set-token` to set it first."
    );
    assert_eq!(TokenStep::Remove.refusal(), "");
    assert_eq!(TokenStep::AskAndStore.prompt(), "Please input the TOKEN: ");
    assert_eq!(TokenStep::AskAndReplace.prompt(), "Please input the new TOKEN: ");
    assert_eq!(TokenStep::AlreadySet.prompt(), "");
}

#[test]
fn typed_token_loses_its_line_end() {
    let mut token = String::from("ghp_abc\n");
    assert!(can_trim_line_end(&token));
    trim_line_end(&mut token);
    assert_eq!(token, "ghp_abc");
    assert!(can_trim_line_end(&token));
    trim_line_end(&mut token);
    assert_eq!(token, "ghp_ab");
    assert!(!can_trim_line_end(&String::new()));
    assert!(!can_trim_line_end(&String::from("é")));
    assert!(can_trim_line_end(&String::from("éa")));
}
