use sherlock::errors::{
    DBusAction, DbAction, DirAction, FileAction, NetworkAction, SherlockErrorType, SocketAction,
};

#[test]
fn error_messages_name_the_failure() {
    assert_eq!(SherlockErrorType::Unreachable.message(), "It should never come to this");
    assert_eq!(SherlockErrorType::EnvError("$HOME".into()).message(), "Failed to read \"$HOME\"");
    assert_eq!(
        SherlockErrorType::FileError(FileAction::Read, "/tmp/a".into()).message(),
        "Failed to read file \"/tmp/a\""
    );
    assert_eq!(
        SherlockErrorType::DirError(DirAction::Create, "/tmp/d".into()).message(),
        "Failed to create directory \"/tmp/d\""
    );
    assert_eq!(SherlockErrorType::ConfigError("bad".into()).message(), "Config error: bad");
    assert_eq!(
        SherlockErrorType::DBusError(DBusAction::Call, "org.x".into()).message(),
        "DBus failed to call (org.x)"
    );
    assert_eq!(
        SherlockErrorType::SocketError(SocketAction::Connect, "/run/s".into()).message(),
        "Failed to connect socket at \"/run/s\""
    );
    assert_eq!(
        SherlockErrorType::BorrowCongestion.message(),
        "Resource is currently locked/in use"
    );
    assert_eq!(
        SherlockErrorType::NetworkError(NetworkAction::Get, "http://x".into()).message(),
        "Network failure during get from \"http://x\""
    );
    assert_eq!(
        SherlockErrorType::DatabaseError(DbAction::Migrate).message(),
        "Database failure during operation: migrate"
    );
}

#[test]
fn simple_error_kinds_show_their_name() {
    assert_eq!(SherlockErrorType::IO.message(), "IO");
    assert_eq!(SherlockErrorType::SerializationError.message(), "SerializationError");
    assert_eq!(SherlockErrorType::DeserializationError.message(), "DeserializationError");
    assert_eq!(SherlockErrorType::InvalidAction.message(), "InvalidAction");
    assert_eq!(SherlockErrorType::InvalidFunction.message(), "InvalidFunction");
    assert_eq!(SherlockErrorType::NoError.message(), "None");
    assert_eq!(SherlockErrorType::CommandError("x".into()).message(), "CommandError");
    assert_eq!(SherlockErrorType::UnsupportedBrowser("y".into()).message(), "UnsupportedBrowser");
}

#[test]
fn action_names_are_lower_case() {
    assert_eq!(FileAction::Parse.name(), "parse");
    assert_eq!(DirAction::Find.name(), "find");
    assert_eq!(DBusAction::Construct.name(), "construct");
    assert_eq!(SocketAction::Close.name(), "close");
    assert_eq!(NetworkAction::Delete.name(), "delete");
    assert_eq!(DbAction::Transaction.name(), "transaction");
}
