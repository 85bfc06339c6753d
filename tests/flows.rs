use matrix_send::answer::{answer_of, answer_of_normalized, Answer};
use matrix_send::command::{check_command, login_credentials, CommandKind};
use matrix_send::error::Error;
use matrix_send::session::{
    load_next, login_next, logout_next, logout_start, LoadStep, LoginStep, LogoutStep, Outcome,
};

#[test]
fn load_without_file_is_not_logged_in() {
    assert_eq!(load_next(LoadStep::CheckFile, Outcome::Absent), LoadStep::Failed(Error::NotLoggedIn));
}

#[test]
fn load_passes_read_errors_on() {
    assert_eq!(
        load_next(LoadStep::ReadRecord, Outcome::Failed(Error::Corrupt)),
        LoadStep::Failed(Error::Corrupt)
    );
}

#[test]
fn load_restores_then_syncs_once() {
    let mut s = LoadStep::CheckFile;
    let mut seen = vec![s];
    while s != LoadStep::Ready {
        s = load_next(s, Outcome::Done);
        seen.push(s);
    }
    assert_eq!(
        seen,
        vec![
            LoadStep::CheckFile,
            LoadStep::ReadRecord,
            LoadStep::BuildClient,
            LoadStep::RestoreSession,
            LoadStep::SyncOnce,
            LoadStep::Ready
        ]
    );
    assert_eq!(load_next(LoadStep::Ready, Outcome::Done), LoadStep::Ready);
}

#[test]
fn load_sync_failure_is_transport_failure() {
    assert_eq!(
        load_next(LoadStep::SyncOnce, Outcome::Failed(Error::Io)),
        LoadStep::Failed(Error::Transport)
    );
}

#[test]
fn login_with_bad_credentials_never_saves() {
    let mut s = login_next(LoginStep::Authenticate, Outcome::Failed(Error::Transport));
    assert_eq!(s, LoginStep::Failed(Error::Transport));
    for o in [Outcome::Done, Outcome::Absent, Outcome::Done] {
        s = login_next(s, o);
        assert_ne!(s, LoginStep::SaveSession);
    }
}

#[test]
fn login_saves_after_authentication() {
    let mut s = LoginStep::BuildClient;
    let mut seen = vec![s];
    while s != LoginStep::Ready {
        s = login_next(s, Outcome::Done);
        seen.push(s);
    }
    assert_eq!(
        seen,
        vec![
            LoginStep::BuildClient,
            LoginStep::Authenticate,
            LoginStep::SaveSession,
            LoginStep::SyncOnce,
            LoginStep::Ready
        ]
    );
    assert_eq!(
        login_next(LoginStep::SaveSession, Outcome::Failed(Error::Io)),
        LoginStep::Failed(Error::Io)
    );
}

#[test]
fn logout_cleans_up_after_failed_server_logout() {
    let mut s = logout_start(true);
    assert_eq!(s, LogoutStep::ServerLogout);
    s = logout_next(s, Outcome::Failed(Error::Transport));
    assert_eq!(s, LogoutStep::RemoveSessionFile);
    s = logout_next(s, Outcome::Failed(Error::Io));
    assert_eq!(s, LogoutStep::RemoveKeyStore);
    s = logout_next(s, Outcome::Absent);
    assert_eq!(s, LogoutStep::Finished);
}

#[test]
fn logout_without_client_skips_server() {
    assert_eq!(logout_start(false), LogoutStep::RemoveSessionFile);
}

#[test]
fn commands_check_the_session() {
    assert_eq!(check_command(CommandKind::Login, Ok(())), Err(Error::AlreadyLoggedIn));
    assert_eq!(check_command(CommandKind::Login, Err(Error::NotLoggedIn)), Ok(()));
    assert_eq!(check_command(CommandKind::Verify, Err(Error::Corrupt)), Err(Error::NotLoggedIn));
    assert_eq!(check_command(CommandKind::Verify, Ok(())), Ok(()));
    assert_eq!(check_command(CommandKind::Logout, Err(Error::Corrupt)), Ok(()));
    assert_eq!(check_command(CommandKind::Room, Err(Error::Corrupt)), Err(Error::Corrupt));
    assert_eq!(check_command(CommandKind::Room, Ok(())), Ok(()));
}

#[test]
fn typed_credentials_are_trimmed() {
    assert_eq!(login_credentials(" alice\n", "s3cret \n"), ("alice", "s3cret"));
}

#[test]
fn answer_no_cancels() {
    assert_eq!(answer_of("no"), Answer::Cancelled);
    assert_eq!(answer_of("no\n"), Answer::Cancelled);
}

#[test]
fn answer_synonyms_confirm() {
    for line in ["Y", "y", "yes", "YES\n", " Yes ", "true", "True", "ok", "OK\r\n"] {
        assert_eq!(answer_of(line), Answer::Confirmed, "{:?}", line);
    }
}

#[test]
fn ambiguous_answer_cancels() {
    for line in ["", "\n", "yess", "nope", "maybe", "y e s"] {
        assert_eq!(answer_of(line), Answer::Cancelled, "{:?}", line);
    }
}

#[test]
fn normalized_answer_is_exact() {
    assert_eq!(answer_of_normalized("yes"), Answer::Confirmed);
    assert_eq!(answer_of_normalized("Y"), Answer::Cancelled);
    assert_eq!(answer_of_normalized(" ok"), Answer::Cancelled);
}
