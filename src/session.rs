//! The session manager's flows as step machines.
//!
//! Each state names the step the caller must perform next; the caller
//! performs it (on the disk or the network) and hands its outcome back to
//! the matching `*_next` function, until the flow reaches a final state.

use crate::error::Error;
use vstd::prelude::*;

verus! {

/// The outcome of one step, as the caller observed it.
#[derive(Clone, Copy, Debug, PartialEq, Eq, Structural)]
pub enum Outcome {
    /// The step succeeded.
    Done,
    /// The file or directory the step concerns does not exist.
    Absent,
    /// The step failed.
    Failed(Error),
}

/// Restoring a stored session.
#[derive(Clone, Copy, Debug, PartialEq, Eq, Structural)]
pub enum LoadStep {
    /// See whether a credential file exists.
    CheckFile,
    /// Read the record, repair the file's permissions, check the record.
    ReadRecord,
    /// Build a client bound to the recorded homeserver and key store.
    BuildClient,
    /// Restore the session into the client.
    RestoreSession,
    /// Run one synchronization pass, so that room state is warm.
    SyncOnce,
    /// The client is ready for commands.
    Ready,
    Failed(Error),
}

pub open spec fn load_next_spec(s: LoadStep, o: Outcome) -> LoadStep {
    match s {
        LoadStep::CheckFile => match o {
            Outcome::Done => LoadStep::ReadRecord,
            Outcome::Absent => LoadStep::Failed(Error::NotLoggedIn),
            Outcome::Failed(e) => LoadStep::Failed(e),
        },
        LoadStep::ReadRecord => match o {
            Outcome::Done => LoadStep::BuildClient,
            Outcome::Absent => LoadStep::Failed(Error::NotLoggedIn),
            Outcome::Failed(e) => LoadStep::Failed(e),
        },
        LoadStep::BuildClient => if o == Outcome::Done {
            LoadStep::RestoreSession
        } else {
            LoadStep::Failed(Error::Transport)
        },
        LoadStep::RestoreSession => if o == Outcome::Done {
            LoadStep::SyncOnce
        } else {
            LoadStep::Failed(Error::Transport)
        },
        LoadStep::SyncOnce => if o == Outcome::Done {
            LoadStep::Ready
        } else {
            LoadStep::Failed(Error::Transport)
        },
        LoadStep::Ready => LoadStep::Ready,
        LoadStep::Failed(e) => LoadStep::Failed(e),
    }
}

/// The step after `s` given its outcome. A missing credential file means
/// that the user is not logged in; a failed network step is a transport
/// failure; the failures of reading the file are passed on as they are.
pub fn load_next(s: LoadStep, o: Outcome) -> (r: LoadStep)
    ensures
        r == load_next_spec(s, o),
{
    match s {
        LoadStep::CheckFile | LoadStep::ReadRecord => match o {
            Outcome::Done => if s == LoadStep::CheckFile {
                LoadStep::ReadRecord
            } else {
                LoadStep::BuildClient
            },
            Outcome::Absent => LoadStep::Failed(Error::NotLoggedIn),
            Outcome::Failed(e) => LoadStep::Failed(e),
        },
        LoadStep::BuildClient => if o == Outcome::Done {
            LoadStep::RestoreSession
        } else {
            LoadStep::Failed(Error::Transport)
        },
        LoadStep::RestoreSession => if o == Outcome::Done {
            LoadStep::SyncOnce
        } else {
            LoadStep::Failed(Error::Transport)
        },
        LoadStep::SyncOnce => if o == Outcome::Done {
            LoadStep::Ready
        } else {
            LoadStep::Failed(Error::Transport)
        },
        LoadStep::Ready => LoadStep::Ready,
        LoadStep::Failed(e) => LoadStep::Failed(e),
    }
}

/// The states a load passes through from `s` when the steps have the
/// outcomes `os`, in order.
pub open spec fn load_trace(s: LoadStep, os: Seq<Outcome>) -> Seq<LoadStep>
    decreases os.len(),
{
    if os.len() == 0 {
        seq![s]
    } else {
        seq![s] + load_trace(load_next_spec(s, os[0]), os.drop_first())
    }
}

pub open spec fn load_final(s: LoadStep) -> bool {
    s == LoadStep::Ready || s is Failed
}

pub open spec fn load_rank(s: LoadStep) -> int {
    match s {
        LoadStep::CheckFile => 0,
        LoadStep::ReadRecord => 1,
        LoadStep::BuildClient => 2,
        LoadStep::RestoreSession => 3,
        LoadStep::SyncOnce => 4,
        _ => 5,
    }
}

proof fn lemma_load_trace_rises(s: LoadStep, os: Seq<Outcome>)
    ensures
        load_trace(s, os).len() == os.len() + 1,
        load_trace(s, os)[0] == s,
        forall|k: int|
            0 < k < load_trace(s, os).len() ==> if load_final(s) {
                #[trigger] load_trace(s, os)[k] == s
            } else {
                load_rank(#[trigger] load_trace(s, os)[k]) > load_rank(s)
            },
    decreases os.len(),
{
    if os.len() > 0 {
        let n = load_next_spec(s, os[0]);
        lemma_load_trace_rises(n, os.drop_first());
        let t = load_trace(s, os);
        assert forall|k: int| 0 < k < t.len() implies if load_final(s) {
            #[trigger] t[k] == s
        } else {
            load_rank(#[trigger] t[k]) > load_rank(s)
        } by {
            assert(t[k] == load_trace(n, os.drop_first())[k - 1]);
        }
    }
}

/// A load performs no step twice, whatever the outcomes: in particular it
/// synchronizes at most once, and only after the session was restored.
pub proof fn lemma_load_steps_once(s: LoadStep, os: Seq<Outcome>)
    ensures
        forall|i: int, j: int|
            0 <= i < j < load_trace(s, os).len() && !load_final(#[trigger] load_trace(s, os)[i])
                ==> #[trigger] load_trace(s, os)[j] != load_trace(s, os)[i],
    decreases os.len(),
{
    lemma_load_trace_rises(s, os);
    if os.len() > 0 {
        let n = load_next_spec(s, os[0]);
        lemma_load_steps_once(n, os.drop_first());
        let t = load_trace(s, os);
        assert forall|i: int, j: int|
            0 <= i < j < t.len() && !load_final(#[trigger] t[i]) implies #[trigger] t[j] != t[i] by {
            if i > 0 {
                assert(t[i] == load_trace(n, os.drop_first())[i - 1]);
                assert(t[j] == load_trace(n, os.drop_first())[j - 1]);
            } else {
                assert(load_rank(t[j]) > load_rank(s));
            }
        }
    }
}

/// A first login.
#[derive(Clone, Copy, Debug, PartialEq, Eq, Structural)]
pub enum LoginStep {
    /// Build a client against the given homeserver.
    BuildClient,
    /// Submit the credentials.
    Authenticate,
    /// Persist the session the homeserver returned.
    SaveSession,
    /// Run one synchronization pass.
    SyncOnce,
    Ready,
    Failed(Error),
}

pub open spec fn login_next_spec(s: LoginStep, o: Outcome) -> LoginStep {
    match s {
        LoginStep::BuildClient => if o == Outcome::Done {
            LoginStep::Authenticate
        } else {
            LoginStep::Failed(Error::Transport)
        },
        LoginStep::Authenticate => if o == Outcome::Done {
            LoginStep::SaveSession
        } else {
            LoginStep::Failed(Error::Transport)
        },
        LoginStep::SaveSession => match o {
            Outcome::Done => LoginStep::SyncOnce,
            Outcome::Absent => LoginStep::Failed(Error::NoHomeDirectory),
            Outcome::Failed(e) => LoginStep::Failed(e),
        },
        LoginStep::SyncOnce => if o == Outcome::Done {
            LoginStep::Ready
        } else {
            LoginStep::Failed(Error::Transport)
        },
        LoginStep::Ready => LoginStep::Ready,
        LoginStep::Failed(e) => LoginStep::Failed(e),
    }
}

/// The step after `s` given its outcome. Only a successful authentication
/// leads to saving the session, so a failed login never touches the
/// credential file.
pub fn login_next(s: LoginStep, o: Outcome) -> (r: LoginStep)
    ensures
        r == login_next_spec(s, o),
{
    match s {
        LoginStep::BuildClient => if o == Outcome::Done {
            LoginStep::Authenticate
        } else {
            LoginStep::Failed(Error::Transport)
        },
        LoginStep::Authenticate => if o == Outcome::Done {
            LoginStep::SaveSession
        } else {
            LoginStep::Failed(Error::Transport)
        },
        LoginStep::SaveSession => match o {
            Outcome::Done => LoginStep::SyncOnce,
            Outcome::Absent => LoginStep::Failed(Error::NoHomeDirectory),
            Outcome::Failed(e) => LoginStep::Failed(e),
        },
        LoginStep::SyncOnce => if o == Outcome::Done {
            LoginStep::Ready
        } else {
            LoginStep::Failed(Error::Transport)
        },
        LoginStep::Ready => LoginStep::Ready,
        LoginStep::Failed(e) => LoginStep::Failed(e),
    }
}

pub open spec fn login_trace(s: LoginStep, os: Seq<Outcome>) -> Seq<LoginStep>
    decreases os.len(),
{
    if os.len() == 0 {
        seq![s]
    } else {
        seq![s] + login_trace(login_next_spec(s, os[0]), os.drop_first())
    }
}

/// The credential file is written only right after a successful
/// authentication: along any run of a login, whatever the outcomes, the
/// save step is preceded by the authentication step with outcome `Done`.
/// A login whose credentials are refused therefore leaves an existing
/// credential file as it was.
pub proof fn lemma_login_saves_only_after_auth(s: LoginStep, os: Seq<Outcome>)
    ensures
        login_trace(s, os).len() == os.len() + 1,
        forall|k: int|
            0 < k < login_trace(s, os).len() && #[trigger] login_trace(s, os)[k]
                == LoginStep::SaveSession ==> login_trace(s, os)[k - 1] == LoginStep::Authenticate
                && os[k - 1] == Outcome::Done,
    decreases os.len(),
{
    if os.len() > 0 {
        let n = login_next_spec(s, os[0]);
        let rest = os.drop_first();
        lemma_login_saves_only_after_auth(n, rest);
        let t = login_trace(s, os);
        assert forall|k: int|
            0 < k < t.len() && #[trigger] t[k] == LoginStep::SaveSession implies t[k - 1]
            == LoginStep::Authenticate && os[k - 1] == Outcome::Done by {
            assert(t[k] == login_trace(n, rest)[k - 1]);
            if k > 1 {
                assert(t[k - 1] == login_trace(n, rest)[k - 2]);
                assert(os[k - 1] == rest[k - 2]);
            }
        }
    }
}

/// A login whose authentication fails ends failed, and never reaches the
/// save step, whatever happens next.
pub proof fn lemma_failed_login_never_saves(o: Outcome, os: Seq<Outcome>)
    requires
        o != Outcome::Done,
    ensures
        forall|k: int|
            0 <= k < login_trace(login_next_spec(LoginStep::Authenticate, o), os).len() ==> #[trigger] login_trace(
                login_next_spec(LoginStep::Authenticate, o),
                os,
            )[k] == LoginStep::Failed(Error::Transport),
    decreases os.len(),
{
    let f = LoginStep::Failed(Error::Transport);
    if os.len() > 0 {
        lemma_failed_login_never_saves(o, os.drop_first());
        let t = login_trace(f, os);
        assert forall|k: int| 0 <= k < t.len() implies #[trigger] t[k] == f by {
            if k > 0 {
                assert(t[k] == login_trace(f, os.drop_first())[k - 1]);
            }
        }
    }
}

/// Forgetting the local session.
#[derive(Clone, Copy, Debug, PartialEq, Eq, Structural)]
pub enum LogoutStep {
    /// Tell the server to end the session (best effort).
    ServerLogout,
    /// Delete the credential file.
    RemoveSessionFile,
    /// Delete the key-store directory tree.
    RemoveKeyStore,
    Finished,
}

pub open spec fn logout_start_spec(has_client: bool) -> LogoutStep {
    if has_client {
        LogoutStep::ServerLogout
    } else {
        LogoutStep::RemoveSessionFile
    }
}

/// The first step of a logout: the server is told only where a live client
/// exists.
pub fn logout_start(has_client: bool) -> (r: LogoutStep)
    ensures
        r == logout_start_spec(has_client),
{
    if has_client {
        LogoutStep::ServerLogout
    } else {
        LogoutStep::RemoveSessionFile
    }
}

pub open spec fn logout_next_spec(s: LogoutStep, o: Outcome) -> LogoutStep {
    match s {
        LogoutStep::ServerLogout => LogoutStep::RemoveSessionFile,
        LogoutStep::RemoveSessionFile => LogoutStep::RemoveKeyStore,
        _ => LogoutStep::Finished,
    }
}

/// The step after `s`. The outcome is only for the caller to report: a
/// failed step never stops the local cleanup.
pub fn logout_next(s: LogoutStep, o: Outcome) -> (r: LogoutStep)
    ensures
        r == logout_next_spec(s, o),
{
    match s {
        LogoutStep::ServerLogout => LogoutStep::RemoveSessionFile,
        LogoutStep::RemoveSessionFile => LogoutStep::RemoveKeyStore,
        _ => LogoutStep::Finished,
    }
}

pub open spec fn logout_trace(s: LogoutStep, os: Seq<Outcome>) -> Seq<LogoutStep>
    decreases os.len(),
{
    if os.len() == 0 {
        seq![s]
    } else {
        seq![s] + logout_trace(logout_next_spec(s, os[0]), os.drop_first())
    }
}

/// The step reached from `s` after `k` further steps.
pub open spec fn logout_after(s: LogoutStep, k: nat) -> LogoutStep
    decreases k,
{
    if k == 0 {
        s
    } else {
        logout_after(logout_next_spec(s, Outcome::Done), (k - 1) as nat)
    }
}

pub open spec fn logout_distance(s: LogoutStep) -> nat {
    match s {
        LogoutStep::ServerLogout => 3,
        LogoutStep::RemoveSessionFile => 2,
        LogoutStep::RemoveKeyStore => 1,
        LogoutStep::Finished => 0,
    }
}

proof fn lemma_logout_trace_at(s: LogoutStep, os: Seq<Outcome>, k: nat)
    requires
        k <= os.len(),
    ensures
        logout_trace(s, os).len() == os.len() + 1,
        logout_trace(s, os)[k as int] == logout_after(s, k),
    decreases os.len(),
{
    if os.len() > 0 {
        let n = logout_next_spec(s, os[0]);
        lemma_logout_trace_at(n, os.drop_first(), if k > 0 { (k - 1) as nat } else { 0 });
    }
}

proof fn lemma_logout_reaches_finish(s: LogoutStep, k: nat)
    requires
        k >= logout_distance(s),
    ensures
        logout_after(s, k) == LogoutStep::Finished,
    decreases k,
{
    if k > 0 {
        lemma_logout_reaches_finish(logout_next_spec(s, Outcome::Done), (k - 1) as nat);
    }
}

/// A logout removes the credential file and then the key-store directory,
/// and finishes, whatever the outcome of each step, a failed server logout
/// included.
pub proof fn lemma_logout_always_cleans_up(has_client: bool, os: Seq<Outcome>)
    requires
        os.len() >= 3,
    ensures
        ({
            let t = logout_trace(logout_start_spec(has_client), os);
            let f = if has_client { 1int } else { 0int };
            &&& t[f] == LogoutStep::RemoveSessionFile
            &&& t[f + 1] == LogoutStep::RemoveKeyStore
            &&& t[f + 2] == LogoutStep::Finished
            &&& t.last() == LogoutStep::Finished
        }),
{
    let s = logout_start_spec(has_client);
    let f: nat = if has_client { 1 } else { 0 };
    lemma_logout_trace_at(s, os, f);
    lemma_logout_trace_at(s, os, f + 1);
    lemma_logout_trace_at(s, os, f + 2);
    lemma_logout_trace_at(s, os, os.len());
    assert(logout_after(s, f) == LogoutStep::RemoveSessionFile) by {
        reveal_with_fuel(logout_after, 2);
    }
    assert(logout_after(s, f + 1) == LogoutStep::RemoveKeyStore) by {
        reveal_with_fuel(logout_after, 3);
    }
    assert(logout_after(s, f + 2) == LogoutStep::Finished) by {
        reveal_with_fuel(logout_after, 4);
    }
    lemma_logout_reaches_finish(s, os.len());
}

} // verus!
