//! The session record and the credential-store decisions around it.
//!
//! The caller performs the file operations and the (de)serialization; the
//! decisions on their outcomes are made here.

use crate::error::Error;
use vstd::prelude::*;

verus! {

/// What `url::Url::parse` followed by the URL's serialization gives for a
/// text: `None` where the text is no absolute URL.
pub uninterp spec fn url_serialization(s: Seq<char>) -> Option<Seq<char>>;

/// Relies on `url::Url::parse` and the `From<Url> for String` conversion:
/// the normalized text of an absolute URL, or `None` where the text does not
/// parse as one. The result depends on the text alone, and a serialization
/// parses back to itself (an invariant that `Url::check_invariants` asserts).
#[verifier::external_body]
fn parse_url(s: &str) -> (r: Option<String>)
    ensures
        match r {
            Some(t) => url_serialization(s@) == Some(t@) && url_serialization(t@) == Some(t@),
            None => url_serialization(s@) is None,
        },
{
    match url::Url::parse(s) {
        Ok(u) => Some(String::from(u)),
        Err(_) => None,
    }
}

/// The token set that resumes a login without a password.
#[derive(Clone, Debug, PartialEq, Eq)]
pub struct SessionRecord {
    pub homeserver: String,
    pub access_token: String,
    pub device_id: String,
    pub user_id: String,
    pub refresh_token: Option<String>,
}

pub struct SessionRecordView {
    pub homeserver: Seq<char>,
    pub access_token: Seq<char>,
    pub device_id: Seq<char>,
    pub user_id: Seq<char>,
    pub refresh_token: Option<Seq<char>>,
}

pub open spec fn option_view(o: Option<String>) -> Option<Seq<char>> {
    match o {
        Some(s) => Some(s@),
        None => None,
    }
}

impl View for SessionRecord {
    type V = SessionRecordView;

    open spec fn view(&self) -> SessionRecordView {
        SessionRecordView {
            homeserver: self.homeserver@,
            access_token: self.access_token@,
            device_id: self.device_id@,
            user_id: self.user_id@,
            refresh_token: option_view(self.refresh_token),
        }
    }
}

/// A record is valid when its homeserver is an absolute URL in normal form,
/// as the URL parser writes it.
pub open spec fn record_valid(r: SessionRecordView) -> bool {
    url_serialization(r.homeserver) == Some(r.homeserver)
}

/// The record that a set of stored fields stands for, once the homeserver is
/// parsed; `None` where it is no URL.
pub open spec fn record_of(r: SessionRecordView) -> Option<SessionRecordView> {
    match url_serialization(r.homeserver) {
        Some(h) => Some(SessionRecordView { homeserver: h, ..r }),
        None => None,
    }
}

impl SessionRecord {
    pub open spec fn wf(&self) -> bool {
        record_valid(self@)
    }

    /// Builds a record from the fields of a login or of a stored file. The
    /// homeserver is parsed and kept in normal form; `None` where it is no
    /// absolute URL.
    pub fn from_fields(
        homeserver: &str,
        access_token: String,
        device_id: String,
        user_id: String,
        refresh_token: Option<String>,
    ) -> (r: Option<SessionRecord>)
        ensures
            (r matches Some(rec) ==> rec@ == (SessionRecordView {
                homeserver: url_serialization(homeserver@)->0,
                access_token: access_token@,
                device_id: device_id@,
                user_id: user_id@,
                refresh_token: option_view(refresh_token),
            })),
            (r matches Some(rec) ==> rec.wf()),
            (r is Some <==> (url_serialization(homeserver@) is Some)),
    {
        match parse_url(homeserver) {
            Some(h) => Some(
                SessionRecord { homeserver: h, access_token, device_id, user_id, refresh_token },
            ),
            None => None,
        }
    }
}

/// What reading the credential file gave.
pub enum ReadOutcome {
    /// There is no file at the path.
    Absent,
    /// The file exists but could not be opened or read.
    Unreadable,
    /// The file's text is not a session record.
    Malformed,
    /// The stored fields, as they were read.
    Parsed(SessionRecord),
}

/// The result of a load for what reading the file gave.
pub open spec fn loaded(o: ReadOutcome) -> Result<SessionRecordView, Error> {
    match o {
        ReadOutcome::Absent => Err(Error::NotLoggedIn),
        ReadOutcome::Unreadable => Err(Error::Io),
        ReadOutcome::Malformed => Err(Error::Corrupt),
        ReadOutcome::Parsed(r) => match record_of(r@) {
            Some(v) => Ok(v),
            None => Err(Error::Corrupt),
        },
    }
}

/// Turns what reading the credential file gave into the loaded record: a
/// missing file means the user is not logged in, a file that does not hold
/// a session record (its homeserver included) is corrupt.
pub fn load_record(o: ReadOutcome) -> (r: Result<SessionRecord, Error>)
    ensures
        match r {
            Ok(rec) => loaded(o) == Ok::<SessionRecordView, Error>(rec@) && rec.wf(),
            Err(e) => loaded(o) == Err::<SessionRecordView, Error>(e),
        },
{
    match o {
        ReadOutcome::Absent => Err(Error::NotLoggedIn),
        ReadOutcome::Unreadable => Err(Error::Io),
        ReadOutcome::Malformed => Err(Error::Corrupt),
        ReadOutcome::Parsed(rec) => {
            match SessionRecord::from_fields(
                rec.homeserver.as_str(),
                rec.access_token,
                rec.device_id,
                rec.user_id,
                rec.refresh_token,
            ) {
                Some(r) => Ok(r),
                None => Err(Error::Corrupt),
            }
        },
    }
}

/// What removing a file gave.
#[derive(Clone, Copy, Debug, PartialEq, Eq, Structural)]
pub enum RemoveOutcome {
    Removed,
    Absent,
    Failed,
}

/// Deleting the credential file is idempotent: a file that is already gone
/// is no error.
pub fn delete_result(o: RemoveOutcome) -> (r: Result<(), Error>)
    ensures
        r == (match o {
            RemoveOutcome::Failed => Err::<(), Error>(Error::Io),
            _ => Ok(()),
        }),
{
    match o {
        RemoveOutcome::Failed => Err(Error::Io),
        _ => Ok(()),
    }
}

/// Saving a valid record and loading it back gives the same record: the
/// fields read from the file are those written, and the stored homeserver,
/// already in normal form, parses back to itself.
pub proof fn lemma_save_load_round_trip(rec: SessionRecord)
    requires
        rec.wf(),
    ensures
        loaded(ReadOutcome::Parsed(rec)) == Ok::<SessionRecordView, Error>(rec@),
{
    assert(record_of(rec@) == Some(rec@));
}

} // verus!
