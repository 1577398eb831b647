//! Passwords: how one arrives, and how it is checked against the hash that
//! the system keeps.

use vstd::prelude::*;
use vstd::utf8::encode_utf8;
use crate::error::{Error, ErrorKind};
use crate::json::{json_check, json_fault};
use crate::text::text_equal;

verus! {

/// A password as a request brings it: in the clear, or sealed for the
/// system's key. It has no `Debug`, so that no log shows it: see `redacted`.
pub enum PasswordType {
    /// The sealed password, as the text that came over the wire.
    EncryptedWire(String),
    /// The password itself.
    String(String),
}

/// What `argon2::verify_encoded` says of an encoded hash and a password:
/// whether the password is the hash's, or `None` where it gives an error,
/// as it does for a text that is no encoded hash.
pub uninterp spec fn argon2_verdict(hash: Seq<char>, password: Seq<u8>) -> Option<bool>;

/// `argon2::verify_encoded`: decodes the hash's parameters, salt and digest,
/// hashes the password with them and compares. An error becomes `None`.
#[verifier::external_body]
fn argon2_verify(hash: &str, password: &[u8]) -> (verdict: Option<bool>)
    ensures
        verdict == argon2_verdict(hash@, password@),
{
    argon2::verify_encoded(hash, password).ok()
}

/// What a verdict on a password comes to: nothing to object to where the
/// password is the hash's, else an error of the kind `IncorrectPassword`.
pub fn password_verdict(verdict: Option<bool>) -> (r: Result<(), Error>)
    ensures
        verdict == Some(true) ==> r.is_ok(),
        verdict != Some(true) ==> (r matches Err(e) && e.kind == ErrorKind::IncorrectPassword
            && e.message@ == "Password Incorrect"@),
{
    match verdict {
        Some(true) => Ok(()),
        _ => Err(Error::new(ErrorKind::IncorrectPassword, "Password Incorrect".to_owned())),
    }
}

/// Checks a password against an encoded hash. A hash that cannot be read
/// counts as a wrong password.
pub fn check_password(hash: &str, password: &str) -> (r: Result<(), Error>)
    ensures
        argon2_verdict(hash@, encode_utf8(password@)) == Some(true) ==> r.is_ok(),
        argon2_verdict(hash@, encode_utf8(password@)) != Some(true) ==> (r matches Err(e) && e.kind
            == ErrorKind::IncorrectPassword && e.message@ == "Password Incorrect"@),
{
    password_verdict(argon2_verify(hash, password.as_bytes()))
}

impl PasswordType {
    /// The password in the clear. For a sealed one `opened` is what opening
    /// it with the system's key gave; where that gave nothing the error is
    /// of the kind `Unknown`.
    pub fn decrypt(self, opened: Option<String>) -> (r: Result<String, Error>)
        ensures
            match (self, opened) {
                (PasswordType::String(password), _) => r matches Ok(p) && p@ == password@,
                (PasswordType::EncryptedWire(_), Some(password)) => r matches Ok(p) && p@
                    == password@,
                (PasswordType::EncryptedWire(_), None) => r matches Err(e) && e.kind
                    == ErrorKind::Unknown && e.message@ == "Couldn't decode password"@,
            },
    {
        match self {
            PasswordType::String(password) => Ok(password),
            PasswordType::EncryptedWire(_) => match opened {
                Some(password) => Ok(password),
                None => Err(Error::new(ErrorKind::Unknown, "Couldn't decode password".to_owned())),
            },
        }
    }

    /// A password from the text of an argument: what the text was read as,
    /// where it could be read as a password, else the text itself in the
    /// clear.
    pub fn from_str(s: &str, read: Option<PasswordType>) -> (p: PasswordType)
        ensures
            match read {
                Some(password) => p == password,
                None => p matches PasswordType::String(text) && text@ == s@,
            },
    {
        match read {
            Some(password) => password,
            None => PasswordType::String(s.to_owned()),
        }
    }

    /// What is shown of a password: never the password.
    pub fn redacted(&self) -> (text: String)
        ensures
            text@ == "<REDACTED_PASSWORD>"@,
    {
        "<REDACTED_PASSWORD>".to_owned()
    }
}

impl Default for PasswordType {
    /// The empty password, in the clear.
    fn default() -> (p: PasswordType)
        ensures
            p matches PasswordType::String(text) && text@ == Seq::<char>::empty(),
    {
        PasswordType::String(String::new())
    }
}


/// What a verdict on the old password comes to when the password is to be
/// changed: nothing to object to where the password is the hash's, else an
/// error of the kind `IncorrectPassword`.
pub fn old_password_verdict(verdict: Option<bool>) -> (r: Result<(), Error>)
    ensures
        verdict == Some(true) ==> r.is_ok(),
        verdict != Some(true) ==> (r matches Err(e) && e.kind == ErrorKind::IncorrectPassword
            && e.message@ == "Incorrect Password"@),
{
    match verdict {
        Some(true) => Ok(()),
        _ => Err(Error::new(ErrorKind::IncorrectPassword, "Incorrect Password".to_owned())),
    }
}

/// Checks the old password against the account's hash before the password
/// is changed.
pub fn check_old_password(hash: &str, old_password: &str) -> (r: Result<(), Error>)
    ensures
        argon2_verdict(hash@, encode_utf8(old_password@)) == Some(true) ==> r.is_ok(),
        argon2_verdict(hash@, encode_utf8(old_password@)) != Some(true) ==> (r matches Err(e)
            && e.kind == ErrorKind::IncorrectPassword && e.message@ == "Incorrect Password"@),
{
    old_password_verdict(argon2_verify(hash, old_password.as_bytes()))
}

/// The new password, where it was typed the same twice; else an error of
/// the kind `IncorrectPassword`.
pub fn confirm_password(new_password: String, confirmation: &str) -> (r: Result<String, Error>)
    ensures
        new_password@ == confirmation@ ==> (r matches Ok(p) && p@ == new_password@),
        new_password@ != confirmation@ ==> (r matches Err(e) && e.kind
            == ErrorKind::IncorrectPassword && e.message@ == "Passwords do not match"@),
{
    if text_equal(new_password.as_str(), confirmation) {
        Ok(new_password)
    } else {
        Err(Error::new(ErrorKind::IncorrectPassword, "Passwords do not match".to_owned()))
    }
}

/// A session as the database keeps it. Times are seconds since the Unix
/// epoch.
#[derive(Debug)]
pub struct SessionRow {
    pub id: String,
    pub logged_in: i64,
    pub last_active: i64,
    pub user_agent: Option<String>,
    /// What the client said of itself at login, as JSON text.
    pub metadata: String,
}

/// A session of a logged-in user.
#[derive(Debug)]
pub struct Session {
    pub logged_in: i64,
    pub last_active: i64,
    pub user_agent: Option<String>,
    /// What the client said of itself at login: JSON text.
    pub metadata: String,
}

/// The open sessions, each under its identifier, and the identifier of the
/// caller's own.
#[derive(Debug)]
pub struct SessionList {
    pub current: String,
    pub sessions: Vec<(String, Session)>,
}

/// Whether the metadata of every row is JSON.
pub open spec fn all_metadata_json(rows: Seq<SessionRow>) -> bool {
    forall|i: int| 0 <= i < rows.len() ==> json_fault((#[trigger] rows[i]).metadata@).is_none()
}

/// Where the first row lies whose metadata is not JSON; the number of rows
/// where every row's is.
pub open spec fn first_bad_metadata(rows: Seq<SessionRow>) -> int
    decreases rows.len(),
{
    if rows.len() == 0 {
        0
    } else if json_fault(rows[0].metadata@).is_some() {
        0
    } else {
        1 + first_bad_metadata(rows.drop_first())
    }
}

/// The list has the rows' sessions, in the rows' order.
pub open spec fn lists(list: &SessionList, current: Seq<char>, rows: Seq<SessionRow>) -> bool {
    &&& list.current@ == current
    &&& list.sessions@.len() == rows.len()
    &&& forall|i: int|
        0 <= i < rows.len() ==> {
            let (id, session) = #[trigger] list.sessions@[i];
            &&& id@ == rows[i].id@
            &&& session.logged_in == rows[i].logged_in
            &&& session.last_active == rows[i].last_active
            &&& session.user_agent.is_some() == rows[i].user_agent.is_some()
            &&& session.user_agent matches Some(agent) ==> agent@ == rows[i].user_agent.unwrap()@
            &&& session.metadata@ == rows[i].metadata@
        }
}

/// The session that a row stands for; an error of the kind `Database` where
/// the row's metadata is not JSON.
pub fn session_of(row: &SessionRow) -> (r: Result<Session, Error>)
    ensures
        match json_fault(row.metadata@) {
            None => r matches Ok(session) && session.logged_in == row.logged_in
                && session.last_active == row.last_active && session.user_agent.is_some()
                == row.user_agent.is_some() && (session.user_agent matches Some(agent) ==> agent@
                == row.user_agent.unwrap()@) && session.metadata@ == row.metadata@,
            Some(fault) => r matches Err(e) && e.kind == ErrorKind::Database && e.message@ == fault,
        },
{
    match json_check(row.metadata.as_str()) {
        Some(fault) => Err(Error::new(ErrorKind::Database, fault)),
        None => Ok(
            Session {
                logged_in: row.logged_in,
                last_active: row.last_active,
                user_agent: match &row.user_agent {
                    Some(agent) => Some(agent.clone()),
                    None => None,
                },
                metadata: row.metadata.clone(),
            },
        ),
    }
}

/// The open sessions from their rows, with the identifier of the caller's
/// own session. Where the metadata of a row is not JSON, the error is that
/// of the first such row, of the kind `Database`.
pub fn list(current: String, rows: &Vec<SessionRow>) -> (r: Result<SessionList, Error>)
    ensures
        all_metadata_json(rows@) ==> (r matches Ok(list) && lists(&list, current@, rows@)),
        !all_metadata_json(rows@) ==> (r matches Err(e) && e.kind == ErrorKind::Database
            && Some(e.message@) == json_fault(rows@[first_bad_metadata(rows@)].metadata@)),
{
    let mut sessions: Vec<(String, Session)> = Vec::new();
    let mut i: usize = 0;
    proof {
        assert(rows@.skip(0) =~= rows@);
    }
    while i < rows.len()
        invariant
            i <= rows@.len(),
            all_metadata_json(rows@.take(i as int)),
            first_bad_metadata(rows@) == i + first_bad_metadata(rows@.skip(i as int)),
            lists(&(SessionList { current, sessions }), current@, rows@.take(i as int)),
        decreases rows@.len() - i,
    {
        let ghost before = sessions@;
        proof {
            let rest = rows@.skip(i as int);
            assert(rest[0] == rows@[i as int]);
            assert(rest.drop_first() =~= rows@.skip(i + 1));
        }
        match session_of(&rows[i]) {
            Err(e) => {
                assert(json_fault(rows@[i as int].metadata@).is_some());
                return Err(e);
            },
            Ok(session) => {
                sessions.push((rows[i].id.clone(), session));
            },
        }
        proof {
            let longer = rows@.take(i + 1);
            assert forall|j: int| 0 <= j < longer.len() implies json_fault(
                (#[trigger] longer[j]).metadata@,
            ).is_none() by {
                if j < i {
                    assert(longer[j] == rows@.take(i as int)[j]);
                }
            }
            assert forall|j: int| 0 <= j < i implies sessions@[j] == before[j] by {}
        }
        i += 1;
    }
    proof {
        assert(rows@.take(rows@.len() as int) =~= rows@);
    }
    Ok(SessionList { current, sessions })
}

} // verus!
