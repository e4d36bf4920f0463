//! The secret-store adapter: three commands — set, get, delete — mapped onto
//! named entries of the host operating system's credential manager through
//! the `keyring` crate.
//!
//! The host store owns the entries and decides each call's fate, so what one
//! attempt came to is carried back as an outcome value, and a verified
//! interpretation turns each outcome into the command's result. The two
//! policy decisions of the surface live in those interpretations and are
//! pinned by their contracts: an absent entry reads as a plain `None`, and
//! deleting an absent entry counts as success. Every other failure is
//! flattened to one human-readable message.

use vstd::prelude::*;

verus! {

/// What one attempt to read a secret from the host store came to.
pub enum GetOutcome {
    /// The entry exists and holds this value.
    Found(String),
    /// The host store reported that no entry exists for the pair.
    Absent,
    /// Any other failure, flattened to its message.
    Failure(String),
}

/// What one attempt to write a secret to the host store came to.
pub enum WriteOutcome {
    /// The value is stored.
    Done,
    /// Any failure, flattened to its message.
    Failure(String),
}

/// What one attempt to delete an entry of the host store came to.
pub enum DeleteOutcome {
    /// The entry existed and is gone.
    Removed,
    /// The host store reported that no entry exists for the pair.
    Absent,
    /// Any other failure, flattened to its message.
    Failure(String),
}

/// The result a get command owes for each outcome of the read: the value,
/// `None` for an absent entry — a defined result, not a failure — and the
/// failure's own message otherwise.
pub open spec fn get_result_of(o: GetOutcome) -> Result<Option<String>, String> {
    match o {
        GetOutcome::Found(v) => Ok(Some(v)),
        GetOutcome::Absent => Ok(None),
        GetOutcome::Failure(m) => Err(m),
    }
}

/// The result a set command owes for each outcome of the write: success with
/// no payload, or the failure's own message.
pub open spec fn set_result_of(o: WriteOutcome) -> Result<(), String> {
    match o {
        WriteOutcome::Done => Ok(()),
        WriteOutcome::Failure(m) => Err(m),
    }
}

/// The result a delete command owes for each outcome: success both when the
/// entry was removed and when none existed — absence is a no-op, not an
/// error — and the failure's own message otherwise.
pub open spec fn delete_result_of(o: DeleteOutcome) -> Result<(), String> {
    match o {
        DeleteOutcome::Removed => Ok(()),
        DeleteOutcome::Absent => Ok(()),
        DeleteOutcome::Failure(m) => Err(m),
    }
}

/// Turn a read's outcome into the get command's result, exactly as
/// `get_result_of` states it.
pub fn interpret_get(o: GetOutcome) -> (r: Result<Option<String>, String>)
    ensures
        r == get_result_of(o),
{
    match o {
        GetOutcome::Found(v) => Ok(Some(v)),
        GetOutcome::Absent => Ok(None),
        GetOutcome::Failure(m) => Err(m),
    }
}

/// Turn a write's outcome into the set command's result, exactly as
/// `set_result_of` states it.
pub fn interpret_set(o: WriteOutcome) -> (r: Result<(), String>)
    ensures
        r == set_result_of(o),
{
    match o {
        WriteOutcome::Done => Ok(()),
        WriteOutcome::Failure(m) => Err(m),
    }
}

/// Turn a delete's outcome into the delete command's result, exactly as
/// `delete_result_of` states it.
pub fn interpret_delete(o: DeleteOutcome) -> (r: Result<(), String>)
    ensures
        r == delete_result_of(o),
{
    match o {
        DeleteOutcome::Removed => Ok(()),
        DeleteOutcome::Absent => Ok(()),
        DeleteOutcome::Failure(m) => Err(m),
    }
}

#[verifier::external_type_specification]
#[verifier::external_body]
/// A handle of the host credential store, from the `keyring` crate; opaque
/// here, only carried from the resolving call to the operation on it.
pub struct ExEntry(keyring::Entry);

/// Relies on `keyring::Entry::new`: resolves a (service, key) pair to a
/// handle of the host credential store. Which pairs the platform accepts is
/// its own affair, so no outcome is promised; a refusal is carried as the
/// error's display text, which is non-empty for every variant of
/// `keyring::Error`.
#[verifier::external_body]
fn open_entry(service: &str, key: &str) -> (r: Result<keyring::Entry, String>)
    ensures
        r matches Err(m) ==> m@.len() > 0,
{
    match keyring::Entry::new(service, key) {
        Ok(entry) => Ok(entry),
        Err(err) => Err(err.to_string()),
    }
}

/// Relies on `keyring::Entry::set_password`: writes the value as the entry's
/// secret, replacing any prior value; the host store decides success, so no
/// outcome is promised. A failure is carried as the error's display text,
/// which is non-empty for every variant of `keyring::Error`.
#[verifier::external_body]
fn write_secret(entry: &keyring::Entry, value: &str) -> (r: WriteOutcome)
    ensures
        r matches WriteOutcome::Failure(m) ==> m@.len() > 0,
{
    match entry.set_password(value) {
        Ok(()) => WriteOutcome::Done,
        Err(err) => WriteOutcome::Failure(err.to_string()),
    }
}

/// Relies on `keyring::Entry::get_password`: reads the entry's secret, and
/// reports an entry that does not exist as `keyring::Error::NoEntry`, which
/// alone becomes `Absent`. Any other failure is carried as the error's
/// display text, which is non-empty for every variant of `keyring::Error`.
#[verifier::external_body]
fn read_secret(entry: &keyring::Entry) -> (r: GetOutcome)
    ensures
        r matches GetOutcome::Failure(m) ==> m@.len() > 0,
{
    match entry.get_password() {
        Ok(value) => GetOutcome::Found(value),
        Err(keyring::Error::NoEntry) => GetOutcome::Absent,
        Err(err) => GetOutcome::Failure(err.to_string()),
    }
}

/// Relies on `keyring::Entry::delete_credential`: removes the entry's
/// credential, and reports an entry that does not exist as
/// `keyring::Error::NoEntry`, which alone becomes `Absent`. Any other
/// failure is carried as the error's display text, which is non-empty for
/// every variant of `keyring::Error`.
#[verifier::external_body]
fn remove_secret(entry: &keyring::Entry) -> (r: DeleteOutcome)
    ensures
        r matches DeleteOutcome::Failure(m) ==> m@.len() > 0,
{
    match entry.delete_credential() {
        Ok(()) => DeleteOutcome::Removed,
        Err(keyring::Error::NoEntry) => DeleteOutcome::Absent,
        Err(err) => DeleteOutcome::Failure(err.to_string()),
    }
}

/// Store `value` under the (service, key) pair in the host credential store,
/// replacing any prior value. The host store decides the write's fate; the
/// result owed for each outcome is `set_result_of`, computed by
/// `interpret_set`. A failure to resolve the pair is itself an error, with
/// the host's message; every error the caller can receive carries a
/// non-empty, human-readable message.
pub fn set_secret(service: String, key: String, value: String) -> (r: Result<(), String>)
    ensures
        r matches Err(m) ==> m@.len() > 0,
{
    let entry = match open_entry(service.as_str(), key.as_str()) {
        Ok(entry) => entry,
        Err(m) => {
            return Err(m);
        },
    };
    interpret_set(write_secret(&entry, value.as_str()))
}

/// Read the value stored under the (service, key) pair in the host
/// credential store: `Some` of it when the entry exists, `None` when the
/// host reports none — absence is an ordinary result, not a failure. The
/// result owed for each outcome of the read is `get_result_of`, computed by
/// `interpret_get`; every error the caller can receive carries a non-empty,
/// human-readable message.
pub fn get_secret(service: String, key: String) -> (r: Result<Option<String>, String>)
    ensures
        r matches Err(m) ==> m@.len() > 0,
{
    let entry = match open_entry(service.as_str(), key.as_str()) {
        Ok(entry) => entry,
        Err(m) => {
            return Err(m);
        },
    };
    interpret_get(read_secret(&entry))
}

/// Remove the entry under the (service, key) pair from the host credential
/// store. Success covers both outcomes the host can report short of failure:
/// the entry existed and is gone, or none existed — absence is a no-op, not
/// an error. The result owed for each outcome is `delete_result_of`,
/// computed by `interpret_delete`; every error the caller can receive
/// carries a non-empty, human-readable message.
pub fn delete_secret(service: String, key: String) -> (r: Result<(), String>)
    ensures
        r matches Err(m) ==> m@.len() > 0,
{
    let entry = match open_entry(service.as_str(), key.as_str()) {
        Ok(entry) => entry,
        Err(m) => {
            return Err(m);
        },
    };
    interpret_delete(remove_secret(&entry))
}

} // verus!
