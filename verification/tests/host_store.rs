//! These run against the real host credential store — with the crate's
//! feature set, the kernel's session keyring — through the adapter itself.

use jurisdesk_secrets::store::{delete_secret, get_secret, set_secret};

fn s(x: &str) -> String {
    x.to_string()
}

#[test]
fn host_denied_write_reaches_caller_and_creates_no_entry() {
    // The kernel keyring cannot hold an empty value, so this write is denied
    // by the host store itself; the caller must see a non-empty message, and
    // the pair must still read as absent.
    let service = "jurisdesk-secrets-trial";
    let key = "api-token-denied-write";
    let r = set_secret(s(service), s(key), s(""));
    let msg = r.expect_err("the host store denies an empty value");
    assert!(!msg.is_empty());
    assert_eq!(get_secret(s(service), s(key)), Ok(None));
}

#[test]
fn host_absent_pair_reads_none_and_deletes_clean() {
    let service = "jurisdesk-secrets-trial";
    let key = "api-token-never-set";
    assert_eq!(get_secret(s(service), s(key)), Ok(None));
    assert_eq!(delete_secret(s(service), s(key)), Ok(()));
}
