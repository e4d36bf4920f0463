use jurisdesk_secrets::store::{
    interpret_delete, interpret_get, interpret_set, DeleteOutcome, GetOutcome, WriteOutcome,
};

#[test]
fn a_found_read_yields_the_value() {
    let r = interpret_get(GetOutcome::Found("abc123".to_string()));
    assert_eq!(r, Ok(Some("abc123".to_string())));
}

#[test]
fn an_absent_read_yields_none_not_an_error() {
    assert_eq!(interpret_get(GetOutcome::Absent), Ok(None));
}

#[test]
fn a_failed_read_yields_the_message() {
    let r = interpret_get(GetOutcome::Failure("backend unavailable".to_string()));
    assert_eq!(r, Err("backend unavailable".to_string()));
}

#[test]
fn a_completed_write_yields_success() {
    assert_eq!(interpret_set(WriteOutcome::Done), Ok(()));
}

#[test]
fn a_denied_write_reaches_the_caller_as_its_message() {
    let msg = "Platform secure storage failure: permission denied".to_string();
    let r = interpret_set(WriteOutcome::Failure(msg.clone()));
    assert_eq!(r, Err(msg));
    let text = r.unwrap_err();
    assert!(!text.is_empty());
}

#[test]
fn a_completed_delete_yields_success() {
    assert_eq!(interpret_delete(DeleteOutcome::Removed), Ok(()));
}

#[test]
fn an_absent_delete_yields_success_not_an_error() {
    assert_eq!(interpret_delete(DeleteOutcome::Absent), Ok(()));
}

#[test]
fn a_failed_delete_yields_the_message() {
    let r = interpret_delete(DeleteOutcome::Failure("store is locked".to_string()));
    assert_eq!(r, Err("store is locked".to_string()));
}
