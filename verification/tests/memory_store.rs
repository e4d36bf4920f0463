use jurisdesk_secrets::model::MemoryStore;

fn s(x: &str) -> String {
    x.to_string()
}

#[test]
fn get_after_set_returns_the_value() {
    let mut st = MemoryStore::new();
    assert_eq!(st.set_secret(s("svc"), s("user"), s("hunter2")), Ok(()));
    assert_eq!(st.get_secret(s("svc"), s("user")), Ok(Some(s("hunter2"))));
}

#[test]
fn second_set_overwrites_the_first() {
    let mut st = MemoryStore::new();
    assert_eq!(st.set_secret(s("svc"), s("user"), s("first")), Ok(()));
    assert_eq!(st.set_secret(s("svc"), s("user"), s("second")), Ok(()));
    assert_eq!(st.get_secret(s("svc"), s("user")), Ok(Some(s("second"))));
}

#[test]
fn get_of_a_pair_never_set_is_none_not_an_error() {
    let st = MemoryStore::new();
    assert_eq!(st.get_secret(s("svc"), s("user")), Ok(None));
}

#[test]
fn delete_of_a_pair_never_set_is_success() {
    let mut st = MemoryStore::new();
    assert_eq!(st.delete_secret(s("svc"), s("user")), Ok(()));
    assert_eq!(st.get_secret(s("svc"), s("user")), Ok(None));
}

#[test]
fn get_after_set_and_delete_is_none() {
    let mut st = MemoryStore::new();
    assert_eq!(st.set_secret(s("svc"), s("user"), s("hunter2")), Ok(()));
    assert_eq!(st.delete_secret(s("svc"), s("user")), Ok(()));
    assert_eq!(st.get_secret(s("svc"), s("user")), Ok(None));
}

#[test]
fn another_pair_is_untouched_by_set_and_delete() {
    let mut st = MemoryStore::new();
    assert_eq!(st.set_secret(s("svc"), s("alice"), s("a-token")), Ok(()));
    assert_eq!(st.set_secret(s("svc"), s("bob"), s("b-token")), Ok(()));
    assert_eq!(st.delete_secret(s("svc"), s("alice")), Ok(()));
    assert_eq!(st.get_secret(s("svc"), s("bob")), Ok(Some(s("b-token"))));
    assert_eq!(st.get_secret(s("svc"), s("alice")), Ok(None));
}

#[test]
fn jurisdesk_api_token_scenario() {
    let mut st = MemoryStore::new();
    assert_eq!(
        st.set_secret(s("jurisdesk"), s("api-token"), s("abc123")),
        Ok(())
    );
    assert_eq!(
        st.get_secret(s("jurisdesk"), s("api-token")),
        Ok(Some(s("abc123")))
    );
    assert_eq!(st.delete_secret(s("jurisdesk"), s("api-token")), Ok(()));
    assert_eq!(st.get_secret(s("jurisdesk"), s("api-token")), Ok(None));
    assert_eq!(st.delete_secret(s("jurisdesk"), s("api-token")), Ok(()));
}
