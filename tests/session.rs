use warp_crud::config::Env;
use warp_crud::data::Session;
use warp_crud::error::Error;

#[test]
fn parses_hyphenated_and_simple_forms() {
    let a = Session::parse("936DA01F-9ABD-4D9D-80C7-02AF85C822A8").unwrap();
    let b = Session::parse("936da01f9abd4d9d80c702af85c822a8").unwrap();
    assert_eq!(a.id(), 0x936DA01F9ABD4D9D80C702AF85C822A8);
    assert_eq!(a, b);
}

#[test]
fn malformed_token_is_invalid_format() {
    assert!(matches!(Session::parse("deadbeef"), Err(Error::InvalidIdentityFormat)));
    assert!(matches!(Session::parse(""), Err(Error::InvalidIdentityFormat)));
}

#[test]
fn cookie_absent_or_malformed_names_no_session() {
    assert_eq!(Session::from_cookie(None), None);
    assert_eq!(Session::from_cookie(Some("not-a-token")), None);
    assert_eq!(
        Session::from_cookie(Some("00000000000000000000000000000011")),
        Some(Session::from_id(17))
    );
}

#[test]
fn encodes_as_simple_lowercase_hex() {
    let s = Session::from_id(0x936DA01F9ABD4D9D80C702AF85C822A8);
    assert_eq!(s.encode(), "936da01f9abd4d9d80c702af85c822a8");
    assert_eq!(Session::default().encode(), "0".repeat(32));
    assert_eq!(Session::parse(&s.encode()).unwrap(), s);
}

#[test]
fn new_sessions_differ() {
    assert_ne!(Session::new(), Session::new());
}

#[test]
fn env_names_round_trip() {
    for e in [Env::Default, Env::Test, Env::Development, Env::Production] {
        assert_eq!(Env::parse(&e.name()).unwrap(), e);
    }
    assert_eq!(Env::Development.name(), "Development");
    assert_eq!("Test".parse::<Env>().unwrap(), Env::Test);
}

#[test]
fn unknown_env_is_config_error() {
    match Env::parse("Staging") {
        Err(Error::ServerConfigError(t)) => assert_eq!(t, "Staging"),
        _ => panic!("expected a configuration error"),
    }
}
