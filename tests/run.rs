use dyndns::api::{get_credentials, is_deprecated, Credentials};
use dyndns::error::Error;
use dyndns::ip::check_addresses;
use dyndns::names::{select_names, split_names};
use dyndns::run::aggregate;

fn strings(v: &[&str]) -> Vec<String> {
    v.iter().map(|s| s.to_string()).collect()
}

#[test]
fn token_wins_over_key() {
    let c = get_credentials(Some("t".to_string()), Some("k".to_string()), Some("e@x".to_string()));
    assert!(matches!(c, Ok(Credentials::UserAuthToken { ref token }) if token == "t"));
    assert!(!is_deprecated(&c.unwrap()));
}

#[test]
fn key_with_email_is_accepted() {
    let c = get_credentials(None, Some("k".to_string()), Some("e@x".to_string()));
    assert!(matches!(c, Ok(Credentials::UserAuthKey { ref key, ref email }) if key == "k" && email == "e@x"));
    assert!(is_deprecated(&c.unwrap()));
}

#[test]
fn missing_credentials_are_refused() {
    assert_eq!(get_credentials(None, None, None).err(), Some(Error::Configuration));
    assert_eq!(get_credentials(None, Some("k".to_string()), None).err(), Some(Error::Configuration));
    assert_eq!(get_credentials(None, None, Some("e@x".to_string())).err(), Some(Error::Configuration));
}

#[test]
fn no_public_address_fails() {
    assert_eq!(check_addresses(None, None), Err(Error::NoPublicAddress));
    assert_eq!(check_addresses(Some(1), None), Ok((Some(1), None)));
    assert_eq!(check_addresses(None, Some(2)), Ok((None, Some(2))));
    assert_eq!(check_addresses(Some(1), Some(2)), Ok((Some(1), Some(2))));
}

#[test]
fn aggregate_reports_first_failure() {
    assert_eq!(aggregate(vec![Ok(()), Ok(())]), Ok(()));
    assert_eq!(aggregate(Vec::new()), Ok(()));
    let r = aggregate(vec![
        Ok(()),
        Err(Error::Provider("first".to_string())),
        Err(Error::Provider("second".to_string())),
    ]);
    assert_eq!(r, Err(Error::Provider("first".to_string())));
}

#[test]
fn split_names_dedups_in_order() {
    let names = strings(&["b.example.com", "a.example.com", "b.example.com", "bad", "bad"]);
    let s = split_names(&names, &vec![true, true, true, false, false]);
    assert_eq!(s.names, strings(&["b.example.com", "a.example.com"]));
    assert_eq!(s.invalid, strings(&["bad"]));
}

#[test]
fn select_names_without_validation_keeps_all() {
    let names = strings(&["x", "home.example.com", "x"]);
    let s = select_names(&names, false);
    assert_eq!(s.names, strings(&["x", "home.example.com"]));
    assert!(s.invalid.is_empty());
}

#[test]
fn select_names_refuses_invalid_domains() {
    let names = strings(&["home.example.com", "not a domain!", "host.example.org"]);
    let s = select_names(&names, true);
    assert_eq!(s.names, strings(&["home.example.com", "host.example.org"]));
    assert_eq!(s.invalid, strings(&["not a domain!"]));
}
