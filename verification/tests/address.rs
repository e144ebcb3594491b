use a3_platform::address::{address_from_text, Address, AddressError};
use a3_platform::error::ManifestError;
use a3_platform::message::{prepare_send, subject_for_address};

fn address(name: &str, sld: &str, tld: &str) -> Address {
    Address {
        name: name.to_string(),
        second_level_domain: sld.to_string(),
        top_level_domain: tld.to_string(),
    }
}

#[test]
fn deserializes_address_correctly() {
    let address = Address::from_str("\"search@email.local\"").unwrap();
    assert_eq!(address.name.as_str(), "search");
    assert_eq!(address.second_level_domain.as_str(), "email");
    assert_eq!(address.top_level_domain.as_str(), "local");
}

#[test]
fn serializes_address_correctly() {
    let address = Address {
        name: "search".to_string(),
        second_level_domain: "email".to_string(),
        top_level_domain: "local".to_string(),
    };
    assert_eq!(
        address.to_string().unwrap().as_str(),
        "\"search@email.local\""
    );
}

#[test]
fn parses_plain_address() {
    let a = Address::parse("user@email.local").unwrap();
    assert_eq!(a, address("user", "email", "local"));
}

#[test]
fn parse_splits_at_either_separator() {
    // Every '@' and '.' splits, whichever comes first.
    let a = Address::parse("a.b@c").unwrap();
    assert_eq!(a, address("a", "b", "c"));
    let b = Address::parse("@.").unwrap();
    assert_eq!(b, address("", "", ""));
}

#[test]
fn parse_refuses_wrong_number_of_parts() {
    assert_eq!(Address::parse("user@email"), Err(AddressError::InvalidFormat));
    assert_eq!(Address::parse("user@mail.example.org"), Err(AddressError::InvalidFormat));
    assert_eq!(Address::parse(""), Err(AddressError::InvalidFormat));
    assert_eq!(
        AddressError::InvalidFormat.message(),
        "invalid address format, expect \"name@second-level-domain.top-level-domain\""
    );
}

#[test]
fn formats_address_as_text() {
    assert_eq!(address("search", "email", "local").format(), "search@email.local");
}

#[test]
fn text_form_round_trips() {
    let a = address("ünï", "cödé", "x y");
    assert_eq!(Address::parse(a.format().as_str()).unwrap(), a);
}

#[test]
fn json_form_round_trips_with_escapes() {
    let a = address("quo\"te", "back\\slash", "new\nline");
    let json = a.to_string().unwrap();
    assert_eq!(json, "\"quo\\\"te@back\\\\slash.new\\nline\"");
    assert_eq!(Address::from_str(json.as_str()).unwrap(), a);
}

#[test]
fn json_form_escapes_control_characters() {
    let a = address("a\u{1}", "b\u{1f}", "c/\u{7f}");
    let json = a.to_string().unwrap();
    assert_eq!(json, "\"a\\u0001@b\\u001f.c/\u{7f}\"");
    assert_eq!(Address::from_str(json.as_str()).unwrap(), a);
}

#[test]
fn from_str_refuses_bad_json_and_bad_shape() {
    assert!(matches!(Address::from_str("search@email.local"), Err(ManifestError::JsonError(_))));
    assert!(matches!(Address::from_str("\"search@email\""), Err(ManifestError::JsonError(_))));
    match Address::from_str("\"a@b\"") {
        Err(ManifestError::JsonError(e)) => assert_eq!(
            e.to_string(),
            "invalid address format, expect \"name@second-level-domain.top-level-domain\""
        ),
        _ => panic!("expected a JSON error"),
    }
    for bad in ["\"a@b.c.d\"", "\"search\"", "42"] {
        assert!(matches!(Address::from_str(bad), Err(ManifestError::JsonError(_))));
    }
    assert_eq!(Address::from_str("  \"a@b.c\"  ").unwrap(), address("a", "b", "c"));
}

#[test]
fn reads_address_from_client_text() {
    assert_eq!(address_from_text("  user@email.local\n"), Some(address("user", "email", "local")));
    assert_eq!(address_from_text("user"), None);
}

#[test]
fn subject_reverses_the_parts() {
    assert_eq!(subject_for_address(&address("search", "email", "local")), "local.email.search");
}

#[test]
fn prepare_send_addresses_the_recipient() {
    let from = address("me", "home", "local");
    let to = address("you", "work", "local");
    let (subject, message) = prepare_send(&from, to, "hello".to_string());
    assert_eq!(subject, "local.work.you");
    assert_eq!(message.from, from);
    assert_eq!(message.to, address("you", "work", "local"));
    assert_eq!(message.body, "hello");
}
