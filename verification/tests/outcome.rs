use getver::outcome::{decimal_string, Crate, Error, LookupOutcome};

fn krate(name: &str, max_version: &str) -> Crate {
    Crate { name: name.to_string(), max_version: max_version.to_string() }
}

#[test]
fn decimal_numerals() {
    assert_eq!(decimal_string(0), "0");
    assert_eq!(decimal_string(7), "7");
    assert_eq!(decimal_string(9), "9");
    assert_eq!(decimal_string(10), "10");
    assert_eq!(decimal_string(99), "99");
    assert_eq!(decimal_string(100), "100");
    assert_eq!(decimal_string(404), "404");
    assert_eq!(decimal_string(1234), "1234");
    assert_eq!(decimal_string(56789), "56789");
    assert_eq!(decimal_string(u16::MAX), "65535");
}

#[test]
fn decimal_numerals_agree_with_std() {
    let mut n: u16 = 0;
    loop {
        assert_eq!(decimal_string(n), n.to_string());
        if n == u16::MAX {
            break;
        }
        n += 1;
    }
}

#[test]
fn message_of_crate_not_found() {
    assert_eq!(
        Error::CrateNotFound("left-pad".to_string()).message(),
        "the crate 'left-pad' doesn't exist"
    );
    assert_eq!(Error::CrateNotFound(String::new()).message(), "the crate '' doesn't exist");
}

#[test]
fn message_of_outside_errors_is_their_text() {
    assert_eq!(Error::Io("connection reset".to_string()).message(), "connection reset");
    assert_eq!(Error::Json("missing field `crate`".to_string()).message(), "missing field `crate`");
    assert_eq!(Error::Surf("timed out".to_string()).message(), "timed out");
    assert_eq!(Error::Io(String::new()).message(), "");
}

#[test]
fn message_of_unexpected_status() {
    assert_eq!(Error::Status(500).message(), "unexpected status 500");
    assert_eq!(Error::Status(0).message(), "unexpected status 0");
    assert_eq!(Error::Status(65535).message(), "unexpected status 65535");
}

#[test]
fn metadata_makes_found() {
    assert_eq!(
        LookupOutcome::from_result("left-pad".to_string(), Ok(krate("left-pad", "1.3.0"))),
        LookupOutcome::Found { name: "left-pad".to_string(), max_version: "1.3.0".to_string() }
    );
}

#[test]
fn found_carries_the_name_that_was_asked_for() {
    assert_eq!(
        LookupOutcome::from_result("Serde".to_string(), Ok(krate("serde", "1.0.0"))),
        LookupOutcome::Found { name: "Serde".to_string(), max_version: "1.0.0".to_string() }
    );
}

#[test]
fn version_is_taken_as_the_registry_gives_it() {
    assert_eq!(
        LookupOutcome::from_result("x".to_string(), Ok(krate("x", "not a version"))),
        LookupOutcome::Found { name: "x".to_string(), max_version: "not a version".to_string() }
    );
}

#[test]
fn denial_makes_not_found() {
    assert_eq!(
        LookupOutcome::from_result(
            "zzz-nonexistent-pkg".to_string(),
            Err(Error::CrateNotFound("zzz-nonexistent-pkg".to_string()))
        ),
        LookupOutcome::NotFound { name: "zzz-nonexistent-pkg".to_string() }
    );
}

#[test]
fn other_errors_make_failed_with_their_message() {
    assert_eq!(
        LookupOutcome::from_result("a".to_string(), Err(Error::Surf("timed out".to_string()))),
        LookupOutcome::Failed { name: "a".to_string(), cause: "timed out".to_string() }
    );
    assert_eq!(
        LookupOutcome::from_result("a".to_string(), Err(Error::Io("broken pipe".to_string()))),
        LookupOutcome::Failed { name: "a".to_string(), cause: "broken pipe".to_string() }
    );
    assert_eq!(
        LookupOutcome::from_result("a".to_string(), Err(Error::Json("EOF".to_string()))),
        LookupOutcome::Failed { name: "a".to_string(), cause: "EOF".to_string() }
    );
    assert_eq!(
        LookupOutcome::from_result("a".to_string(), Err(Error::Status(503))),
        LookupOutcome::Failed { name: "a".to_string(), cause: "unexpected status 503".to_string() }
    );
}

#[test]
fn outcome_name() {
    let found = LookupOutcome::Found { name: "a".to_string(), max_version: "1".to_string() };
    let not_found = LookupOutcome::NotFound { name: "b".to_string() };
    let failed = LookupOutcome::Failed { name: "c".to_string(), cause: "x".to_string() };
    assert_eq!(found.name(), "a");
    assert_eq!(not_found.name(), "b");
    assert_eq!(failed.name(), "c");
}
