use theseus::single_flight::{
    after_notice, flight_role, follow, key, key_at, Flight, FlightRole, FollowerStep, Integrity,
};

#[test]
fn different_integrity_contracts_use_different_keys() {
    let path = "artifact.jar";
    assert_ne!(
        key(path, &Integrity::sha1("a"), false),
        key(path, &Integrity::sha1("b"), false)
    );
}

#[test]
fn concurrent_callers_share_successful_result() {
    let integrity = Integrity::sha1("deadbeef").with_size(7);
    assert_eq!(flight_role(&integrity, false), FlightRole::Leader);
    assert_eq!(flight_role(&integrity, true), FlightRole::Follower);

    let mut flight: Flight<u64> = Flight::new();
    assert!(matches!(follow(flight.result), FollowerStep::Wait));
    flight.land(Some(7));
    assert!(matches!(after_notice(flight.result), FollowerStep::Take(7)));
}

fn demands() -> Integrity {
    Integrity {
        size: Some(7),
        sha1: Some("a\"b".to_string()),
        sha512: None,
        sha256: Some("c".to_string()),
        md5: None,
        content: None,
    }
}

#[test]
fn keys_write_out_every_demand() {
    assert_eq!(
        key("Dir/a.jar", &demands(), false),
        "Dir/a.jar\0size=Some(7)\0sha1=Some(\"a\\\"b\")\0sha512=None\0sha256=Some(\"c\")\0md5=None\0content=None"
    );
    assert_eq!(key_at("Dir/a.jar", &demands()), key("Dir/a.jar", &demands(), false));
    assert!(key("Dir/straße", &demands(), true).starts_with("DIR/STRASSE\0size="));
}

#[test]
fn keys_differ_where_demands_or_places_do() {
    let base = demands();
    let given = key("a", &base, false);
    for other in [
        Integrity { size: Some(70), ..base.clone() },
        Integrity { size: None, ..base.clone() },
        Integrity { sha1: None, ..base.clone() },
        Integrity { sha512: Some("x".to_string()), ..base.clone() },
        Integrity { sha256: Some("d".to_string()), ..base.clone() },
        Integrity { md5: Some(String::new()), ..base.clone() },
        Integrity { content: Some("c".to_string()), ..base.clone() },
    ] {
        assert_ne!(key("a", &other, false), given);
    }
    assert_ne!(key("b", &base, false), given);
    assert_eq!(key("A", &base, true), key("a", &base, true));
}

#[test]
fn downloads_without_demands_are_not_shared() {
    let nothing = Integrity {
        size: None,
        sha1: None,
        sha512: None,
        sha256: None,
        md5: None,
        content: None,
    };
    assert!(nothing.is_empty());
    assert!(!demands().is_empty());
    assert_eq!(flight_role(&nothing, true), FlightRole::Alone);
    assert_eq!(flight_role(&nothing, false), FlightRole::Alone);
}

#[test]
fn failed_flights_are_run_again_by_their_followers() {
    let mut flight: Flight<u64> = Flight::new();
    flight.land(None);
    assert!(matches!(after_notice(flight.result), FollowerStep::Run));
    let mut flight: Flight<u64> = Flight::new();
    flight.land(Some(1));
    assert!(matches!(follow(flight.result), FollowerStep::Take(1)));
}

#[test]
fn several_differences_do_not_cancel_out() {
    let one = Integrity { md5: Some("c".to_string()), content: None, ..demands() };
    let other = Integrity { md5: None, content: Some("c".to_string()), ..demands() };
    assert_ne!(key("a", &one, false), key("a", &other, false));
    assert_ne!(key("a", &one, false), key("b", &other, false));
    assert_eq!(key("a", &one, false), key("a", &one.clone(), false));
    // The same demands make the same key, whatever they are.
    let odd = Integrity { content: Some("a \"b\"\n".to_string()), ..demands() };
    assert_eq!(key("a", &odd, false), key("a", &odd.clone(), false));
    let differs = Integrity { md5: Some("d".to_string()), ..odd.clone() };
    assert_ne!(key("a", &odd, false), key("a", &differs, false));
}
