use focaldesk::settings::location_permissions::{
    is_not_found, parse_accuracy, parse_location_permissions, records_of_lookup, revoke_error,
    LocationAccuracy, LocationPermissionRecord, Lookup,
};

#[test]
fn parses_and_sorts_location_permissions() {
    let permissions = vec![
        (
            "org.example.Weather".to_string(),
            vec!["CITY".to_string(), "123".to_string()],
        ),
        (
            "org.example.Maps".to_string(),
            vec!["EXACT".to_string(), "456".to_string()],
        ),
    ];

    let records = parse_location_permissions(permissions);
    assert_eq!(records[0].app_id, "org.example.Maps");
    assert_eq!(records[0].accuracy, LocationAccuracy::Exact);
    assert_eq!(records[1].app_id, "org.example.Weather");
    assert_eq!(records[1].accuracy, LocationAccuracy::City);
}

#[test]
fn preserves_saved_denials_and_malformed_entries_for_revocation() {
    let permissions = vec![
        ("org.example.Denied".to_string(), vec!["NONE".to_string()]),
        ("org.example.Broken".to_string(), Vec::new()),
    ];

    let records = parse_location_permissions(permissions);
    assert_eq!(
        records[0].accuracy,
        LocationAccuracy::Unknown("missing".to_string())
    );
    assert_eq!(records[0].decision_label(), "Unknown");
    assert_eq!(records[1].accuracy, LocationAccuracy::NoAccess);
    assert_eq!(records[1].decision_label(), "Denied");
}

#[test]
fn location_accuracies_are_read_from_the_first_value() {
    assert_eq!(parse_accuracy(Some("COUNTRY")), LocationAccuracy::Country);
    assert_eq!(
        parse_accuracy(Some("NEIGHBORHOOD")),
        LocationAccuracy::Neighborhood
    );
    assert_eq!(parse_accuracy(Some("STREET")), LocationAccuracy::Street);
    assert_eq!(
        parse_accuracy(Some("street")),
        LocationAccuracy::Unknown("street".to_string())
    );
    assert_eq!(
        parse_accuracy(None),
        LocationAccuracy::Unknown("missing".to_string())
    );
}

#[test]
fn location_records_do_not_depend_on_the_order_they_come_in() {
    let entry = |name: &str| (name.to_string(), vec!["CITY".to_string()]);
    let a = parse_location_permissions(vec![entry("b"), entry("a"), entry("B"), entry("aa")]);
    let b = parse_location_permissions(vec![entry("aa"), entry("B"), entry("b"), entry("a")]);
    assert_eq!(a, b);
    let names: Vec<&str> = a.iter().map(|r| r.app_id.as_str()).collect();
    assert_eq!(names, vec!["B", "a", "aa", "b"]);
}

#[test]
fn location_lookups_without_an_entry_are_empty() {
    assert!(is_not_found("org.freedesktop.portal.Error.NotFound"));
    assert!(!is_not_found("org.freedesktop.portal.Error.Failed"));
    let none = records_of_lookup(Lookup::Refused {
        name: "org.freedesktop.portal.Error.NotFound".to_string(),
        text: "nothing".to_string(),
    });
    assert_eq!(none, Ok(Vec::new()));
    let refused = records_of_lookup(Lookup::Refused {
        name: "org.freedesktop.portal.Error.Failed".to_string(),
        text: "broken".to_string(),
    });
    assert_eq!(
        refused,
        Err("look up saved location permissions: broken".to_string())
    );
    let failed = records_of_lookup(Lookup::Failed {
        text: "no bus".to_string(),
    });
    assert_eq!(
        failed,
        Err("look up saved location permissions: no bus".to_string())
    );
    let found = records_of_lookup(Lookup::Found {
        permissions: vec![("x".to_string(), vec!["EXACT".to_string()])],
    });
    assert_eq!(found.unwrap().len(), 1);
}

#[test]
fn location_revocation_names_the_application() {
    let record = LocationPermissionRecord {
        app_id: "org.example.Maps".to_string(),
        accuracy: LocationAccuracy::Exact,
    };
    assert_eq!(
        revoke_error(&record, "gone"),
        "revoke location permission for org.example.Maps: gone"
    );
    assert_eq!(record.decision_label(), "Allowed");
}
