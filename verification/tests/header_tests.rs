use apollo_router::headers::{externalize_header_map, internalize_header_map, HeaderError};

#[test]
fn externalize_groups_by_name_in_first_occurrence_order() {
    let input = vec![
        ("accept".to_string(), "text/html".to_string()),
        ("x-tag".to_string(), "one".to_string()),
        ("accept".to_string(), "application/json".to_string()),
    ];
    let m = externalize_header_map(&input);
    assert_eq!(
        m,
        vec![
            (
                "accept".to_string(),
                vec!["text/html".to_string(), "application/json".to_string()]
            ),
            ("x-tag".to_string(), vec!["one".to_string()]),
        ]
    );
}

#[test]
fn internalize_flattens_preserving_value_order() {
    let m = vec![
        (
            "accept".to_string(),
            vec!["text/html".to_string(), "application/json".to_string()],
        ),
        ("x-tag".to_string(), vec!["one".to_string()]),
    ];
    let pairs = internalize_header_map(&m).unwrap();
    assert_eq!(
        pairs,
        vec![
            ("accept".to_string(), "text/html".to_string()),
            ("accept".to_string(), "application/json".to_string()),
            ("x-tag".to_string(), "one".to_string()),
        ]
    );
}

#[test]
fn internalize_normalizes_names_to_lower_case() {
    let m = vec![("Content-Type".to_string(), vec!["application/json".to_string()])];
    let pairs = internalize_header_map(&m).unwrap();
    assert_eq!(
        pairs,
        vec![("content-type".to_string(), "application/json".to_string())]
    );
}

#[test]
fn internalize_rejects_an_invalid_name() {
    let m = vec![("not a header".to_string(), vec!["x".to_string()])];
    let r = internalize_header_map(&m);
    assert_eq!(r, Err(HeaderError::InvalidName("not a header".to_string())));
}

#[test]
fn internalize_rejects_an_invalid_value() {
    let m = vec![("x-tag".to_string(), vec!["bad\nvalue".to_string()])];
    let r = internalize_header_map(&m);
    assert_eq!(r, Err(HeaderError::InvalidValue("bad\nvalue".to_string())));
}

#[test]
fn internalize_ignores_an_entry_without_values() {
    // per-value parsing: a bad name with no values never gets parsed
    let m = vec![("not a header".to_string(), vec![])];
    let pairs = internalize_header_map(&m).unwrap();
    assert_eq!(pairs, vec![]);
}

#[test]
fn codec_round_trip_on_a_grouped_map() {
    let input = vec![
        ("accept".to_string(), "text/html".to_string()),
        ("accept".to_string(), "application/json".to_string()),
        ("x-tag".to_string(), "one".to_string()),
    ];
    let out = internalize_header_map(&externalize_header_map(&input)).unwrap();
    assert_eq!(out, input);
}
