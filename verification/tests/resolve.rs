use rparif_influxdb::clock::{render_collapsed_now, render_record_now};
use rparif_influxdb::names::{normalize_name, NameMap};
use rparif_influxdb::record::IndexRecord;
use rparif_influxdb::resolve::{build_resolver_url, parse_resolver_response, ResolveError};

#[test]
fn resolver_url_is_exact() {
    let codes = vec!["75101".to_string(), "94028".to_string()];
    let url = build_resolver_url(&codes);
    assert_eq!(
        url,
        "https://public.opendatasoft.com/api/records/1.0/search/?rows=2&q=75101 or 94028&start=0&dataset=correspondance-code-insee-code-postal"
    );
}

#[test]
fn normalization_replaces_hyphens_and_title_cases() {
    assert_eq!(normalize_name("PARIS-1ER-ARRONDISSEMENT"), "Paris 1er Arrondissement");
    assert_eq!(normalize_name("CRETEIL"), "Creteil");
    // A raw name that already mixes cases keeps its internal capitals.
    assert_eq!(normalize_name("Paris-1Er-Arrondissement"), "Paris 1Er Arrondissement");
}

#[test]
fn well_formed_reply_builds_the_map() {
    let body = r#"{
        "records": [
            {"fields": {"nom_comm": "PARIS-1ER-ARRONDISSEMENT", "insee_com": "75101"}},
            {"fields": {"nom_comm": "CRETEIL", "insee_com": 94028}}
        ]
    }"#;
    let map = parse_resolver_response(body).expect("reply should resolve");
    assert_eq!(map.get("75101"), Some(&"Paris 1er Arrondissement".to_string()));
    assert_eq!(map.get("94028"), Some(&"Creteil".to_string()));
    assert_eq!(map.get("77777"), None);
}

#[test]
fn empty_records_array_gives_empty_map() {
    let map = parse_resolver_response(r#"{"records": []}"#).expect("reply should resolve");
    assert!(map.is_empty());
}

#[test]
fn explicit_error_field_is_reported() {
    let r = parse_resolver_response(r#"{"error": "Unknown dataset"}"#);
    match r {
        Err(ResolveError::ErrorField(msg)) => assert_eq!(msg, "Unknown dataset"),
        other => panic!("expected the error field to be reported, got {:?}", other),
    }
}

#[test]
fn error_messages_surface_the_reply_text() {
    let e = parse_resolver_response(r#"{"error": "boom"}"#).unwrap_err();
    assert_eq!(e.message(), "boom");
    let e = parse_resolver_response(r#"{"records": 5}"#).unwrap_err();
    assert_eq!(e.message(), "Wrong json");
    let e = parse_resolver_response("{not json").unwrap_err();
    assert_eq!(e.message(), "invalid JSON");
}

#[test]
fn malformed_json_is_rejected() {
    let r = parse_resolver_response("{not json");
    assert!(matches!(r, Err(ResolveError::BadJson)));
}

#[test]
fn missing_records_array_is_rejected() {
    let r = parse_resolver_response(r#"{"rows": 2}"#);
    assert!(matches!(r, Err(ResolveError::WrongShape)));
    let r = parse_resolver_response(r#"{"records": 5}"#);
    assert!(matches!(r, Err(ResolveError::WrongShape)));
}

#[test]
fn unreadable_name_is_rejected() {
    let r = parse_resolver_response(r#"{"records": [{"fields": {"insee_com": "75101"}}]}"#);
    assert!(matches!(r, Err(ResolveError::WrongShape)));
    let r = parse_resolver_response(r#"{"records": [{"fields": {"nom_comm": 5, "insee_com": "75101"}}]}"#);
    assert!(matches!(r, Err(ResolveError::WrongShape)));
}

#[test]
fn rendering_now_produces_a_line() {
    let names = NameMap::new();
    let rec = IndexRecord {
        date: 18406,
        index: 34,
        insee: None,
        pollutants: vec!["o3".to_string()],
    };
    let line = render_record_now(&rec, &names).expect("an ordinary date renders");
    assert!(line.starts_with("pollution,insee=0,day="));
    assert!(line.contains(",pollutant=o3 index=34 "));
}

#[test]
fn rendering_now_rejects_far_dates() {
    let names = NameMap::new();
    let rec = IndexRecord {
        date: i64::MAX / 2,
        index: 1,
        insee: None,
        pollutants: vec![],
    };
    assert!(render_record_now(&rec, &names).is_none());
}

#[test]
fn collapsed_rendering_now_guards_its_inputs() {
    assert!(render_collapsed_now(&Vec::new()).is_none());
    let no_pollutant = vec![IndexRecord {
        date: 18406,
        index: 34,
        insee: None,
        pollutants: vec![],
    }];
    assert!(render_collapsed_now(&no_pollutant).is_none());
    let day = vec![
        IndexRecord {
            date: 18406,
            index: 34,
            insee: None,
            pollutants: vec!["global".to_string()],
        },
        IndexRecord {
            date: 18406,
            index: 17,
            insee: None,
            pollutants: vec!["no2".to_string()],
        },
    ];
    let line = render_collapsed_now(&day).expect("an ordinary day renders");
    assert!(line.starts_with("pollution,insee=0,day="));
    assert!(line.contains(" global=34,no2=17 "));
}
