use rparif_influxdb::dates::{date_from_ymd, day_tag_str, midnight_timestamp};
use rparif_influxdb::line::{collapsed_line, line_protocol};
use rparif_influxdb::names::{build_name_map, NameMap};
use rparif_influxdb::numfmt::{i64_str, u64_str};
use rparif_influxdb::plan::{fetch_days, plan_run};
use rparif_influxdb::record::{Day, IndexRecord};
use rparif_influxdb::text::{escape_str, hyphens_to_spaces, join_strings, sort_strings, str_eq, str_leq};

fn region_record(date: i64, index: u32, pollutants: &[&str]) -> IndexRecord {
    IndexRecord {
        date,
        index,
        insee: None,
        pollutants: pollutants.iter().map(|p| p.to_string()).collect(),
    }
}

const MAY_23: i64 = 18405;
const MAY_24: i64 = 18406;
const MAY_25: i64 = 18407;
const CEST: i32 = 7200;

#[test]
fn empty_pollutant_list_omits_tag() {
    let rec = region_record(MAY_24, 12, &[]);
    let names = NameMap::new();
    let line = line_protocol(&rec, &names, MAY_24, CEST);
    assert_eq!(line, "pollution,insee=0,day=current index=12 1590271200000000000");
    assert!(!line.contains("pollutant"));
}

#[test]
fn pollutants_rendered_in_lexicographic_order() {
    let rec = region_record(MAY_24, 35, &["pm10", "o3"]);
    let names = NameMap::new();
    let line = line_protocol(&rec, &names, MAY_24, CEST);
    assert_eq!(
        line,
        "pollution,insee=0,day=current,pollutant=o3\\ pm10 index=35 1590271200000000000"
    );
}

#[test]
fn missing_area_code_gives_insee_zero_and_no_city() {
    let mut names = NameMap::new();
    names.insert("75101".to_string(), "Paris".to_string());
    let rec = region_record(MAY_24, 20, &["o3"]);
    let line = line_protocol(&rec, &names, MAY_24, CEST);
    assert!(line.starts_with("pollution,insee=0,day="));
    assert!(!line.contains("city"));
}

#[test]
fn resolved_city_is_titlecased_and_escaped() {
    let pairs = vec![(
        "75101".to_string(),
        "PARIS-1ER-ARRONDISSEMENT".to_string(),
    )];
    let names = build_name_map(&pairs);
    let rec = IndexRecord {
        date: MAY_24,
        index: 35,
        insee: Some("75101".to_string()),
        pollutants: vec!["o3".to_string()],
    };
    let line = line_protocol(&rec, &names, MAY_24, CEST);
    assert_eq!(
        line,
        "pollution,insee=75101,city=Paris\\ 1er\\ Arrondissement,day=current,pollutant=o3 index=35 1590271200000000000"
    );
}

#[test]
fn unresolved_city_in_nonempty_map_is_none() {
    let mut names = NameMap::new();
    names.insert("94028".to_string(), "Creteil".to_string());
    let rec = IndexRecord {
        date: MAY_24,
        index: 35,
        insee: Some("75101".to_string()),
        pollutants: vec![],
    };
    let line = line_protocol(&rec, &names, MAY_24, CEST);
    assert_eq!(line, "pollution,insee=75101,city=none,day=current index=35 1590271200000000000");
}

#[test]
fn empty_map_gives_no_city_tag() {
    let names = NameMap::new();
    let rec = IndexRecord {
        date: MAY_24,
        index: 35,
        insee: Some("75101".to_string()),
        pollutants: vec![],
    };
    let line = line_protocol(&rec, &names, MAY_24, CEST);
    assert_eq!(line, "pollution,insee=75101,day=current index=35 1590271200000000000");
}

#[test]
fn day_tag_classification_and_boundaries() {
    assert_eq!(day_tag_str(MAY_24, MAY_24), "current");
    assert_eq!(day_tag_str(MAY_23, MAY_24), "previous");
    assert_eq!(day_tag_str(MAY_25, MAY_24), "next");
    // The boundary sits exactly at the day change: one day number is one
    // local midnight-to-midnight span.
    assert_eq!(date_from_ymd(2020, 5, 24) - date_from_ymd(2020, 5, 23), 1);
    assert_eq!(day_tag_str(date_from_ymd(2020, 5, 23), date_from_ymd(2020, 5, 24)), "previous");
    assert_eq!(day_tag_str(date_from_ymd(2020, 5, 25), date_from_ymd(2020, 5, 24)), "next");
}

fn three_days() -> Vec<Vec<IndexRecord>> {
    let days = [
        (MAY_23, [35u32, 17, 35, 31]),
        (MAY_24, [34, 17, 34, 23]),
        (MAY_25, [45, 28, 45, 25]),
    ];
    days.iter()
        .map(|(date, vals)| {
            ["global", "no2", "o3", "pm10"]
                .iter()
                .zip(vals.iter())
                .map(|(p, v)| region_record(*date, *v, &[p]))
                .collect()
        })
        .collect()
}

#[test]
fn three_days_render_twelve_lines() {
    let names = NameMap::new();
    let mut lines = Vec::new();
    for day in three_days() {
        for rec in day {
            lines.push(line_protocol(&rec, &names, MAY_24, CEST));
        }
    }
    let expected = vec![
        "pollution,insee=0,day=previous,pollutant=global index=35 1590184800000000000",
        "pollution,insee=0,day=previous,pollutant=no2 index=17 1590184800000000000",
        "pollution,insee=0,day=previous,pollutant=o3 index=35 1590184800000000000",
        "pollution,insee=0,day=previous,pollutant=pm10 index=31 1590184800000000000",
        "pollution,insee=0,day=current,pollutant=global index=34 1590271200000000000",
        "pollution,insee=0,day=current,pollutant=no2 index=17 1590271200000000000",
        "pollution,insee=0,day=current,pollutant=o3 index=34 1590271200000000000",
        "pollution,insee=0,day=current,pollutant=pm10 index=23 1590271200000000000",
        "pollution,insee=0,day=next,pollutant=global index=45 1590357600000000000",
        "pollution,insee=0,day=next,pollutant=no2 index=28 1590357600000000000",
        "pollution,insee=0,day=next,pollutant=o3 index=45 1590357600000000000",
        "pollution,insee=0,day=next,pollutant=pm10 index=25 1590357600000000000",
    ];
    assert_eq!(lines.len(), 12);
    assert_eq!(lines, expected);
}

#[test]
fn three_days_collapse_to_three_lines() {
    let mut lines = Vec::new();
    for day in three_days() {
        lines.push(collapsed_line(&day, MAY_24, CEST));
    }
    let expected = vec![
        "pollution,insee=0,day=previous global=35,no2=17,o3=35,pm10=31 1590184800000000000",
        "pollution,insee=0,day=current global=34,no2=17,o3=34,pm10=23 1590271200000000000",
        "pollution,insee=0,day=next global=45,no2=28,o3=45,pm10=25 1590357600000000000",
    ];
    assert_eq!(lines.len(), 3);
    assert_eq!(lines, expected);
}

#[test]
fn day_numbers_of_known_dates() {
    assert_eq!(date_from_ymd(1970, 1, 1), 0);
    assert_eq!(date_from_ymd(1970, 12, 31), 364);
    assert_eq!(date_from_ymd(2000, 1, 1), 10957);
    assert_eq!(date_from_ymd(2000, 2, 29), 11016);
    assert_eq!(date_from_ymd(2000, 3, 1), 11017);
    assert_eq!(date_from_ymd(2020, 5, 23), MAY_23);
}

#[test]
fn midnight_timestamps() {
    assert_eq!(midnight_timestamp(MAY_23, CEST), 1590184800000000000);
    assert_eq!(midnight_timestamp(0, 0), 0);
    assert_eq!(midnight_timestamp(-1, 0), -86400000000000);
    assert_eq!(midnight_timestamp(0, -3600), 3600000000000);
}

#[test]
fn decimal_rendering() {
    assert_eq!(u64_str(0), "0");
    assert_eq!(u64_str(7), "7");
    assert_eq!(u64_str(1234567890), "1234567890");
    assert_eq!(i64_str(-42), "-42");
    assert_eq!(i64_str(1590184800000000000), "1590184800000000000");
}

#[test]
fn escaping_and_hyphens() {
    assert_eq!(escape_str("Paris 1er Arrondissement"), "Paris\\ 1er\\ Arrondissement");
    assert_eq!(escape_str("nospace"), "nospace");
    assert_eq!(escape_str(""), "");
    assert_eq!(hyphens_to_spaces("Paris-1Er-Arrondissement"), "Paris 1Er Arrondissement");
    assert_eq!(hyphens_to_spaces("plain"), "plain");
}

#[test]
fn string_order_helpers() {
    assert!(str_leq("o3", "pm10"));
    assert!(!str_leq("pm10", "o3"));
    assert!(str_leq("no2", "no2"));
    assert!(str_eq("abc", "abc"));
    assert!(!str_eq("abc", "abd"));
    let v = vec!["pm10".to_string(), "global".to_string(), "o3".to_string(), "no2".to_string()];
    let sorted = sort_strings(&v);
    assert_eq!(sorted, vec!["global", "no2", "o3", "pm10"]);
    assert_eq!(join_strings(&sorted, "\\ "), "global\\ no2\\ o3\\ pm10");
    assert_eq!(join_strings(&Vec::new(), ","), "");
}

#[test]
fn name_map_basics() {
    let mut names = NameMap::new();
    assert!(names.is_empty());
    names.insert("75101".to_string(), "Paris".to_string());
    names.insert("94028".to_string(), "Creteil".to_string());
    names.insert("75101".to_string(), "Paris 1er".to_string());
    assert!(!names.is_empty());
    assert_eq!(names.get("75101"), Some(&"Paris 1er".to_string()));
    assert_eq!(names.get("94028"), Some(&"Creteil".to_string()));
    assert_eq!(names.get("77777"), None);
}

#[test]
fn run_plans_follow_the_flag_table() {
    let p = plan_run(false, false, false);
    assert!(!p.by_codes && !p.resolve_names && !p.collapsed);
    let p = plan_run(false, true, true);
    assert!(!p.by_codes && !p.resolve_names && p.collapsed);
    let p = plan_run(true, false, true);
    assert!(p.by_codes && !p.resolve_names && !p.collapsed);
    let p = plan_run(true, true, false);
    assert!(p.by_codes && p.resolve_names && !p.collapsed);
    let days = fetch_days();
    assert_eq!(days, vec![Day::Yesterday, Day::Today, Day::Tomorrow]);
}
