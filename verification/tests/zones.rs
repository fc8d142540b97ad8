use xml_schema_parser::dates::{parse_timezone, Date};
use xml_schema_parser::runtime::{FromXmlString, RestrictedVec};

#[test]
fn utc_is_zero() {
    assert_eq!(parse_timezone("Z").unwrap().local_minus_utc(), 0);
}

#[test]
fn east_and_west_offsets() {
    assert_eq!(parse_timezone("+05:30").unwrap().local_minus_utc(), 19800);
    assert_eq!(parse_timezone("-01:00").unwrap().local_minus_utc(), -3600);
    assert_eq!(parse_timezone("+14:00").unwrap().local_minus_utc(), 50400);
}

#[test]
fn out_of_range_offsets_are_refused() {
    assert_eq!(parse_timezone("+15:00").unwrap_err(), "bad timezone format: out of range");
    assert_eq!(parse_timezone("+14:30").unwrap_err(), "bad timezone format: out of range");
    assert_eq!(parse_timezone("+01:60").unwrap_err(), "bad timezone format: out of range");
}

#[test]
fn malformed_offsets_are_refused() {
    assert_eq!(parse_timezone("+0530").unwrap_err(), "bad timezone format");
    assert_eq!(parse_timezone("+5:30").unwrap_err(), "bad timezone format");
    assert_eq!(parse_timezone("+a5:30").unwrap_err(), "bad timezone format");
    assert_eq!(
        parse_timezone("x05:30").unwrap_err(),
        "bad timezone format: timezone should start with '+' or '-'"
    );
}

#[test]
fn restricted_vec_keeps_lengths_within_bounds() {
    let v: RestrictedVec<u8, 1, 3> = RestrictedVec::new(vec![1, 2]).unwrap();
    assert_eq!(v.as_vec(), &vec![1u8, 2u8]);
    let unbounded: RestrictedVec<u8, 0, 0> = RestrictedVec::new(vec![0; 20]).unwrap();
    assert_eq!(unbounded.into_inner().len(), 20);
}

#[test]
fn restricted_vec_refuses_too_few_or_too_many() {
    let short = RestrictedVec::<u8, 2, 3>::new(vec![1]).unwrap_err();
    assert_eq!(short, "Generated vector length is less than the minimum size (1 < 2)");
    let long = RestrictedVec::<u8, 0, 3>::new(vec![1, 2, 3, 4]).unwrap_err();
    assert_eq!(long, "Generated vector length is greater than the maximuim size (4 > 3)");
}


fn day(y: i32, m: u32, d: u32) -> chrono::NaiveDate {
    chrono::NaiveDate::from_ymd_opt(y, m, d).unwrap()
}

#[test]
fn date_without_zone() {
    let d = Date::from_xml("2020-01-02").unwrap();
    assert_eq!(d.value, day(2020, 1, 2));
    assert!(d.timezone.is_none());
}

#[test]
fn date_with_zones() {
    let z = Date::from_xml("2020-01-02Z").unwrap();
    assert_eq!(z.value, day(2020, 1, 2));
    assert_eq!(z.timezone.unwrap().local_minus_utc(), 0);
    let p = Date::from_xml("2020-01-02+05:00").unwrap();
    assert_eq!(p.timezone.unwrap().local_minus_utc(), 18000);
    let m = Date::from_xml("2020-01-02-03:00").unwrap();
    assert_eq!(m.value, day(2020, 1, 2));
    assert_eq!(m.timezone.unwrap().local_minus_utc(), -10800);
}

#[test]
fn date_errors() {
    assert_eq!(Date::from_xml("2020-01-02+01:00+02:00").unwrap_err(), "bad date format");
    assert_eq!(Date::from_xml("2020-01-02+15:00").unwrap_err(), "bad timezone format: out of range");
    assert!(Date::from_xml("2020-13-02").is_err());
}

#[test]
fn date_assembled_from_parts() {
    let d = Date::assemble(Ok(day(2021, 6, 7)), Some("-00:30")).unwrap();
    assert_eq!(d.value, day(2021, 6, 7));
    assert_eq!(d.timezone.unwrap().local_minus_utc(), -1800);
    assert_eq!(Date::assemble(Err("no day".to_string()), Some("+01:00")).unwrap_err(), "no day");
    assert_eq!(Date::assemble(Ok(day(2021, 6, 7)), Some("+01:0")).unwrap_err(), "bad timezone format");
    assert!(Date::assemble(Ok(day(2021, 6, 7)), None).unwrap().timezone.is_none());
}
