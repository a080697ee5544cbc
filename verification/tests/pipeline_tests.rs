use tidy::{convert, process, FormatParser, Months, MyCustomError};

fn run_pipeline(source: &str, target: &str, stem: &str) -> Result<String, MyCustomError> {
    let mut s = FormatParser::new(source);
    s.parse()?;
    let mut t = FormatParser::new(target);
    t.parse()?;
    process(&s, &t, stem)
}

#[test]
fn febnum() -> Result<(), MyCustomError> {
    assert_eq!(run_pipeline("20030201", "01_02_2003", "20210601")?, "01_06_2021");
    Ok(())
}

#[test]
fn to_short_year() -> Result<(), MyCustomError> {
    assert_eq!(run_pipeline("20030201", "01_02_03", "20210601")?, "01_06_21");
    Ok(())
}

#[test]
fn from_short_year() -> Result<(), MyCustomError> {
    assert_eq!(run_pipeline("030201", "01_02_2003", "210601")?, "01_06_2021");
    Ok(())
}

#[test]
fn short() -> Result<(), MyCustomError> {
    assert_eq!(run_pipeline("20030201", "01_feb_2003", "20210601")?, "01_jun_2021");
    Ok(())
}

#[test]
fn short_title() -> Result<(), MyCustomError> {
    assert_eq!(run_pipeline("20030201", "01_Feb_2003", "20210601")?, "01_Jun_2021");
    Ok(())
}

#[test]
fn short_all_caps() -> Result<(), MyCustomError> {
    assert_eq!(run_pipeline("20030201", "01_FEB_2003", "20210601")?, "01_JUN_2021");
    Ok(())
}

#[test]
fn long() -> Result<(), MyCustomError> {
    assert_eq!(run_pipeline("20030201", "01_february_2003", "20210601")?, "01_june_2021");
    Ok(())
}

#[test]
fn long_title() -> Result<(), MyCustomError> {
    assert_eq!(run_pipeline("20030201", "01_February_2003", "20210601")?, "01_June_2021");
    Ok(())
}

#[test]
fn long_all_caps() -> Result<(), MyCustomError> {
    let out = run_pipeline("20030201", "01_FEBRUARY_2003", "20210601")?;
    assert!(out.contains("JUNE"));
    assert_eq!(out, "01_JUNE_2021");
    Ok(())
}

#[test]
fn drop_day() -> Result<(), MyCustomError> {
    assert_eq!(run_pipeline("20030201", "FEB_2003", "20210601")?, "JUN_2021");
    Ok(())
}

#[test]
fn full_date_with_holes() -> Result<(), MyCustomError> {
    assert_eq!(
        run_pipeline("%0-%1_01.02.2003", "2003-02-01-%0-%1", "foo-bar_01.01.1984")?,
        "1984-01-01-foo-bar"
    );
    Ok(())
}

#[test]
fn convert_compiles_and_runs_whole_pipeline() -> Result<(), MyCustomError> {
    assert_eq!(convert("20030201", "01_02_2003", "20210601")?, "01_06_2021");
    Ok(())
}

#[test]
fn convert_rejects_bad_source_template() {
    let r = convert("%x", "2003", "2021");
    assert!(matches!(r, Err(MyCustomError::ParseError(_))));
}

#[test]
fn convert_rejects_bad_target_template() {
    let r = convert("2003", "0x", "2021");
    assert!(matches!(r, Err(MyCustomError::ParseError(_))));
}

#[test]
fn convert_reports_mismatching_stem() {
    let r = convert("20030201", "2003", "abc");
    assert!(matches!(r, Err(MyCustomError::Default(_))));
}

#[test]
fn missing_field_is_reported_not_fatal() {
    // The source captures only a hole; the target needs a year the
    // extraction never produced.
    let r = convert("%0", "2003", "hello");
    assert!(matches!(r, Err(MyCustomError::MissingFieldError(_))));
    let r2 = convert("2003", "01", "2021");
    assert!(matches!(r2, Err(MyCustomError::MissingFieldError(_))));
    let r3 = convert("2003", "02", "2021");
    assert!(matches!(r3, Err(MyCustomError::MissingFieldError(_))));
}

#[test]
fn round_trip_through_identical_template() -> Result<(), MyCustomError> {
    // Extracting a rendered stem with the template that rendered it and
    // re-rendering reproduces the stem.
    let stem = "2021-06-01";
    let once = run_pipeline("2003-02-01", "2003-02-01", stem)?;
    assert_eq!(once, stem);
    let twice = run_pipeline("2003-02-01", "2003-02-01", &once)?;
    assert_eq!(twice, stem);

    let holed = run_pipeline("%0_february_2003", "%0_february_2003", "report_june_1999")?;
    assert_eq!(holed, "report_june_1999");
    Ok(())
}

#[test]
fn error_messages_are_exposed() {
    let e = MyCustomError::ParseError("bad template".to_string());
    assert_eq!(e.message(), "bad template");
    let d = MyCustomError::Default("no match".to_string());
    assert_eq!(d.message(), "no match");
}

#[test]
fn month_names_and_codes() {
    assert_eq!(Months::Jun.numeric(), "06");
    assert_eq!(Months::Jun.abbrev(), "jun");
    assert_eq!(Months::Jun.full_name(), "june");
    assert_eq!(Months::Jun.name(), "Jun");
    assert_eq!(Months::Dec.numeric(), "12");
    assert_eq!(Months::Sep.full_name(), "september");
}
