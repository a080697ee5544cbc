use tidy::{FileNameParser, FormatParser, Months, MyCustomError};

#[test]
fn test_month_mapping() -> Result<(), MyCustomError> {
    let source_template: String = "february".to_string();
    let s: String = "june".to_string();

    let mut source = FormatParser::new(&source_template);
    source.parse()?;

    let mut parser = FileNameParser::new(&s, 0);
    let res = parser.parse(&source.nodes);

    assert!(res.is_ok());
    assert_eq!(parser.d.month.unwrap(), Months::Jun);
    Ok(())
}

#[test]
fn test_month_mapping_lowercase() -> Result<(), MyCustomError> {
    let source_template: String = "february".to_string();
    let s: String = "JuNe".to_string();

    let mut source = FormatParser::new(&source_template);
    source.parse()?;

    let mut parser = FileNameParser::new(&s, 0);
    let res = parser.parse(&source.nodes);

    assert!(res.is_ok());
    assert_eq!(parser.d.month.unwrap(), Months::Jun);
    Ok(())
}

fn extract_outcome(source_template: &str, s: &str) -> Result<bool, MyCustomError> {
    let mut source = FormatParser::new(source_template);
    source.parse()?;
    let mut parser = FileNameParser::new(s, source.holes);
    Ok(parser.parse(&source.nodes).is_ok())
}

#[test]
fn error1() -> Result<(), MyCustomError> {
    assert!(!extract_outcome("2003", "july")?);
    Ok(())
}

#[test]
fn error2() -> Result<(), MyCustomError> {
    assert!(!extract_outcome("2003", "2020_july")?);
    Ok(())
}

#[test]
fn error3() -> Result<(), MyCustomError> {
    assert!(!extract_outcome("2003", "01.05.1990")?);
    Ok(())
}

#[test]
fn error4() -> Result<(), MyCustomError> {
    // The stem is far shorter than the template demands: a mismatch, not a
    // panic.
    assert!(!extract_outcome("20030201", "abc")?);
    Ok(())
}

#[test]
fn error5() -> Result<(), MyCustomError> {
    assert!(!extract_outcome("20030201", "202102")?);
    Ok(())
}

#[test]
fn error6() -> Result<(), MyCustomError> {
    // A hole bounded by a literal that never occurs in the stem.
    assert!(!extract_outcome("%0_2003", "2030")?);
    Ok(())
}

#[test]
fn error7() -> Result<(), MyCustomError> {
    assert!(!extract_outcome("%0_2003", "hello2030")?);
    Ok(())
}

#[test]
fn works1() -> Result<(), MyCustomError> {
    assert!(extract_outcome("%0", "hello")?);
    Ok(())
}

#[test]
fn works2() -> Result<(), MyCustomError> {
    assert!(extract_outcome("%0_%1", "hello_world")?);
    Ok(())
}

#[test]
fn extracted_fields_from_compact_date() -> Result<(), MyCustomError> {
    // The compact all-date template against a compact stem: every field
    // lands in the record.
    let mut source = FormatParser::new("20030201");
    source.parse()?;
    let mut parser = FileNameParser::new("20210601", source.holes);
    parser.parse(&source.nodes)?;
    assert_eq!(parser.d.year, Some("2021".to_string()));
    assert_eq!(parser.d.month, Some(Months::Jun));
    assert_eq!(parser.d.day, Some("01".to_string()));
    Ok(())
}

#[test]
fn short_year_gets_century_prefix() -> Result<(), MyCustomError> {
    let mut source = FormatParser::new("03");
    source.parse()?;
    let mut parser = FileNameParser::new("84", source.holes);
    parser.parse(&source.nodes)?;
    assert_eq!(parser.d.year, Some("2084".to_string()));
    Ok(())
}

#[test]
fn holes_and_fields_are_captured() -> Result<(), MyCustomError> {
    let mut source = FormatParser::new("%0-%1_01.02.2003");
    source.parse()?;
    let mut parser = FileNameParser::new("foo-bar_01.01.1984", source.holes);
    parser.parse(&source.nodes)?;
    assert_eq!(parser.d.holes, vec!["foo".to_string(), "bar".to_string()]);
    assert_eq!(parser.d.day, Some("01".to_string()));
    assert_eq!(parser.d.month, Some(Months::Jan));
    assert_eq!(parser.d.year, Some("1984".to_string()));
    Ok(())
}

#[test]
fn full_month_upper_case_stem_matches() -> Result<(), MyCustomError> {
    // Case-insensitivity holds whatever the declared case style.
    for template in ["february", "February", "FEBRUARY"] {
        let mut source = FormatParser::new(template);
        source.parse()?;
        let mut parser = FileNameParser::new("JUNE", 0);
        assert!(parser.parse(&source.nodes).is_ok());
        assert_eq!(parser.d.month, Some(Months::Jun));
    }
    Ok(())
}

#[test]
fn unknown_month_spellings_fail() -> Result<(), MyCustomError> {
    assert!(!extract_outcome("02", "13")?);
    assert!(!extract_outcome("02", "xy")?);
    assert!(!extract_outcome("february", "smarch")?);
    Ok(())
}

#[test]
fn fixed_width_month_is_case_sensitive() -> Result<(), MyCustomError> {
    // The three-letter abbreviation matches against the lower-case lexicon
    // keys as captured, without folding.
    assert!(extract_outcome("feb-2003", "jun-2021")?);
    assert!(!extract_outcome("feb-2003", "JUN-2021")?);
    Ok(())
}

#[test]
fn leftover_characters_fail() -> Result<(), MyCustomError> {
    assert!(!extract_outcome("2003", "20211")?);
    Ok(())
}

#[test]
fn literal_length_matches_without_content() -> Result<(), MyCustomError> {
    // A literal consumes its character count without comparing content: a
    // deliberate "don't-care" match.
    let mut source = FormatParser::new("2003-02");
    source.parse()?;
    let mut parser = FileNameParser::new("2021x06", source.holes);
    assert!(parser.parse(&source.nodes).is_ok());
    assert_eq!(parser.d.month, Some(Months::Jun));
    Ok(())
}

#[test]
fn hole_index_beyond_declared_count_fails() -> Result<(), MyCustomError> {
    // "%0%0%3" passes the sum check (0 + 0 + 3 == 3 == 3 * 2 / 2) but names
    // hole 3 with only three slots declared: extraction reports the bad
    // index instead of crashing.
    let mut source = FormatParser::new("%0%0%3");
    source.parse()?;
    let mut parser = FileNameParser::new("abc", source.holes);
    let r = parser.parse(&source.nodes);
    assert!(r.is_err());
    Ok(())
}
