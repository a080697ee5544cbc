use tidy::{FormatParser, MyCustomError, Node};

#[test]
fn test_year_long() {
    let format_string = String::from("2003");
    let want = vec![Node::Year];
    let mut p = FormatParser::new(&format_string);
    assert!(p.parse().is_ok());
    for (i, n) in want.iter().enumerate() {
        assert_eq!(&p.nodes[i], n)
    }
}

#[test]
fn test_year_short() {
    let format_string = String::from("03");
    let want = vec![Node::YearShort];
    let mut p = FormatParser::new(&format_string);
    assert!(p.parse().is_ok());
    for (i, n) in want.iter().enumerate() {
        assert_eq!(&p.nodes[i], n)
    }
}

#[test]
fn test_mixed_1() {
    let format_string = String::from("030201");
    let want = vec![Node::YearShort, Node::FebNum, Node::Day];
    let mut p = FormatParser::new(&format_string);
    assert!(p.parse().is_ok());
    for (i, n) in want.iter().enumerate() {
        assert_eq!(&p.nodes[i], n)
    }
}

#[test]
fn test_long_year_with_literals() {
    let format_string = String::from("2003-02-01");
    let want = vec![
        Node::Year,
        Node::Literal("-".to_string()),
        Node::FebNum,
        Node::Literal("-".to_string()),
        Node::Day,
    ];
    let mut p = FormatParser::new(&format_string);
    assert!(p.parse().is_ok());
    for (i, n) in want.iter().enumerate() {
        assert_eq!(&p.nodes[i], n)
    }
}

#[test]
fn test_mixes_month() {
    let format_string = String::from("Februaryfebfebruary");
    let want = vec![Node::FebruaryCaps, Node::Feb, Node::February];
    let mut p = FormatParser::new(&format_string);
    assert!(p.parse().is_ok());
    for (i, n) in want.iter().enumerate() {
        assert_eq!(&p.nodes[i], n)
    }
}

#[test]
fn test_year_feb_day() {
    let format_string = String::from("2003-FEB-01");
    let want = vec![
        Node::Year,
        Node::Literal("-".to_string()),
        Node::FebAllCaps,
        Node::Literal("-".to_string()),
        Node::Day,
    ];
    let mut p = FormatParser::new(&format_string);
    assert!(p.parse().is_ok());
    for (i, n) in want.iter().enumerate() {
        assert_eq!(&p.nodes[i], n)
    }
}

#[test]
fn test_year_february_day() {
    let format_string = String::from("2003-february-01");
    let want = vec![
        Node::Year,
        Node::Literal("-".to_string()),
        Node::February,
        Node::Literal("-".to_string()),
        Node::Day,
    ];
    let mut p = FormatParser::new(&format_string);
    assert!(p.parse().is_ok());
    for (i, n) in want.iter().enumerate() {
        assert_eq!(&p.nodes[i], n)
    }
}

#[test]
fn test_invalid_hole() {
    let format_string = String::from("%2004");
    let mut p = FormatParser::new(&format_string);
    assert!(p.parse().is_err());
}

#[test]
fn hole_numbering_with_gap_is_rejected() {
    // Holes 0 and 2 declared, 1 never: the numbering check fails.
    let mut p = FormatParser::new("%0-%2");
    let r = p.parse();
    assert!(r.is_err());
    assert!(matches!(r, Err(MyCustomError::ParseError(_))));
}

#[test]
fn holes_in_any_order_compile() {
    let mut p = FormatParser::new("%1-%0");
    assert!(p.parse().is_ok());
    assert_eq!(p.holes, 2);
    assert_eq!(p.nodes[0], Node::Hole(1));
    assert_eq!(p.nodes[2], Node::Hole(0));
}

#[test]
fn incomplete_keywords_are_rejected() {
    assert!(FormatParser::new("%").parse().is_err());
    assert!(FormatParser::new("%x").parse().is_err());
    assert!(FormatParser::new("0").parse().is_err());
    assert!(FormatParser::new("0x").parse().is_err());
    assert!(FormatParser::new("2004").parse().is_err());
    assert!(FormatParser::new("200").parse().is_err());
}

#[test]
fn month_keyword_edges() {
    // "feb" right at the end of the format is rejected, as is a partial
    // match of "ruary" past its first letter.
    assert!(FormatParser::new("feb").parse().is_err());
    assert!(FormatParser::new("fe").parse().is_err());
    assert!(FormatParser::new("febr").parse().is_err());
    assert!(FormatParser::new("februa").parse().is_err());
    assert!(FormatParser::new("fex").parse().is_err());
    // "feb" followed by something that does not begin "ruary" is the
    // three-letter abbreviation.
    let mut p = FormatParser::new("feb-");
    assert!(p.parse().is_ok());
    assert_eq!(p.nodes[0], Node::Feb);
    // Mixed-case full months fold to the plain or title style.
    let mut q = FormatParser::new("FEBRUARY");
    assert!(q.parse().is_ok());
    assert_eq!(q.nodes[0], Node::FebruaryAllCaps);
    let mut r = FormatParser::new("FEB-");
    assert!(r.parse().is_ok());
    assert_eq!(r.nodes[0], Node::FebAllCaps);
    let mut s = FormatParser::new("Feb-");
    assert!(s.parse().is_ok());
    assert_eq!(s.nodes[0], Node::FebCaps);
}
