use retention::pattern::{month_from_abbr, parse_all, parse_number, CapturedFields};
use retention::{ExtractError, RetentionFile, RetentionFilePattern, Timestamp};

fn parse(template: &str, filename: &str) -> Result<Timestamp, ExtractError> {
    RetentionFilePattern(template.to_string()).parse(filename)
}

#[test]
fn parse_year() {
    for (filename, year) in [("2022", 2022), ("2020", 2020)] {
        assert_eq!(year, parse("{year}", filename).unwrap().year);
    }
}

#[test]
fn parse_month() {
    for (filename, month) in [("1", 1), ("3", 3), ("12", 12)] {
        assert_eq!(month, parse("{month}", filename).unwrap().month);
    }
}

#[test]
fn parse_month_abbrevation() {
    for (filename, month) in [("Jan", 1), ("Mar", 3), ("JUN", 6), ("dec", 12)] {
        assert_eq!(month, parse("{month_abbr}", filename).unwrap().month);
    }
}

#[test]
fn parse_month_abbrevation_with_typo() {
    for (filename, month) in [("Jan", 1), ("Mar", 3), ("JUN", 6), ("dec", 12)] {
        assert_eq!(month, parse("{month_abr}", filename).unwrap().month);
    }
}

#[test]
fn parse_day() {
    for (filename, day) in [("1", 1), ("2", 2), ("31", 31)] {
        assert_eq!(day, parse("{day}", filename).unwrap().day);
    }
}

#[test]
fn basic_date() {
    let cases = [
        ("{year}-{month}-{day}", "2022-12-19", 2022, 12, 19),
        ("{year}-{month}-{day}", "2022-01-19", 2022, 1, 19),
        ("{year}.{month}.{day}", "2021.1.4", 2021, 1, 4),
    ];
    for (template, filename, year, month, day) in cases {
        let t = parse(template, filename).unwrap();
        assert_eq!(year, t.year);
        assert_eq!(month, t.month);
        assert_eq!(day, t.day);
    }
}

#[test]
fn parse_hour() {
    for (filename, hour) in [("1", 1), ("2", 2), ("12", 12)] {
        assert_eq!(hour, parse("{hour}", filename).unwrap().hour);
    }
}

#[test]
fn parse_minutes() {
    for (filename, minute) in [("1", 1), ("0", 0), ("59", 59)] {
        assert_eq!(minute, parse("{minutes}", filename).unwrap().minute);
    }
}

#[test]
fn parse_seconds() {
    for (filename, second) in [("1", 1), ("0", 0), ("59", 59)] {
        assert_eq!(second, parse("{seconds}", filename).unwrap().second);
    }
}

#[test]
fn month_abbreviation_in_any_case() {
    for filename in ["Mar", "MAR", "mar"] {
        assert_eq!(3, parse("{month_abbr}", filename).unwrap().month);
    }
}

#[test]
fn unknown_month_abbreviation_defaults_to_january() {
    let t = parse("{month_abbr}", "Foo").unwrap();
    assert_eq!(1, t.month);
}

#[test]
fn missing_fields_take_defaults() {
    let t = parse("backup-{day}", "backup-7").unwrap();
    assert_eq!(Timestamp { year: 2022, month: 1, day: 7, hour: 0, minute: 0, second: 0 }, t);
}

#[test]
fn full_timestamp_with_name_and_zone() {
    let t = parse("{name}_{year}{month}{day}T{hour}:{minutes}:{seconds}{TZ}.tar", "db_20231105T07:08:09+01:00.tar").unwrap();
    assert_eq!(Timestamp { year: 2023, month: 11, day: 5, hour: 7, minute: 8, second: 9 }, t);
}

#[test]
fn numeric_month_wins_over_abbreviation() {
    let t = parse("{month}-{month_abbr}", "7-Mar").unwrap();
    assert_eq!(7, t.month);
}

#[test]
fn filename_without_match_is_rejected() {
    assert_eq!(Err(ExtractError::NoMatch), parse("{year}-{month}", "latest.tar"));
}

#[test]
fn impossible_day_is_rejected() {
    assert_eq!(Err(ExtractError::InvalidDate), parse("{year}-{month}-{day}", "2022-02-31"));
    assert_eq!(Err(ExtractError::InvalidDate), parse("{month}", "13"));
    assert_eq!(Err(ExtractError::InvalidDate), parse("{hour}", "24"));
}

#[test]
fn non_ascii_digits_are_rejected() {
    assert_eq!(Err(ExtractError::InvalidNumber), parse("{year}", "\u{0662}\u{0660}\u{0662}\u{0662}"));
}

#[test]
fn repeated_placeholder_last_one_captures() {
    assert_eq!(2023, parse("{year}-{year}", "2022-2023").unwrap().year);
    assert_eq!(3, parse("{month_abbr}-{month_abr}", "Jan-Mar").unwrap().month);
    let pattern = RetentionFilePattern("{day}{day}".to_string());
    assert_eq!("(?:\\d{1,2})(?P<day>\\d{1,2})", pattern.regex_source());
}

#[test]
fn oversized_template_is_a_pattern_error() {
    let template = "{year}".repeat(4000);
    assert_eq!(Err(ExtractError::Pattern), parse(&template, "2022"));
}

#[test]
fn literal_text_is_escaped() {
    let pattern = RetentionFilePattern("{year}.{month}(x)".to_string());
    assert_eq!("(?P<year>\\d{4})\\.(?P<month>\\d{1,2})\\(x\\)", pattern.regex_source());
    assert_eq!(Err(ExtractError::NoMatch), pattern.parse("2022a3(x)"));
    assert_eq!(3, pattern.parse("2022.3(x)").unwrap().month);
}

#[test]
fn compiled_groups() {
    let pattern = RetentionFilePattern("{name}{month_abr}{TZ}{minutes}".to_string());
    assert_eq!(
        "(?P<name>.+)(?P<month_abbr>[a-zA-Z]{3})(?P<timezone>[+-]\\d{2}:\\d{2})(?P<minutes>\\d{1,2})",
        pattern.regex_source()
    );
    assert!(pattern.build_regex().is_ok());
}

#[test]
fn numbers_are_bounded() {
    assert_eq!(Some(42), parse_number("042", 100));
    assert_eq!(None, parse_number("101", 100));
    assert_eq!(Some(4294967295), parse_number("4294967295", u32::MAX));
    assert_eq!(None, parse_number("4294967296", u32::MAX));
    assert_eq!(None, parse_number("", 100));
    assert_eq!(None, parse_number("1a", 100));
}

#[test]
fn abbreviations() {
    assert_eq!(Some(5), month_from_abbr("mAy"));
    assert_eq!(Some(12), month_from_abbr("DEC"));
    assert_eq!(None, month_from_abbr("de"));
    assert_eq!(None, month_from_abbr("Foo"));
}

#[test]
fn captured_fields_make_timestamps() {
    let fields = CapturedFields {
        year: Some("2024".to_string()),
        month: None,
        month_abbr: Some("feb".to_string()),
        day: Some("29".to_string()),
        hour: None,
        minutes: Some("30".to_string()),
        seconds: None,
    };
    assert_eq!(Ok(Timestamp { year: 2024, month: 2, day: 29, hour: 0, minute: 30, second: 0 }), fields.timestamp());
    let not_leap = CapturedFields { year: Some("2023".to_string()), ..fields };
    assert_eq!(Err(ExtractError::InvalidDate), not_leap.timestamp());
}

#[test]
fn retention_file_keeps_its_name() {
    let pattern = RetentionFilePattern("{year}-{month}-{day}.tar".to_string());
    let file = RetentionFile::new("2021-06-30.tar".to_string(), &pattern).unwrap();
    assert_eq!("2021-06-30.tar", file.filename);
    assert_eq!(Timestamp { year: 2021, month: 6, day: 30, hour: 0, minute: 0, second: 0 }, file.date);
    assert!(RetentionFile::new("notes.txt".to_string(), &pattern).is_err());
}

#[test]
fn dots_are_literal() {
    assert_eq!(Err(ExtractError::NoMatch), parse("{year}.{month}.{day}", "2021x1x4"));
    assert_eq!(Err(ExtractError::NoMatch), parse("{year}-{month}-{day}", "backup.tar"));
}

#[test]
fn parse_all_splits_names() {
    let pattern = RetentionFilePattern("{year}-{month}-{day}".to_string());
    let names = vec!["2022-01-02".to_string(), "notes".to_string(), "2021-02-30".to_string(), "2020-05-06".to_string()];
    let (files, failures) = parse_all(&names, &pattern);
    let kept: Vec<&str> = files.iter().map(|f| f.filename.as_str()).collect();
    assert_eq!(vec!["2022-01-02", "2020-05-06"], kept);
    assert_eq!(Timestamp { year: 2020, month: 5, day: 6, hour: 0, minute: 0, second: 0 }, files[1].date);
    assert_eq!(vec![("notes".to_string(), ExtractError::NoMatch), ("2021-02-30".to_string(), ExtractError::InvalidDate)], failures);
}
