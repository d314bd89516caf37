use watchlog::context::ParsingContext;
use watchlog::dates::{Date, Time};
use watchlog::elements::{Company, Episode};
use watchlog::errors::{FormatError, MissingContext, ParseError};
use watchlog::parsing::{parse_date_line, parse_title_line, parse_watch_line};

fn date(year: u32, month: u8, day: u8) -> Date {
    Date { year, month, day }
}

fn time(hour: u8, minute: u8) -> Time {
    Time { hour, minute }
}

#[test]
fn date_line_ok() {
    let line = "10/02/2022";
    let expected = date(2022, 2, 10);
    let parsed = parse_date_line(line).unwrap();
    assert_eq!(parsed, expected);

    let line = "10/02/2022 // Some comment";
    let expected = date(2022, 2, 10);
    let parsed = parse_date_line(line).unwrap();
    assert_eq!(parsed, expected);
}

#[test]
fn date_line_fail() {
    let line = "Weird stuff";
    let dlp_res = parse_date_line(line);
    assert!(dlp_res.is_err());

    let line = "10-02-2022";
    let dlp_res = parse_date_line(line);
    assert!(dlp_res.is_err());

    let line = "10/02";
    let dlp_res = parse_date_line(line);
    assert!(dlp_res.is_err());
}

#[test]
fn date_line_rejects_invalid_calendar_day() {
    assert!(parse_date_line("31/02/2022").is_err());
    assert!(parse_date_line("00/01/2022").is_err());
    assert!(parse_date_line("01/13/2022").is_err());
    assert!(parse_date_line("29/02/2021").is_err());
    assert_eq!(parse_date_line("29/02/2020").unwrap(), date(2020, 2, 29));
    let err = parse_date_line("10/02").unwrap_err();
    assert!(matches!(err, ParseError::Format(FormatError::Date(t)) if t == "10/02"));
}

#[test]
fn watch_line_ok() {
    let line1 = "10:00 - 12:00 12 {Gary, Amim}";
    let line2 = "10:00 - 12:00 12 {Gary}";
    let line3 = "10:00 - 12:00 12";

    let mut context = ParsingContext {
        current_date: Some(date(2022, 2, 10)),
        current_anime: Some(1),
        last_company: None,
        last_watch_entry: None,
    };

    let watch_line = parse_watch_line(&mut context, line1).unwrap();
    assert_eq!(watch_line.start_time.time(), time(10, 0));
    assert_eq!(watch_line.end_time.time(), time(12, 0));
    assert_eq!(watch_line.episode, Episode::from("12").unwrap());
    assert_eq!(watch_line.company, Some(Company::from_str("{Gary, Amim}").unwrap()));

    let watch_line = parse_watch_line(&mut context, line2).unwrap();
    assert_eq!(watch_line.start_time.time(), time(10, 0));
    assert_eq!(watch_line.end_time.time(), time(12, 0));
    assert_eq!(watch_line.episode, Episode::from("12").unwrap());
    assert_eq!(watch_line.company, Some(Company::from_str("{Gary}").unwrap()));

    let watch_line = parse_watch_line(&mut context, line3).unwrap();
    assert_eq!(watch_line.start_time.time(), time(10, 0));
    assert_eq!(watch_line.end_time.time(), time(12, 0));
    assert_eq!(watch_line.episode, Episode::from("12").unwrap());
    assert_eq!(watch_line.company, None);
}

#[test]
fn anime_title_line_ok() {
    let line = "Erased:";
    let title_line = parse_title_line(line).unwrap();
    assert_eq!(title_line + ":", line);

    let line = "Erased: The Animation:";
    let title_line = parse_title_line(line).unwrap();
    assert_eq!(title_line + ":", line);

    let line = "86:";
    let title_line = parse_title_line(line).unwrap();
    assert_eq!(title_line + ":", line);

    let line = "86: The Animation:";
    let title_line = parse_title_line(line).unwrap();
    assert_eq!(title_line + ":", line);

    let line = "Erased: The Animation: (TV):";
    let title_line = parse_title_line(line).unwrap();
    assert_eq!(title_line + ":", line);

    let line = "Erased: The Animation 2: (TV):";
    let title_line = parse_title_line(line).unwrap();
    assert_eq!(title_line + ":", line);

    let line = "Re:zero kara Hajimeru isekai Seikatsu:";
    let title_line = parse_title_line(line).unwrap();
    assert_eq!(title_line + ":", line);

    let line = "Re:zero kara Hajimeru isekai Seikatsu 2:";
    let title_line = parse_title_line(line).unwrap();
    assert_eq!(title_line + ":", line);
}

#[test]
fn title_line_embedded_colons_and_failures() {
    assert_eq!(parse_title_line("Re:Zero:").unwrap(), "Re:Zero");
    assert_eq!(parse_title_line("  Spice and Wolf:  ").unwrap(), "Spice and Wolf");
    let err = parse_title_line("Re:Zero").unwrap_err();
    assert!(matches!(err, ParseError::Format(FormatError::Title(t)) if t == "Re:Zero"));
    assert!(parse_title_line(":").is_err());
    assert!(parse_title_line("[Bracketed]:").is_err());
    assert!(parse_title_line("A{B}:").is_err());
    assert!(parse_title_line("").is_err());
}

#[test]
fn watch_line_requires_context() {
    let mut context = ParsingContext::new();
    let err = parse_watch_line(&mut context, "10:00 - 12:00 12").unwrap_err();
    assert_eq!(err, ParseError::MissingContext(MissingContext::NoCurrentDate));

    let mut context = ParsingContext::new();
    context.notify_new_current_date(date(2022, 2, 10)).unwrap();
    let err = parse_watch_line(&mut context, "10:00 - 12:00 12").unwrap_err();
    assert_eq!(err, ParseError::MissingContext(MissingContext::NoCurrentAnime));
}

#[test]
fn watch_line_shape_failures() {
    let mut context = ParsingContext {
        current_date: Some(date(2022, 2, 10)),
        current_anime: Some(1),
        last_company: None,
        last_watch_entry: None,
    };
    let err = parse_watch_line(&mut context, "10:00 - 12:00 1").unwrap_err();
    assert!(matches!(err, ParseError::Format(FormatError::Line(t)) if t == "10:00 - 12:00 1"));
    assert!(parse_watch_line(&mut context, "10:00 - 12:00").is_err());
    assert!(parse_watch_line(&mut context, "10:00 12:00 12").is_err());
    assert!(parse_watch_line(&mut context, " 10:00 - 12:00 12").is_err());
    assert!(parse_watch_line(&mut context, "10:00 - 12:00 12 Gary").is_err());
    assert!(parse_watch_line(&mut context, "10:00 - 12:00 12 {Gary").is_err());
}

#[test]
fn watch_line_time_and_episode_failures() {
    let mut context = ParsingContext {
        current_date: Some(date(2022, 2, 10)),
        current_anime: Some(1),
        last_company: None,
        last_watch_entry: None,
    };
    let err = parse_watch_line(&mut context, "25:00 - 12:00 12").unwrap_err();
    assert!(matches!(err, ParseError::Format(FormatError::Time(t)) if t == "25:00"));
    let err = parse_watch_line(&mut context, "10:00 - 12:61 12").unwrap_err();
    assert!(matches!(err, ParseError::Format(FormatError::Time(t)) if t == "12:61"));
    let err = parse_watch_line(&mut context, "10:00 - 12:00 --").unwrap_err();
    assert!(matches!(err, ParseError::Format(FormatError::Episode(t)) if t == "--"));
    let err = parse_watch_line(&mut context, "10:00 - 12:00 1.5").unwrap_err();
    assert!(matches!(err, ParseError::Format(FormatError::Episode(t)) if t == "1.5"));
    // A failed line leaves the context untouched.
    assert_eq!(context.current_date, Some(date(2022, 2, 10)));
    assert_eq!(context.last_watch_entry, None);
}
