use watchlog::context::ParsingContext;
use watchlog::dates::{Date, Time};
use watchlog::elements::{Company, Episode};
use watchlog::parsing::{parse_date_line, parse_title_line, parse_watch_line};

fn date(year: u32, month: u8, day: u8) -> Date {
    Date { year, month, day }
}

fn time(hour: u8, minute: u8) -> Time {
    Time { hour, minute }
}

#[test]
fn midnight_last() {
    let mut context = ParsingContext {
        current_anime: Some(1),
        current_date: Some(date(2022, 2, 10)),
        last_company: None,
        last_watch_entry: None,
    };

    let line1 = "23:00 - 23:40 12";
    let watch_line1 = parse_watch_line(&mut context, line1).unwrap();
    let line2 = "00:00 - 00:10 13";
    let watch_line2 = parse_watch_line(&mut context, line2).unwrap();

    assert_eq!(watch_line1.start_time.date(), watch_line1.end_time.date(), "Dates should be the same");
    assert_eq!(watch_line2.start_time.date(), watch_line2.end_time.date(), "Dates should be the same");
    assert!(watch_line1.start_time.date() != watch_line2.start_time.date(), "Dates should be different");
}

#[test]
fn midnight_traverse() {
    let initial_date = date(2022, 2, 10);
    let mut context = ParsingContext {
        current_anime: Some(1),
        current_date: Some(date(2022, 2, 10)),
        last_company: None,
        last_watch_entry: None,
    };

    let line1 = "23:40 - 00:20 12";
    let watch_line1 = parse_watch_line(&mut context, line1).unwrap();

    assert_eq!(watch_line1.start_time.date(), initial_date, "Dates should be the same");
    assert_eq!(watch_line1.end_time.date(), initial_date.succ(), "Date should be the next day");
    assert_eq!(context.current_date, Some(initial_date.succ()), "Date should be incremented");

    let line2 = "00:20 - 00:30 13";
    let watch_line2 = parse_watch_line(&mut context, line2).unwrap();

    assert_eq!(watch_line2.start_time.date(), initial_date.succ(), "Dates should be the next day");
    assert_eq!(watch_line2.end_time.date(), initial_date.succ(), "Date should be the next day");
    assert_eq!(context.current_date, Some(initial_date.succ()), "Date should be incremented");
}

#[test]
fn midnight_last_and_traverse() {
    let initial_date = date(2022, 2, 10);
    let mut context = ParsingContext {
        current_anime: Some(1),
        current_date: Some(date(2022, 2, 10)),
        last_company: None,
        last_watch_entry: None,
    };

    let line0 = "23:00 - 23:40 12";
    let watch_line0 = parse_watch_line(&mut context, line0).unwrap();

    assert_eq!(watch_line0.start_time.date(), initial_date, "Dates should be the same");
    assert_eq!(watch_line0.end_time.date(), initial_date, "Dates should be the same");
    assert_eq!(context.current_date, Some(initial_date), "Date should be the same");

    let line1 = "23:00 - 02:10 12"; // Traverse to next day
    let watch_line1 = parse_watch_line(&mut context, line1).unwrap();

    assert_eq!(watch_line1.start_time.date(), initial_date, "Dates should be the same");
    assert_eq!(watch_line1.end_time.date(), initial_date.succ(), "Date should be the next day");
    assert_eq!(context.current_date, Some(initial_date.succ()), "Date should be incremented");

    let line2 = "02:10 - 00:00 13"; // Traverse to next day
    let watch_line2 = parse_watch_line(&mut context, line2).unwrap();

    assert_eq!(watch_line2.start_time.date(), initial_date.succ(), "Dates should be the next day");
    assert_eq!(watch_line2.end_time.date(), initial_date.succ().succ(), "Date should be the nexts next day");
    assert_eq!(context.current_date, Some(initial_date.succ().succ()), "Date should be incremented twice");
}

#[test]
fn month_and_year_rollover() {
    let mut context = ParsingContext {
        current_anime: Some(1),
        current_date: Some(date(2021, 12, 31)),
        last_company: None,
        last_watch_entry: None,
    };
    let watch_line = parse_watch_line(&mut context, "23:40 - 00:20 12").unwrap();
    assert_eq!(watch_line.start_time.date(), date(2021, 12, 31));
    assert_eq!(watch_line.end_time.date(), date(2022, 1, 1));
    assert_eq!(context.current_date, Some(date(2022, 1, 1)));
}

#[test]
fn real_sample() {
    let line = "19/03/2022";
    let dateline = parse_date_line(line).unwrap();
    assert_eq!(dateline, date(2022, 3, 19));

    let line = "Evangelion: 1.0 You Are (Not) Alone: // 1.11";
    let anime_title_line = parse_title_line(line).unwrap();
    assert_eq!(anime_title_line, "Evangelion: 1.0 You Are (Not) Alone");

    let mut context = ParsingContext {
        current_date: Some(date(2022, 2, 10)),
        current_anime: Some(1),
        last_company: None,
        last_watch_entry: None,
    };

    let line = "16:40 - 18:24 01 {Vinicius Russo}";
    let watch_line = parse_watch_line(&mut context, line).unwrap();
    assert_eq!(watch_line.start_time.time(), time(16, 40));
    assert_eq!(watch_line.end_time.time(), time(18, 24));
    assert_eq!(watch_line.episode, Episode::from("01").unwrap());
    assert_eq!(watch_line.company, Some(Company::from_str("{Vinicius Russo}").unwrap()));

    let line = "One Pace: Reverie:";
    let anime_title_line = parse_title_line(line).unwrap();
    assert_eq!(anime_title_line, "One Pace: Reverie");

    let line = "20:09 - 20:46 01 {Lucas Romero}";
    let watch_line = parse_watch_line(&mut context, line).unwrap();
    assert_eq!(watch_line.start_time.time(), time(20, 9));
    assert_eq!(watch_line.end_time.time(), time(20, 46));
    assert_eq!(watch_line.episode, Episode::from("01").unwrap());
    assert_eq!(watch_line.company, Some(Company::from_str("{Lucas Romero}").unwrap()));

    let line = "20:46 - 21:26 02 {Lucas Romero}";
    let watch_line = parse_watch_line(&mut context, line).unwrap();
    assert_eq!(watch_line.start_time.time(), time(20, 46));
    assert_eq!(watch_line.end_time.time(), time(21, 26));
    assert_eq!(watch_line.episode, Episode::from("02").unwrap());
    assert_eq!(watch_line.company, Some(Company::from_str("{Lucas Romero}").unwrap()));

    let line = "21:27 - 22:04 03 {Lucas Romero}";
    let watch_line = parse_watch_line(&mut context, line).unwrap();
    assert_eq!(watch_line.start_time.time(), time(21, 27));
    assert_eq!(watch_line.end_time.time(), time(22, 4));
    assert_eq!(watch_line.episode, Episode::from("03").unwrap());
    assert_eq!(watch_line.company, Some(Company::from_str("{Lucas Romero}").unwrap()));

    let line = "One Pace: Wano:";
    let anime_title_line = parse_title_line(line).unwrap();
    assert_eq!(anime_title_line, "One Pace: Wano");

    let line = "22:11 - 22:35 01 {Lucas Romero}";
    let watch_line = parse_watch_line(&mut context, line).unwrap();
    assert_eq!(watch_line.start_time.time(), time(22, 11));
    assert_eq!(watch_line.end_time.time(), time(22, 35));
    assert_eq!(watch_line.episode, Episode::from("01").unwrap());
    assert_eq!(watch_line.company, Some(Company::from_str("{Lucas Romero}").unwrap()));

    let line = "22:44 - 23:17 02";
    let watch_line = parse_watch_line(&mut context, line).unwrap();
    assert_eq!(watch_line.start_time.time(), time(22, 44));
    assert_eq!(watch_line.end_time.time(), time(23, 17));
    assert_eq!(watch_line.episode, Episode::from("02").unwrap());
    assert_eq!(watch_line.company, None);
}
