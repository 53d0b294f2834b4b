use stellwerksim::protocol::{
    Connector, NaiveTimeHoursMinutes, NaiveTimeMilliSeconds, PlatformListResponse, Shape,
    SimulatorTimeResponse, Status, TimetablePlatform, TrainDetails, TrainListResponse,
    TrainTimetable, Ways,
};
use stellwerksim::request::{push_escaped, register_request, Operation, Request};
use stellwerksim::time::{corrected_time, Instant, TimeOfDay};
use stellwerksim::value::{parse_flag, parse_integer};
use stellwerksim::xml::parse;
use stellwerksim::Error;

#[test]
fn requests_are_written_as_element_openings() {
    assert_eq!(Request::SimulatorTime.encode(), b"<simzeit />".to_vec());
    assert_eq!(Request::SystemInfo.encode(), b"<anlageninfo />".to_vec());
    assert_eq!(Request::PlatformList.encode(), b"<bahnsteigliste />".to_vec());
    assert_eq!(Request::TrainList.encode(), b"<zugliste />".to_vec());
    assert_eq!(Request::TrainDetails("42".to_string()).encode(), b"<zugdetails zid='42' />".to_vec());
    assert_eq!(
        Request::TrainTimetable("42".to_string()).encode(),
        b"<zugfahrplan zid='42' />".to_vec()
    );
    assert_eq!(Request::Ways.encode(), b"<wege />".to_vec());
    assert_eq!(
        register_request("P", "A", "1", "d"),
        b"<register name='P' autor='A' version='1' protokoll='1' text='d' />".to_vec()
    );
}

#[test]
fn replies_of_several_lines_have_a_terminator() {
    assert_eq!(Operation::SimulatorTime.terminator(), None);
    assert_eq!(Operation::SystemInfo.terminator(), None);
    assert_eq!(Operation::TrainDetails.terminator(), None);
    assert_eq!(Operation::PlatformList.terminator(), Some("</bahnsteigliste>"));
    assert_eq!(Operation::TrainList.terminator(), Some("</zugliste>"));
    assert_eq!(Operation::TrainTimetable.terminator(), Some("</zugfahrplan>"));
    assert_eq!(Operation::Ways.terminator(), Some("</wege>"));
    assert_eq!(Request::TrainDetails("1".to_string()).operation(), Operation::TrainDetails);
    assert_eq!(Operation::Ways.name(), "wege");
}

#[test]
fn escaping_replaces_the_five_characters_and_nothing_else() {
    let mut out = b"x".to_vec();
    push_escaped(&mut out, "a&b<c>d'e\"f \u{e4}\n".as_bytes());
    assert_eq!(out, "xa&amp;b&lt;c&gt;d&apos;e&quot;f \u{e4}\n".as_bytes().to_vec());
    let mut plain = Vec::new();
    push_escaped(&mut plain, b"ICE 1234 - Hamburg");
    assert_eq!(plain, b"ICE 1234 - Hamburg".to_vec());
}

#[test]
fn status_needs_a_code_and_a_text() {
    let status = Status::decode(&parse("<status code='300'>ok</status>").unwrap());
    assert_eq!(status, Ok(Status { code: 300, text: "ok".to_string() }));
    assert_eq!(status.unwrap().code, Status::GREETING);
    assert!(matches!(Status::decode(&parse("<status code='300'/>").unwrap()), Err(Error::Xml(_))));
    assert!(matches!(Status::decode(&parse("<status>ok</status>").unwrap()), Err(Error::Xml(_))));
    assert!(matches!(
        Status::decode(&parse("<status code='x'>ok</status>").unwrap()),
        Err(Error::Xml(_))
    ));
}

#[test]
fn malformed_xml_is_an_xml_error() {
    assert!(matches!(parse("<a><b></a>"), Err(Error::Xml(_))));
    assert!(matches!(parse(""), Err(Error::Xml(_))));
    assert!(matches!(parse("<a x='1' x='2'/>"), Err(Error::Xml(_))));
    assert!(matches!(parse("<a"), Err(Error::Xml(_))));
}

#[test]
fn elements_keep_their_children_attributes_and_text_in_order() {
    let root = parse("<?xml version='1.0'?><!-- c --><a x='1' y='&lt;2&gt;'>t<b k='v'><c/></b>u<b/><![CDATA[<v>]]></a>")
        .unwrap();
    assert_eq!(root.name, "a");
    assert_eq!(root.attributes.len(), 2);
    assert_eq!(root.attribute("y"), Some("<2>"));
    assert_eq!(root.children.len(), 2);
    assert_eq!(root.children[0].children.len(), 1);
    assert_eq!(root.children[0].children[0].name, "c");
    assert_eq!(root.children_named("b").len(), 2);
    assert_eq!(root.children_named("c").len(), 0);
    assert_eq!(root.text, "tu<v>");
}

#[test]
fn empty_containers_decode_to_empty_sequences() {
    for text in ["<bahnsteigliste></bahnsteigliste>", "<bahnsteigliste>\n</bahnsteigliste>\n", "<bahnsteigliste/>"] {
        let list = PlatformListResponse::decode(&parse(text).unwrap()).unwrap();
        assert!(list.platforms.is_empty());
    }
    let list = TrainListResponse::decode(&parse("<zugliste></zugliste>").unwrap()).unwrap();
    assert!(list.trains.is_empty());
    let ways = Ways::decode(&parse("<wege></wege>").unwrap()).unwrap();
    assert!(ways.shapes.is_empty());
    assert!(ways.connectors.is_empty());
}

#[test]
fn train_details_without_user_text() {
    let text = "<zugdetails zid='1' name='N' verspaetung='-2' gleis='1' plangleis='2' von='A' nach='B' sichtbar='true' amgleis='false' hinweistext='h' />";
    let details = TrainDetails::decode(&parse(text).unwrap()).unwrap();
    assert_eq!(details.user_text, None);
    assert_eq!(details.user_text_sender, None);
    assert_eq!(details.notice_text, Some("h".to_string()));
    assert_eq!(details.delay, -2);
    assert!(details.visible);
    assert!(!details.at_platform);
    let with = "<zugdetails usertext='u' usertextsender='s' amgleis='0' sichtbar='1' nach='B' von='A' plangleis='2' gleis='1' verspaetung='0' name='N' zid='1' />";
    let details = TrainDetails::decode(&parse(with).unwrap()).unwrap();
    assert_eq!(details.user_text, Some("u".to_string()));
    assert_eq!(details.user_text_sender, Some("s".to_string()));
    let missing = "<zugdetails zid='1' name='N' gleis='1' plangleis='2' von='A' nach='B' sichtbar='1' amgleis='0' />";
    assert!(matches!(TrainDetails::decode(&parse(missing).unwrap()), Err(Error::Xml(_))));
    let flag = "<zugdetails zid='1' name='N' verspaetung='0' gleis='1' plangleis='2' von='A' nach='B' sichtbar='yes' amgleis='0' />";
    assert!(matches!(TrainDetails::decode(&parse(flag).unwrap()), Err(Error::Xml(_))));
}

#[test]
fn timetable_times_are_hours_and_minutes() {
    let text = "<zugfahrplan zid='9'>\n<gleis plan='3' name='3a' an='07:05' ab='23:59' flags='D' />\n<gleis plan='4' name='4' an='00:00' ab='00:01' flags='' />\n</zugfahrplan>";
    let timetable = TrainTimetable::decode(&parse(text).unwrap()).unwrap();
    assert_eq!(timetable.id, "9");
    assert_eq!(
        timetable.platforms,
        vec![
            TimetablePlatform {
                platform: "3".to_string(),
                name: "3a".to_string(),
                arrival: TimeOfDay::from_hms_milli(7, 5, 0, 0).unwrap(),
                departure: TimeOfDay::from_hms_milli(23, 59, 0, 0).unwrap(),
                flags: "D".to_string(),
            },
            TimetablePlatform {
                platform: "4".to_string(),
                name: "4".to_string(),
                arrival: TimeOfDay::from_hms_milli(0, 0, 0, 0).unwrap(),
                departure: TimeOfDay::from_hms_milli(0, 1, 0, 0).unwrap(),
                flags: "".to_string(),
            },
        ]
    );
    let bad = "<zugfahrplan zid='9'><gleis plan='3' name='3a' an='25:00' ab='23:59' flags='' /></zugfahrplan>";
    assert!(matches!(TrainTimetable::decode(&parse(bad).unwrap()), Err(Error::Xml(_))));
    assert_eq!(
        NaiveTimeHoursMinutes::deserialize_as("12:34"),
        Ok(TimeOfDay::from_hms_milli(12, 34, 0, 0).unwrap())
    );
    assert!(matches!(NaiveTimeHoursMinutes::deserialize_as("12:34:56"), Err(Error::Xml(_))));
    assert!(matches!(NaiveTimeHoursMinutes::deserialize_as("noon"), Err(Error::Xml(_))));
}

#[test]
fn timestamps_keep_their_time_of_day() {
    assert_eq!(
        NaiveTimeMilliSeconds::deserialize_as(3_600_000),
        Ok(TimeOfDay::from_hms_milli(1, 0, 0, 0).unwrap())
    );
    assert_eq!(
        NaiveTimeMilliSeconds::deserialize_as(86_400_000 * 19_000 + 45_296_789),
        Ok(TimeOfDay::from_hms_milli(12, 34, 56, 789).unwrap())
    );
    assert_eq!(
        NaiveTimeMilliSeconds::deserialize_as(-1),
        Ok(TimeOfDay::from_hms_milli(23, 59, 59, 999).unwrap())
    );
    assert!(matches!(NaiveTimeMilliSeconds::deserialize_as(i64::MAX), Err(Error::Xml(_))));
    assert!(matches!(NaiveTimeMilliSeconds::deserialize_as(i64::MIN), Err(Error::Xml(_))));
    let response = SimulatorTimeResponse::decode(&parse("<sim zeit='3600000' />").unwrap()).unwrap();
    assert_eq!(response.time, TimeOfDay::from_hms_milli(1, 0, 0, 0).unwrap());
    assert!(matches!(
        SimulatorTimeResponse::decode(&parse("<sim zeit='soon' />").unwrap()),
        Err(Error::Xml(_))
    ));
}

#[test]
fn ways_hold_shapes_and_the_three_kinds_of_connectors() {
    let text = "<wege>\n<shape type='2' name='A' enr='12'/>\n<shape type='5'/>\n<connector enr1='1' enr2='2'/>\n<connector enr1='1' name2='B'/>\n<connector name1='A' enr2='2'/>\n<connector name1='A' name2='B'/>\n<connector enr1='1' name1='A' name2='B'/>\n</wege>\n";
    let ways = Ways::decode(&parse(text).unwrap()).unwrap();
    assert_eq!(
        ways.shapes,
        vec![
            Shape { shape_type: "2".to_string(), name: Some("A".to_string()), enr: Some("12".to_string()) },
            Shape { shape_type: "5".to_string(), name: None, enr: None },
        ]
    );
    assert_eq!(
        ways.connectors,
        vec![
            Connector::Enrs { enr1: "1".to_string(), enr2: "2".to_string() },
            Connector::EnrName { enr: "1".to_string(), name: "B".to_string() },
            Connector::EnrName { enr: "2".to_string(), name: "A".to_string() },
            Connector::Names { name1: "A".to_string(), name2: "B".to_string() },
            Connector::Names { name1: "A".to_string(), name2: "B".to_string() },
        ]
    );
    assert!(matches!(
        Ways::decode(&parse("<wege><connector enr1='1'/></wege>").unwrap()),
        Err(Error::Xml(_))
    ));
    assert!(matches!(
        Ways::decode(&parse("<wege><shape name='x'/></wege>").unwrap()),
        Err(Error::Xml(_))
    ));
}

#[test]
fn integers_read_as_the_standard_library_reads_them() {
    for text in [
        "0", "7", "-7", "+7", "007", "-0", "2147483647", "2147483648", "-2147483648", "-2147483649",
        "", "-", "+", " 1", "1 ", "1a", "a", "--1", "+-1", "1.0", "99999999999999999999999999",
        "9223372036854775807", "9223372036854775808", "-9223372036854775808", "-9223372036854775809",
        "\u{661}",
    ] {
        let narrow = parse_integer(text, i32::MIN as i64, i32::MAX as i64);
        assert_eq!(narrow, text.parse::<i32>().ok().map(|v| v as i64), "{:?}", text);
        assert_eq!(parse_integer(text, i64::MIN, i64::MAX), text.parse::<i64>().ok(), "{:?}", text);
    }
}

#[test]
fn flags_are_one_zero_true_false() {
    assert_eq!(parse_flag("1"), Some(true));
    assert_eq!(parse_flag("true"), Some(true));
    assert_eq!(parse_flag("0"), Some(false));
    assert_eq!(parse_flag("false"), Some(false));
    assert_eq!(parse_flag("TRUE"), None);
    assert_eq!(parse_flag(""), None);
    assert_eq!(parse_flag("2"), None);
}

#[test]
fn correction_takes_off_half_the_round_trip() {
    let one = TimeOfDay::from_hms_milli(1, 0, 0, 0).unwrap();
    let sent = Instant { seconds: 1_700_000_000, nanos: 900_000_000 };
    let received = Instant { seconds: 1_700_000_001, nanos: 100_000_000 };
    // 200 ms round trip: 100 ms are taken off
    assert_eq!(corrected_time(one, sent, received), TimeOfDay::from_hms_milli(0, 59, 59, 900).unwrap());
    // no round trip, no correction
    assert_eq!(corrected_time(one, sent, sent), one);
    // an odd number of nanoseconds: half of it, rounded down
    let odd = Instant { seconds: 1_700_000_000, nanos: 900_000_003 };
    assert_eq!(
        corrected_time(one, sent, odd).nanos_since_midnight(),
        one.nanos_since_midnight() - 1
    );
    // before midnight comes the end of the day
    let midnight = TimeOfDay::from_nanos(0).unwrap();
    assert_eq!(
        corrected_time(midnight, sent, received),
        TimeOfDay::from_hms_milli(23, 59, 59, 900).unwrap()
    );
    // a clock that ran backwards adds what it lost
    assert_eq!(corrected_time(one, received, sent), TimeOfDay::from_hms_milli(1, 0, 0, 100).unwrap());
    // many days of round trip still give a time of day
    let late = Instant { seconds: 1_700_000_000 + 86_400 * 4, nanos: 900_000_000 };
    assert_eq!(corrected_time(one, sent, late), one);
    let far = Instant { seconds: i64::MAX, nanos: u32::MAX };
    let near = Instant { seconds: i64::MIN, nanos: 0 };
    assert!(corrected_time(one, near, far).nanos_since_midnight() < 86_400_000_000_000);
    assert!(corrected_time(one, far, near).nanos_since_midnight() < 86_400_000_000_000);
}

#[test]
fn times_of_day_stay_within_the_day() {
    assert_eq!(TimeOfDay::from_nanos(86_400_000_000_000), None);
    assert_eq!(TimeOfDay::from_hms_milli(24, 0, 0, 0), None);
    assert_eq!(TimeOfDay::from_hms_milli(0, 60, 0, 0), None);
    assert_eq!(TimeOfDay::from_hms_milli(0, 0, 60, 0), None);
    assert_eq!(TimeOfDay::from_hms_milli(0, 0, 0, 1000), None);
    assert_eq!(TimeOfDay::from_seconds(86_400, 0), None);
    assert_eq!(TimeOfDay::from_seconds(0, 1_000_000_000), None);
    let time = TimeOfDay::from_hms_milli(13, 7, 9, 250).unwrap();
    assert_eq!(time.hour(), 13);
    assert_eq!(time.minute(), 7);
    assert_eq!(time.second(), 9);
    assert_eq!(time.nanosecond(), 250_000_000);
    assert_eq!(time.nanos_since_midnight(), 47_229_250_000_000);
    assert_eq!(TimeOfDay::from_seconds(47_229, 250_000_000), Some(time));
    assert_eq!(time.minus(-1), TimeOfDay::from_nanos(47_229_250_000_001).unwrap());
    assert_eq!(time.minus(i128::MIN).nanos_since_midnight() < 86_400_000_000_000, true);
}

#[test]
fn hours_and_minutes_are_whole_minutes() {
    for text in ["00:00", "07:05", "12:34", "23:59"] {
        let time = NaiveTimeHoursMinutes::deserialize_as(text).unwrap();
        assert_eq!(time.nanos_since_midnight() % 60_000_000_000, 0, "{}", text);
        assert_eq!(time.second(), 0);
        assert_eq!(time.nanosecond(), 0);
    }
    assert!(matches!(NaiveTimeHoursMinutes::deserialize_as("12:34:56"), Err(Error::Xml(_))));
    assert!(matches!(NaiveTimeHoursMinutes::deserialize_as("12:60"), Err(Error::Xml(_))));
    assert!(matches!(NaiveTimeHoursMinutes::deserialize_as(""), Err(Error::Xml(_))));
}
