use stellwerksim::protocol::{Platform, PlatformNeighbor, Status, SystemInfo, Train};
use stellwerksim::response::Response;
use stellwerksim::time::TimeOfDay;
use stellwerksim::{Error, Phase, Plugin, PluginBuilder, Step};

fn connected() -> Plugin {
    let mut plugin = Plugin::builder().name("P").author("A").version("1").description("d").connect();
    plugin.receive(b"<status code='300'>ok</status>\n");
    assert!(matches!(plugin.advance(), Ok(Step::Write(_))));
    plugin.receive(b"<status code='220'>ok</status>\n");
    assert_eq!(plugin.advance(), Ok(Step::Ready));
    plugin
}

fn reply(plugin: &mut Plugin, bytes: &[u8]) -> Result<Response, Error> {
    plugin.receive(bytes);
    match plugin.advance() {
        Ok(Step::Reply(response)) => Ok(response),
        Ok(other) => panic!("no reply: {:?}", other),
        Err(e) => Err(e),
    }
}

#[test]
fn handshake_registers_and_becomes_ready() {
    let mut plugin = PluginBuilder::new().name("P").author("A").version("1").description("d").connect();
    assert_eq!(plugin.current_phase(), Phase::Greeting);
    assert_eq!(plugin.advance(), Ok(Step::Read));
    plugin.receive(b"<status code='300'>ok</status>\n");
    assert_eq!(
        plugin.advance(),
        Ok(Step::Write(
            b"<register name='P' autor='A' version='1' protokoll='1' text='d' />\n".to_vec()
        ))
    );
    assert_eq!(plugin.current_phase(), Phase::Registering);
    assert_eq!(plugin.advance(), Ok(Step::Read));
    plugin.receive(b"<status code='220'>ok</status>\n");
    assert_eq!(plugin.advance(), Ok(Step::Ready));
    assert_eq!(plugin.current_phase(), Phase::Idle);
    assert_eq!(plugin.advance(), Ok(Step::Ready));
}

#[test]
fn greeting_with_code_301_is_an_invalid_response() {
    let mut plugin = Plugin::builder().connect();
    plugin.receive(b"<status code='301'>moved</status>\n");
    assert_eq!(
        plugin.advance(),
        Err(Error::InvalidResponse(Status { code: 301, text: "moved".to_string() }))
    );
    assert_eq!(plugin.current_phase(), Phase::Closed);
    assert!(matches!(plugin.advance(), Err(Error::Network(_))));
    assert!(matches!(plugin.system_info(), Err(Error::Network(_))));
}

#[test]
fn greeting_with_code_500_is_an_invalid_response() {
    let mut plugin = Plugin::builder().connect();
    plugin.receive(b"<status code='500'>bad</status>\n");
    match plugin.advance() {
        Err(Error::InvalidResponse(status)) => {
            assert_eq!(status.code, 500);
            assert_eq!(status.text, "bad");
        }
        other => panic!("unexpected: {:?}", other),
    }
}

#[test]
fn acknowledgement_with_code_221_is_an_invalid_response() {
    let mut plugin = Plugin::builder().connect();
    plugin.receive(b"<status code='300'>ok</status>\n");
    assert!(matches!(plugin.advance(), Ok(Step::Write(_))));
    plugin.receive(b"<status code='221'>no</status>\n");
    assert_eq!(
        plugin.advance(),
        Err(Error::InvalidResponse(Status { code: 221, text: "no".to_string() }))
    );
    assert_eq!(plugin.current_phase(), Phase::Closed);
}

#[test]
fn end_of_stream_before_the_acknowledgement_is_a_network_error() {
    let mut plugin = Plugin::builder().connect();
    plugin.receive(b"<status code='300'>ok</status>\n");
    assert!(matches!(plugin.advance(), Ok(Step::Write(_))));
    plugin.end_of_stream();
    assert!(matches!(plugin.advance(), Err(Error::Network(_))));
    assert_eq!(plugin.current_phase(), Phase::Closed);
}

#[test]
fn end_of_stream_inside_the_greeting_is_a_network_error() {
    let mut plugin = Plugin::builder().connect();
    plugin.receive(b"<status code='300'>ok</status>");
    assert_eq!(plugin.advance(), Ok(Step::Read));
    plugin.end_of_stream();
    assert!(matches!(plugin.advance(), Err(Error::Network(_))));
}

#[test]
fn greeting_that_is_no_status_is_an_xml_error() {
    let mut plugin = Plugin::builder().connect();
    plugin.receive(b"<status>ok</status>\n");
    assert!(matches!(plugin.advance(), Err(Error::Xml(_))));
    assert_eq!(plugin.current_phase(), Phase::Closed);
}

#[test]
fn request_before_the_handshake_is_refused() {
    let mut plugin = Plugin::builder().connect();
    assert!(matches!(plugin.train_list(), Err(Error::Network(_))));
    assert_eq!(plugin.current_phase(), Phase::Greeting);
}

#[test]
fn builder_fills_in_the_defaults() {
    let details = PluginBuilder::new().details();
    assert_eq!(details.name, "stellwerksim-rs Plugin");
    assert_eq!(details.author, "stellwerksim-rs Author");
    assert_eq!(details.version, "0.1.0");
    assert_eq!(details.description, "A stellwerksim-rs plugin");
    assert_eq!(details.host, stellwerksim::Host::V4 { a: 127, b: 0, c: 0, d: 1, port: 3691 });
    let host = stellwerksim::Host::V4 { a: 10, b: 0, c: 0, d: 7, port: 4000 };
    let details = PluginBuilder::default().name("n").host(host).details();
    assert_eq!(details.name, "n");
    assert_eq!(details.author, "stellwerksim-rs Author");
    assert_eq!(details.host, host);
    assert_eq!(Plugin::builder().host(host).connect().host(), host);
}

#[test]
fn registration_escapes_what_the_plugin_says_of_itself() {
    let mut plugin = Plugin::builder().name("a'b").author("<x>").version("1&2").description("\"q\"").connect();
    plugin.receive(b"<status code='300'>ok</status>\n");
    assert_eq!(
        plugin.advance(),
        Ok(Step::Write(
            b"<register name='a&apos;b' autor='&lt;x&gt;' version='1&amp;2' protokoll='1' text='&quot;q&quot;' />\n"
                .to_vec()
        ))
    );
}

#[test]
fn simulator_time_is_corrected_by_half_the_round_trip() {
    let mut plugin = connected();
    let before = std::time::Instant::now();
    assert_eq!(plugin.simulator_time(), Ok(b"<simzeit />\n".to_vec()));
    let asked = std::time::Instant::now();
    while asked.elapsed().as_millis() < 40 {
        std::hint::spin_loop();
    }
    let response = reply(&mut plugin, b"<sim zeit='3600000' />\n").unwrap();
    let elapsed = before.elapsed().as_nanos() as u64;
    let one = TimeOfDay::from_hms_milli(1, 0, 0, 0).unwrap();
    match response {
        Response::SimulatorTime(time) => {
            assert!(time < one, "{:?}", time);
            let taken_off = one.nanos_since_midnight() - time.nanos_since_midnight();
            assert!(taken_off >= 15_000_000, "{}", taken_off);
            assert!(taken_off <= elapsed / 2 + 5_000_000, "{} of {}", taken_off, elapsed);
        }
        other => panic!("unexpected: {:?}", other),
    }
    assert_eq!(plugin.current_phase(), Phase::Idle);
}

#[test]
fn simulator_time_counts_from_the_request_that_asked_for_it() {
    let mut plugin = connected();
    assert_eq!(plugin.system_info(), Ok(b"<anlageninfo />\n".to_vec()));
    let started = std::time::Instant::now();
    while started.elapsed().as_millis() < 40 {
        std::hint::spin_loop();
    }
    reply(
        &mut plugin,
        b"<anlageninfo simbuild='1' name='N' aid='2' region='R' online='0' />\n",
    )
    .unwrap();
    let before = std::time::Instant::now();
    assert_eq!(plugin.simulator_time(), Ok(b"<simzeit />\n".to_vec()));
    let response = reply(&mut plugin, b"<sim zeit='3600000' />\n").unwrap();
    let elapsed = before.elapsed().as_nanos() as u64;
    let one = TimeOfDay::from_hms_milli(1, 0, 0, 0).unwrap();
    match response {
        Response::SimulatorTime(time) => {
            let taken_off = one.nanos_since_midnight() - time.nanos_since_midnight();
            assert!(taken_off <= elapsed / 2 + 5_000_000, "{} of {}", taken_off, elapsed);
        }
        other => panic!("unexpected: {:?}", other),
    }
}

#[test]
fn platform_list_is_read_over_several_lines() {
    let mut plugin = connected();
    assert_eq!(plugin.platform_list(), Ok(b"<bahnsteigliste />\n".to_vec()));
    plugin.receive(b"<bahnsteigliste>\n<bahnsteig name='A' haltepunkt='1'><n name='B'/></bahnsteig>\n");
    assert_eq!(plugin.advance(), Ok(Step::Read));
    plugin.receive(b"<bahnsteig name='B' haltepunkt='0'/>\n</bahnsteigliste>\n");
    assert_eq!(
        plugin.advance(),
        Ok(Step::Reply(Response::PlatformList(vec![
            Platform {
                name: "A".to_string(),
                stop: true,
                neighbors: vec![PlatformNeighbor { name: "B".to_string() }],
            },
            Platform { name: "B".to_string(), stop: false, neighbors: vec![] },
        ])))
    );
}

#[test]
fn train_details_names_the_train_and_reads_one_line() {
    let mut plugin = connected();
    assert_eq!(plugin.train_details("42"), Ok(b"<zugdetails zid='42' />\n".to_vec()));
    let response = reply(
        &mut plugin,
        b"<zugdetails zid='42' name='ICE 1' verspaetung='3' gleis='5' plangleis='5' von='X' nach='Y' sichtbar='1' amgleis='0' />\n",
    )
    .unwrap();
    match response {
        Response::TrainDetails(details) => {
            assert_eq!(details.id, "42");
            assert_eq!(details.name, "ICE 1");
            assert_eq!(details.delay, 3);
            assert_eq!(details.platform, "5");
            assert_eq!(details.scheduled_platform, "5");
            assert_eq!(details.origin, "X");
            assert_eq!(details.destination, "Y");
            assert!(details.visible);
            assert!(!details.at_platform);
            assert_eq!(details.user_text, None);
            assert_eq!(details.user_text_sender, None);
            assert_eq!(details.notice_text, None);
        }
        other => panic!("unexpected: {:?}", other),
    }
}

#[test]
fn train_id_is_escaped_in_the_request() {
    let mut plugin = connected();
    assert_eq!(
        plugin.train_timetable("1' x='<&>\""),
        Ok(b"<zugfahrplan zid='1&apos; x=&apos;&lt;&amp;&gt;&quot;' />\n".to_vec())
    );
}

#[test]
fn two_train_lists_one_after_the_other() {
    let mut plugin = connected();
    assert_eq!(plugin.train_list(), Ok(b"<zugliste />\n".to_vec()));
    let first = reply(&mut plugin, b"<zugliste>\n<zug zid='1' name='A'/>\n</zugliste>\n").unwrap();
    assert_eq!(plugin.train_list(), Ok(b"<zugliste />\n".to_vec()));
    let second = reply(
        &mut plugin,
        b"<zugliste>\n<zug zid='1' name='A'/>\n<zug zid='2' name='B'/>\n</zugliste>\n",
    )
    .unwrap();
    assert_eq!(
        first,
        Response::TrainList(vec![Train { id: "1".to_string(), name: "A".to_string() }])
    );
    assert_eq!(
        second,
        Response::TrainList(vec![
            Train { id: "1".to_string(), name: "A".to_string() },
            Train { id: "2".to_string(), name: "B".to_string() },
        ])
    );
}

#[test]
fn system_info_reads_the_same_reply_the_same_way() {
    let mut plugin = connected();
    let line = b"<anlageninfo simbuild='20230101' name='Hamburg' aid='17' region='Nord' online='0' />\n";
    let expected = Response::SystemInfo(SystemInfo {
        build: 20230101,
        name: "Hamburg".to_string(),
        aid: 17,
        region: "Nord".to_string(),
        online: false,
    });
    assert_eq!(plugin.system_info(), Ok(b"<anlageninfo />\n".to_vec()));
    assert_eq!(reply(&mut plugin, line), Ok(expected.clone()));
    assert_eq!(plugin.system_info(), Ok(b"<anlageninfo />\n".to_vec()));
    assert_eq!(reply(&mut plugin, line), Ok(expected));
}

#[test]
fn requests_reach_the_wire_whole_and_replies_are_paired_in_order() {
    let mut plugin = connected();
    let mut wire: Vec<u8> = Vec::new();
    wire.extend(plugin.train_list().unwrap());
    // the second caller has to wait for the first exchange to end
    let trains = reply(&mut plugin, b"<zugliste>\n<zug zid='7' name='RE 7'/>\n</zugliste>\n").unwrap();
    wire.extend(plugin.system_info().unwrap());
    let info = reply(
        &mut plugin,
        b"<anlageninfo simbuild='1' name='N' aid='2' region='R' online='1' />\n",
    )
    .unwrap();
    assert_eq!(wire, b"<zugliste />\n<anlageninfo />\n".to_vec());
    assert_eq!(
        trains,
        Response::TrainList(vec![Train { id: "7".to_string(), name: "RE 7".to_string() }])
    );
    assert_eq!(
        info,
        Response::SystemInfo(SystemInfo {
            build: 1,
            name: "N".to_string(),
            aid: 2,
            region: "R".to_string(),
            online: true,
        })
    );
}

#[test]
fn request_while_another_is_under_way_ends_the_session() {
    let mut plugin = connected();
    assert!(plugin.train_list().is_ok());
    assert!(matches!(plugin.system_info(), Err(Error::Network(_))));
    assert_eq!(plugin.current_phase(), Phase::Closed);
    assert!(matches!(plugin.advance(), Err(Error::Network(_))));
}

#[test]
fn reply_that_does_not_decode_leaves_the_session_usable() {
    let mut plugin = connected();
    assert!(plugin.system_info().is_ok());
    assert!(matches!(reply(&mut plugin, b"<anlageninfo name='N' />\n"), Err(Error::Xml(_))));
    assert_eq!(plugin.current_phase(), Phase::Idle);
    assert!(plugin.system_info().is_ok());
    assert!(matches!(reply(&mut plugin, b"<anlageninfo\n"), Err(Error::Xml(_))));
    assert!(plugin.ways().is_ok());
}

#[test]
fn end_of_stream_inside_a_reply_is_a_network_error() {
    let mut plugin = connected();
    assert!(plugin.ways().is_ok());
    plugin.receive(b"<wege>\n<shape type='5' name='A'/>\n");
    assert_eq!(plugin.advance(), Ok(Step::Read));
    plugin.end_of_stream();
    assert!(matches!(plugin.advance(), Err(Error::Network(_))));
    assert_eq!(plugin.current_phase(), Phase::Closed);
}

#[test]
fn reply_that_is_not_utf8_is_a_network_error() {
    let mut plugin = connected();
    assert!(plugin.system_info().is_ok());
    plugin.receive(&[b'<', 0xFF, b'>', b'\n']);
    assert!(matches!(plugin.advance(), Err(Error::Network(_))));
    assert_eq!(plugin.current_phase(), Phase::Closed);
}

#[test]
fn reply_is_the_same_however_the_stream_is_cut() {
    let transcript: &[u8] =
        "<zugliste>\n<zug zid='1' name='Z\u{fc}rich'/>\n  </zugliste>  \n<extra/>\n".as_bytes();
    let mut whole = connected();
    assert!(whole.train_list().is_ok());
    let expected = reply(&mut whole, transcript);
    assert_eq!(
        expected,
        Ok(Response::TrainList(vec![Train { id: "1".to_string(), name: "Z\u{fc}rich".to_string() }]))
    );
    for size in 1..transcript.len() {
        let mut plugin = connected();
        assert!(plugin.train_list().is_ok());
        let mut found = None;
        for chunk in transcript.chunks(size) {
            plugin.receive(chunk);
            if found.is_none() {
                match plugin.advance() {
                    Ok(Step::Read) => {}
                    Ok(Step::Reply(response)) => found = Some(response),
                    other => panic!("unexpected: {:?}", other),
                }
            }
        }
        assert_eq!(found, Some(expected.clone().unwrap()), "chunks of {}", size);
    }
}
