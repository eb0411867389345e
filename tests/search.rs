use igd_search::description::{parse_control_urls, parse_schemas};
use igd_search::driver::{Action, Outcome, Search};
use igd_search::gateway::{Endpoint, Gateway, SearchError};
use igd_search::resolver::{url_for, Resolver};
use igd_search::ssdp::decode_response;

const RESPONSE: &str = "HTTP/1.1 200 OK\r\nCACHE-CONTROL: max-age=120\r\nST: urn:schemas-upnp-org:device:InternetGatewayDevice:1\r\nLocation: http://192.168.1.1:5000/rootDesc.xml\r\nSERVER: test\r\n\r\n";

const DESCRIPTION: &str = "<root><device><serviceList>\
<service><serviceType>urn:schemas-upnp-org:service:Layer3Forwarding:1</serviceType>\
<controlURL>/l3f</controlURL><SCPDURL>/l3f.xml</SCPDURL></service>\
<service><serviceType>urn:schemas-upnp-org:service:WANIPConnection:1</serviceType>\
<controlURL>/ctl</controlURL><eventSubURL>/evt</eventSubURL><SCPDURL>/schema.xml</SCPDURL></service>\
</serviceList></device></root>";

const SCHEMA: &str = "<scpd><actionList><action><name>GetExternalIPAddress</name>\
<argumentList><argument><name>NewExternalIPAddress</name><direction>out</direction></argument></argumentList>\
</action></actionList></scpd>";

fn bytes(s: &str) -> Vec<u8> {
    s.as_bytes().to_vec()
}

/// Runs one resolution against fixed documents (`None`: the fetch fails).
fn resolve(datagram: &[u8], description: Option<&str>, schema: Option<&str>) -> Outcome {
    let candidate = match decode_response(&datagram.to_vec()) {
        Some(c) => c,
        None => return Outcome::Dropped,
    };
    let mut resolver = Resolver::new(candidate);
    let mut fetches = 0;
    while let Some(url) = resolver.next_fetch() {
        let url = String::from_utf8(url).unwrap();
        let body = if fetches == 0 {
            assert_eq!(url, "http://192.168.1.1:5000/rootDesc.xml");
            description.map(bytes)
        } else {
            assert_eq!(url, "http://192.168.1.1:5000/schema.xml");
            schema.map(bytes)
        };
        fetches += 1;
        resolver.supply(body);
    }
    resolver.outcome()
}

fn resolved_gateway() -> Gateway {
    match resolve(RESPONSE.as_bytes(), Some(DESCRIPTION), Some(SCHEMA)) {
        Outcome::Resolved(g) => g,
        _ => panic!("the responder did not resolve"),
    }
}

fn other_gateway() -> Gateway {
    let mut g = resolved_gateway();
    g.addr = Endpoint { octets: [10, 0, 0, 1], port: 1900 };
    g
}

/// Drives a first-match search over outcomes, polling at the given times.
fn run_single(outcomes: Vec<Outcome>) -> Option<Result<Gateway, SearchError>> {
    let mut search = Search::single(None);
    for outcome in outcomes {
        match search.poll(0) {
            Action::Finish => break,
            Action::Receive(t) => assert_eq!(t, None),
        }
        search.record(outcome);
    }
    search.gateway()
}

fn run_multi(timeout: Option<u64>, rounds: Vec<(u64, Outcome)>, end: u64) -> Option<Result<Vec<Gateway>, SearchError>> {
    let mut search = Search::multi(timeout);
    for (elapsed, outcome) in rounds {
        if search.poll(elapsed) == Action::Finish {
            break;
        }
        search.record(outcome);
    }
    search.poll(end);
    search.gateways()
}

#[test]
fn decodes_location_header() {
    let c = decode_response(&bytes(RESPONSE)).unwrap();
    assert_eq!(c.addr, Endpoint { octets: [192, 168, 1, 1], port: 5000 });
    assert_eq!(c.root_path, bytes("/rootDesc.xml"));
}

#[test]
fn decodes_default_port_and_path() {
    let c = decode_response(&bytes("HTTP/1.1 200 OK\r\nLOCATION:   http://10.0.0.138  \r\n\r\n")).unwrap();
    assert_eq!(c.addr, Endpoint { octets: [10, 0, 0, 138], port: 80 });
    assert_eq!(c.root_path, bytes("/"));
}

#[test]
fn malformed_datagrams_are_dropped() {
    assert!(decode_response(&bytes("")).is_none());
    assert!(decode_response(&bytes("HTTP/1.1 200 OK\r\nST: x\r\n\r\n")).is_none());
    assert!(decode_response(&bytes("HTTP/1.1 200 OK\r\nLOCATION: https://1.2.3.4/a\r\n")).is_none());
    assert!(decode_response(&bytes("HTTP/1.1 200 OK\r\nLOCATION: http://1.2.3.256/a\r\n")).is_none());
    assert!(decode_response(&bytes("HTTP/1.1 200 OK\r\nLOCATION: http://1.2.3/a\r\n")).is_none());
    assert!(decode_response(&bytes("HTTP/1.1 200 OK\r\nLOCATION: http://1.2.3.4:70000/a\r\n")).is_none());
    assert!(decode_response(&bytes("HTTP/1.1 200 OK\r\nLOCATION: http://gateway.local/a\r\n")).is_none());
    let mut invalid = bytes("HTTP/1.1 200 OK\r\nLOCATION: http://1.2.3.4/a\r\n");
    invalid.push(0xff);
    assert!(decode_response(&invalid).is_none());
    assert_eq!(resolve(&invalid, Some(DESCRIPTION), Some(SCHEMA)), Outcome::Dropped);
}

#[test]
fn control_urls_of_connection_service() {
    let (schema, control) = parse_control_urls(&bytes(DESCRIPTION)).unwrap();
    assert_eq!(schema, bytes("/schema.xml"));
    assert_eq!(control, bytes("/ctl"));
    assert!(parse_control_urls(&bytes("<root><SCPDURL>/x</SCPDURL></root>")).is_none());
}

#[test]
fn schema_lists_input_arguments() {
    let doc = "<actionList><action><name>AddPortMapping</name><argumentList>\
<argument><name>NewRemoteHost</name><direction>in</direction></argument>\
<argument><name>NewResult</name><direction>out</direction></argument>\
<argument><name>NewExternalPort</name><direction>in</direction></argument>\
</argumentList></action><action><name>AddPortMapping</name></action>\
<action><name>GetStatus</name></action></actionList>";
    let table = parse_schemas(&bytes(doc)).unwrap();
    assert_eq!(
        table,
        vec![
            (bytes("AddPortMapping"), vec![bytes("NewRemoteHost"), bytes("NewExternalPort")]),
            (bytes("GetStatus"), vec![]),
        ]
    );
    assert!(parse_schemas(&bytes("<action><argumentList></argumentList></action>")).is_none());
}

#[test]
fn url_is_written_in_decimal() {
    let url = url_for(&Endpoint { octets: [10, 0, 0, 255], port: 49152 }, &bytes("/d.xml"));
    assert_eq!(url, bytes("http://10.0.0.255:49152/d.xml"));
}

#[test]
fn single_responder_resolves() {
    let g = resolved_gateway();
    assert_eq!(g.addr, Endpoint { octets: [192, 168, 1, 1], port: 5000 });
    assert_eq!(g.root_url, "/rootDesc.xml");
    assert_eq!(g.control_url, "/ctl");
    assert_eq!(g.control_schema_url, "/schema.xml");
    assert_eq!(g.control_schema, vec![("GetExternalIPAddress".to_string(), Vec::<String>::new())]);
    let result = run_single(vec![Outcome::Resolved(g.clone())]);
    assert_eq!(result, Some(Ok(g)));
}

#[test]
fn failed_fetches_drop_the_candidate() {
    assert_eq!(resolve(RESPONSE.as_bytes(), None, Some(SCHEMA)), Outcome::Dropped);
    assert_eq!(resolve(RESPONSE.as_bytes(), Some(DESCRIPTION), None), Outcome::Dropped);
    assert_eq!(resolve(RESPONSE.as_bytes(), Some("<root/>"), Some(SCHEMA)), Outcome::Dropped);
    let result = run_single(vec![Outcome::Dropped, Outcome::Resolved(resolved_gateway())]);
    assert_eq!(result, Some(Ok(resolved_gateway())));
}

#[test]
fn corrupt_datagram_in_either_order() {
    let corrupt = b"\xff\xfe garbage";
    let good = || resolve(RESPONSE.as_bytes(), Some(DESCRIPTION), Some(SCHEMA));
    let bad = || resolve(corrupt, Some(DESCRIPTION), Some(SCHEMA));
    assert_eq!(run_single(vec![bad(), good()]), Some(Ok(resolved_gateway())));
    assert_eq!(run_single(vec![good(), bad()]), Some(Ok(resolved_gateway())));
}

#[test]
fn first_resolved_wins() {
    let outcomes = vec![
        Outcome::Dropped,
        Outcome::TimedOut,
        Outcome::Dropped,
        Outcome::Resolved(other_gateway()),
        Outcome::Resolved(resolved_gateway()),
    ];
    assert_eq!(run_single(outcomes), Some(Ok(other_gateway())));
}

#[test]
fn single_search_reports_transport_failure() {
    assert_eq!(run_single(vec![Outcome::Dropped, Outcome::Failed]), Some(Err(SearchError::Transport)));
    assert_eq!(run_single(vec![Outcome::Dropped, Outcome::TimedOut]), None);
}

#[test]
fn single_search_rearms_its_read_timeout() {
    let mut search = Search::single(Some(250));
    assert_eq!(search.poll(10_000), Action::Receive(Some(250)));
    search.record(Outcome::TimedOut);
    assert_eq!(search.poll(20_000), Action::Receive(Some(250)));
}

#[test]
fn multi_search_accumulates_in_arrival_order() {
    let rounds = vec![
        (0, Outcome::Resolved(other_gateway())),
        (5, Outcome::Dropped),
        (40, Outcome::TimedOut),
        (60, Outcome::Resolved(resolved_gateway())),
    ];
    let result = run_multi(Some(100), rounds, 100);
    assert_eq!(result, Some(Ok(vec![other_gateway(), resolved_gateway()])));
}

#[test]
fn multi_search_rearms_remaining_budget() {
    let mut search = Search::multi(Some(100));
    assert_eq!(search.poll(0), Action::Receive(Some(100)));
    search.record(Outcome::TimedOut);
    assert_eq!(search.poll(30), Action::Receive(Some(70)));
    search.record(Outcome::Dropped);
    assert!(!search.is_finished());
    assert_eq!(search.poll(100), Action::Finish);
    assert!(search.is_finished());
}

#[test]
fn multi_search_stops_on_transport_failure() {
    let rounds = vec![(0, Outcome::Resolved(resolved_gateway())), (10, Outcome::Failed)];
    assert_eq!(run_multi(Some(100), rounds, 20), Some(Ok(vec![resolved_gateway()])));
}

#[test]
fn untimed_multi_search_is_single_search() {
    let rounds = vec![(0, Outcome::Dropped), (0, Outcome::Resolved(resolved_gateway()))];
    assert_eq!(run_multi(None, rounds, 0), Some(Ok(vec![resolved_gateway()])));
    let rounds = vec![(0, Outcome::TimedOut), (0, Outcome::Failed)];
    assert_eq!(run_multi(None, rounds, 0), Some(Err(SearchError::Transport)));
    let mut search = Search::multi(None);
    assert_eq!(search.poll(1_000_000), Action::Receive(None));
}

#[test]
fn repeated_searches_agree() {
    let first = run_multi(
        Some(100),
        vec![(1, Outcome::Resolved(resolved_gateway())), (2, Outcome::Resolved(other_gateway()))],
        100,
    );
    let second = run_multi(
        Some(100),
        vec![(1, Outcome::Resolved(other_gateway())), (3, Outcome::Dropped), (4, Outcome::Resolved(resolved_gateway()))],
        150,
    );
    let mut a = first.unwrap().unwrap();
    let mut b = second.unwrap().unwrap();
    a.sort_by(|x, y| x.addr.octets.cmp(&y.addr.octets));
    b.sort_by(|x, y| x.addr.octets.cmp(&y.addr.octets));
    assert_eq!(a, b);
}

#[test]
fn zero_timeout_without_responders_is_empty() {
    let mut search = Search::multi(Some(0));
    assert_eq!(search.poll(0), Action::Finish);
    assert_eq!(search.gateways(), Some(Ok(vec![])));
}
