use network_interface::{Addr, NetworkInterface, NetworkInterfaceConfig};
use random_port::error::Errors;
use random_port::search::{Event, Request, Step};
use random_port::utils::{BindOutcome, HostAddr, Transport};
use random_port::{PortPicker, Protocol, MAX_PORT, MIN_PORT};
use std::collections::HashSet;

const LOOPBACK: HostAddr = HostAddr::V4(0x7f00_0001);
const ANY_V4: HostAddr = HostAddr::V4(0);
const ANY_V6: HostAddr = HostAddr::V6(0);

/// What a pick asked for and how it ended.
struct Run {
    result: Result<u16, Errors>,
    parsed: Vec<String>,
    listed: usize,
    binds: Vec<(u16, HostAddr, Transport)>,
}

/// Carries a pick through: `host` is what the configured host parses to, `lists` are
/// the interfaces' addresses, and `world` answers each bind.
fn run(
    picker: &PortPicker,
    host: Option<HostAddr>,
    lists: &[Vec<HostAddr>],
    world: &dyn Fn(u16, HostAddr, Transport) -> BindOutcome,
) -> Run {
    let mut parsed = Vec::new();
    let mut listed = 0;
    let mut binds = Vec::new();
    let mut step = picker.pick();
    loop {
        let (pick, request) = match step {
            Step::Done(result) => return Run { result, parsed, listed, binds },
            Step::Ask(pick, request) => (pick, request),
        };
        let event = match request {
            Request::ParseHost(text) => {
                parsed.push(text);
                Event::HostParsed(host)
            }
            Request::ListInterfaces => {
                listed += 1;
                Event::Interfaces(lists.to_vec())
            }
            Request::Bind { port, host, transport } => {
                binds.push((port, host, transport));
                Event::Bound(world(port, host, transport))
            }
        };
        step = pick.step(event);
    }
}

fn all_free(_: u16, _: HostAddr, _: Transport) -> BindOutcome {
    BindOutcome::Bound
}

fn all_taken(_: u16, _: HostAddr, _: Transport) -> BindOutcome {
    BindOutcome::Other
}

fn interfaces_of_this_machine() -> Vec<Vec<HostAddr>> {
    let mut lists = Vec::new();
    for interface in NetworkInterface::show().unwrap() {
        let mut list = Vec::new();
        for addr in interface.addr {
            list.push(match addr {
                Addr::V4(v4) => HostAddr::V4(u32::from(v4.ip)),
                Addr::V6(v6) => HostAddr::V6(u128::from(v6.ip)),
            });
        }
        lists.push(list);
    }
    lists
}

fn invalid_option(result: Result<u16, Errors>) -> String {
    match result {
        Err(Errors::InvalidOption(text)) => text,
        other => panic!("expected an invalid option, got {:?}", other),
    }
}

fn candidates(binds: &[(u16, HostAddr, Transport)]) -> Vec<u16> {
    let mut ports: Vec<u16> = Vec::new();
    for (index, bind) in binds.iter().enumerate() {
        if index == 0 || binds[index - 1].0 != bind.0 || bind.1 == binds[0].1 && bind.2 == binds[0].2
        {
            ports.push(bind.0);
        }
    }
    ports
}

#[test]
fn test_port_picker() {
    let lists = interfaces_of_this_machine();

    let port = run(&PortPicker::new(), None, &lists, &all_free).result.unwrap();
    assert!(port >= MIN_PORT && port <= MAX_PORT);

    let result = run(&PortPicker::new().port_range(3000..=4000), None, &lists, &all_free).result;
    assert!(result.is_ok());
    let port = result.unwrap();
    assert!(port >= 3000 && port <= 4000);
}

#[test]
fn new_has_the_documented_defaults() {
    let picker = PortPicker::new();
    assert_eq!(picker.range_start(), 1024);
    assert_eq!(picker.range_end(), 65535);
    assert!(!picker.excludes(1024));
    assert!(!picker.excludes(40000));
    assert_eq!(picker.transports(), Protocol::All);
    assert_eq!(picker.host_text(), None);
    assert!(!picker.is_random());
}

#[test]
fn builders_set_one_field_each() {
    let picker = PortPicker::new().port_range(3000..=4000);
    assert_eq!((picker.range_start(), picker.range_end()), (3000, 4000));
    assert_eq!(picker.transports(), Protocol::All);
    assert!(!picker.is_random());

    let picker = picker.execlude(HashSet::from([3000, 3001]));
    assert!(picker.excludes(3000) && picker.excludes(3001) && !picker.excludes(3002));
    assert_eq!((picker.range_start(), picker.range_end()), (3000, 4000));

    let picker = picker.execlude_add(3005);
    assert!(picker.excludes(3000) && picker.excludes(3001) && picker.excludes(3005));
    assert!(!picker.excludes(3004));

    let picker = picker.execlude(HashSet::from([3900]));
    assert!(picker.excludes(3900) && !picker.excludes(3000) && !picker.excludes(3005));

    let picker = picker.protocol(Protocol::Udp);
    assert_eq!(picker.transports(), Protocol::Udp);

    let picker = picker.host("127.0.0.1".to_string());
    assert_eq!(picker.host_text(), Some(&"127.0.0.1".to_string()));

    let picker = picker.random(true);
    assert!(picker.is_random());
    assert_eq!((picker.range_start(), picker.range_end()), (3000, 4000));
    assert!(picker.excludes(3900));
    assert_eq!(picker.transports(), Protocol::Udp);
}

#[test]
fn accepts_ports_of_the_range_that_are_not_excluded() {
    let picker = PortPicker::new().port_range(3000..=3005).execlude_add(3003);
    assert!(picker.accepts(3000));
    assert!(picker.accepts(3005));
    assert!(!picker.accepts(3003));
    assert!(!picker.accepts(2999));
    assert!(!picker.accepts(3006));
}

#[test]
fn inverted_range_is_an_invalid_option() {
    let picker = PortPicker::new().port_range(2000..=1000);
    let run = run(&picker, None, &[], &all_free);
    assert_eq!(
        invalid_option(run.result),
        "the start port must be less than or equal to the end port"
    );
    assert!(run.parsed.is_empty() && run.listed == 0 && run.binds.is_empty());
}

#[test]
fn range_from_zero_is_an_invalid_option() {
    let picker = PortPicker::new().port_range(0..=2000);
    let run = run(&picker, None, &[], &all_free);
    assert_eq!(invalid_option(run.result), "The port range must be between 1024 and 65535");
    assert!(run.parsed.is_empty() && run.listed == 0 && run.binds.is_empty());
}

#[test]
fn range_below_the_lowest_port_is_refused_and_the_lowest_is_not() {
    let picker = PortPicker::new().port_range(1023..=1023);
    assert!(matches!(run(&picker, None, &[], &all_free).result, Err(Errors::InvalidOption(_))));
    let picker = PortPicker::new().port_range(1024..=1024);
    assert!(matches!(run(&picker, None, &[], &all_free).result, Ok(1024)));
    let picker = PortPicker::new().port_range(65535..=65535);
    assert!(matches!(run(&picker, None, &[], &all_free).result, Ok(65535)));
}

#[test]
fn inverted_range_is_reported_before_its_bounds_and_the_host() {
    let picker = PortPicker::new().port_range(900..=100).host("not-an-ip".to_string());
    let run = run(&picker, None, &[], &all_free);
    assert_eq!(
        invalid_option(run.result),
        "the start port must be less than or equal to the end port"
    );
    assert!(run.parsed.is_empty());

    let picker = PortPicker::new().port_range(100..=900).host("not-an-ip".to_string());
    let run = self::run(&picker, None, &[], &all_free);
    assert_eq!(invalid_option(run.result), "The port range must be between 1024 and 65535");
    assert!(run.parsed.is_empty());
}

#[test]
fn range_3000_to_4000_yields_a_port_of_it() {
    let picker = PortPicker::new().port_range(3000..=4000);
    let run = run(&picker, None, &[], &all_free);
    assert!(matches!(run.result, Ok(3000)));
    assert_eq!(run.listed, 1);
}

#[test]
fn host_that_is_no_address_is_an_invalid_option() {
    let picker = PortPicker::new().host("not-an-ip".to_string());
    let run = run(&picker, None, &[], &all_free);
    assert_eq!(invalid_option(run.result), "The host not-an-ip is not a valid IP address");
    assert_eq!(run.parsed, vec!["not-an-ip".to_string()]);
    assert_eq!(run.listed, 0);
    assert!(run.binds.is_empty());
}

#[test]
fn configured_host_is_probed_alone() {
    let picker = PortPicker::new().port_range(3000..=4000).host("127.0.0.1".to_string());
    let taken = |port: u16, host: HostAddr, _: Transport| {
        if host == LOOPBACK && port < 3002 {
            BindOutcome::Other
        } else {
            BindOutcome::Bound
        }
    };
    let run = run(&picker, Some(LOOPBACK), &[vec![HostAddr::V4(0x0a00_0001)]], &taken);
    assert!(matches!(run.result, Ok(3002)));
    assert_eq!(run.parsed, vec!["127.0.0.1".to_string()]);
    assert_eq!(run.listed, 0);
    assert_eq!(
        run.binds,
        vec![
            (3000, LOOPBACK, Transport::Tcp),
            (3001, LOOPBACK, Transport::Tcp),
            (3002, LOOPBACK, Transport::Tcp),
            (3002, LOOPBACK, Transport::Udp),
        ]
    );
}

#[test]
fn without_a_host_every_local_address_is_probed() {
    let lists = vec![vec![LOOPBACK, HostAddr::V6(1)], vec![], vec![HostAddr::V4(0x0a00_0001), LOOPBACK]];
    let picker = PortPicker::new().port_range(5000..=5000).protocol(Protocol::Tcp);
    let run = run(&picker, None, &lists, &all_free);
    assert!(matches!(run.result, Ok(5000)));
    assert_eq!(run.listed, 1);
    assert!(run.parsed.is_empty());
    let hosts: Vec<HostAddr> = run.binds.iter().map(|bind| bind.1).collect();
    assert_eq!(hosts.len(), 5);
    for host in [ANY_V4, ANY_V6, LOOPBACK, HostAddr::V6(1), HostAddr::V4(0x0a00_0001)] {
        assert_eq!(hosts.iter().filter(|probed| **probed == host).count(), 1);
    }
    assert!(run.binds.iter().all(|bind| bind.0 == 5000 && bind.2 == Transport::Tcp));
}

#[test]
fn excluded_ports_are_never_returned() {
    let exclude = HashSet::from([3000, 3001]);
    let picker = PortPicker::new().port_range(3000..=3005).execlude(exclude.clone());
    let run = run(&picker, None, &[], &all_free);
    assert!(matches!(run.result, Ok(3002)));
    assert!(run.binds.iter().all(|bind| bind.0 == 3002));

    let picker = PortPicker::new().port_range(3000..=3005).execlude(exclude).random(true);
    for _ in 0..200 {
        let run = self::run(&picker, None, &[], &all_free);
        match run.result {
            Ok(port) => assert!((3002..=3005).contains(&port)),
            Err(Errors::NoAvailablePort) => assert!(run.binds.is_empty()),
            Err(other) => panic!("unexpected {:?}", other),
        }
        assert!(run.binds.iter().all(|bind| (3002..=3005).contains(&bind.0)));
    }
}

#[test]
fn ascending_search_returns_the_first_free_port() {
    let picker = PortPicker::new().port_range(3000..=3010).execlude_add(3003).host("::1".to_string());
    let host = HostAddr::V6(1);
    let world = |port: u16, _: HostAddr, transport: Transport| {
        if port < 3003 || port == 3004 && transport == Transport::Udp {
            BindOutcome::Other
        } else {
            BindOutcome::Bound
        }
    };
    let run = run(&picker, Some(host), &[], &world);
    assert!(matches!(run.result, Ok(3005)));
    assert_eq!(
        run.binds,
        vec![
            (3000, host, Transport::Tcp),
            (3001, host, Transport::Tcp),
            (3002, host, Transport::Tcp),
            (3004, host, Transport::Tcp),
            (3004, host, Transport::Udp),
            (3005, host, Transport::Tcp),
            (3005, host, Transport::Udp),
        ]
    );
}

#[test]
fn protocol_chooses_the_transports() {
    let udp_taken = |_: u16, _: HostAddr, transport: Transport| {
        if transport == Transport::Udp {
            BindOutcome::Other
        } else {
            BindOutcome::Bound
        }
    };
    let range = PortPicker::new().port_range(3000..=3001).host("127.0.0.1".to_string());

    let run_tcp = run(&range, Some(LOOPBACK), &[], &udp_taken);
    assert!(matches!(run_tcp.result, Err(Errors::NoAvailablePort)));
    assert_eq!(run_tcp.binds.len(), 4);

    let tcp = PortPicker::new()
        .port_range(3000..=3001)
        .host("127.0.0.1".to_string())
        .protocol(Protocol::Tcp);
    let run_tcp = run(&tcp, Some(LOOPBACK), &[], &udp_taken);
    assert!(matches!(run_tcp.result, Ok(3000)));
    assert_eq!(run_tcp.binds, vec![(3000, LOOPBACK, Transport::Tcp)]);

    let udp = PortPicker::new()
        .port_range(3000..=3001)
        .host("127.0.0.1".to_string())
        .protocol(Protocol::Udp);
    let run_udp = run(&udp, Some(LOOPBACK), &[], &udp_taken);
    assert!(matches!(run_udp.result, Err(Errors::NoAvailablePort)));
    assert_eq!(
        run_udp.binds,
        vec![(3000, LOOPBACK, Transport::Udp), (3001, LOOPBACK, Transport::Udp)]
    );
}

#[test]
fn address_that_cannot_be_bound_does_not_block_a_port() {
    let world = |_: u16, host: HostAddr, transport: Transport| match (host, transport) {
        (HostAddr::V6(_), Transport::Tcp) => BindOutcome::AddrNotAvailable,
        (HostAddr::V6(_), Transport::Udp) => BindOutcome::InvalidInput,
        _ => BindOutcome::Bound,
    };
    let picker = PortPicker::new().port_range(3000..=3000);
    let run = run(&picker, None, &[vec![HostAddr::V6(0xfe80 << 112)]], &world);
    assert!(matches!(run.result, Ok(3000)));
    assert_eq!(run.binds.len(), 6);
}

#[test]
fn one_occupied_host_blocks_the_port_at_once() {
    let blocker = HostAddr::V4(0x0a00_0001);
    let world = |port: u16, host: HostAddr, _: Transport| {
        if port == 3000 && host == blocker {
            BindOutcome::Other
        } else {
            BindOutcome::Bound
        }
    };
    let picker = PortPicker::new().port_range(3000..=3001).protocol(Protocol::Tcp);
    let run = run(&picker, None, &[vec![blocker, LOOPBACK]], &world);
    assert!(matches!(run.result, Ok(3001)));
    let first: Vec<HostAddr> = run.binds.iter().filter(|bind| bind.0 == 3000).map(|bind| bind.1).collect();
    assert_eq!(first.last(), Some(&blocker));
    assert!(!first.contains(&LOOPBACK));
    let second: Vec<HostAddr> = run.binds.iter().filter(|bind| bind.0 == 3001).map(|bind| bind.1).collect();
    assert_eq!(second.len(), 4);
    assert_eq!(run.binds.len(), first.len() + 4);
}

#[test]
fn ascending_search_ends_when_the_range_is_used_up() {
    let picker = PortPicker::new().port_range(3000..=3002).host("127.0.0.1".to_string());
    let run = run(&picker, Some(LOOPBACK), &[], &all_taken);
    assert!(matches!(run.result, Err(Errors::NoAvailablePort)));
    assert_eq!(
        run.binds,
        vec![
            (3000, LOOPBACK, Transport::Tcp),
            (3001, LOOPBACK, Transport::Tcp),
            (3002, LOOPBACK, Transport::Tcp),
        ]
    );

    let picker = PortPicker::new().port_range(65534..=65535).host("127.0.0.1".to_string());
    let run = self::run(&picker, Some(LOOPBACK), &[], &all_taken);
    assert!(matches!(run.result, Err(Errors::NoAvailablePort)));
    assert_eq!(run.binds.len(), 2);

    let picker = PortPicker::new().port_range(3000..=3001).execlude(HashSet::from([3000, 3001]));
    let run = self::run(&picker, None, &[], &all_free);
    assert!(matches!(run.result, Err(Errors::NoAvailablePort)));
    assert!(run.binds.is_empty());
}

#[test]
fn random_search_tries_no_more_candidates_than_the_range_has_ports() {
    let picker = PortPicker::new()
        .port_range(3000..=3009)
        .host("127.0.0.1".to_string())
        .protocol(Protocol::Tcp)
        .random(true);
    for _ in 0..50 {
        let run = run(&picker, Some(LOOPBACK), &[], &all_taken);
        assert!(matches!(run.result, Err(Errors::NoAvailablePort)));
        assert_eq!(run.binds.len(), 10);
        assert_eq!(candidates(&run.binds).len(), 10);
        assert!(run.binds.iter().all(|bind| (3000..=3009).contains(&bind.0)));
    }

    let picker = picker.execlude_add(3004);
    for _ in 0..50 {
        let run = self::run(&picker, Some(LOOPBACK), &[], &all_taken);
        assert!(matches!(run.result, Err(Errors::NoAvailablePort)));
        assert!(run.binds.len() <= 10);
        assert!(run.binds.iter().all(|bind| bind.0 != 3004));
    }
}

#[test]
fn random_search_on_one_port_returns_it() {
    let picker = PortPicker::new().port_range(3456..=3456).random(true);
    let run = run(&picker, None, &[], &all_free);
    assert!(matches!(run.result, Ok(3456)));
}

#[test]
fn random_search_draws_inside_the_range() {
    let picker = PortPicker::new()
        .port_range(3000..=4000)
        .execlude(HashSet::from([3000, 4000]))
        .random(true);
    let mut seen = HashSet::new();
    for _ in 0..40 {
        let port = run(&picker, None, &[], &all_free).result.unwrap();
        assert!(port > 3000 && port < 4000);
        seen.insert(port);
    }
    assert!(seen.len() > 1);
}

#[test]
fn random_port_spends_a_draw_for_each_try() {
    let picker = PortPicker::new().port_range(3000..=3002);
    for _ in 0..20 {
        let (found, left) = picker.random_port(5);
        let port = found.unwrap();
        assert!((3000..=3002).contains(&port));
        assert_eq!(left, 4);
    }
    assert!(matches!(picker.random_port(0), (None, 0)));

    let none_left = PortPicker::new().port_range(3000..=3001).execlude(HashSet::from([3000, 3001]));
    assert!(matches!(none_left.random_port(7), (None, 0)));

    let one_left = PortPicker::new().port_range(3000..=3001).execlude_add(3000);
    for _ in 0..20 {
        match one_left.random_port(3) {
            (Some(port), left) => {
                assert_eq!(port, 3001);
                assert!(left < 3);
            }
            (None, left) => assert_eq!(left, 0),
        }
    }
}

#[test]
fn get_port_finds_the_lowest_candidate() {
    let picker = PortPicker::new().port_range(3000..=3005).execlude(HashSet::from([3000, 3001, 3004]));
    assert_eq!(picker.get_port(3000), Some(3002));
    assert_eq!(picker.get_port(1), Some(3002));
    assert_eq!(picker.get_port(3002), Some(3002));
    assert_eq!(picker.get_port(3003), Some(3003));
    assert_eq!(picker.get_port(3004), Some(3005));
    assert_eq!(picker.get_port(3006), None);
    assert_eq!(picker.get_port(65535), None);
    let top = PortPicker::new().port_range(65535..=65535);
    assert_eq!(top.get_port(65535), Some(65535));
    assert_eq!(top.execlude_add(65535).get_port(65535), None);
}

#[test]
fn event_that_answers_nothing_repeats_the_request() {
    let picker = PortPicker::new().host("127.0.0.1".to_string()).port_range(3000..=3000);
    let pick = match picker.pick() {
        Step::Ask(pick, Request::ParseHost(text)) => {
            assert_eq!(text, "127.0.0.1");
            pick
        }
        _ => panic!("the host is to be parsed first"),
    };
    let pick = match pick.step(Event::Bound(BindOutcome::Bound)) {
        Step::Ask(pick, Request::ParseHost(text)) => {
            assert_eq!(text, "127.0.0.1");
            pick
        }
        _ => panic!("the request is to be repeated"),
    };
    let pick = match pick.step(Event::Interfaces(vec![])) {
        Step::Ask(pick, Request::ParseHost(_)) => pick,
        _ => panic!("the request is to be repeated"),
    };
    let pick = match pick.step(Event::HostParsed(Some(LOOPBACK))) {
        Step::Ask(pick, Request::Bind { port: 3000, host: LOOPBACK, transport: Transport::Tcp }) => pick,
        _ => panic!("the first bind is to be asked for"),
    };
    assert!(matches!(
        pick.request(),
        Request::Bind { port: 3000, host: LOOPBACK, transport: Transport::Tcp }
    ));
    let pick = match pick.step(Event::HostParsed(None)) {
        Step::Ask(pick, Request::Bind { port: 3000, host: LOOPBACK, transport: Transport::Tcp }) => pick,
        _ => panic!("the request is to be repeated"),
    };
    let pick = match pick.step(Event::Bound(BindOutcome::Bound)) {
        Step::Ask(pick, Request::Bind { port: 3000, host: LOOPBACK, transport: Transport::Udp }) => pick,
        _ => panic!("the second bind is to be asked for"),
    };
    assert!(matches!(pick.step(Event::Bound(BindOutcome::AddrNotAvailable)), Step::Done(Ok(3000))));

    let picker = PortPicker::new();
    let pick = match picker.pick() {
        Step::Ask(pick, Request::ListInterfaces) => pick,
        _ => panic!("the interfaces are to be listed first"),
    };
    assert!(matches!(
        pick.step(Event::HostParsed(Some(LOOPBACK))),
        Step::Ask(_, Request::ListInterfaces)
    ));
}

#[test]
fn picking_leaves_the_configuration_as_it_was() {
    let picker = PortPicker::new()
        .port_range(3000..=3010)
        .execlude(HashSet::from([3001, 3002]))
        .protocol(Protocol::Tcp)
        .host("10.0.0.1".to_string())
        .random(true);
    let fields = |picker: &PortPicker| {
        let excluded: Vec<u16> = (3000..=3010).filter(|port| picker.excludes(*port)).collect();
        (
            picker.range_start(),
            picker.range_end(),
            excluded,
            picker.transports(),
            picker.host_text().cloned(),
            picker.is_random(),
        )
    };
    let before = fields(&picker);
    let first = run(&picker, Some(HostAddr::V4(0x0a00_0001)), &[], &all_free).result;
    let between = fields(&picker);
    let second = run(&picker, Some(HostAddr::V4(0x0a00_0001)), &[], &all_taken).result;
    let after = fields(&picker);
    assert!(first.is_ok());
    assert!(matches!(second, Err(Errors::NoAvailablePort)));
    assert_eq!(before, between);
    assert_eq!(before, after);
    assert_eq!(
        before,
        (3000, 3010, vec![3001, 3002], Protocol::Tcp, Some("10.0.0.1".to_string()), true)
    );
}

#[test]
fn errors_have_their_messages() {
    assert_eq!(Errors::NoAvailablePort.message(), "No available port");
    assert_eq!(Errors::InvalidOption("the reason".to_string()).message(), "the reason");
}
