//! A pick as a machine that asks for one thing at a time (an address to be parsed,
//! the interfaces to be listed, a port to be bound) and decides on the answer what
//! to ask next, or how the pick ends. The caller does what is asked and hands back
//! the answer; nothing here touches the network.

use vstd::prelude::*;
use vstd::string::*;
use crate::error::{Errors, ErrorsView};
use crate::utils::{
    get_local_hosts, is_free_in_hosts, port_verdict, resolves, BindOutcome, HostAddr, PortVerdict,
    Transport,
};
use crate::{invalid_host_text, PickerView, PortPicker, Protocol};

verus! {

/// `rand::rngs::ThreadRng`, the generator that draws the random candidates. It is
/// carried from `rand::thread_rng` to `Rng::gen_range` and never looked into.
#[verifier::external_type_specification]
#[verifier::external_body]
pub struct ExThreadRng(rand::rngs::ThreadRng);

/// `rand::thread_rng` hands out the random number generator of the calling thread.
/// Nothing is claimed of it. It panics where the system cannot seed the generator.
pub assume_specification[ rand::thread_rng ]() -> (rng: rand::rngs::ThreadRng);

/// `Rng::gen_range` on the inclusive range from `start` to `end`: a port of that
/// range, and nothing more is claimed of which. The call panics on an empty range,
/// which `requires` leaves out.
#[verifier::external_body]
fn gen_range(rng: &mut rand::rngs::ThreadRng, start: u16, end: u16) -> (port: u16)
    requires
        start <= end,
    ensures
        start <= port <= end,
{
    rand::Rng::gen_range(rng, start..=end)
}

/// What a pick is waiting for.
#[derive(Clone, Copy, Debug, PartialEq, Eq, Structural)]
pub enum Stage {
    /// The configured host has been handed out to be read as an IP address.
    AwaitHost,
    /// The local interfaces have been asked for.
    AwaitInterfaces,
    /// `port` is the candidate, it counts as free on the hosts before number `host`,
    /// and `transport` is being tried on that host.
    Probing { port: u16, host: usize, transport: Transport },
}

/// What the caller is asked to do.
#[derive(Debug)]
pub enum Request {
    /// Read this text as an IP address, version 4 or 6.
    ParseHost(String),
    /// List the addresses of every local network interface.
    ListInterfaces,
    /// Bind `port` on `host` with `transport`, and release it at once.
    Bind { port: u16, host: HostAddr, transport: Transport },
}

/// What the caller found.
#[derive(Debug)]
pub enum Event {
    /// The address that the text stands for, or `None` where it is no IP address.
    HostParsed(Option<HostAddr>),
    /// The addresses of the local interfaces, one list for each interface.
    Interfaces(Vec<Vec<HostAddr>>),
    /// How the bind ended.
    Bound(BindOutcome),
}

/// A pick that is under way.
pub struct Pick<'a> {
    picker: &'a PortPicker,
    hosts: Vec<HostAddr>,
    stage: Stage,
    attempts: u32,
}

/// Where a pick stands after a step.
pub enum Step<'a> {
    /// The pick goes on once the request is answered.
    Ask(Pick<'a>, Request),
    /// The pick is over: with the port, or with the reason why there is none.
    Done(Result<u16, Errors>),
}

/// A pick under way as plain values.
pub struct PickView {
    /// The configuration that is searched.
    pub config: PickerView,
    /// The addresses on which a port has to be free, in the order of probing.
    pub hosts: Seq<HostAddr>,
    /// What the pick is waiting for.
    pub stage: Stage,
    /// With the random strategy, the draws that are left once the candidate at hand
    /// is given up.
    pub attempts: nat,
}

/// Where a pick stands after a step, as plain values.
pub enum StepView {
    Ask(PickView, Request),
    Done(Result<u16, ErrorsView>),
}

impl<'a> View for Step<'a> {
    type V = StepView;

    open spec fn view(&self) -> StepView {
        match *self {
            Step::Ask(pick, request) => StepView::Ask(pick@, request),
            Step::Done(Ok(port)) => StepView::Done(Ok(port)),
            Step::Done(Err(error)) => StepView::Done(Err(error@)),
        }
    }
}

impl PickView {
    /// What holds of every pick under way.
    pub open spec fn wf(self) -> bool {
        &&& self.config.valid_range()
        &&& self.hosts.len() <= usize::MAX
        &&& match self.stage {
            Stage::AwaitHost => self.config.host is Some && self.hosts.len() == 0 && self.attempts
                == 0,
            Stage::AwaitInterfaces => self.config.host is None && self.hosts.len() == 0
                && self.attempts == 0,
            Stage::Probing { port, host, transport } => {
                &&& self.config.is_candidate(port as int)
                &&& host < self.hosts.len()
                &&& self.config.protocol.uses(transport)
                &&& self.hosts.no_duplicates()
                &&& self.attempts < self.config.size()
                &&& !self.config.random ==> self.attempts == 0
            },
        }
    }

    /// Whether `request` is what this pick is waiting for.
    pub open spec fn asks(self, request: Request) -> bool {
        match self.stage {
            Stage::AwaitHost => request matches Request::ParseHost(text) && self.config.host
                == Some(text@),
            Stage::AwaitInterfaces => request is ListInterfaces,
            Stage::Probing { port, host, transport } => request == (Request::Bind {
                port,
                host: self.hosts[host as int],
                transport,
            }),
        }
    }

    /// Whether `next` follows when this pick is handed `event`.
    ///
    /// An answer to what was asked moves the pick on: an address opens the search on
    /// that one host, a text that is no address ends the pick, the interfaces open the
    /// search on the local hosts, and the outcome of a bind either frees the port,
    /// asks for the next bind on the same port, or gives the port up for the next
    /// candidate. Any other event leaves the pick where it is and repeats the request.
    pub open spec fn follows(self, event: Event, next: StepView) -> bool {
        match (self.stage, event) {
            (Stage::AwaitHost, Event::HostParsed(Some(addr))) => {
                &&& self.searches(next)
                &&& next matches StepView::Ask(pick, _) ==> pick.hosts == seq![addr]
            },
            (Stage::AwaitHost, Event::HostParsed(None)) => {
                &&& next matches StepView::Done(Err(error))
                &&& error == ErrorsView::InvalidOption(invalid_host_text(self.config.host->0))
            },
            (Stage::AwaitInterfaces, Event::Interfaces(lists)) => {
                &&& self.searches(next)
                &&& next matches StepView::Ask(pick, _) ==> resolves(lists@, pick.hosts)
                    && pick.hosts.len() <= usize::MAX
            },
            (Stage::Probing { port, host, transport }, Event::Bound(outcome)) => match port_verdict(
                self.hosts.len() as int,
                self.config.protocol,
                host as int,
                transport,
                outcome,
            ) {
                PortVerdict::Free => next == StepView::Done(Ok(port)),
                PortVerdict::Blocked => {
                    &&& moves_on(self.config, port + 1, self.attempts, next)
                    &&& next matches StepView::Ask(pick, _) ==> pick.hosts == self.hosts
                },
                PortVerdict::Ask { host: h, transport: t } => {
                    &&& next matches StepView::Ask(pick, request)
                    &&& pick == (PickView {
                        stage: Stage::Probing { port, host: h, transport: t },
                        ..self
                    })
                    &&& pick.asks(request)
                },
            },
            _ => next matches StepView::Ask(pick, request) && pick == self && self.asks(request),
        }
    }

    /// The request of a pick that probes: the bind that the stage names.
    pub open spec fn pending_bind(self) -> Request {
        Request::Bind {
            port: self.stage->port,
            host: self.hosts[self.stage->host as int],
            transport: self.stage->transport,
        }
    }

    /// The number of binds that a port needs to count as free on every host.
    pub open spec fn span(self) -> int {
        probe_index(self.config.protocol, self.hosts.len() as int, self.config.protocol.first())
    }

    /// The number of binds that have been answered in favour of the candidate at hand.
    pub open spec fn position(self) -> int {
        match self.stage {
            Stage::Probing { port, host, transport } => probe_index(
                self.config.protocol,
                host as int,
                transport,
            ),
            _ => 0,
        }
    }

    /// The number of candidates that can still follow the one at hand: in ascending
    /// order the ports above it, at random the draws that are left.
    pub open spec fn candidates_left(self) -> nat {
        match self.stage {
            Stage::Probing { port, host, transport } => if self.config.random {
                self.attempts
            } else {
                (self.config.end - port) as nat
            },
            _ => self.config.size(),
        }
    }

    /// A bound on the number of binds that this pick can still ask for, the pending
    /// one included.
    pub open spec fn binds_left(self) -> int {
        self.candidates_left() * self.span() + self.span() - self.position()
    }

    /// Whether `next` opens the search: the first candidate is looked for from the
    /// start of the range, with as many draws as the range has ports.
    pub open spec fn searches(self, next: StepView) -> bool {
        moves_on(
            self.config,
            self.config.start as int,
            if self.config.random {
                self.config.size()
            } else {
                0
            },
            next,
        )
    }
}

/// The place of a bind among those that a port needs, counted from 0: the hosts come
/// in their order, and on each host TCP comes before UDP where both are used.
pub open spec fn probe_index(protocol: Protocol, host: int, transport: Transport) -> int {
    if protocol == Protocol::All {
        2 * host + if transport == Transport::Udp {
            1int
        } else {
            0int
        }
    } else {
        host
    }
}

/// Whether the search may end for want of a candidate. In ascending order it does
/// where no candidate is left from `from` upwards. At random it does where no draw
/// is left, and it may where some port of the range is excluded, since every draw
/// may hit one.
pub open spec fn gives_up(config: PickerView, from: int, attempts: nat) -> bool {
    if config.random {
        attempts == 0 || !config.nothing_excluded()
    } else {
        config.first_candidate(from, None)
    }
}

/// Whether `port` may be the next candidate, and `left` the draws that are left with
/// it. In ascending order it is the lowest candidate from `from` upwards. At random
/// it is any candidate, for which at least one draw is spent, and exactly one where
/// no port of the range is excluded.
pub open spec fn turns_to(config: PickerView, from: int, attempts: nat, port: u16, left: nat) -> bool {
    if config.random {
        &&& config.is_candidate(port as int)
        &&& left < attempts
        &&& config.nothing_excluded() ==> left + 1 == attempts
    } else {
        config.first_candidate(from, Some(port)) && left == attempts
    }
}

/// Whether `next` follows when a new candidate is looked for from `from` upwards with
/// `attempts` draws: the pick ends with no port available, or it asks for the first
/// bind on the first host for the new candidate.
pub open spec fn moves_on(config: PickerView, from: int, attempts: nat, next: StepView) -> bool {
    match next {
        StepView::Done(result) => {
            &&& result == Err::<u16, ErrorsView>(ErrorsView::NoAvailablePort)
            &&& gives_up(config, from, attempts)
        },
        StepView::Ask(pick, request) => {
            &&& pick.config == config
            &&& pick.stage matches Stage::Probing { port, host, transport }
            &&& host == 0
            &&& transport == config.protocol.first()
            &&& turns_to(config, from, attempts, port, pick.attempts)
            &&& pick.asks(request)
        },
    }
}

impl<'a> View for Pick<'a> {
    type V = PickView;

    closed spec fn view(&self) -> PickView {
        PickView {
            config: self.picker@,
            hosts: self.hosts@,
            stage: self.stage,
            attempts: self.attempts as nat,
        }
    }
}

impl PortPicker {
    /// The next candidate in ascending order: the lowest port from `from` upwards
    /// that lies in the range and is not excluded.
    pub fn get_port(&self, from: u16) -> (found: Option<u16>)
        ensures
            self@.first_candidate(from as int, found),
    {
        let start = self.range_start();
        let end = self.range_end();
        let mut port = if from < start {
            start
        } else {
            from
        };
        while port <= end
            invariant
                start == self@.start,
                end == self@.end,
                from <= port,
                start <= port,
                forall|lower: int| from <= lower < port ==> !#[trigger] self@.is_candidate(lower),
            decreases end - port,
        {
            if !self.excludes(port) {
                return Some(port);
            }
            if port == end {
                return None;
            }
            port += 1;
        }
        None
    }

    /// The next candidate at random: ports of the range are drawn until one is not
    /// excluded, or until `attempts` draws are spent. Handed back with it are the
    /// draws that are left.
    pub fn random_port(&self, attempts: u32) -> (drawn: (Option<u16>, u32))
        requires
            self@.start <= self@.end,
        ensures
            match drawn.0 {
                Some(port) => {
                    &&& self@.is_candidate(port as int)
                    &&& drawn.1 < attempts
                    &&& self@.nothing_excluded() ==> drawn.1 + 1 == attempts
                },
                None => drawn.1 == 0 && (attempts == 0 || !self@.nothing_excluded()),
            },
    {
        let start = self.range_start();
        let end = self.range_end();
        let mut rng = rand::thread_rng();
        let mut left = attempts;
        while left > 0
            invariant
                start == self@.start,
                end == self@.end,
                start <= end,
                left <= attempts,
                left < attempts ==> !self@.nothing_excluded(),
            decreases left,
        {
            left -= 1;
            let port = gen_range(&mut rng, start, end);
            if self.accepts(port) {
                return (Some(port), left);
            }
            assert(!self@.is_candidate(port as int));
        }
        (None, 0)
    }
}

impl<'a> Pick<'a> {
    #[verifier::type_invariant]
    spec fn inv(self) -> bool {
        self@.wf()
    }

    /// The pick on `picker` before anything is known of the hosts.
    pub(crate) fn open(picker: &'a PortPicker) -> (first: Step<'a>)
        requires
            picker@.valid_range(),
        ensures
            picker@.begins(first@),
    {
        let stage = match picker.host_text() {
            Some(_) => Stage::AwaitHost,
            None => Stage::AwaitInterfaces,
        };
        let pick = Pick { picker, hosts: Vec::new(), stage, attempts: 0 };
        let request = pick.request();
        Step::Ask(pick, request)
    }

    /// What this pick is waiting for.
    pub fn request(&self) -> (request: Request)
        ensures
            self@.asks(request),
    {
        proof {
            use_type_invariant(self);
        }
        match self.stage {
            Stage::AwaitHost => match self.picker.host_text() {
                Some(text) => Request::ParseHost(text.clone()),
                None => Request::ListInterfaces,
            },
            Stage::AwaitInterfaces => Request::ListInterfaces,
            Stage::Probing { port, host, transport } => Request::Bind {
                port,
                host: self.hosts[host],
                transport,
            },
        }
    }

    /// Looks for the next candidate from `from` upwards and asks for its first bind.
    fn move_on(picker: &'a PortPicker, hosts: Vec<HostAddr>, from: u32, attempts: u32) -> (next:
        Step<'a>)
        requires
            picker@.valid_range(),
            hosts@.len() > 0,
            hosts@.no_duplicates(),
            attempts <= picker@.size(),
            !picker@.random ==> attempts == 0,
            from <= 65536,
        ensures
            moves_on(picker@, from as int, attempts as nat, next@),
            next matches Step::Ask(pick, _) ==> pick@.hosts == hosts@ && hosts@.len() <= usize::MAX,
    {
        let (found, left) = if picker.is_random() {
            picker.random_port(attempts)
        } else if from > 65535 {
            (None, attempts)
        } else {
            (picker.get_port(from as u16), attempts)
        };
        match found {
            None => Step::Done(Err(Errors::NoAvailablePort)),
            Some(port) => {
                assert(hosts@.len() == hosts.len());
                let transport = picker.transports().first_transport();
                let request = Request::Bind { port, host: hosts[0], transport };
                let pick = Pick {
                    picker,
                    hosts,
                    stage: Stage::Probing { port, host: 0, transport },
                    attempts: left,
                };
                Step::Ask(pick, request)
            },
        }
    }

    /// Opens the search on `hosts`.
    fn search(picker: &'a PortPicker, hosts: Vec<HostAddr>) -> (next: Step<'a>)
        requires
            picker@.valid_range(),
            hosts@.len() > 0,
            hosts@.no_duplicates(),
        ensures
            moves_on(
                picker@,
                picker@.start as int,
                if picker@.random {
                    picker@.size()
                } else {
                    0
                },
                next@,
            ),
            next matches Step::Ask(pick, _) ==> pick@.hosts == hosts@ && hosts@.len() <= usize::MAX,
    {
        let attempts: u32 = if picker.is_random() {
            (picker.range_end() - picker.range_start()) as u32 + 1
        } else {
            0
        };
        Pick::move_on(picker, hosts, picker.range_start() as u32, attempts)
    }

    /// Hands the pick what the caller found, and says how the pick goes on.
    pub fn step(self, event: Event) -> (next: Step<'a>)
        ensures
            self@.follows(event, next@),
    {
        proof {
            use_type_invariant(&self);
        }
        match (self.stage, event) {
            (Stage::AwaitHost, Event::HostParsed(Some(addr))) => {
                let mut hosts: Vec<HostAddr> = Vec::new();
                hosts.push(addr);
                Pick::search(self.picker, hosts)
            },
            (Stage::AwaitHost, Event::HostParsed(None)) => {
                let text = match self.picker.host_text() {
                    Some(host) => String::from_str("The host ").concat(host.as_str()).concat(
                        " is not a valid IP address",
                    ),
                    None => String::new(),
                };
                Step::Done(Err(Errors::InvalidOption(text)))
            },
            (Stage::AwaitInterfaces, Event::Interfaces(lists)) => {
                let hosts = get_local_hosts(&lists);
                Pick::search(self.picker, hosts)
            },
            (Stage::Probing { port, host, transport }, Event::Bound(outcome)) => {
                let protocol = self.picker.transports();
                match is_free_in_hosts(self.hosts.len(), &protocol, host, transport, outcome) {
                    PortVerdict::Free => Step::Done(Ok(port)),
                    PortVerdict::Blocked => Pick::move_on(
                        self.picker,
                        self.hosts,
                        port as u32 + 1,
                        self.attempts,
                    ),
                    PortVerdict::Ask { host: h, transport: t } => {
                        let request = Request::Bind { port, host: self.hosts[h], transport: t };
                        let pick = Pick {
                            picker: self.picker,
                            hosts: self.hosts,
                            stage: Stage::Probing { port, host: h, transport: t },
                            attempts: self.attempts,
                        };
                        Step::Ask(pick, request)
                    },
                }
            },
            _ => {
                let request = self.request();
                Step::Ask(self, request)
            },
        }
    }
}

} // verus!
