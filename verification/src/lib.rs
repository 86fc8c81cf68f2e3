//! Picks a port that is free on the local machine.

use std::collections::HashSet;
use std::ops::RangeInclusive;
use vstd::prelude::*;
use vstd::std_specs::hash::*;
use vstd::string::*;
use crate::error::{Errors, ErrorsView};
use crate::search::{Pick, PickView, Stage, Step, StepView};

pub mod error;
pub mod laws;
pub mod search;
pub mod utils;

verus! {

/// The lowest port that may be configured.
pub const MIN_PORT: u16 = 1024;

/// The highest port that may be configured.
pub const MAX_PORT: u16 = 65535;

/// `RangeInclusive::start` hands out the lower bound that the range was made with.
pub assume_specification<Idx>[ RangeInclusive::<Idx>::start ](range: &RangeInclusive<Idx>) -> (bound: &Idx)
    ensures
        *bound == range@.start,
;

/// `RangeInclusive::end` hands out the upper bound that the range was made with.
pub assume_specification<Idx>[ RangeInclusive::<Idx>::end ](range: &RangeInclusive<Idx>) -> (bound: &Idx)
    ensures
        *bound == range@.end,
;

/// The transports on which a port has to be free.
#[derive(Clone, Copy, Debug, PartialEq, Eq, Structural)]
pub enum Protocol {
    All,
    Tcp,
    Udp,
}

/// A configuration as plain values.
pub struct PickerView {
    pub start: u16,
    pub end: u16,
    pub exclude: Set<u16>,
    pub protocol: Protocol,
    pub host: Option<Seq<char>>,
    pub random: bool,
}

impl PickerView {
    /// Whether the range holds a port and starts no lower than the lowest port that
    /// may be configured. No `u16` lies above the highest.
    pub open spec fn valid_range(self) -> bool {
        MIN_PORT <= self.start <= self.end
    }

    /// The number of ports in the range.
    pub open spec fn size(self) -> nat {
        if self.start <= self.end {
            (self.end - self.start + 1) as nat
        } else {
            0
        }
    }

    /// Whether `port` may be picked: it lies in the range and is not excluded.
    pub open spec fn is_candidate(self, port: int) -> bool {
        self.start <= port <= self.end && !self.exclude.contains(port as u16)
    }

    /// Whether no port of the range is excluded.
    pub open spec fn nothing_excluded(self) -> bool {
        forall|port: int| self.start <= port <= self.end ==> #[trigger] self.is_candidate(port)
    }

    /// Whether `found` is the lowest candidate from `from` upwards, or `None` where
    /// there is none.
    pub open spec fn first_candidate(self, from: int, found: Option<u16>) -> bool {
        match found {
            Some(port) => {
                &&& from <= port
                &&& self.is_candidate(port as int)
                &&& forall|lower: int| from <= lower < port ==> !#[trigger] self.is_candidate(lower)
            },
            None => forall|port: int| from <= port ==> !#[trigger] self.is_candidate(port),
        }
    }
}

/// What is wrong with a range whose start lies above its end.
pub open spec fn inverted_range_text() -> Seq<char> {
    "the start port must be less than or equal to the end port"@
}

/// What is wrong with a range that leaves the ports that may be configured.
pub open spec fn range_bounds_text() -> Seq<char> {
    "The port range must be between 1024 and 65535"@
}

/// What is wrong with a host that is no IP address.
pub open spec fn invalid_host_text(host: Seq<char>) -> Seq<char> {
    "The host "@ + host + " is not a valid IP address"@
}

/// Where and how to look for a free port.
pub struct PortPicker {
    start: u16,
    end: u16,
    exclude: HashSet<u16>,
    protocol: Protocol,
    host: Option<String>,
    random: bool,
}

impl View for PortPicker {
    type V = PickerView;

    closed spec fn view(&self) -> PickerView {
        PickerView {
            start: self.start,
            end: self.end,
            exclude: self.exclude@,
            protocol: self.protocol,
            host: match self.host {
                Some(text) => Some(text@),
                None => None,
            },
            random: self.random,
        }
    }
}

impl PortPicker {
    /// The whole range, nothing excluded, both transports, every local address,
    /// searched in ascending order.
    pub fn new() -> (picker: Self)
        ensures
            picker@ == (PickerView {
                start: MIN_PORT,
                end: MAX_PORT,
                exclude: Set::empty(),
                protocol: Protocol::All,
                host: None,
                random: false,
            }),
    {
        PortPicker {
            start: MIN_PORT,
            end: MAX_PORT,
            exclude: HashSet::new(),
            protocol: Protocol::All,
            host: None,
            random: false,
        }
    }

    /// Sets the ports to search, both bounds included.
    pub fn port_range(self, range: RangeInclusive<u16>) -> (picker: Self)
        ensures
            picker@ == (PickerView { start: range@.start, end: range@.end, ..self@ }),
    {
        let mut picker = self;
        picker.start = *range.start();
        picker.end = *range.end();
        picker
    }

    /// Replaces the set of ports that are never picked.
    pub fn execlude(self, exclude: HashSet<u16>) -> (picker: Self)
        ensures
            picker@ == (PickerView { exclude: exclude@, ..self@ }),
    {
        let mut picker = self;
        picker.exclude = exclude;
        picker
    }

    /// Adds one port to those that are never picked.
    pub fn execlude_add(self, port: u16) -> (picker: Self)
        ensures
            picker@ == (PickerView { exclude: self@.exclude.insert(port), ..self@ }),
    {
        broadcast use group_hash_axioms;
        let mut picker = self;
        picker.exclude.insert(port);
        picker
    }

    /// Sets the transports on which a port has to be free.
    pub fn protocol(self, protocol: Protocol) -> (picker: Self)
        ensures
            picker@ == (PickerView { protocol, ..self@ }),
    {
        let mut picker = self;
        picker.protocol = protocol;
        picker
    }

    /// Names the one address on which a port has to be free.
    pub fn host(self, host: String) -> (picker: Self)
        ensures
            picker@ == (PickerView { host: Some(host@), ..self@ }),
    {
        let mut picker = self;
        picker.host = Some(host);
        picker
    }

    /// Chooses between drawing candidates at random and scanning in ascending order.
    pub fn random(self, random: bool) -> (picker: Self)
        ensures
            picker@ == (PickerView { random, ..self@ }),
    {
        let mut picker = self;
        picker.random = random;
        picker
    }

    /// The lowest port of the range.
    pub fn range_start(&self) -> (port: u16)
        ensures
            port == self@.start,
    {
        self.start
    }

    /// The highest port of the range.
    pub fn range_end(&self) -> (port: u16)
        ensures
            port == self@.end,
    {
        self.end
    }

    /// Whether `port` is among those that are never picked.
    pub fn excludes(&self, port: u16) -> (excluded: bool)
        ensures
            excluded == self@.exclude.contains(port),
    {
        broadcast use group_hash_axioms;
        self.exclude.contains(&port)
    }

    /// The transports on which a port has to be free.
    pub fn transports(&self) -> (protocol: Protocol)
        ensures
            protocol == self@.protocol,
    {
        self.protocol
    }

    /// The configured host as it was given, if one was.
    pub fn host_text(&self) -> (host: Option<&String>)
        ensures
            match host {
                Some(text) => self@.host == Some(text@),
                None => self@.host is None,
            },
    {
        self.host.as_ref()
    }

    /// Whether candidates are drawn at random.
    pub fn is_random(&self) -> (random: bool)
        ensures
            random == self@.random,
    {
        self.random
    }

    /// Whether `port` may be picked: it lies in the range and is not excluded.
    pub fn accepts(&self, port: u16) -> (accepted: bool)
        ensures
            accepted == self@.is_candidate(port as int),
    {
        self.start <= port && port <= self.end && !self.excludes(port)
    }

    /// Checks the configuration and opens the search. A range whose start lies above
    /// its end, or that leaves the ports from 1024 to 65535, ends the pick at once with
    /// the reason. Otherwise the pick goes on by asking for the addresses to probe:
    /// for the configured host to be read as an IP address, or, without one, for the
    /// local interfaces.
    pub fn pick(&self) -> (first: Step<'_>)
        ensures
            self@.begins(first@),
    {
        if self.start > self.end {
            return Step::Done(
                Err(
                    Errors::InvalidOption(
                        String::from_str(
                            "the start port must be less than or equal to the end port",
                        ),
                    ),
                ),
            );
        }
        if self.start < MIN_PORT || self.end > MAX_PORT {
            return Step::Done(
                Err(
                    Errors::InvalidOption(
                        String::from_str("The port range must be between 1024 and 65535"),
                    ),
                ),
            );
        }
        Pick::open(self)
    }
}

impl PickerView {
    /// How a pick begins: with the reason why the range cannot be searched, or with the
    /// request that leads to the addresses to probe.
    pub open spec fn begins(self, first: StepView) -> bool {
        if self.start > self.end {
            first == StepView::Done(Err(ErrorsView::InvalidOption(inverted_range_text())))
        } else if self.start < MIN_PORT || self.end > MAX_PORT {
            first == StepView::Done(Err(ErrorsView::InvalidOption(range_bounds_text())))
        } else {
            &&& first matches StepView::Ask(pick, request)
            &&& pick == (PickView {
                config: self,
                hosts: Seq::empty(),
                stage: if self.host is Some {
                    Stage::AwaitHost
                } else {
                    Stage::AwaitInterfaces
                },
                attempts: 0,
            })
            &&& pick.asks(request)
        }
    }
}

} // verus!
