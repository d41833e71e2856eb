//! Watching the host's own IPv4 addresses.

use vstd::prelude::*;

use crate::command::{first_action, Cmd};
use crate::error::{Error, ErrorView};
use crate::net::{host_ips_asked, Net};
use crate::pick::{all_matches, lemma_same_matches};
use crate::step::{Action, ActionView};
use crate::text::{copy_strings, same_text, strings};

verus! {

/// The one group of notifications to join: IPv4 addresses that come and go. The set to watch is
/// one of IPv4 addresses, so nothing else can change it.
pub const RTNLGRP_IPV4_IFADDR: u32 = 5;

/// For how many milliseconds further notifications are taken as one with the first.
pub const COALESCE_MILLIS: u64 = 200;

/// A watch over the host's own IPv4 addresses.
#[derive(Debug)]
pub struct Monitor {
    prefixes: Vec<String>,
    exclude_metric: Option<u32>,
    last: Option<Vec<String>>,
}

/// A [`Monitor`] with its texts: what is watched, and the set that was emitted last.
pub struct MonitorView {
    pub prefixes: Seq<Seq<char>>,
    pub exclude_metric: Option<u32>,
    pub last: Option<Seq<Seq<char>>>,
}

impl View for Monitor {
    type V = MonitorView;

    closed spec fn view(&self) -> MonitorView {
        MonitorView {
            prefixes: strings(self.prefixes@),
            exclude_metric: self.exclude_metric,
            last: match self.last {
                Some(set) => Some(strings(set@)),
                None => None,
            },
        }
    }
}

/// What to do next, or the end.
#[derive(Debug, PartialEq, Eq)]
pub enum MonitorAction {
    /// Find the set out anew.
    Query,
    /// Emit a set.
    Emit(Vec<String>),
    /// Wait for a notification.
    Wait,
    /// Take notifications for this many milliseconds.
    Coalesce(u64),
    /// Nothing: the watch is over.
    Stop(Result<(), Error>),
}

/// A [`MonitorAction`] with its texts.
pub enum MonitorActionView {
    Query,
    Emit(Seq<Seq<char>>),
    Wait,
    Coalesce(u64),
    Stop(Result<(), ErrorView>),
}

impl View for MonitorAction {
    type V = MonitorActionView;

    open spec fn view(&self) -> MonitorActionView {
        match *self {
            MonitorAction::Query => MonitorActionView::Query,
            MonitorAction::Emit(set) => MonitorActionView::Emit(strings(set@)),
            MonitorAction::Wait => MonitorActionView::Wait,
            MonitorAction::Coalesce(millis) => MonitorActionView::Coalesce(millis),
            MonitorAction::Stop(Ok(_)) => MonitorActionView::Stop(Ok(())),
            MonitorAction::Stop(Err(e)) => MonitorActionView::Stop(Err(e@)),
        }
    }
}

/// A result with its texts.
pub open spec fn set_view(set: Result<Vec<String>, Error>) -> Result<Seq<Seq<char>>, ErrorView> {
    match set {
        Ok(ips) => Ok(strings(ips@)),
        Err(e) => Err(e@),
    }
}

/// What follows once the set was to be found out: a set that differs from the one that was
/// emitted last is emitted.
pub open spec fn after_query(
    last: Option<Seq<Seq<char>>>,
    set: Result<Seq<Seq<char>>, ErrorView>,
) -> MonitorActionView {
    match set {
        Err(e) => MonitorActionView::Stop(Err(e)),
        Ok(ips) => if last == Some(ips) {
            MonitorActionView::Wait
        } else {
            MonitorActionView::Emit(ips)
        },
    }
}

/// The set that was emitted last, once the set was to be found out.
pub open spec fn last_after_query(
    last: Option<Seq<Seq<char>>>,
    set: Result<Seq<Seq<char>>, ErrorView>,
) -> Option<Seq<Seq<char>>> {
    match set {
        Err(_) => last,
        Ok(ips) => Some(ips),
    }
}

/// Whether two lists of strings hold the same texts in the same order.
fn same_strings(a: &Vec<String>, b: &Vec<String>) -> (same: bool)
    ensures
        same == (strings(a@) == strings(b@)),
{
    let ghost x = strings(a@);
    let ghost y = strings(b@);
    if a.len() != b.len() {
        assert(x.len() != y.len());
        return false;
    }
    let mut i: usize = 0;
    while i < a.len()
        invariant
            i <= a.len() == b.len(),
            x == strings(a@),
            y == strings(b@),
            forall|j: int| 0 <= j < i ==> x[j] == y[j],
        decreases a.len() - i,
    {
        assert(x[i as int] == a@[i as int]@ && y[i as int] == b@[i as int]@);
        if !same_text(a[i].as_str(), b[i].as_str()) {
            return false;
        }
        i = i + 1;
    }
    assert(x =~= y);
    true
}

/// How a watch starts: nothing has been emitted, and the set is to be found out.
pub open spec fn watch_start(prefixes: Seq<Seq<char>>, exclude_metric: Option<u32>) -> (
    MonitorView,
    MonitorActionView,
) {
    (MonitorView { prefixes, exclude_metric, last: None }, MonitorActionView::Query)
}

/// What a watch asks in order to find the set out.
pub open spec fn watch_query(watch: MonitorView) -> ActionView {
    host_ips_asked(watch.prefixes, watch.exclude_metric)
}

/// A watch starts by finding the set out, with nothing emitted before, and asks for it by the
/// very question that the command for the same prefixes and route priority asks once.
pub proof fn law_watch_asks(
    iface: Vec<String>,
    exclude_metric: Option<u32>,
    last: Option<Seq<Seq<char>>>,
)
    ensures
        watch_start(strings(iface@), exclude_metric).1 == MonitorActionView::Query,
        watch_start(strings(iface@), exclude_metric).0.last is None,
        watch_query(watch_start(strings(iface@), exclude_metric).0) == first_action(
            Cmd::HostIps { iface, exclude_metric },
        ),
        watch_query(MonitorView { prefixes: strings(iface@), exclude_metric, last }) == first_action(
            Cmd::HostIps { iface, exclude_metric },
        ),
{
}

/// Starts a watch over the host's own IPv4 addresses. The set is to be found out first.
pub fn monitor_host_ipv4(prefixes: Vec<String>, exclude_metric: Option<u32>) -> (r: (
    Monitor,
    MonitorAction,
))
    ensures
        r.0@ == (MonitorView { prefixes: strings(prefixes@), exclude_metric, last: None }),
        r.1@ == MonitorActionView::Query,
        (r.0@, r.1@) == watch_start(strings(prefixes@), exclude_metric),
{
    (Monitor { prefixes, exclude_metric, last: None }, MonitorAction::Query)
}

impl Monitor {
    /// Finds the set out: by the same operation that lists it once.
    pub fn query(&self, net: &Net) -> (action: Action)
        ensures
            action@ == host_ips_asked(self@.prefixes, self@.exclude_metric),
            action@ == watch_query(self@),
    {
        net.host_ipv4(&self.prefixes, self.exclude_metric)
    }

    /// Goes on once the set was to be found out.
    pub fn queried(&mut self, set: Result<Vec<String>, Error>) -> (action: MonitorAction)
        ensures
            action@ == after_query(old(self)@.last, set_view(set)),
            final(self)@ == (MonitorView {
                last: last_after_query(old(self)@.last, set_view(set)),
                ..old(self)@
            }),
    {
        match set {
            Err(e) => MonitorAction::Stop(Err(e)),
            Ok(ips) => {
                let known = match &self.last {
                    Some(last) => same_strings(last, &ips),
                    None => false,
                };
                if known {
                    MonitorAction::Wait
                } else {
                    let emitted = copy_strings(&ips);
                    self.last = Some(ips);
                    MonitorAction::Emit(emitted)
                }
            },
        }
    }
}

/// What follows once a set was to be emitted.
pub open spec fn after_emit(emitted: Result<(), String>) -> MonitorActionView {
    match emitted {
        Ok(_) => MonitorActionView::Wait,
        Err(text) => MonitorActionView::Stop(Err(ErrorView::Outside(text@))),
    }
}

/// Goes on once a set was to be emitted.
pub fn emitted(r: Result<(), String>) -> (action: MonitorAction)
    ensures
        action@ == after_emit(r),
{
    match r {
        Ok(_) => MonitorAction::Wait,
        Err(text) => MonitorAction::Stop(Err(Error::Outside(text))),
    }
}

/// What follows a wait: the set is found out anew after a notification, and the watch is over
/// when there will be none.
pub open spec fn after_wait(notified: bool) -> MonitorActionView {
    if notified {
        MonitorActionView::Coalesce(COALESCE_MILLIS)
    } else {
        MonitorActionView::Stop(Ok(()))
    }
}

/// Goes on after a wait.
pub fn waited(notified: bool) -> (action: MonitorAction)
    ensures
        action@ == after_wait(notified),
{
    if notified {
        MonitorAction::Coalesce(COALESCE_MILLIS)
    } else {
        MonitorAction::Stop(Ok(()))
    }
}

/// What follows once notifications were taken.
pub open spec fn after_coalesce() -> MonitorActionView {
    MonitorActionView::Query
}

/// Goes on after notifications were taken.
pub fn coalesced() -> (action: MonitorAction)
    ensures
        action@ == after_coalesce(),
        action@ == MonitorActionView::Query,
{
    MonitorAction::Query
}

/// The set that was emitted last, once each of these sets was found out in turn.
pub open spec fn last_of(sets: Seq<Seq<Seq<char>>>) -> Option<Seq<Seq<char>>>
    decreases sets.len(),
{
    if sets.len() == 0 {
        None
    } else {
        last_after_query(last_of(sets.drop_last()), Ok(sets.last()))
    }
}

/// The sets that are emitted, while each of these sets is found out in turn.
pub open spec fn emissions(sets: Seq<Seq<Seq<char>>>) -> Seq<Seq<Seq<char>>>
    decreases sets.len(),
{
    if sets.len() == 0 {
        Seq::empty()
    } else {
        let front = emissions(sets.drop_last());
        match after_query(last_of(sets.drop_last()), Ok(sets.last())) {
            MonitorActionView::Emit(ips) => front.push(ips),
            _ => front,
        }
    }
}

/// The first set is emitted; what was emitted last is always the set that was found out last;
/// and no set is emitted twice in a row.
pub proof fn law_emissions(sets: Seq<Seq<Seq<char>>>)
    ensures
        sets.len() > 0 ==> {
            &&& emissions(sets).len() > 0
            &&& emissions(sets)[0] == sets[0]
            &&& emissions(sets).last() == sets.last()
            &&& last_of(sets) == Some(sets.last())
        },
        forall|i: int, j: int|
            0 <= i < emissions(sets).len() && j == i + 1 && j < emissions(sets).len()
                ==> #[trigger] emissions(sets)[i] != #[trigger] emissions(sets)[j],
    decreases sets.len(),
{
    if sets.len() > 0 {
        let front = sets.drop_last();
        let before = emissions(front);
        law_emissions(front);
        if front.len() == 0 {
            assert(before.len() == 0);
            assert(last_of(front) is None);
            assert(emissions(sets) =~= seq![sets.last()]);
        } else {
            assert(front[0] == sets[0]);
            assert(last_of(front) == Some(before.last()));
        }
    }
}

/// A set is emitted if and only if it is not the one that was emitted last, whatever it holds; a
/// failure to find it out ends the watch with that failure. The set that was found out last is
/// the one to compare the next with, and a failure changes nothing.
pub proof fn law_after_query(
    last: Option<Seq<Seq<char>>>,
    ips: Seq<Seq<char>>,
    e: ErrorView,
    other: Seq<Seq<char>>,
)
    ensures
        last is None ==> after_query(last, Ok(ips)) == MonitorActionView::Emit(ips),
        last == Some(other) && other != ips ==> after_query(last, Ok(ips))
            == MonitorActionView::Emit(ips),
        last == Some(ips) ==> after_query(last, Ok(ips)) == MonitorActionView::Wait,
        after_query(last, Err(e)) == MonitorActionView::Stop(Err(e)),
        last_after_query(last, Ok(ips)) == Some(ips),
        last_after_query(last, Err(e)) == last,
{
}

/// After a set was emitted the watch waits, unless that failed, which ends it. A notification
/// starts a fifth of a second in which further ones are taken with it, and after that the set is
/// found out anew; where no notification can come any more, the watch ends without a failure.
pub proof fn law_watch(text: String, notified: bool)
    ensures
        after_emit(Ok(())) == MonitorActionView::Wait,
        after_emit(Err(text)) == MonitorActionView::Stop(Err(ErrorView::Outside(text@))),
        notified ==> after_wait(notified) == MonitorActionView::Coalesce(200),
        !notified ==> after_wait(notified) == MonitorActionView::Stop(Ok(())),
        after_coalesce() == MonitorActionView::Query,
{
}

/// The set at `i`, where it differs from the one before, or is the first.
pub open spec fn changed_set(sets: Seq<Seq<Seq<char>>>) -> spec_fn(int) -> Option<Seq<Seq<char>>> {
    |i: int|
        if i == 0 || sets[i] != sets[i - 1] {
            Some(sets[i])
        } else {
            None
        }
}

/// What is emitted is exactly the sets that differ from the one found out before, and the first,
/// in their order.
pub proof fn law_emissions_are_changes(sets: Seq<Seq<Seq<char>>>)
    ensures
        emissions(sets) == all_matches(Seq::new(sets.len(), |i: int| i), changed_set(sets)),
    decreases sets.len(),
{
    let places = Seq::new(sets.len(), |i: int| i);
    if sets.len() > 0 {
        let front = sets.drop_last();
        let before = Seq::new(front.len(), |i: int| i);
        law_emissions_are_changes(front);
        law_emissions(front);
        assert(places.drop_last() =~= before);
        lemma_same_matches(before, changed_set(sets), changed_set(front));
        assert(places.last() == front.len());
        if front.len() > 0 {
            assert(sets[front.len() - 1] == front.last());
        }
    }
}

} // verus!
