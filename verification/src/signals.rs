//! Signal router: which signals the supervisor listens to, and what a
//! received signal means — a configuration reload on hangup, or a graceful
//! stop of every program whose `stopsignal` matches.

use vstd::prelude::*;
use crate::registry::RegEntryView;
use crate::supervisor::Supervisor;

verus! {

/// Relies on libc::SIGHUP: the hangup signal is 1 on Linux.
#[verifier::external_body]
pub fn sig_hup() -> (r: i32)
    ensures
        r == 1,
{
    libc::SIGHUP
}

/// Relies on libc::SIGILL: the illegal-instruction signal is 4 on Linux.
#[verifier::external_body]
pub fn sig_ill() -> (r: i32)
    ensures
        r == 4,
{
    libc::SIGILL
}

/// Relies on libc::SIGFPE: the arithmetic-exception signal is 8 on Linux.
#[verifier::external_body]
pub fn sig_fpe() -> (r: i32)
    ensures
        r == 8,
{
    libc::SIGFPE
}

/// Relies on libc::SIGKILL: the uncatchable kill signal is 9 on Linux.
#[verifier::external_body]
pub fn sig_kill() -> (r: i32)
    ensures
        r == 9,
{
    libc::SIGKILL
}

/// Relies on libc::SIGSEGV: the segmentation-fault signal is 11 on Linux.
#[verifier::external_body]
pub fn sig_segv() -> (r: i32)
    ensures
        r == 11,
{
    libc::SIGSEGV
}

/// Relies on libc::SIGSTOP: the uncatchable stop signal is 19 on Linux.
#[verifier::external_body]
pub fn sig_stop() -> (r: i32)
    ensures
        r == 19,
{
    libc::SIGSTOP
}

/// The signals the supervisor intercepts: every signal number of the
/// classic range except KILL and STOP, which cannot be caught, and ILL,
/// FPE and SEGV, which are left to their default handling.
pub open spec fn spec_catchable(s: i32) -> bool {
    &&& 1 <= s <= 31
    &&& s != 4
    &&& s != 8
    &&& s != 9
    &&& s != 11
    &&& s != 19
}

/// The signal numbers to subscribe to, in increasing order, exactly the
/// catchable ones.
pub fn catchable_signals() -> (v: Vec<i32>)
    ensures
        forall|k: int| 0 <= k < v@.len() ==> spec_catchable(#[trigger] v@[k]),
        forall|s: i32| spec_catchable(s) ==> v@.contains(s),
        forall|k1: int, k2: int| 0 <= k1 < k2 < v@.len() ==> v@[k1] < v@[k2],
{
    let ill = sig_ill();
    let fpe = sig_fpe();
    let kill = sig_kill();
    let segv = sig_segv();
    let stop = sig_stop();
    let mut v: Vec<i32> = Vec::new();
    let mut s: i32 = 1;
    while s <= 31
        invariant
            1 <= s <= 32,
            ill == 4 && fpe == 8 && kill == 9 && segv == 11 && stop == 19,
            forall|k: int| 0 <= k < v@.len() ==> spec_catchable(#[trigger] v@[k]),
            forall|k: int| 0 <= k < v@.len() ==> #[trigger] v@[k] < s,
            forall|t: i32| spec_catchable(t) && t < s ==> v@.contains(t),
            forall|k1: int, k2: int| 0 <= k1 < k2 < v@.len() ==> v@[k1] < v@[k2],
        decreases 32 - s,
    {
        if s != ill && s != fpe && s != kill && s != segv && s != stop {
            let ghost before = v@;
            v.push(s);
            proof {
                assert forall|t: i32| before.contains(t) implies v@.contains(t) by {
                    let k = choose|k: int| 0 <= k < before.len() && before[k] == t;
                    assert(v@[k] == t);
                }
                assert(v@[v@.len() - 1] == s);
            }
        }
        s += 1;
    }
    v
}

/// One graceful-stop order: which program, and how long to wait before the
/// forceful kill.
#[derive(Debug)]
pub struct StopOrder {
    pub name: String,
    pub stoptime: u32,
    pub stopsignal: i32,
}

/// Mathematical image of a `StopOrder`.
#[verifier::ext_equal]
pub struct StopOrderView {
    pub name: Seq<char>,
    pub stoptime: u32,
    pub stopsignal: i32,
}

impl View for StopOrder {
    type V = StopOrderView;

    open spec fn view(&self) -> StopOrderView {
        StopOrderView { name: self.name@, stoptime: self.stoptime, stopsignal: self.stopsignal }
    }
}

impl DeepView for StopOrder {
    type V = StopOrderView;

    open spec fn deep_view(&self) -> StopOrderView {
        self.view()
    }
}

/// What a received signal means.
#[derive(Debug)]
pub enum SignalRoute {
    /// Hangup: parse the configuration afresh and reconcile.
    Reload,
    /// Any other signal: gracefully stop every matching program.
    GracefulStops { stops: Vec<StopOrder> },
}

/// The stop orders a non-hangup signal triggers: one per program whose
/// `stopsignal` is the received signal, in registry order.
pub open spec fn spec_stop_orders(reg: Seq<RegEntryView>, signal: i32) -> Seq<StopOrderView> {
    reg.filter(|e: RegEntryView| e.def.stopsignal == signal).map_values(
        |e: RegEntryView| StopOrderView {
            name: e.name,
            stoptime: e.def.stoptime,
            stopsignal: e.def.stopsignal,
        },
    )
}

impl Supervisor {
    /// Dispatches a received signal: hangup means reload, anything else
    /// means a graceful stop of every program with that `stopsignal`.
    pub fn route_signal(&self, signal: i32) -> (route: SignalRoute)
        requires
            self.wf(),
        ensures
            signal == 1 ==> route is Reload,
            signal != 1 ==> (route matches SignalRoute::GracefulStops { stops } && stops.deep_view()
                == spec_stop_orders(self.registry@, signal)),
    {
        if signal == sig_hup() {
            return SignalRoute::Reload;
        }
        let ghost pred = |e: RegEntryView| e.def.stopsignal == signal;
        let ghost f = |e: RegEntryView| StopOrderView {
            name: e.name,
            stoptime: e.def.stoptime,
            stopsignal: e.def.stopsignal,
        };
        let n = self.registry.len();
        let mut stops: Vec<StopOrder> = Vec::new();
        let mut i: usize = 0;
        proof {
            reveal(Seq::filter);
            assert(self.registry@.take(0).filter(pred) =~= Seq::<RegEntryView>::empty());
            assert(stops.deep_view() =~= self.registry@.take(0).filter(pred).map_values(f));
        }
        while i < n
            invariant
                self.wf(),
                n == self.registry@.len(),
                i <= n,
                pred == (|e: RegEntryView| e.def.stopsignal == signal),
                f == (|e: RegEntryView| StopOrderView {
                    name: e.name,
                    stoptime: e.def.stoptime,
                    stopsignal: e.def.stopsignal,
                }),
                stops.deep_view() == self.registry@.take(i as int).filter(pred).map_values(f),
            decreases n - i,
        {
            let ghost prefix = self.registry@.take(i as int);
            let ghost entry = self.registry@[i as int];
            let ghost stops_before = stops.deep_view();
            let name = self.registry.name_at(i);
            let def = self.registry.def_at(i);
            if def.stopsignal == signal {
                let order = StopOrder {
                    name: name.clone(),
                    stoptime: def.stoptime,
                    stopsignal: def.stopsignal,
                };
                stops.push(order);
                proof {
                    assert(pred(entry));
                    assert(order@ == f(entry));
                }
            } else {
                proof {
                    assert(!pred(entry));
                }
            }
            proof {
                reveal(Seq::filter);
                assert(self.registry@.take(i as int + 1).drop_last() =~= prefix);
                assert(self.registry@.take(i as int + 1).last() == entry);
                if pred(entry) {
                    assert(self.registry@.take(i as int + 1).filter(pred) =~= prefix.filter(
                        pred,
                    ).push(entry));
                    assert(stops.deep_view() =~= stops_before.push(f(entry)));
                    assert((prefix.filter(pred).push(entry)).map_values(f) =~= prefix.filter(
                        pred,
                    ).map_values(f).push(f(entry)));
                } else {
                    assert(self.registry@.take(i as int + 1).filter(pred) =~= prefix.filter(pred));
                }
                assert(stops.deep_view() =~= self.registry@.take(i as int + 1).filter(
                    pred,
                ).map_values(f));
            }
            i += 1;
        }
        proof {
            assert(self.registry@.take(n as int) =~= self.registry@);
        }
        SignalRoute::GracefulStops { stops }
    }

    /// The child ids of `name`'s live instances, in order: what a graceful
    /// stop forwards the program's `stopsignal` to at the start of its
    /// window. `None` when the name has no entry.
    pub fn instance_ids(&self, name: &str) -> (ids: Option<Vec<u64>>)
        requires
            self.wf(),
        ensures
            ids is Some <==> crate::table::table_contains(self.table@, name@),
            ids is Some ==> ids->0@ == crate::table::table_lookup(self.table@, name@).map_values(
                |r: crate::record::InstanceRecord| r.id,
            ),
    {
        match self.table.find(name) {
            Some(i) => {
                proof {
                    self.table.lemma_found_is_index(i as int, name@);
                }
                let m = self.table.records_len_at(i);
                let mut ids: Vec<u64> = Vec::new();
                let mut j: usize = 0;
                while j < m
                    invariant
                        self.wf(),
                        0 <= i < self.table@.len(),
                        m == self.table@[i as int].records.len(),
                        j <= m,
                        ids@.len() == j,
                        forall|k: int|
                            0 <= k < j ==> ids@[k] == self.table@[i as int].records[k].id,
                    decreases m - j,
                {
                    let r = self.table.record_at(i, j);
                    ids.push(r.id);
                    j += 1;
                }
                proof {
                    assert(ids@ =~= self.table@[i as int].records.map_values(
                        |r: crate::record::InstanceRecord| r.id,
                    ));
                }
                Some(ids)
            },
            None => None,
        }
    }
}

} // verus!
