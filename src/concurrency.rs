//! Two-level admission control: a global cap on in-flight requests and a cap
//! per origin host. Admission and release are decided here; waiting for a
//! free slot belongs to the caller's runtime.
use vstd::prelude::*;

verus! {

/// In-flight count for one host; created on first use and never removed.
#[derive(Debug)]
pub struct HostSlot {
    pub host: String,
    pub in_flight: u32,
}

/// Counting guards: one global, one per host.
#[derive(Debug)]
pub struct ConcurrencyGuards {
    global_capacity: u32,
    per_host_capacity: u32,
    global_in_flight: u32,
    hosts: Vec<HostSlot>,
}

/// In-flight count of the first slot for `h`, or 0.
pub open spec fn slot_count(s: Seq<HostSlot>, h: Seq<char>) -> nat
    decreases s.len(),
{
    if s.len() == 0 {
        0
    } else if s[0].host@ == h {
        s[0].in_flight as nat
    } else {
        slot_count(s.drop_first(), h)
    }
}

/// Sum of the in-flight counts of all slots.
pub open spec fn slot_total(s: Seq<HostSlot>) -> nat
    decreases s.len(),
{
    if s.len() == 0 {
        0
    } else {
        s[0].in_flight as nat + slot_total(s.drop_first())
    }
}

proof fn lemma_count_update(s: Seq<HostSlot>, i: int, x: HostSlot, h: Seq<char>)
    requires
        0 <= i < s.len(),
        x.host@ == s[i].host@,
        forall|j: int| 0 <= j < i ==> s[j].host@ != s[i].host@,
    ensures
        slot_count(s.update(i, x), h) == if h == x.host@ {
            x.in_flight as nat
        } else {
            slot_count(s, h)
        },
        slot_total(s.update(i, x)) + s[i].in_flight == slot_total(s) + x.in_flight,
    decreases s.len(),
{
    if i > 0 {
        assert(s.update(i, x).drop_first() =~= s.drop_first().update(i - 1, x));
        lemma_count_update(s.drop_first(), i - 1, x, h);
    } else {
        assert(s.update(i, x).drop_first() =~= s.drop_first());
    }
}

proof fn lemma_count_push(s: Seq<HostSlot>, x: HostSlot, h: Seq<char>)
    requires
        forall|j: int| 0 <= j < s.len() ==> s[j].host@ != x.host@,
    ensures
        slot_count(s.push(x), h) == if h == x.host@ {
            x.in_flight as nat
        } else {
            slot_count(s, h)
        },
        slot_total(s.push(x)) == slot_total(s) + x.in_flight,
    decreases s.len(),
{
    if s.len() > 0 {
        assert(s.push(x).drop_first() =~= s.drop_first().push(x));
        assert(s.push(x)[0] == s[0]);
        assert(s[0].host@ != x.host@);
        lemma_count_push(s.drop_first(), x, h);
    } else {
        assert(s.push(x).drop_first() =~= Seq::<HostSlot>::empty());
        assert(s.push(x)[0] == x);
        assert(slot_total(s.push(x).drop_first()) == 0);
        assert(slot_count(s.push(x).drop_first(), h) == 0);
    }
}

proof fn lemma_count_absent(s: Seq<HostSlot>, h: Seq<char>)
    requires
        forall|j: int| 0 <= j < s.len() ==> s[j].host@ != h,
    ensures
        slot_count(s, h) == 0,
    decreases s.len(),
{
    if s.len() > 0 {
        lemma_count_absent(s.drop_first(), h);
    }
}

proof fn lemma_count_at(s: Seq<HostSlot>, i: int)
    requires
        0 <= i < s.len(),
        forall|j: int| 0 <= j < i ==> s[j].host@ != s[i].host@,
    ensures
        slot_count(s, s[i].host@) == s[i].in_flight,
    decreases s.len(),
{
    if i > 0 {
        lemma_count_at(s.drop_first(), i - 1);
    }
}

proof fn lemma_count_bounds(s: Seq<HostSlot>, h: Seq<char>, cap: u32)
    requires
        forall|j: int| 0 <= j < s.len() ==> s[j].in_flight <= cap,
    ensures
        slot_count(s, h) <= cap,
        slot_count(s, h) <= slot_total(s),
    decreases s.len(),
{
    if s.len() > 0 {
        lemma_count_bounds(s.drop_first(), h, cap);
    }
}

impl ConcurrencyGuards {
    /// Capacities are respected, the global count is the sum of the host
    /// counts, and each host has one slot.
    pub closed spec fn wf(&self) -> bool {
        &&& self.global_in_flight <= self.global_capacity
        &&& self.global_in_flight == slot_total(self.hosts@)
        &&& forall|j: int|
            0 <= j < self.hosts@.len() ==> #[trigger] self.hosts@[j].in_flight
                <= self.per_host_capacity
        &&& forall|i: int, j: int|
            0 <= i < j < self.hosts@.len() ==> self.hosts@[i].host@ != self.hosts@[j].host@
    }

    pub closed spec fn global_capacity_spec(&self) -> nat {
        self.global_capacity as nat
    }

    pub closed spec fn per_host_capacity_spec(&self) -> nat {
        self.per_host_capacity as nat
    }

    /// Requests in flight overall.
    pub closed spec fn in_flight(&self) -> nat {
        self.global_in_flight as nat
    }

    /// Requests in flight to host `h`.
    pub closed spec fn in_flight_for(&self, h: Seq<char>) -> nat {
        slot_count(self.hosts@, h)
    }

    /// Guards with nothing in flight.
    pub fn new(global_capacity: u32, per_host_capacity: u32) -> (r: ConcurrencyGuards)
        ensures
            r.wf(),
            r.global_capacity_spec() == global_capacity,
            r.per_host_capacity_spec() == per_host_capacity,
            r.in_flight() == 0,
            forall|h: Seq<char>| r.in_flight_for(h) == 0,
    {
        ConcurrencyGuards {
            global_capacity,
            per_host_capacity,
            global_in_flight: 0,
            hosts: Vec::new(),
        }
    }

    /// Requests in flight overall.
    pub fn global_in_flight(&self) -> (r: u32)
        ensures
            r == self.in_flight(),
    {
        self.global_in_flight
    }

    fn find_host(&self, host: &String) -> (r: Option<usize>)
        ensures
            match r {
                Some(i) => i < self.hosts@.len() && self.hosts@[i as int].host@ == host@ && forall|
                    j: int,
                | 0 <= j < i ==> self.hosts@[j].host@ != host@,
                None => forall|j: int|
                    0 <= j < self.hosts@.len() ==> self.hosts@[j].host@ != host@,
            },
    {
        let mut i: usize = 0;
        while i < self.hosts.len()
            invariant
                i <= self.hosts@.len(),
                forall|j: int| 0 <= j < i ==> self.hosts@[j].host@ != host@,
            decreases self.hosts@.len() - i,
        {
            if self.hosts[i].host == *host {
                return Some(i);
            }
            i = i + 1;
        }
        None
    }

    /// Requests in flight to `host`.
    pub fn host_in_flight(&self, host: &String) -> (r: u32)
        requires
            self.wf(),
        ensures
            r == self.in_flight_for(host@),
    {
        match self.find_host(host) {
            Some(i) => {
                proof {
                    lemma_count_at(self.hosts@, i as int);
                }
                self.hosts[i].in_flight
            },
            None => {
                proof {
                    lemma_count_absent(self.hosts@, host@);
                }
                0
            },
        }
    }

    /// Admits one request to `host` when both the global guard and the
    /// host's guard have room, counting it in both; otherwise changes
    /// nothing.
    pub fn try_acquire(&mut self, host: &String) -> (r: bool)
        requires
            old(self).wf(),
        ensures
            final(self).wf(),
            r == (old(self).in_flight() < old(self).global_capacity_spec() && old(self).in_flight_for(
                host@,
            ) < old(self).per_host_capacity_spec()),
            final(self).global_capacity_spec() == old(self).global_capacity_spec(),
            final(self).per_host_capacity_spec() == old(self).per_host_capacity_spec(),
            r ==> final(self).in_flight() == old(self).in_flight() + 1,
            r ==> final(self).in_flight_for(host@) == old(self).in_flight_for(host@) + 1,
            !r ==> final(self).in_flight() == old(self).in_flight(),
            !r ==> final(self).in_flight_for(host@) == old(self).in_flight_for(host@),
            forall|h: Seq<char>|
                h != host@ ==> final(self).in_flight_for(h) == old(self).in_flight_for(h),
    {
        if self.global_in_flight >= self.global_capacity {
            return false;
        }
        match self.find_host(host) {
            Some(i) => {
                proof {
                    lemma_count_at(self.hosts@, i as int);
                }
                let count = self.hosts[i].in_flight;
                if count >= self.per_host_capacity {
                    return false;
                }
                let ghost before = self.hosts@;
                let slot = HostSlot { host: host.clone(), in_flight: count + 1 };
                self.hosts.set(i, slot);
                proof {
                    assert forall|h: Seq<char>|
                        #[trigger] slot_count(self.hosts@, h) == if h == host@ {
                            (count + 1) as nat
                        } else {
                            slot_count(before, h)
                        } by {
                        lemma_count_update(before, i as int, slot, h);
                    }
                    lemma_count_update(before, i as int, slot, host@);
                    lemma_count_bounds(before, host@, self.per_host_capacity);
                }
                self.global_in_flight = self.global_in_flight + 1;
                true
            },
            None => {
                proof {
                    lemma_count_absent(self.hosts@, host@);
                }
                if self.per_host_capacity == 0 {
                    return false;
                }
                let ghost before = self.hosts@;
                let slot = HostSlot { host: host.clone(), in_flight: 1 };
                self.hosts.push(slot);
                proof {
                    assert forall|h: Seq<char>|
                        #[trigger] slot_count(self.hosts@, h) == if h == host@ {
                            1nat
                        } else {
                            slot_count(before, h)
                        } by {
                        lemma_count_push(before, slot, h);
                    }
                    lemma_count_push(before, slot, host@);
                }
                self.global_in_flight = self.global_in_flight + 1;
                true
            },
        }
    }

    /// Releases one request to `host` from the host's guard, then from the
    /// global guard. Returns false, changing nothing, when none is in flight
    /// to `host`.
    pub fn release(&mut self, host: &String) -> (r: bool)
        requires
            old(self).wf(),
        ensures
            final(self).wf(),
            r == (old(self).in_flight_for(host@) > 0),
            final(self).global_capacity_spec() == old(self).global_capacity_spec(),
            final(self).per_host_capacity_spec() == old(self).per_host_capacity_spec(),
            r ==> final(self).in_flight() + 1 == old(self).in_flight(),
            r ==> final(self).in_flight_for(host@) + 1 == old(self).in_flight_for(host@),
            !r ==> final(self).in_flight() == old(self).in_flight(),
            forall|h: Seq<char>| final(self).in_flight_for(h) == old(self).in_flight_for(h) || (r
                && h == host@),
    {
        match self.find_host(host) {
            Some(i) => {
                proof {
                    lemma_count_at(self.hosts@, i as int);
                }
                let count = self.hosts[i].in_flight;
                if count == 0 {
                    return false;
                }
                let ghost before = self.hosts@;
                let slot = HostSlot { host: host.clone(), in_flight: count - 1 };
                self.hosts.set(i, slot);
                proof {
                    assert forall|h: Seq<char>|
                        #[trigger] slot_count(self.hosts@, h) == if h == host@ {
                            (count - 1) as nat
                        } else {
                            slot_count(before, h)
                        } by {
                        lemma_count_update(before, i as int, slot, h);
                    }
                    lemma_count_update(before, i as int, slot, host@);
                }
                self.global_in_flight = self.global_in_flight - 1;
                true
            },
            None => {
                proof {
                    lemma_count_absent(self.hosts@, host@);
                }
                false
            },
        }
    }
}

/// No host ever has more requests in flight than the per-host capacity, and
/// the total in flight never exceeds the global capacity.
pub proof fn lemma_in_flight_within_capacity(g: ConcurrencyGuards, h: Seq<char>)
    requires
        g.wf(),
    ensures
        g.in_flight_for(h) <= g.per_host_capacity_spec(),
        g.in_flight() <= g.global_capacity_spec(),
{
    lemma_count_bounds(g.hosts@, h, g.per_host_capacity);
}

} // verus!
