//! Observed contract of the outbound-HTTP capability: a request attempted by
//! the guest passes only when its origin is on the configured allowlist
//! and the number of in-flight requests is below the configured ceiling.
//! Absence of an allowlist is deny-all, not allow-all.

use vstd::prelude::*;

verus! {

/// The fate of one outbound request at the moment the guest attempts it.
#[derive(Clone, Copy, PartialEq, Eq, Structural, Debug)]
pub enum RequestDecision {
    /// The origin is allowed and capacity is available; the request proceeds
    /// to external execution.
    Allowed,
    /// The origin is not a member of the allowlist, or no allowlist holds it.
    DeniedByAllowlist,
    /// The origin is allowed, but the configured ceiling of concurrently
    /// in-flight requests is already reached.
    ThrottledByCapacity,
}

/// Acceptance-control state of the HTTP capability for one guest instance:
/// the recorded allowlist, the concurrency ceiling, and the count of
/// requests let through but not yet settled.
pub struct HttpCapability {
    pub allowed_hosts: Option<Vec<String>>,
    pub max_concurrency: Option<u32>,
    pub in_flight: u64,
}

impl HttpCapability {
    /// The recorded allowlist: `None` means none was configured.
    pub open spec fn hosts(self) -> Option<Seq<Seq<char>>> {
        match self.allowed_hosts {
            None => None,
            Some(v) => Some(v@.map_values(|s: String| s@)),
        }
    }

    /// The recorded concurrency ceiling: `None` means unbounded.
    pub open spec fn ceiling(self) -> Option<u32> {
        self.max_concurrency
    }

    /// How many requests are accepted and not yet settled.
    pub open spec fn in_flight(self) -> nat {
        self.in_flight as nat
    }

    /// The one invariant of the shared counter: it never exceeds the ceiling.
    pub open spec fn wf(self) -> bool {
        match self.max_concurrency {
            None => true,
            Some(k) => self.in_flight <= k,
        }
    }

    /// An origin is allowed exactly when an allowlist was configured and the
    /// origin is one of its members. No allowlist at all, or an empty one,
    /// allows nothing: the default fails closed.
    pub open spec fn origin_allowed(self, origin: Seq<char>) -> bool {
        match self.hosts() {
            None => false,
            Some(hs) => hs.contains(origin),
        }
    }

    /// Capacity is available when the configured ceiling is not yet reached;
    /// with no ceiling configured, only the counter's own machine width
    /// bounds it.
    pub open spec fn has_capacity(self) -> bool {
        match self.max_concurrency {
            None => self.in_flight < u64::MAX,
            Some(k) => self.in_flight < k,
        }
    }

    /// Record the configuration; nothing is validated about the host strings
    /// themselves, and no request is in flight yet.
    pub fn new(allowed_hosts: Option<Vec<String>>, max_concurrency: Option<u32>) -> (c: Self)
        ensures
            c.hosts() == (match allowed_hosts {
                None => None::<Seq<Seq<char>>>,
                Some(v) => Some(v@.map_values(|s: String| s@)),
            }),
            c.ceiling() == max_concurrency,
            c.in_flight() == 0,
            c.wf(),
    {
        HttpCapability { allowed_hosts, max_concurrency, in_flight: 0 }
    }

    /// Whether `origin` is a member of the configured allowlist.
    pub fn is_allowed(&self, origin: &String) -> (r: bool)
        ensures
            r == self.origin_allowed(origin@),
    {
        match &self.allowed_hosts {
            None => false,
            Some(hosts) => {
                let n = hosts.len();
                let mut i: usize = 0;
                while i < n
                    invariant
                        n == hosts.len(),
                        i <= n,
                        self.allowed_hosts == Some(*hosts),
                        forall|j: int| 0 <= j < i ==> hosts@[j]@ != origin@,
                    decreases n - i,
                {
                    if hosts[i].eq(origin) {
                        assert(self.hosts().unwrap()[i as int] == origin@);
                        return true;
                    }
                    i += 1;
                }
                assert forall|j: int| 0 <= j < self.hosts().unwrap().len()
                    implies self.hosts().unwrap()[j] != origin@ by {
                    assert(self.hosts().unwrap()[j] == hosts@[j]@);
                }
                false
            },
        }
    }

    /// Decide one attempted request. Denial by allowlist is checked first, so
    /// a forbidden origin is denied even when no capacity is left; an allowed
    /// origin with the ceiling reached is throttled, never accepted. Only an
    /// accepted request raises the in-flight count.
    pub fn decide(&mut self, origin: &String) -> (d: RequestDecision)
        requires
            old(self).wf(),
        ensures
            final(self).wf(),
            final(self).hosts() == old(self).hosts(),
            final(self).ceiling() == old(self).ceiling(),
            (d == RequestDecision::Allowed) <==> (old(self).origin_allowed(origin@)
                && old(self).has_capacity()),
            (d == RequestDecision::DeniedByAllowlist) <==> !old(self).origin_allowed(origin@),
            (d == RequestDecision::ThrottledByCapacity) <==> (old(self).origin_allowed(origin@)
                && !old(self).has_capacity()),
            d == RequestDecision::Allowed ==> final(self).in_flight() == old(self).in_flight()
                + 1,
            d != RequestDecision::Allowed ==> final(self).in_flight() == old(self).in_flight(),
    {
        if !self.is_allowed(origin) {
            RequestDecision::DeniedByAllowlist
        } else {
            let capacity = match self.max_concurrency {
                None => self.in_flight < u64::MAX,
                Some(k) => self.in_flight < k as u64,
            };
            if capacity {
                self.in_flight = self.in_flight + 1;
                RequestDecision::Allowed
            } else {
                RequestDecision::ThrottledByCapacity
            }
        }
    }

    /// Settle one accepted request, on its completion or failure: the
    /// in-flight count drops by one.
    pub fn settle(&mut self)
        requires
            old(self).wf(),
            old(self).in_flight() > 0,
        ensures
            final(self).wf(),
            final(self).hosts() == old(self).hosts(),
            final(self).ceiling() == old(self).ceiling(),
            final(self).in_flight() == old(self).in_flight() - 1,
    {
        self.in_flight = self.in_flight - 1;
    }

    /// Read the count of accepted, unsettled requests.
    pub fn current_in_flight(&self) -> (n: u64)
        ensures
            n as nat == self.in_flight(),
    {
        self.in_flight
    }
}

/// Law: with no allowlist configured, or an empty one, no origin whatsoever
/// is allowed, so every attempted request is denied by the allowlist.
pub proof fn lemma_deny_all(c: HttpCapability, origin: Seq<char>)
    requires
        c.hosts() is None || c.hosts() == Some(Seq::<Seq<char>>::empty()),
    ensures
        !c.origin_allowed(origin),
{
    if c.hosts() is Some {
        let hs = c.hosts().unwrap();
        assert(hs.len() == 0);
        assert(!hs.contains(origin));
    }
}

/// Law: with a nonempty allowlist `S`, an origin in `S` is allowed and, given
/// capacity, accepted; an origin outside `S` is never allowed.
pub proof fn lemma_allowlist_exact(c: HttpCapability, hs: Seq<Seq<char>>, origin: Seq<char>)
    requires
        c.hosts() == Some(hs),
    ensures
        hs.contains(origin) ==> c.origin_allowed(origin),
        !hs.contains(origin) ==> !c.origin_allowed(origin),
{
}

/// Law: with a ceiling of `k`, a well-formed state never holds more than `k`
/// in-flight requests, and once `k` are in flight no further request has
/// capacity: the `(k + 1)`-th concurrent request can only be throttled or
/// denied, never accepted.
pub proof fn lemma_ceiling_never_exceeded(c: HttpCapability, k: u32)
    requires
        c.wf(),
        c.ceiling() == Some(k),
    ensures
        c.in_flight() <= k,
        c.in_flight() == k ==> !c.has_capacity(),
{
}

} // verus!
