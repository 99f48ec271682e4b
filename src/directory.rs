//! The remote-service directory: which endpoint provides each fully-qualified
//! method that this hub has heard of, and the discovery session that fills it.

use crate::error::Error;
use crate::message::ServiceInfo;
use crate::naming::{count_dots, qualified_name};
use crate::registry::{contains_name, string_views, ServiceRegistry};
use crate::table::NameTable;
use vstd::prelude::*;

verus! {

/// The directory after learning that `endpoint` provides each of `methods` on
/// the service `name`, in order.
pub open spec fn learned(
    m: Map<Seq<char>, String>,
    name: Seq<char>,
    methods: Seq<Seq<char>>,
    endpoint: String,
) -> Map<Seq<char>, String>
    decreases methods.len(),
{
    if methods.len() == 0 {
        m
    } else {
        learned(m, name, methods.drop_last(), endpoint).insert(
            name + seq!['.'] + methods.last(),
            endpoint,
        )
    }
}

/// The directory after learning each record of `infos`, in order.
pub open spec fn learned_all(m: Map<Seq<char>, String>, infos: Seq<ServiceInfo>) -> Map<Seq<char>, String>
    decreases infos.len(),
{
    if infos.len() == 0 {
        m
    } else {
        let i = infos.last();
        learned(learned_all(m, infos.drop_last()), i.name@, string_views(i.methods@), i.process_name)
    }
}

/// The endpoints that a directory names.
pub open spec fn endpoints_of(m: Map<Seq<char>, String>) -> Set<Seq<char>> {
    Set::new(|e: Seq<char>| exists|k: Seq<char>| m.contains_key(k) && #[trigger] m[k]@ == e)
}

/// The endpoints named under the keys `keys`.
pub open spec fn endpoints_under(m: Map<Seq<char>, String>, keys: Seq<Seq<char>>) -> Set<
    Seq<char>,
> {
    Set::new(|e: Seq<char>| exists|i: int| 0 <= i < keys.len() && #[trigger] m[keys[i]]@ == e)
}

/// Map from fully-qualified method to providing endpoint.
pub struct RemoteDirectory {
    by_method: NameTable<String>,
}

impl View for RemoteDirectory {
    type V = Map<Seq<char>, String>;

    closed spec fn view(&self) -> Map<Seq<char>, String> {
        self.by_method@
    }
}

impl RemoteDirectory {
    pub closed spec fn wf(&self) -> bool {
        self.by_method.wf()
    }

    /// An empty directory.
    pub fn new() -> (r: Self)
        ensures
            r.wf(),
            r@ == Map::<Seq<char>, String>::empty(),
    {
        RemoteDirectory { by_method: NameTable::new() }
    }

    /// Records that `info.process_name` provides each method of `info`.
    /// A later record for the same method replaces an earlier one.
    pub fn learn(&mut self, info: &ServiceInfo)
        requires
            old(self).wf(),
        ensures
            final(self).wf(),
            final(self)@ == learned(
                old(self)@,
                info.name@,
                string_views(info.methods@),
                info.process_name,
            ),
    {
        let ghost start = self@;
        let ghost views = string_views(info.methods@);
        let mut i: usize = 0;
        while i < info.methods.len()
            invariant
                self.wf(),
                i <= info.methods@.len(),
                views == string_views(info.methods@),
                self@ == learned(start, info.name@, views.subrange(0, i as int), info.process_name),
            decreases info.methods@.len() - i,
        {
            let key = qualified_name(info.name.as_str(), info.methods[i].as_str());
            self.by_method.insert(key, info.process_name.clone());
            proof {
                assert(views.subrange(0, i + 1 as int).drop_last() =~= views.subrange(0, i as int));
            }
            i = i + 1;
        }
        proof {
            assert(views.subrange(0, i as int) =~= views);
        }
    }

    /// Records every service of a directory reply.
    pub fn learn_all(&mut self, services: &Vec<ServiceInfo>)
        requires
            old(self).wf(),
        ensures
            final(self).wf(),
            final(self)@ == learned_all(old(self)@, services@),
    {
        let ghost start = self@;
        let mut i: usize = 0;
        while i < services.len()
            invariant
                self.wf(),
                i <= services@.len(),
                self@ == learned_all(start, services@.take(i as int)),
            decreases services@.len() - i,
        {
            self.learn(&services[i]);
            proof {
                assert(services@.take(i + 1 as int).drop_last() =~= services@.take(i as int));
            }
            i = i + 1;
        }
        proof {
            assert(services@.take(i as int) =~= services@);
        }
    }

    /// The endpoint that provides `method`, if known.
    pub fn lookup(&self, method: &str) -> (r: Option<String>)
        requires
            self.wf(),
        ensures
            r.is_some() == self@.contains_key(method@),
            r matches Some(e) ==> e == self@[method@],
    {
        match self.by_method.get(method) {
            Some(e) => Some(e.clone()),
            None => None,
        }
    }

    /// The distinct endpoints that the directory names.
    pub fn known_endpoints(&self) -> (r: Vec<String>)
        requires
            self.wf(),
        ensures
            string_views(r@).to_set() == endpoints_of(self@),
            string_views(r@).no_duplicates(),
    {
        let keys = self.by_method.keys();
        proof {
            self.by_method.lemma_keys();
        }
        let ghost kv = string_views(keys@);
        let mut out: Vec<String> = Vec::new();
        let mut i: usize = 0;
        while i < keys.len()
            invariant
                self.wf(),
                kv == string_views(keys@),
                kv == self.by_method.key_seq(),
                kv.to_set() == self@.dom(),
                i <= keys@.len(),
                string_views(out@).to_set() == endpoints_under(self@, kv.subrange(0, i as int)),
                string_views(out@).no_duplicates(),
            decreases keys@.len() - i,
        {
            proof {
                assert(kv[i as int] == keys@[i as int]@);
                assert(self@.contains_key(kv[i as int])) by {
                    assert(kv.to_set().contains(kv[i as int]));
                }
            }
            let endpoint = match self.by_method.get(keys[i].as_str()) {
                Some(e) => e.clone(),
                None => {
                    assert(false);
                    String::new()
                },
            };
            let ghost prev = out@;
            let ghost before = endpoints_under(self@, kv.subrange(0, i as int));
            let ghost after = endpoints_under(self@, kv.subrange(0, i + 1 as int));
            proof {
                assert(after =~= before.insert(endpoint@)) by {
                    assert forall|e: Seq<char>| after.contains(e) implies before.insert(
                        endpoint@,
                    ).contains(e) by {
                        let j = choose|j: int|
                            0 <= j < i + 1 && #[trigger] self@[kv.subrange(0, i + 1 as int)[j]]@
                                == e;
                        if j < i {
                            assert(kv.subrange(0, i as int)[j] == kv.subrange(0, i + 1 as int)[j]);
                        }
                    }
                    assert forall|e: Seq<char>| before.insert(endpoint@).contains(e) implies after.contains(
                        e,
                    ) by {
                        if e == endpoint@ {
                            assert(kv.subrange(0, i + 1 as int)[i as int] == kv[i as int]);
                            assert(self@[kv.subrange(0, i + 1 as int)[i as int]]@ == e);
                        } else {
                            let j = choose|j: int|
                                0 <= j < i && #[trigger] self@[kv.subrange(0, i as int)[j]]@ == e;
                            assert(kv.subrange(0, i as int)[j] == kv.subrange(0, i + 1 as int)[j]);
                            assert(self@[kv.subrange(0, i + 1 as int)[j]]@ == e);
                        }
                    }
                }
            }
            if !contains_name(&out, endpoint.as_str()) {
                out.push(endpoint);
                proof {
                    assert(string_views(out@) =~= string_views(prev).push(endpoint@));
                    string_views(prev).lemma_push_to_set_commute(endpoint@);
                    assert forall|a: int, b: int|
                        0 <= a < string_views(out@).len() && 0 <= b < string_views(out@).len()
                            && a != b implies string_views(out@)[a] != string_views(out@)[b] by {
                        if a == prev.len() {
                            assert(!string_views(prev).contains(endpoint@));
                            assert(string_views(out@)[b] == string_views(prev)[b]);
                        } else if b == prev.len() {
                            assert(!string_views(prev).contains(endpoint@));
                            assert(string_views(out@)[a] == string_views(prev)[a]);
                        } else {
                            assert(string_views(out@)[a] == string_views(prev)[a]);
                            assert(string_views(out@)[b] == string_views(prev)[b]);
                        }
                    }
                }
            } else {
                proof {
                    assert(string_views(out@).to_set().contains(endpoint@));
                    assert(string_views(out@).to_set() =~= string_views(out@).to_set().insert(
                        endpoint@,
                    ));
                }
            }
            i = i + 1;
        }
        proof {
            assert(kv.subrange(0, i as int) =~= kv);
            assert(endpoints_under(self@, kv) =~= endpoints_of(self@)) by {
                assert forall|e: Seq<char>| endpoints_of(self@).contains(e) implies endpoints_under(
                    self@,
                    kv,
                ).contains(e) by {
                    let k = choose|k: Seq<char>| self@.contains_key(k) && #[trigger] self@[k]@ == e;
                    assert(kv.to_set().contains(k));
                    let j = choose|j: int| 0 <= j < kv.len() && kv[j] == k;
                    assert(self@[kv[j]]@ == e);
                }
                assert forall|e: Seq<char>| endpoints_under(self@, kv).contains(e) implies endpoints_of(
                    self@,
                ).contains(e) by {
                    let j = choose|j: int| 0 <= j < kv.len() && #[trigger] self@[kv[j]]@ == e;
                    assert(kv.to_set().contains(kv[j]));
                    assert(self@.contains_key(kv[j]));
                }
            }
        }
        out
    }
}

/// What a discovery session asks of the runtime next.
#[derive(Debug)]
pub enum DiscoveryStep {
    /// The method's provider is known.
    Found(String),
    /// Broadcast a service query, wait this long, then step again.
    Query { wait_ms: u64 },
    /// Every attempt is spent.
    Fail(Error),
}

/// The first discovery wait, in milliseconds.
pub const DISCOVERY_BASE_MS: u64 = 500;

/// How long a discovery attempt waits for directory replies: exponential
/// backoff from half a second, capped.
pub open spec fn discovery_wait(attempt: u32) -> u64 {
    crate::retry::backoff(DISCOVERY_BASE_MS, attempt)
}

/// A discovery failure for `method` that lists each endpoint of `dir` once.
pub open spec fn fails_listing(r: DiscoveryStep, method: Seq<char>, dir: Map<Seq<char>, String>) -> bool {
    match r {
        DiscoveryStep::Fail(Error::ServiceDiscovery { method: m, endpoints, .. }) => m@ == method
            && string_views(endpoints@).to_set() == endpoints_of(dir)
            && string_views(endpoints@).no_duplicates(),
        _ => false,
    }
}

/// Finding the endpoint that provides a method, with a bounded number of
/// queries.
pub struct Discovery {
    pub method: String,
    pub attempt: u32,
    pub max_attempts: u32,
}

impl Discovery {
    /// A session for `method` that may query `max_attempts` times.
    pub fn new(method: String, max_attempts: u32) -> (r: Discovery)
        ensures
            r.method == method,
            r.attempt == 0,
            r.max_attempts == max_attempts,
    {
        Discovery { method, attempt: 0, max_attempts }
    }

    /// Consults `dir`: the provider if known; else another query while
    /// attempts remain; else a discovery error listing the endpoints known.
    pub fn step(&mut self, dir: &RemoteDirectory) -> (r: DiscoveryStep)
        requires
            dir.wf(),
            old(self).attempt <= old(self).max_attempts,
        ensures
            final(self).method == old(self).method,
            final(self).max_attempts == old(self).max_attempts,
            final(self).attempt <= final(self).max_attempts,
            dir@.contains_key(old(self).method@) ==> r == DiscoveryStep::Found(
                dir@[old(self).method@],
            ) && final(self).attempt == old(self).attempt,
            !dir@.contains_key(old(self).method@) && old(self).attempt < old(self).max_attempts
                ==> r == (DiscoveryStep::Query { wait_ms: discovery_wait(old(self).attempt) })
                && final(self).attempt == old(self).attempt + 1,
            !dir@.contains_key(old(self).method@) && old(self).attempt == old(self).max_attempts
                ==> final(self).attempt == old(self).attempt && fails_listing(
                r,
                old(self).method@,
                dir@,
            ),
    {
        match dir.lookup(self.method.as_str()) {
            Some(e) => DiscoveryStep::Found(e),
            None => {
                if self.attempt < self.max_attempts {
                    let wait_ms = crate::retry::backoff_delay(DISCOVERY_BASE_MS, self.attempt);
                    self.attempt = self.attempt + 1;
                    DiscoveryStep::Query { wait_ms }
                } else {
                    DiscoveryStep::Fail(
                        Error::service_discovery(
                            "No server found providing method",
                            self.method.as_str(),
                            dir.known_endpoints(),
                        ),
                    )
                }
            },
        }
    }
}

/// Discovery waits never shrink from one attempt to the next.
pub proof fn lemma_discovery_wait_monotonic(a: u32, b: u32)
    requires
        a <= b,
    ensures
        discovery_wait(a) <= discovery_wait(b),
{
    crate::retry::lemma_backoff_monotonic(DISCOVERY_BASE_MS, a, b);
}

/// With no responders on the bus and no queries allowed, discovery fails at
/// once, listing no endpoint.
pub proof fn lemma_discovery_without_responders(m: Map<Seq<char>, String>)
    requires
        m == Map::<Seq<char>, String>::empty(),
    ensures
        endpoints_of(m) == Set::<Seq<char>>::empty(),
{
    assert(endpoints_of(m) =~= Set::<Seq<char>>::empty());
}

/// Where a call is sent.
#[derive(Debug)]
pub enum CallRoute {
    /// A local service handles it.
    Local,
    /// The directory names the endpoint that provides it.
    Remote(String),
    /// Nobody is known to provide it: discover first.
    Discover,
    /// The name is not `"{service}.{method}"`: the call fails with this
    /// error, and nothing is sent.
    Invalid(Error),
}

/// The call policy: a malformed name is refused at once; then a local
/// service, then the directory, then discovery.
pub open spec fn routes(
    reg: Map<Seq<char>, Vec<String>>,
    dir: Map<Seq<char>, String>,
    method: Seq<char>,
    r: CallRoute,
) -> bool {
    if count_dots(method) != 1 {
        r matches CallRoute::Invalid(Error::InvalidRequest { .. })
    } else if exists|a: Seq<char>, b: Seq<char>| crate::registry::resolves(reg, method, a, b) {
        r == CallRoute::Local
    } else if dir.contains_key(method) {
        r == CallRoute::Remote(dir[method])
    } else {
        r == CallRoute::Discover
    }
}

/// Where a call of `method` goes, by the call policy.
pub fn route_call(registry: &ServiceRegistry, dir: &RemoteDirectory, method: &str) -> (r:
    CallRoute)
    requires
        registry.wf(),
        dir.wf(),
    ensures
        routes(registry@, dir@, method@, r),
{
    match crate::naming::parse_method(method) {
        Err(e) => {
            return CallRoute::Invalid(e);
        },
        Ok(_) => {},
    }
    match registry.resolve(method) {
        Ok(_) => CallRoute::Local,
        Err(_) => {
            match dir.lookup(method) {
                Some(e) => CallRoute::Remote(e),
                None => CallRoute::Discover,
            }
        },
    }
}

} // verus!
