//! The local service registry: which services this hub offers, and which
//! methods each declares. Calls are resolved here; the handler objects
//! themselves are held by the runtime under the same names.

use crate::error::Error;
use crate::naming::{count_dots, parse_method, splits_as};
use crate::table::{str_equal, NameTable};
use vstd::prelude::*;

verus! {

/// The views of a list of strings.
pub open spec fn string_views(v: Seq<String>) -> Seq<Seq<char>> {
    v.map_values(|s: String| s@)
}

/// Copies a list of strings.
pub fn copy_strings(v: &Vec<String>) -> (r: Vec<String>)
    ensures
        r@ == v@,
{
    let mut out: Vec<String> = Vec::new();
    let mut i: usize = 0;
    while i < v.len()
        invariant
            i <= v@.len(),
            out@ == v@.subrange(0, i as int),
        decreases v@.len() - i,
    {
        out.push(v[i].clone());
        i = i + 1;
        proof {
            assert(out@ =~= v@.subrange(0, i as int));
        }
    }
    assert(out@ =~= v@);
    out
}

/// Whether `name` is among `names`.
pub fn contains_name(names: &Vec<String>, name: &str) -> (r: bool)
    ensures
        r == string_views(names@).contains(name@),
{
    let mut i: usize = 0;
    while i < names.len()
        invariant
            i <= names@.len(),
            forall|j: int| 0 <= j < i ==> names@[j]@ != name@,
        decreases names@.len() - i,
    {
        if str_equal(names[i].as_str(), name) {
            assert(string_views(names@)[i as int] == name@);
            return true;
        }
        i = i + 1;
    }
    proof {
        if string_views(names@).contains(name@) {
            let j = choose|j: int| 0 <= j < names@.len() && string_views(names@)[j] == name@;
            assert(names@[j]@ != name@);
        }
    }
    false
}

/// The services of this hub, by name, with the methods each declares.
pub struct ServiceRegistry {
    services: NameTable<Vec<String>>,
}

/// A resolved call `"{service}.{method}"` on a registry: it is well formed,
/// the service is registered, and it declares the method.
pub open spec fn resolves(
    reg: Map<Seq<char>, Vec<String>>,
    s: Seq<char>,
    service: Seq<char>,
    method: Seq<char>,
) -> bool {
    &&& splits_as(s, service, method)
    &&& reg.contains_key(service)
    &&& string_views(reg[service]@).contains(method)
}

/// The error with which resolving `s` on `reg` fails: a malformed name, an
/// unknown service, or a method the service does not declare.
pub open spec fn resolve_error(reg: Map<Seq<char>, Vec<String>>, s: Seq<char>, e: Error) -> bool {
    match e {
        Error::InvalidRequest { message, context } => count_dots(s) != 1 && context is None
            && message@ == "Invalid service.method format"@,
        Error::ServiceNotFound { name } => splits_as(
            s,
            name@,
            s.subrange(name@.len() as int + 1, s.len() as int),
        ) && !reg.contains_key(name@),
        Error::MethodNotFound { service, method } => splits_as(s, service@, method@)
            && reg.contains_key(service@) && !string_views(reg[service@]@).contains(method@),
        _ => false,
    }
}

impl View for ServiceRegistry {
    type V = Map<Seq<char>, Vec<String>>;

    closed spec fn view(&self) -> Map<Seq<char>, Vec<String>> {
        self.services@
    }
}

impl ServiceRegistry {
    pub closed spec fn wf(&self) -> bool {
        self.services.wf()
    }

    /// An empty registry.
    pub fn new() -> (r: Self)
        ensures
            r.wf(),
            r@ == Map::<Seq<char>, Vec<String>>::empty(),
    {
        ServiceRegistry { services: NameTable::new() }
    }

    /// Registers the service `name` with its declared methods, replacing any
    /// service of that name.
    pub fn register(&mut self, name: String, methods: Vec<String>)
        requires
            old(self).wf(),
        ensures
            final(self).wf(),
            final(self)@ == old(self)@.insert(name@, methods),
    {
        self.services.insert(name, methods);
    }

    /// The methods that the service `name` declares, if it is registered.
    pub fn get_service(&self, name: &str) -> (r: Option<&Vec<String>>)
        requires
            self.wf(),
        ensures
            r.is_some() == self@.contains_key(name@),
            r matches Some(m) ==> *m == self@[name@],
    {
        self.services.get(name)
    }

    /// The names of the registered services, each once.
    pub fn list_services(&self) -> (r: Vec<String>)
        requires
            self.wf(),
        ensures
            string_views(r@).to_set() == self@.dom(),
            string_views(r@).no_duplicates(),
    {
        proof {
            self.services.lemma_keys();
        }
        self.services.keys()
    }

    /// Each listed name is a registered service, and every one is listed.
    pub proof fn lemma_names(&self, names: Seq<String>)
        requires
            self.wf(),
            string_views(names).to_set() == self@.dom(),
            string_views(names).no_duplicates(),
        ensures
            names.len() == self@.len(),
            forall|j: int| 0 <= j < names.len() ==> self@.contains_key(#[trigger] names[j]@),
    {
        self.services.lemma_keys();
        string_views(names).unique_seq_to_set();
        assert forall|j: int| 0 <= j < names.len() implies self@.contains_key(#[trigger] names[j]@) by {
            assert(string_views(names)[j] == names[j]@);
            assert(string_views(names).to_set().contains(names[j]@));
        }
    }

    /// Resolves `"{service}.{method}"` to a registered service and one of its
    /// declared methods.
    pub fn resolve(&self, service_method: &str) -> (r: Result<(String, String), Error>)
        requires
            self.wf(),
        ensures
            r matches Ok((a, b)) ==> resolves(self@, service_method@, a@, b@),
            r matches Err(Error::InvalidRequest { .. }) ==> count_dots(service_method@) != 1,
            r matches Err(Error::ServiceNotFound { name }) ==> splits_as(
                service_method@,
                name@,
                service_method@.subrange(name@.len() as int + 1, service_method@.len() as int),
            ) && !self@.contains_key(name@),
            r matches Err(Error::MethodNotFound { service, method }) ==> splits_as(
                service_method@,
                service@,
                method@,
            ) && self@.contains_key(service@) && !string_views(self@[service@]@).contains(
                method@,
            ),
            r.is_ok() == (exists|a: Seq<char>, b: Seq<char>| resolves(self@, service_method@, a, b)),
            r is Err ==> (r matches Err(Error::InvalidRequest { .. }) || r matches Err(
                Error::ServiceNotFound { .. },
            ) || r matches Err(Error::MethodNotFound { .. })),
            r matches Err(e) ==> resolve_error(self@, service_method@, e),
    {
        let parsed = parse_method(service_method);
        let (service, method) = match parsed {
            Ok(parts) => parts,
            Err(_) => {
                assert(count_dots(service_method@) != 1);
                proof {
                    assert forall|a: Seq<char>, b: Seq<char>| !resolves(self@, service_method@, a, b) by {
                        if resolves(self@, service_method@, a, b) {
                            crate::naming::lemma_splits_iff_one_dot(service_method@, a, b);
                        }
                    }
                }
                return Err(Error::invalid_request("Invalid service.method format", None));
            },
        };
        match self.services.get(service.as_str()) {
            None => {
                assert(splits_as(service_method@, service@, method@));
                assert(method@ =~= service_method@.subrange(
                    service@.len() as int + 1,
                    service_method@.len() as int,
                ));
                proof {
                    assert forall|a: Seq<char>, b: Seq<char>| !resolves(self@, service_method@, a, b) by {
                        if resolves(self@, service_method@, a, b) {
                            lemma_split_unique(service_method@, a, b, service@, method@);
                        }
                    }
                }
                Err(Error::ServiceNotFound { name: service })
            },
            Some(methods) => {
                if contains_name(methods, method.as_str()) {
                    assert(splits_as(service_method@, service@, method@));
                    assert(self@.contains_key(service@));
                    assert(string_views(self@[service@]@).contains(method@));
                    assert(resolves(self@, service_method@, service@, method@));
                    Ok((service, method))
                } else {
                    assert(splits_as(service_method@, service@, method@));
                    assert(!string_views(self@[service@]@).contains(method@));
                    proof {
                        assert forall|a: Seq<char>, b: Seq<char>| !resolves(self@, service_method@, a, b) by {
                            if resolves(self@, service_method@, a, b) {
                                lemma_split_unique(service_method@, a, b, service@, method@);
                            }
                        }
                    }
                    Err(Error::MethodNotFound { service, method })
                }
            },
        }
    }
}

/// A name without dots has none at any position.
pub proof fn lemma_no_dot_at(s: Seq<char>, i: int)
    requires
        count_dots(s) == 0,
        0 <= i < s.len(),
    ensures
        s[i] != '.',
    decreases s.len(),
{
    if i < s.len() - 1 {
        assert(s.drop_last()[i] == s[i]);
        lemma_no_dot_at(s.drop_last(), i);
    }
}

/// A fully-qualified name splits in one way only.
pub proof fn lemma_split_unique(s: Seq<char>, a1: Seq<char>, b1: Seq<char>, a2: Seq<char>, b2: Seq<char>)
    requires
        splits_as(s, a1, b1),
        splits_as(s, a2, b2),
    ensures
        a1 == a2,
        b1 == b2,
{
    if a1.len() < a2.len() {
        assert(s[a1.len() as int] == '.');
        assert(s[a1.len() as int] == a2[a1.len() as int]);
        lemma_no_dot_at(a2, a1.len() as int);
    } else if a2.len() < a1.len() {
        assert(s[a2.len() as int] == '.');
        assert(s[a2.len() as int] == a1[a2.len() as int]);
        lemma_no_dot_at(a1, a2.len() as int);
    } else {
        assert(a1 =~= s.subrange(0, a1.len() as int));
        assert(a2 =~= s.subrange(0, a2.len() as int));
        assert(b1 =~= s.subrange(a1.len() as int + 1, s.len() as int));
        assert(b2 =~= s.subrange(a2.len() as int + 1, s.len() as int));
    }
}

/// Registering a service and then calling one of its declared methods by its
/// fully-qualified name resolves to exactly that service and method, and the
/// registry then lists the service with the methods it declared.
pub proof fn lemma_register_then_query(
    reg: Map<Seq<char>, Vec<String>>,
    name: Seq<char>,
    methods: Vec<String>,
    method: Seq<char>,
)
    requires
        count_dots(name) == 0,
        count_dots(method) == 0,
        string_views(methods@).contains(method),
    ensures
        reg.insert(name, methods).contains_key(name),
        reg.insert(name, methods)[name] == methods,
        resolves(reg.insert(name, methods), name + seq!['.'] + method, name, method),
        forall|a: Seq<char>, b: Seq<char>|
            resolves(reg.insert(name, methods), name + seq!['.'] + method, a, b) ==> a == name
                && b == method,
{
    let s = name + seq!['.'] + method;
    assert forall|a: Seq<char>, b: Seq<char>|
        resolves(reg.insert(name, methods), s, a, b) implies a == name && b == method by {
        lemma_split_unique(s, a, b, name, method);
    }
}

} // verus!
