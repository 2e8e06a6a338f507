//! Server configuration: the routing table, path aliases and the environment
//! kind a server runs its handlers under.

use vstd::prelude::*;

use crate::dispatch::RpcEnvironmentType;
use crate::docs::spec_join;
use crate::method::ApiMethod;
use crate::strutil::push_char;

verus! {

/// A request method verb.
#[derive(Clone, Copy, Debug, PartialEq, Eq, Structural)]
pub enum HttpMethod {
    /// Read a resource.
    Get,
    /// Replace a resource.
    Put,
    /// Create a resource or invoke an action.
    Post,
    /// Remove a resource.
    Delete,
}

/// One registered route: a verb, a path, and the compiled method it leads to.
pub struct Route {
    /// The verb the route answers.
    pub method: HttpMethod,
    /// The path, as its components.
    pub path: Vec<String>,
    /// The compiled method contract.
    pub api: ApiMethod,
}

/// The routing table: the registered routes, in registration order.
pub struct Router {
    /// The registered routes.
    pub routes: Vec<Route>,
}

/// Whether a route answers the given components and verb.
pub open spec fn spec_route_matches(route: Route, components: Seq<String>, method: HttpMethod) -> bool {
    &&& route.method == method
    &&& route.path@.len() == components.len()
    &&& forall|i: int|
        0 <= i < components.len() ==> (#[trigger] route.path@[i])@ == (#[trigger] components[i])@
}

/// The server configuration.
pub struct ApiConfig {
    basedir: String,
    router: Router,
    aliases: Vec<(String, String)>,
    env_type: RpcEnvironmentType,
}

impl ApiConfig {
    /// The directory file paths are resolved under.
    pub closed spec fn spec_basedir(self) -> Seq<char> {
        self.basedir@
    }

    /// The registered routes.
    pub closed spec fn spec_routes(self) -> Seq<Route> {
        self.router.routes@
    }

    /// The registered aliases, in registration order.
    pub closed spec fn spec_aliases(self) -> Seq<(String, String)> {
        self.aliases@
    }

    /// The environment kind.
    pub closed spec fn spec_env_type(self) -> RpcEnvironmentType {
        self.env_type
    }

    /// A configuration with no aliases.
    pub fn new(basedir: String, router: Router, env_type: RpcEnvironmentType) -> (r: ApiConfig)
        ensures
            r.spec_basedir() == basedir@,
            r.spec_routes() == router.routes@,
            r.spec_aliases() == Seq::<(String, String)>::empty(),
            r.spec_env_type() == env_type,
    {
        ApiConfig { basedir, router, aliases: Vec::new(), env_type }
    }

    /// The compiled method of the first route answering the given components
    /// and verb, if any.
    pub fn find_method(&self, components: &Vec<String>, method: HttpMethod) -> (r: Option<
        &ApiMethod,
    >)
        ensures
            match r {
                Some(m) => exists|i: int|
                    {
                        &&& 0 <= i < self.spec_routes().len()
                        &&& spec_route_matches(#[trigger] self.spec_routes()[i], components@, method)
                        &&& *m == self.spec_routes()[i].api
                    },
                None => forall|i: int|
                    0 <= i < self.spec_routes().len() ==> !spec_route_matches(
                        #[trigger] self.spec_routes()[i],
                        components@,
                        method,
                    ),
            },
    {
        let mut i: usize = 0;
        while i < self.router.routes.len()
            invariant
                i <= self.router.routes@.len(),
                forall|k: int|
                    0 <= k < i ==> !spec_route_matches(
                        #[trigger] self.router.routes@[k],
                        components@,
                        method,
                    ),
            decreases self.router.routes@.len() - i,
        {
            let route = &self.router.routes[i];
            if route.method == method && path_eq(&route.path, components) {
                proof {
                    assert(spec_route_matches(self.spec_routes()[i as int], components@, method));
                }
                return Some(&route.api);
            }
            i += 1;
        }
        None
    }

    /// The file path the components name: the base directory, then, when the
    /// first component has an alias, the alias target in its place, then the
    /// remaining components, all joined by slashes.
    #[verifier::loop_isolation(false)]
    pub fn find_alias(&self, components: &Vec<String>) -> (r: String)
        ensures
            components@.len() == 0 ==> r@ == self.spec_basedir(),
            components@.len() >= 1 ==> match spec_alias_find(self.spec_aliases(), components@[0]@) {
                Some(t) => r@ == self.spec_basedir() + seq!['/'] + self.spec_aliases()[t].1@ + (
                if components@.len() > 1 {
                    seq!['/'] + spec_join(
                        components@.subrange(1, components@.len() as int),
                        components@.len() - 1,
                        '/',
                    )
                } else {
                    Seq::empty()
                }),
                None => r@ == self.spec_basedir() + seq!['/'] + spec_join(
                    components@.subrange(0, components@.len() as int),
                    components@.len() as int,
                    '/',
                ),
            },
    {
        let mut filename = self.basedir.clone();
        if components.len() >= 1 {
            push_char(&mut filename, '/');
            match alias_find(&self.aliases, &components[0]) {
                Some(t) => {
                    filename.append(self.aliases[t].1.as_str());
                    if components.len() > 1 {
                        push_char(&mut filename, '/');
                        crate::docs::join_onto(&mut filename, components, 1, components.len(), '/');
                    }
                },
                None => {
                    crate::docs::join_onto(&mut filename, components, 0, components.len(), '/');
                },
            }
            proof {
                assert(self.spec_basedir().push('/') =~= self.spec_basedir() + seq!['/']);
                assert((self.spec_basedir() + seq!['/']).push('/') =~= self.spec_basedir() + seq![
                    '/',
                    '/',
                ]);
            }
        }
        filename
    }

    /// Register an alias for a first path component: a later registration
    /// under the same name replaces the earlier target.
    pub fn add_alias(&mut self, alias: String, path: String)
        ensures
            final(self).spec_basedir() == old(self).spec_basedir(),
            final(self).spec_routes() == old(self).spec_routes(),
            final(self).spec_env_type() == old(self).spec_env_type(),
            match spec_alias_find(old(self).spec_aliases(), alias@) {
                Some(t) => final(self).spec_aliases() == old(self).spec_aliases().update(
                    t,
                    (alias, path),
                ),
                None => final(self).spec_aliases() == old(self).spec_aliases().push(
                    (alias, path),
                ),
            },
    {
        let mut i: usize = 0;
        while i < self.aliases.len()
            invariant
                i <= self.aliases@.len(),
                *self == *old(self),
                forall|k: int| 0 <= k < i ==> (#[trigger] self.aliases@[k]).0@ != alias@,
            decreases self.aliases@.len() - i,
        {
            if self.aliases[i].0.eq(&alias) {
                proof {
                    lemma_alias_find_at(self.aliases@, alias@, i as int);
                }
                self.aliases[i] = (alias, path);
                return ;
            }
            i += 1;
        }
        self.aliases.push((alias, path));
    }

    /// The environment kind handlers run under.
    pub fn env_type(&self) -> (r: RpcEnvironmentType)
        ensures
            r == self.spec_env_type(),
    {
        self.env_type
    }
}

/// Whether two paths hold the same components.
fn path_eq(a: &Vec<String>, b: &Vec<String>) -> (r: bool)
    ensures
        r == (a@.len() == b@.len() && (forall|i: int|
            0 <= i < b@.len() ==> (#[trigger] a@[i])@ == (#[trigger] b@[i])@)),
{
    if a.len() != b.len() {
        return false;
    }
    let mut i: usize = 0;
    while i < a.len()
        invariant
            i <= a@.len(),
            a@.len() == b@.len(),
            forall|k: int| 0 <= k < i ==> (#[trigger] a@[k])@ == (#[trigger] b@[k])@,
        decreases a@.len() - i,
    {
        if !a[i].eq(&b[i]) {
            return false;
        }
        i += 1;
    }
    true
}

/// The first alias entry under a name, if any, by index.
pub open spec fn spec_alias_find(aliases: Seq<(String, String)>, name: Seq<char>) -> Option<int> {
    if exists|t: int| 0 <= t < aliases.len() && (#[trigger] aliases[t]).0@ == name {
        Some(
            choose|t: int|
                0 <= t < aliases.len() && (#[trigger] aliases[t]).0@ == name && forall|k: int|
                    0 <= k < t ==> (#[trigger] aliases[k]).0@ != name,
        )
    } else {
        None
    }
}

/// The first index whose alias name matches is the one the search names.
proof fn lemma_alias_find_at(aliases: Seq<(String, String)>, name: Seq<char>, t: int)
    requires
        0 <= t < aliases.len(),
        aliases[t].0@ == name,
        forall|k: int| 0 <= k < t ==> (#[trigger] aliases[k]).0@ != name,
    ensures
        spec_alias_find(aliases, name) == Some(t),
{
    assert(exists|u: int| 0 <= u < aliases.len() && (#[trigger] aliases[u]).0@ == name);
    let w = choose|u: int|
        0 <= u < aliases.len() && (#[trigger] aliases[u]).0@ == name && forall|k: int|
            0 <= k < u ==> (#[trigger] aliases[k]).0@ != name;
    assert(0 <= w < aliases.len() && aliases[w].0@ == name);
    if w < t {
        assert(aliases[w].0@ != name);
    } else if w > t {
        assert(aliases[t].0@ != name);
    }
}

/// Index of the first alias entry under a name, if any.
fn alias_find(aliases: &Vec<(String, String)>, name: &String) -> (r: Option<usize>)
    ensures
        match r {
            Some(t) => spec_alias_find(aliases@, name@) == Some(t as int) && t < aliases@.len(),
            None => spec_alias_find(aliases@, name@) is None,
        },
{
    let mut i: usize = 0;
    while i < aliases.len()
        invariant
            i <= aliases@.len(),
            forall|k: int| 0 <= k < i ==> (#[trigger] aliases@[k]).0@ != name@,
        decreases aliases@.len() - i,
    {
        if aliases[i].0.eq(name) {
            proof {
                lemma_alias_find_at(aliases@, name@, i as int);
            }
            return Some(i);
        }
        i += 1;
    }
    None
}

} // verus!
