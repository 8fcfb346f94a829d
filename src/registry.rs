//! The configured service instances and the choice of the one to act upon.
use vstd::prelude::*;
use crate::error::Error;
use crate::text::same_text;

verus! {

/// One named remote service instance.
#[derive(Debug)]
pub struct AdvisorApp {
    pub name: String,
    /// Base URL of the instance.
    pub location: String,
    /// Token for bearer authentication, if the instance has one.
    pub token: Option<String>,
}

/// How a request authenticates.
#[derive(Debug)]
pub enum Authentication {
    Anonymous,
    Bearer(String),
}

/// `a` is the authentication that an instance with `token` uses: bearer with
/// the token when it is present and non-empty, else none.
pub open spec fn auth_for(token: Option<String>, a: Authentication) -> bool {
    match a {
        Authentication::Bearer(t) => token matches Some(k) && k@.len() > 0 && t@ == k@,
        Authentication::Anonymous => token is None || token->0@.len() == 0,
    }
}

impl Authentication {
    /// The value of the `Authorization` header, if one is sent.
    pub fn header_value(&self) -> (r: Option<String>)
        ensures
            match self {
                Authentication::Bearer(t) => r matches Some(h) && h@ == "Bearer "@ + t@,
                Authentication::Anonymous => r is None,
            },
    {
        match self {
            Authentication::Bearer(t) => Some(String::from_str("Bearer ").concat(t.as_str())),
            Authentication::Anonymous => None,
        }
    }
}

impl AdvisorApp {
    pub fn new(name: String, location: String, token: Option<String>) -> (r: AdvisorApp)
        ensures
            r.name == name,
            r.location == location,
            r.token == token,
    {
        AdvisorApp { name, location, token }
    }

    /// The URL of the instance's health check.
    pub fn healthcheck(&self) -> (r: String)
        ensures
            r@ == self.location@ + "/healthcheck"@,
    {
        self.location.clone().concat("/healthcheck")
    }

    /// The URL of the instance's list of people.
    pub fn people(&self) -> (r: String)
        ensures
            r@ == self.location@ + "/admin/people"@,
    {
        self.location.clone().concat("/admin/people")
    }

    /// Bearer authentication with the instance's token when it has a
    /// non-empty one, else none.
    pub fn authentication(&self) -> (r: Authentication)
        ensures
            auth_for(self.token, r),
    {
        match &self.token {
            Some(k) => {
                if k.as_str().unicode_len() > 0 {
                    Authentication::Bearer(k.clone())
                } else {
                    Authentication::Anonymous
                }
            },
            None => Authentication::Anonymous,
        }
    }
}

/// What resolution does when neither an explicit name nor a default is given.
#[derive(Debug, Clone, Copy, PartialEq, Eq, Structural)]
pub enum Fallback {
    /// Take the only instance when there is exactly one.
    OnlyInstance,
    /// Take none: a name is always needed.
    NameRequired,
}

/// The configured instances and the name of the default one.
#[derive(Debug)]
pub struct Config {
    pub default: Option<String>,
    pub apps: Vec<AdvisorApp>,
}

/// No two instances in `apps` share a name.
pub open spec fn names_unique(apps: Seq<AdvisorApp>) -> bool {
    forall|i: int, j: int| 0 <= i < j < apps.len() ==> apps[i].name@ != apps[j].name@
}

/// Some instance in `apps` is named `name`.
pub open spec fn has_named(apps: Seq<AdvisorApp>, name: Seq<char>) -> bool {
    exists|i: int| 0 <= i < apps.len() && apps[i].name@ == name
}

/// `i` is the position of the first instance in `apps` named `name`.
pub open spec fn is_first_named(apps: Seq<AdvisorApp>, name: Seq<char>, i: int) -> bool {
    &&& 0 <= i < apps.len()
    &&& apps[i].name@ == name
    &&& forall|j: int| 0 <= j < i ==> apps[j].name@ != name
}

/// The name to resolve: the explicit one if given, else the default.
pub open spec fn target_name(explicit: Option<Seq<char>>, default: Option<String>) -> Option<
    Seq<char>,
> {
    match explicit {
        Some(n) => Some(n),
        None => match default {
            Some(d) => Some(d@),
            None => None,
        },
    }
}

/// The view of an optional name.
pub open spec fn opt_view(name: Option<&str>) -> Option<Seq<char>> {
    match name {
        Some(n) => Some(n@),
        None => None,
    }
}

impl Config {
    /// A registry of `apps` with an optional default name; refused when two
    /// instances share a name.
    pub fn new(default: Option<String>, apps: Vec<AdvisorApp>) -> (r: Result<Config, Error>)
        ensures
            r is Ok <==> names_unique(apps@),
            r matches Ok(c) ==> c.default == default && c.apps@ == apps@,
            r matches Err(e) ==> e == Error::ConfigNotFound,
    {
        let n = apps.len();
        let mut j: usize = 0;
        while j < n
            invariant
                n == apps@.len(),
                j <= n,
                forall|a: int, b: int| 0 <= a < b < j ==> apps@[a].name@ != apps@[b].name@,
            decreases n - j,
        {
            let mut i: usize = 0;
            while i < j
                invariant
                    n == apps@.len(),
                    i <= j < n,
                    forall|a: int, b: int| 0 <= a < b < j ==> apps@[a].name@ != apps@[b].name@,
                    forall|a: int| 0 <= a < i ==> apps@[a].name@ != apps@[j as int].name@,
                decreases j - i,
            {
                if same_text(apps[i].name.as_str(), apps[j].name.as_str()) {
                    return Err(Error::ConfigNotFound);
                }
                i = i + 1;
            }
            j = j + 1;
        }
        Ok(Config { default, apps })
    }

    /// The first instance named `name`.
    pub fn for_app(&self, name: &str) -> (r: Option<&AdvisorApp>)
        ensures
            r is None <==> !has_named(self.apps@, name@),
            r matches Some(a) ==> exists|i: int| is_first_named(self.apps@, name@, i) && *a == self.apps@[i],
    {
        let mut i: usize = 0;
        while i < self.apps.len()
            invariant
                i <= self.apps@.len(),
                forall|j: int| 0 <= j < i ==> self.apps@[j].name@ != name@,
            decreases self.apps@.len() - i,
        {
            if same_text(self.apps[i].name.as_str(), name) {
                assert(is_first_named(self.apps@, name@, i as int));
                return Some(&self.apps[i]);
            }
            i = i + 1;
        }
        None
    }

    /// The instance to act upon: the one named explicitly if a name is given,
    /// else the configured default; with neither, what `fallback` says: the
    /// only instance when there is exactly one, or none.
    pub fn resolve(&self, app_name: Option<&str>, fallback: Fallback) -> (r: Result<
        &AdvisorApp,
        Error,
    >)
        ensures
            r matches Err(e) ==> e == Error::InstanceNotFound,
            target_name(opt_view(app_name), self.default) matches Some(n) ==> {
                &&& r is Ok <==> has_named(self.apps@, n)
                &&& r matches Ok(a) ==> exists|i: int|
                    is_first_named(self.apps@, n, i) && *a == self.apps@[i]
            },
            target_name(opt_view(app_name), self.default) is None ==> {
                &&& r is Ok <==> (fallback == Fallback::OnlyInstance && self.apps@.len() == 1)
                &&& r matches Ok(a) ==> *a == self.apps@[0]
            },
    {
        let name: &str = match app_name {
            Some(n) => n,
            None => match &self.default {
                Some(d) => d.as_str(),
                None => {
                    if fallback == Fallback::OnlyInstance && self.apps.len() == 1 {
                        return Ok(&self.apps[0]);
                    }
                    return Err(Error::InstanceNotFound);
                },
            },
        };
        match self.for_app(name) {
            Some(a) => Ok(a),
            None => Err(Error::InstanceNotFound),
        }
    }
}

} // verus!
