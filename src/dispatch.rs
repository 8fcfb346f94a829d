//! The choice of the network operation that carries out a command, and the
//! interpretation of what the network returned.
use vstd::prelude::*;
use crate::command::Command;
use crate::error::Error;
use crate::registry::{auth_for, AdvisorApp, Authentication};
use crate::render::{
    people_fit, people_fit_table, people_rows_spec, show_people_table, table_text, Person,
};

verus! {

/// Seconds allowed for a health check.
pub const HEALTHCHECK_TIMEOUT_SECS: u64 = 1;

/// Seconds allowed for listing people.
pub const PEOPLE_TIMEOUT_SECS: u64 = 5;

/// How the body of a response is to be shown.
#[derive(Debug, Clone, Copy, PartialEq, Eq, Structural)]
pub enum ResponseKind {
    /// As it came.
    Text,
    /// As a JSON array of person records, rendered as a table.
    PeopleTable,
}

/// A single timed GET request.
#[derive(Debug)]
pub struct Request {
    pub url: String,
    pub auth: Authentication,
    pub timeout_secs: u64,
    pub kind: ResponseKind,
}

impl AdvisorApp {
    /// The request that carries out `command` on this instance. Only the
    /// health check and the list of people have a network operation; every
    /// other command is refused before any call is made.
    pub fn run(&self, command: &Command) -> (r: Result<Request, Error>)
        ensures
            command@ is Healthcheck ==> (r matches Ok(q) && q.url@ == self.location@
                + "/healthcheck"@ && q.auth is Anonymous && q.timeout_secs
                == HEALTHCHECK_TIMEOUT_SECS && q.kind == ResponseKind::Text),
            command@ is ShowPeople ==> (r matches Ok(q) && q.url@ == self.location@
                + "/admin/people"@ && auth_for(self.token, q.auth) && q.timeout_secs
                == PEOPLE_TIMEOUT_SECS && q.kind == ResponseKind::PeopleTable),
            !(command@ is Healthcheck || command@ is ShowPeople) ==> (r matches Err(e) && e
                == Error::UnsupportedCommand),
    {
        match command {
            Command::Healthcheck => Ok(
                Request {
                    url: self.healthcheck(),
                    auth: Authentication::Anonymous,
                    timeout_secs: HEALTHCHECK_TIMEOUT_SECS,
                    kind: ResponseKind::Text,
                },
            ),
            Command::ShowPeople => Ok(
                Request {
                    url: self.people(),
                    auth: self.authentication(),
                    timeout_secs: PEOPLE_TIMEOUT_SECS,
                    kind: ResponseKind::PeopleTable,
                },
            ),
            _ => Err(Error::UnsupportedCommand),
        }
    }
}

/// The outcome of a request from what the network returned: `body` is the
/// response body, absent when the transport failed or timed out, and `people`
/// the records decoded from it, absent when it is not a JSON array of person
/// records.
pub fn complete(kind: ResponseKind, body: Option<String>, people: Option<Vec<Person>>) -> (r:
    Result<String, Error>)
    ensures
        body is None ==> (r matches Err(e) && e == Error::RemoteAPIError),
        (body is Some && kind == ResponseKind::Text) ==> (r matches Ok(s) && s@ == body->0@),
        (body is Some && kind == ResponseKind::PeopleTable && (people is None || !people_fit(
            people->0@,
        ))) ==> (r matches Err(e) && e == Error::MalformedResponse),
        (body is Some && kind == ResponseKind::PeopleTable && people is Some && people_fit(
            people->0@,
        )) ==> (r matches Ok(s) && s@ == table_text(people_rows_spec(people->0@))),
{
    match body {
        None => Err(Error::RemoteAPIError),
        Some(b) => match kind {
            ResponseKind::Text => Ok(b),
            ResponseKind::PeopleTable => match people {
                Some(p) => {
                    if people_fit_table(&p) {
                        Ok(show_people_table(&p))
                    } else {
                        Err(Error::MalformedResponse)
                    }
                },
                None => Err(Error::MalformedResponse),
            },
        },
    }
}

} // verus!
