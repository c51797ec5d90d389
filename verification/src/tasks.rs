//! The LOGIN and ENABLE tasks: what they keep of the server's answers and
//! what they resolve to.
use vstd::prelude::*;

use crate::capability::Capability;

verus! {

/// The kind of a tagged status response.
#[derive(Debug, Clone, Copy, PartialEq, Eq, Structural)]
pub enum StatusKind {
    /// OK
    Okay,
    /// NO
    No,
    /// BAD
    Bad,
}

/// Why a task failed; `S` is the status response that ended it.
#[derive(Debug)]
pub enum TaskError<S> {
    UnexpectedBadResponse(S),
    UnexpectedNoResponse(S),
    MissingData(String),
}

/// The end of a task that the server refused: NO or BAD, with the status.
pub open spec fn refusal<T, S>(kind: StatusKind, status: S) -> Result<T, TaskError<S>> {
    match kind {
        StatusKind::No => Err(TaskError::UnexpectedNoResponse(status)),
        _ => Err(TaskError::UnexpectedBadResponse(status)),
    }
}

/// A refused task fails with the status that refused it: a NO as the
/// unexpected NO response, a BAD as the unexpected BAD response.
pub proof fn law_refusal<T, S>(status: S)
    ensures
        refusal::<T, S>(StatusKind::No, status) == Err::<T, TaskError<S>>(
            TaskError::UnexpectedNoResponse(status),
        ),
        refusal::<T, S>(StatusKind::Bad, status) == Err::<T, TaskError<S>>(
            TaskError::UnexpectedBadResponse(status),
        ),
{
}

/// Untagged data a LOGIN task looks at; `D` is any other data.
pub enum LoginData<D> {
    /// A CAPABILITY response sent along with the login.
    Capability(Vec<Capability>),
    Other(D),
}

/// Logs in with a user name and a password.
pub struct LoginTask<U, P> {
    username: U,
    password: P,
    output: Option<Vec<Capability>>,
}

impl<U, P> LoginTask<U, P> {
    pub closed spec fn username_spec(self) -> U {
        self.username
    }

    pub closed spec fn password_spec(self) -> P {
        self.password
    }

    /// The capabilities seen in untagged data so far.
    pub closed spec fn seen_capabilities(self) -> Option<Seq<Capability>> {
        match self.output {
            Some(c) => Some(c@),
            None => None,
        }
    }

    pub fn new(username: U, password: P) -> (r: Self)
        ensures
            r.username_spec() == username,
            r.password_spec() == password,
            r.seen_capabilities() is None,
    {
        Self { username, password, output: None }
    }

    pub fn username(&self) -> (r: &U)
        ensures
            *r == self.username_spec(),
    {
        &self.username
    }

    pub fn password(&self) -> (r: &P)
        ensures
            *r == self.password_spec(),
    {
        &self.password
    }

    /// Keeps the capabilities of a CAPABILITY response (some servers send
    /// them untagged during login); hands back any other data.
    pub fn process_data<D>(&mut self, data: LoginData<D>) -> (r: Option<D>)
        ensures
            final(self).username_spec() == old(self).username_spec(),
            final(self).password_spec() == old(self).password_spec(),
            match data {
                LoginData::Capability(c) => r is None && final(self).seen_capabilities() == Some(
                    c@,
                ),
                LoginData::Other(d) => r == Some(d) && final(self).seen_capabilities() == old(
                    self,
                ).seen_capabilities(),
            },
    {
        match data {
            LoginData::Capability(c) => {
                self.output = Some(c);
                None
            },
            LoginData::Other(d) => Some(d),
        }
    }

    /// The end of the login. On OK: the capabilities of the response's
    /// CAPABILITY code when it has one, else those seen before, else none
    /// (then the client asks for them). On NO or BAD: the refusal.
    pub fn process_tagged<S>(self, kind: StatusKind, code_capabilities: Option<Vec<Capability>>, status: S) -> (r: Result<
        Option<Vec<Capability>>,
        TaskError<S>,
    >)
        ensures
            kind == StatusKind::Okay ==> (r matches Ok(out) && (match code_capabilities {
                Some(c) => out matches Some(o) && o@ == c@,
                None => (match out {
                    Some(o) => Some(o@),
                    None => None,
                }) == self.seen_capabilities(),
            })),
            kind != StatusKind::Okay ==> r == refusal::<Option<Vec<Capability>>, S>(kind, status),
    {
        match kind {
            StatusKind::Okay => Ok(
                match code_capabilities {
                    Some(c) => Some(c),
                    None => self.output,
                },
            ),
            StatusKind::No => Err(TaskError::UnexpectedNoResponse(status)),
            StatusKind::Bad => Err(TaskError::UnexpectedBadResponse(status)),
        }
    }
}

/// Untagged data an ENABLE task looks at; `D` is any other data.
pub enum EnableData<C, D> {
    /// The ENABLED response: the capabilities the server enabled.
    Enabled(Vec<C>),
    Other(D),
}

/// Enables capabilities (at least one).
pub struct EnableTask<C> {
    requested_capabilities: Vec<C>,
    enabled_capabilities: Option<Vec<C>>,
}

impl<C> EnableTask<C> {
    #[verifier::type_invariant]
    spec fn well_formed(self) -> bool {
        self.requested_capabilities@.len() > 0
    }

    pub closed spec fn requested(self) -> Seq<C> {
        self.requested_capabilities@
    }

    pub closed spec fn enabled(self) -> Option<Seq<C>> {
        match self.enabled_capabilities {
            Some(c) => Some(c@),
            None => None,
        }
    }

    pub fn new(capabilities: Vec<C>) -> (r: Self)
        requires
            capabilities@.len() > 0,
        ensures
            r.requested() == capabilities@,
            r.enabled() is None,
    {
        Self { requested_capabilities: capabilities, enabled_capabilities: None }
    }

    /// The capabilities to send ENABLE with.
    pub fn requested_capabilities(&self) -> (r: &Vec<C>)
        ensures
            r@ == self.requested(),
            r@.len() > 0,
    {
        proof {
            use_type_invariant(self);
        }
        &self.requested_capabilities
    }

    /// Keeps what an ENABLED response lists; hands back any other data.
    pub fn process_data<D>(&mut self, data: EnableData<C, D>) -> (r: Option<D>)
        ensures
            final(self).requested() == old(self).requested(),
            match data {
                EnableData::Enabled(c) => r is None && final(self).enabled() == Some(c@),
                EnableData::Other(d) => r == Some(d) && final(self).enabled() == old(self).enabled(),
            },
    {
        match data {
            EnableData::Enabled(c) => {
                proof {
                    use_type_invariant(&*self);
                }
                self.enabled_capabilities = Some(c);
                None
            },
            EnableData::Other(d) => Some(d),
        }
    }

    /// The end of the ENABLE. On OK: what the server said it enabled, if it
    /// said. On NO or BAD: the refusal.
    pub fn process_tagged<S>(self, kind: StatusKind, status: S) -> (r: Result<Option<Vec<C>>, TaskError<S>>)
        ensures
            kind == StatusKind::Okay ==> (r matches Ok(out) && (match out {
                Some(o) => Some(o@),
                None => None,
            }) == self.enabled()),
            kind != StatusKind::Okay ==> r == refusal::<Option<Vec<C>>, S>(kind, status),
    {
        match kind {
            StatusKind::Okay => Ok(self.enabled_capabilities),
            StatusKind::No => Err(TaskError::UnexpectedNoResponse(status)),
            StatusKind::Bad => Err(TaskError::UnexpectedBadResponse(status)),
        }
    }
}

} // verus!
