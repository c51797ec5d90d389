//! The client's state besides its connection: the capabilities the server
//! announced, and the IDLE timeout.
use vstd::prelude::*;

use crate::capability::{
    announces, auth_mechanisms, announces_mechanism, capability_is_kind, is_kind, offers_mechanism,
    AuthMechanism, Capability, CapabilityKind,
};

verus! {

/// A span of time, as whole seconds and the nanoseconds beyond them.
#[derive(Debug, Clone, Copy, PartialEq, Eq, Structural)]
pub struct Timeout {
    pub secs: u64,
    pub subsec_nanos: u32,
}

impl Timeout {
    /// A timeout of `secs` whole seconds.
    pub fn from_secs(secs: u64) -> (r: Timeout)
        ensures
            r.secs == secs,
            r.subsec_nanos == 0,
    {
        Timeout { secs, subsec_nanos: 0 }
    }
}

/// Seconds the client waits in IDLE before it ends it: five minutes.
pub const DEFAULT_IDLE_TIMEOUT_SECS: u64 = 300;

/// The state a connection keeps besides its stream.
pub struct Client {
    capabilities: Vec<Capability>,
    idle_timeout: Timeout,
}

/// What the IMAP MOVE of a set of messages becomes.
#[derive(Debug, Clone, Copy, PartialEq, Eq, Structural)]
pub enum MoveStep {
    /// `MOVE` (or `UID MOVE`).
    Move,
    /// `COPY` (or `UID COPY`) to the target mailbox.
    Copy,
    /// Silent `STORE +FLAGS (\Deleted)` on the same set.
    MarkDeleted,
    /// `EXPUNGE` of the selected mailbox.
    Expunge,
}

/// How a new connection learns the server's capabilities.
#[derive(Debug, Clone, Copy, PartialEq, Eq, Structural)]
pub enum GreetingPlan {
    /// Read the greeting; if it carries no capabilities, ask with CAPABILITY.
    ReceiveGreeting,
    /// Ask with CAPABILITY: the greeting was consumed before STARTTLS, and
    /// what it said is not to be trusted after the upgrade.
    RefreshCapabilities,
}

/// After STARTTLS the capabilities are always asked anew; otherwise the
/// greeting is read first.
pub fn greeting_plan(starttls: bool) -> (r: GreetingPlan)
    ensures
        r == (if starttls {
            GreetingPlan::RefreshCapabilities
        } else {
            GreetingPlan::ReceiveGreeting
        }),
{
    if starttls {
        GreetingPlan::RefreshCapabilities
    } else {
        GreetingPlan::ReceiveGreeting
    }
}

impl Client {
    /// The capabilities are never empty.
    #[verifier::type_invariant]
    spec fn well_formed(self) -> bool {
        self.capabilities@.len() > 0
    }

    /// The capabilities the client currently assumes, in the server's order.
    pub closed spec fn caps(self) -> Seq<Capability> {
        self.capabilities@
    }

    /// The IDLE timeout.
    pub closed spec fn timeout(self) -> Timeout {
        self.idle_timeout
    }

    /// A new client state: only `IMAP4rev1` is assumed until the server
    /// says more, and IDLE waits five minutes.
    pub fn new() -> (r: Self)
        ensures
            r.caps() == seq![Capability::Imap4Rev1],
            r.timeout() == (Timeout { secs: 300, subsec_nanos: 0 }),
    {
        let mut capabilities: Vec<Capability> = Vec::new();
        capabilities.push(Capability::Imap4Rev1);
        Client {
            capabilities,
            idle_timeout: Timeout::from_secs(DEFAULT_IDLE_TIMEOUT_SECS),
        }
    }

    pub fn get_idle_timeout(&self) -> (r: &Timeout)
        ensures
            *r == self.timeout(),
    {
        &self.idle_timeout
    }

    pub fn set_idle_timeout(&mut self, timeout: Timeout)
        ensures
            final(self).timeout() == timeout,
            final(self).caps() == old(self).caps(),
    {
        proof {
            use_type_invariant(&*self);
        }
        self.idle_timeout = timeout;
    }

    /// Sets the timeout when one is given; leaves it as it was otherwise.
    pub fn set_some_idle_timeout(&mut self, timeout: Option<Timeout>)
        ensures
            final(self).timeout() == (match timeout {
                Some(t) => t,
                None => old(self).timeout(),
            }),
            final(self).caps() == old(self).caps(),
    {
        if let Some(timeout) = timeout {
            self.set_idle_timeout(timeout)
        }
    }

    pub fn with_idle_timeout(self, timeout: Timeout) -> (r: Self)
        ensures
            r.timeout() == timeout,
            r.caps() == self.caps(),
    {
        let mut s = self;
        s.set_idle_timeout(timeout);
        s
    }

    pub fn with_some_idle_timeout(self, timeout: Option<Timeout>) -> (r: Self)
        ensures
            r.timeout() == (match timeout {
                Some(t) => t,
                None => self.timeout(),
            }),
            r.caps() == self.caps(),
    {
        let mut s = self;
        s.set_some_idle_timeout(timeout);
        s
    }

    /// Returns the server capabilities saved so far (not fetched anew).
    pub fn capabilities(&self) -> (r: &Vec<Capability>)
        ensures
            r@ == self.caps(),
            r@.len() > 0,
    {
        proof {
            use_type_invariant(self);
        }
        &self.capabilities
    }

    /// The saved capabilities, one by one.
    pub fn capabilities_iter(&self) -> (r: &[Capability])
        ensures
            r@ == self.caps(),
    {
        self.capabilities.as_slice()
    }

    /// The authentication mechanisms the server announced, in order.
    pub fn supported_auth_mechanisms(&self) -> (r: Vec<&AuthMechanism>)
        ensures
            r@.map_values(|m: &AuthMechanism| *m) == auth_mechanisms(self.caps()),
    {
        let mut r: Vec<&AuthMechanism> = Vec::new();
        let n = self.capabilities.len();
        let mut i: usize = 0;
        while i < n
            invariant
                n == self.capabilities@.len(),
                i <= n,
                r@.map_values(|m: &AuthMechanism| *m) == auth_mechanisms(
                    self.capabilities@.take(i as int),
                ),
            decreases n - i,
        {
            assert(self.capabilities@.take(i + 1).drop_last() == self.capabilities@.take(
                i as int,
            ));
            if let Capability::Auth(m) = &self.capabilities[i] {
                r.push(m);
            }
            i = i + 1;
        }
        assert(self.capabilities@.take(n as int) == self.capabilities@);
        r
    }

    /// Whether the server announced the given mechanism.
    pub fn supports_auth_mechanism(&self, mechanism: AuthMechanism) -> (r: bool)
        ensures
            r == announces_mechanism(self.caps(), mechanism),
    {
        let n = self.capabilities.len();
        let mut i: usize = 0;
        while i < n
            invariant
                n == self.capabilities@.len(),
                i <= n,
                forall|j: int| 0 <= j < i ==> !#[trigger] offers_mechanism(self.capabilities@[j], mechanism),
            decreases n - i,
        {
            if let Capability::Auth(m) = &self.capabilities[i] {
                if m.same_as(&mechanism) {
                    assert(offers_mechanism(self.capabilities@[i as int], mechanism));
                    return true;
                }
            }
            i = i + 1;
        }
        false
    }

    /// Whether a capability of kind `k` was announced.
    pub fn announces(&self, k: CapabilityKind) -> (r: bool)
        ensures
            r == announces(self.caps(), k),
    {
        let n = self.capabilities.len();
        let mut i: usize = 0;
        while i < n
            invariant
                n == self.capabilities@.len(),
                i <= n,
                forall|j: int| 0 <= j < i ==> !#[trigger] is_kind(self.capabilities@[j], k),
            decreases n - i,
        {
            if capability_is_kind(&self.capabilities[i], k) {
                return true;
            }
            i = i + 1;
        }
        false
    }

    /// `LOGIN` is allowed unless the server announced `LOGINDISABLED`.
    pub fn login_supported(&self) -> (r: bool)
        ensures
            r == !announces(self.caps(), CapabilityKind::LoginDisabled),
    {
        !self.announces(CapabilityKind::LoginDisabled)
    }

    /// Whether the server announced the `ENABLE` extension.
    pub fn ext_enable_supported(&self) -> (r: bool)
        ensures
            r == announces(self.caps(), CapabilityKind::Enable),
    {
        self.announces(CapabilityKind::Enable)
    }

    /// Whether the server announced the `SASL-IR` extension.
    pub fn ext_sasl_ir_supported(&self) -> (r: bool)
        ensures
            r == announces(self.caps(), CapabilityKind::SaslIr),
    {
        self.announces(CapabilityKind::SaslIr)
    }

    /// Whether the server announced the `ID` extension.
    pub fn ext_id_supported(&self) -> (r: bool)
        ensures
            r == announces(self.caps(), CapabilityKind::Id),
    {
        self.announces(CapabilityKind::Id)
    }

    /// Whether the server announced the `UIDPLUS` extension.
    pub fn ext_uidplus_supported(&self) -> (r: bool)
        ensures
            r == announces(self.caps(), CapabilityKind::UidPlus),
    {
        self.announces(CapabilityKind::UidPlus)
    }

    /// Whether the server announced the `SORT` extension.
    pub fn ext_sort_supported(&self) -> (r: bool)
        ensures
            r == announces(self.caps(), CapabilityKind::Sort),
    {
        self.announces(CapabilityKind::Sort)
    }

    /// Whether the server announced the `THREAD` extension.
    pub fn ext_thread_supported(&self) -> (r: bool)
        ensures
            r == announces(self.caps(), CapabilityKind::Thread),
    {
        self.announces(CapabilityKind::Thread)
    }

    /// Whether the server announced the `IDLE` extension.
    pub fn ext_idle_supported(&self) -> (r: bool)
        ensures
            r == announces(self.caps(), CapabilityKind::Idle),
    {
        self.announces(CapabilityKind::Idle)
    }

    /// Whether the server announced the `BINARY` extension.
    pub fn ext_binary_supported(&self) -> (r: bool)
        ensures
            r == announces(self.caps(), CapabilityKind::Binary),
    {
        self.announces(CapabilityKind::Binary)
    }

    /// Whether the server announced the `MOVE` extension.
    pub fn ext_move_supported(&self) -> (r: bool)
        ensures
            r == announces(self.caps(), CapabilityKind::Move),
    {
        self.announces(CapabilityKind::Move)
    }

    /// Adopts the capabilities a response carried (a greeting, a LOGIN or
    /// AUTHENTICATE completion, a CAPABILITY answer), if it carried any.
    ///
    /// Returns whether it did; when it did not, the caller asks the server
    /// with CAPABILITY and adopts the answer.
    pub fn adopt_capabilities(&mut self, found: Option<Vec<Capability>>) -> (adopted: bool)
        requires
            found matches Some(c) ==> c@.len() > 0,
        ensures
            adopted == found.is_some(),
            final(self).caps() == (match found {
                Some(c) => c@,
                None => old(self).caps(),
            }),
            final(self).timeout() == old(self).timeout(),
    {
        match found {
            Some(capabilities) => {
                self.capabilities = capabilities;
                true
            },
            None => false,
        }
    }

    /// What ENABLE is sent with: nothing when the server lacks the ENABLE
    /// extension or nothing is asked for, else the capabilities asked for.
    pub fn enable_request<C>(&self, capabilities: Vec<C>) -> (r: Option<Vec<C>>)
        ensures
            r == (if announces(self.caps(), CapabilityKind::Enable) && capabilities@.len() > 0 {
                Some(capabilities)
            } else {
                None
            }),
    {
        if !self.ext_enable_supported() {
            return None;
        }
        if capabilities.len() == 0 {
            return None;
        }
        Some(capabilities)
    }

    /// What ID is sent with: nothing (no command) when the server lacks the
    /// ID extension, else the given parameters.
    pub fn id_request<P>(&self, params: P) -> (r: Option<P>)
        ensures
            r == (if announces(self.caps(), CapabilityKind::Id) {
                Some(params)
            } else {
                None
            }),
    {
        if self.ext_id_supported() {
            Some(params)
        } else {
            None
        }
    }

    /// The commands that move messages to another mailbox: MOVE when the
    /// server has the extension, else COPY, flagging the originals
    /// `\Deleted` and EXPUNGE.
    pub fn move_steps(&self) -> (r: Vec<MoveStep>)
        ensures
            r@ == (if announces(self.caps(), CapabilityKind::Move) {
                seq![MoveStep::Move]
            } else {
                seq![MoveStep::Copy, MoveStep::MarkDeleted, MoveStep::Expunge]
            }),
    {
        let mut r: Vec<MoveStep> = Vec::new();
        if self.ext_move_supported() {
            r.push(MoveStep::Move);
        } else {
            r.push(MoveStep::Copy);
            r.push(MoveStep::MarkDeleted);
            r.push(MoveStep::Expunge);
        }
        r
    }
}

} // verus!
