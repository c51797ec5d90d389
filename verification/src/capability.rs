//! Server capabilities, as far as the client's decisions read them.
use vstd::prelude::*;

verus! {

/// A SASL authentication mechanism announced with `AUTH=<mechanism>`.
#[derive(Debug, Clone)]
pub enum AuthMechanism {
    Plain,
    Login,
    OAuthBearer,
    XOAuth2,
    ScramSha1,
    ScramSha1Plus,
    ScramSha256,
    ScramSha256Plus,
    ScramSha3_512,
    ScramSha3_512Plus,
    /// Any other mechanism, by its name as the server wrote it.
    Other(String),
}

/// A capability announced by the server.
///
/// Capabilities that no decision of the client looks at are kept by their
/// textual form in `Other`.
#[derive(Debug, Clone)]
pub enum Capability {
    Imap4Rev1,
    Auth(AuthMechanism),
    LoginDisabled,
    Idle,
    SaslIr,
    Enable,
    Move,
    Id,
    Sort,
    Thread,
    Binary,
    UidPlus,
    Other(String),
}

/// Two mechanisms are the same: same variant, and for `Other` the same name.
pub open spec fn same_mechanism(a: AuthMechanism, b: AuthMechanism) -> bool {
    match (a, b) {
        (AuthMechanism::Other(x), AuthMechanism::Other(y)) => x@ == y@,
        (AuthMechanism::Other(_), _) => false,
        (_, AuthMechanism::Other(_)) => false,
        _ => a == b,
    }
}

/// Two mechanisms are the same exactly when they are equal: the same named
/// mechanism, or two other mechanisms of the same name. Sameness is
/// reflexive and symmetric.
pub proof fn law_same_mechanism_is_equality(a: AuthMechanism, b: AuthMechanism)
    ensures
        !(a is Other) ==> (same_mechanism(a, b) <==> a == b),
        (a is Other) ==> (same_mechanism(a, b) <==> (a matches AuthMechanism::Other(x) && (
        b matches AuthMechanism::Other(y) && x@ == y@))),
        same_mechanism(a, a),
        same_mechanism(a, b) == same_mechanism(b, a),
{
}

impl AuthMechanism {
    /// Compares two mechanisms (case-sensitive on the name of an `Other`).
    pub fn same_as(&self, other: &AuthMechanism) -> (r: bool)
        ensures
            r == same_mechanism(*self, *other),
    {
        match (self, other) {
            (AuthMechanism::Plain, AuthMechanism::Plain) => true,
            (AuthMechanism::Login, AuthMechanism::Login) => true,
            (AuthMechanism::OAuthBearer, AuthMechanism::OAuthBearer) => true,
            (AuthMechanism::XOAuth2, AuthMechanism::XOAuth2) => true,
            (AuthMechanism::ScramSha1, AuthMechanism::ScramSha1) => true,
            (AuthMechanism::ScramSha1Plus, AuthMechanism::ScramSha1Plus) => true,
            (AuthMechanism::ScramSha256, AuthMechanism::ScramSha256) => true,
            (AuthMechanism::ScramSha256Plus, AuthMechanism::ScramSha256Plus) => true,
            (AuthMechanism::ScramSha3_512, AuthMechanism::ScramSha3_512) => true,
            (AuthMechanism::ScramSha3_512Plus, AuthMechanism::ScramSha3_512Plus) => true,
            (AuthMechanism::Other(x), AuthMechanism::Other(y)) => *x == *y,
            _ => false,
        }
    }
}

/// The mechanisms announced in `caps`, in order.
pub open spec fn auth_mechanisms(caps: Seq<Capability>) -> Seq<AuthMechanism>
    decreases caps.len(),
{
    if caps.len() == 0 {
        Seq::empty()
    } else {
        let rest = auth_mechanisms(caps.drop_last());
        match caps.last() {
            Capability::Auth(m) => rest.push(m),
            _ => rest,
        }
    }
}

/// The announced mechanisms are those of the `AUTH=` capabilities, all of
/// them and in the order the server listed them.
pub proof fn law_auth_mechanisms_in_order(caps: Seq<Capability>)
    ensures
        auth_mechanisms(caps) == caps.filter_map(
            |c: Capability|
                if c is Auth {
                    Some(c->Auth_0)
                } else {
                    None
                },
        ),
    decreases caps.len(),
{
    if caps.len() > 0 {
        law_auth_mechanisms_in_order(caps.drop_last());
        if let Capability::Auth(m) = caps.last() {
            assert(auth_mechanisms(caps) =~= caps.filter_map(
                |c: Capability|
                    if c is Auth {
                        Some(c->Auth_0)
                    } else {
                        None
                    },
            ));
        }
    }
}

/// `c` announces the mechanism `m`.
pub open spec fn offers_mechanism(c: Capability, m: AuthMechanism) -> bool {
    c matches Capability::Auth(x) && same_mechanism(x, m)
}

/// `caps` announces the mechanism `m`.
pub open spec fn announces_mechanism(caps: Seq<Capability>, m: AuthMechanism) -> bool {
    exists|i: int| 0 <= i < caps.len() && #[trigger] offers_mechanism(caps[i], m)
}

/// A mechanism is supported exactly when it is among the announced ones.
pub proof fn lemma_announced_mechanisms(caps: Seq<Capability>, m: AuthMechanism)
    ensures
        announces_mechanism(caps, m) == (exists|k: int|
            0 <= k < auth_mechanisms(caps).len() && same_mechanism(
                #[trigger] auth_mechanisms(caps)[k],
                m,
            )),
    decreases caps.len(),
{
    if caps.len() > 0 {
        let init = caps.drop_last();
        lemma_announced_mechanisms(init, m);
        let ms = auth_mechanisms(caps);
        let ms0 = auth_mechanisms(init);
        if announces_mechanism(caps, m) {
            let i = choose|i: int| 0 <= i < caps.len() && #[trigger] offers_mechanism(caps[i], m);
            if i < init.len() {
                assert(offers_mechanism(init[i], m));
                let k = choose|k: int| 0 <= k < ms0.len() && same_mechanism(#[trigger] ms0[k], m);
                assert(ms[k] == ms0[k]);
            } else {
                if let Capability::Auth(x) = caps.last() {
                    assert(ms[ms0.len() as int] == x);
                }
            }
        }
        if exists|k: int| 0 <= k < ms.len() && same_mechanism(#[trigger] ms[k], m) {
            let k = choose|k: int| 0 <= k < ms.len() && same_mechanism(#[trigger] ms[k], m);
            if k < ms0.len() {
                assert(ms[k] == ms0[k]);
                let i = choose|i: int| 0 <= i < init.len() && #[trigger] offers_mechanism(init[i], m);
                assert(caps[i] == init[i]);
            } else {
                assert(offers_mechanism(caps[caps.len() - 1], m));
            }
        }
    }
}

/// The server supports a named mechanism exactly when `AUTH=` with that very
/// mechanism is among its capabilities, and another mechanism exactly when
/// one of its `AUTH=` capabilities carries the same name.
pub proof fn law_announced_mechanism_is_listed(caps: Seq<Capability>, m: AuthMechanism)
    ensures
        !(m is Other) ==> (announces_mechanism(caps, m) <==> caps.contains(Capability::Auth(m))),
        m matches AuthMechanism::Other(n) ==> (announces_mechanism(caps, m) <==> exists|i: int|
            0 <= i < caps.len() && (#[trigger] caps[i] matches Capability::Auth(AuthMechanism::Other(
                s,
            )) && s@ == n@)),
{
    if !(m is Other) && caps.contains(Capability::Auth(m)) {
        let i = choose|i: int| 0 <= i < caps.len() && caps[i] == Capability::Auth(m);
        assert(offers_mechanism(caps[i], m));
    }
    if !(m is Other) && announces_mechanism(caps, m) {
        let i = choose|i: int| 0 <= i < caps.len() && #[trigger] offers_mechanism(caps[i], m);
        assert(caps[i] == Capability::Auth(m));
    }
    if m is Other {
        if announces_mechanism(caps, m) {
            let i = choose|i: int| 0 <= i < caps.len() && #[trigger] offers_mechanism(caps[i], m);
            assert(caps[i] matches Capability::Auth(AuthMechanism::Other(_)));
        }
        if exists|i: int|
            0 <= i < caps.len() && (#[trigger] caps[i] matches Capability::Auth(AuthMechanism::Other(
                s,
            )) && s@ == m->0@) {
            let i = choose|i: int|
                0 <= i < caps.len() && (#[trigger] caps[i] matches Capability::Auth(
                    AuthMechanism::Other(s),
                ) && s@ == m->0@);
            assert(offers_mechanism(caps[i], m));
        }
    }
}

/// The capabilities whose mere presence a decision of the client reads.
#[derive(Debug, Clone, Copy, PartialEq, Eq, Structural)]
pub enum CapabilityKind {
    LoginDisabled,
    Enable,
    SaslIr,
    Id,
    UidPlus,
    Sort,
    Thread,
    Idle,
    Binary,
    Move,
}

/// `c` is a capability of kind `k` (whatever its parameters).
pub open spec fn is_kind(c: Capability, k: CapabilityKind) -> bool {
    match k {
        CapabilityKind::LoginDisabled => c is LoginDisabled,
        CapabilityKind::Enable => c is Enable,
        CapabilityKind::SaslIr => c is SaslIr,
        CapabilityKind::Id => c is Id,
        CapabilityKind::UidPlus => c is UidPlus,
        CapabilityKind::Sort => c is Sort,
        CapabilityKind::Thread => c is Thread,
        CapabilityKind::Idle => c is Idle,
        CapabilityKind::Binary => c is Binary,
        CapabilityKind::Move => c is Move,
    }
}

/// `caps` holds a capability of kind `k`.
pub open spec fn announces(caps: Seq<Capability>, k: CapabilityKind) -> bool {
    exists|i: int| 0 <= i < caps.len() && #[trigger] is_kind(caps[i], k)
}

/// Whether `c` is of kind `k`.
pub fn capability_is_kind(c: &Capability, k: CapabilityKind) -> (r: bool)
    ensures
        r == is_kind(*c, k),
{
    match k {
        CapabilityKind::LoginDisabled => matches!(c, Capability::LoginDisabled),
        CapabilityKind::Enable => matches!(c, Capability::Enable),
        CapabilityKind::SaslIr => matches!(c, Capability::SaslIr),
        CapabilityKind::Id => matches!(c, Capability::Id),
        CapabilityKind::UidPlus => matches!(c, Capability::UidPlus),
        CapabilityKind::Sort => matches!(c, Capability::Sort),
        CapabilityKind::Thread => matches!(c, Capability::Thread),
        CapabilityKind::Idle => matches!(c, Capability::Idle),
        CapabilityKind::Binary => matches!(c, Capability::Binary),
        CapabilityKind::Move => matches!(c, Capability::Move),
    }
}

/// The capability that a kind names.
pub open spec fn kind_capability(k: CapabilityKind) -> Capability {
    match k {
        CapabilityKind::LoginDisabled => Capability::LoginDisabled,
        CapabilityKind::Enable => Capability::Enable,
        CapabilityKind::SaslIr => Capability::SaslIr,
        CapabilityKind::Id => Capability::Id,
        CapabilityKind::UidPlus => Capability::UidPlus,
        CapabilityKind::Sort => Capability::Sort,
        CapabilityKind::Thread => Capability::Thread,
        CapabilityKind::Idle => Capability::Idle,
        CapabilityKind::Binary => Capability::Binary,
        CapabilityKind::Move => Capability::Move,
    }
}

/// A capability is of kind `k` exactly when it is the capability that `k`
/// names, so a server announces a kind exactly when it announced that very
/// capability.
pub proof fn law_kind_is_named_capability(caps: Seq<Capability>, c: Capability, k: CapabilityKind)
    ensures
        is_kind(c, k) <==> c == kind_capability(k),
        announces(caps, k) <==> caps.contains(kind_capability(k)),
{
    if caps.contains(kind_capability(k)) {
        let i = choose|i: int| 0 <= i < caps.len() && caps[i] == kind_capability(k);
        assert(is_kind(caps[i], k));
    }
}

/// No capability is of two kinds.
pub proof fn law_kinds_disjoint(c: Capability, k1: CapabilityKind, k2: CapabilityKind)
    ensures
        is_kind(c, k1) && is_kind(c, k2) ==> k1 == k2,
{
}

} // verus!
