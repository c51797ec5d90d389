use imap_client::capability::{AuthMechanism, Capability, CapabilityKind};
use imap_client::client::{greeting_plan, Client, GreetingPlan, MoveStep, Timeout};

fn client_with(caps: Vec<Capability>) -> Client {
    let mut c = Client::new();
    assert!(c.adopt_capabilities(Some(caps)));
    c
}

#[test]
fn new_client_assumes_imap4rev1_and_five_minutes() {
    let c = Client::new();
    assert_eq!(c.capabilities().len(), 1);
    assert!(matches!(c.capabilities()[0], Capability::Imap4Rev1));
    assert_eq!(*c.get_idle_timeout(), Timeout { secs: 300, subsec_nanos: 0 });
}

#[test]
fn idle_timeout_setters() {
    let mut c = Client::new();
    c.set_idle_timeout(Timeout::from_secs(10));
    assert_eq!(*c.get_idle_timeout(), Timeout { secs: 10, subsec_nanos: 0 });
    c.set_some_idle_timeout(None);
    assert_eq!(c.get_idle_timeout().secs, 10);
    c.set_some_idle_timeout(Some(Timeout { secs: 1, subsec_nanos: 5 }));
    assert_eq!(*c.get_idle_timeout(), Timeout { secs: 1, subsec_nanos: 5 });
    let c = c.with_idle_timeout(Timeout::from_secs(42));
    assert_eq!(c.get_idle_timeout().secs, 42);
    let c = c.with_some_idle_timeout(None);
    assert_eq!(c.get_idle_timeout().secs, 42);
    let c = c.with_some_idle_timeout(Some(Timeout::from_secs(7)));
    assert_eq!(c.get_idle_timeout().secs, 7);
}

#[test]
fn login_supported_unless_disabled() {
    assert!(Client::new().login_supported());
    let c = client_with(vec![Capability::Imap4Rev1, Capability::LoginDisabled]);
    assert!(!c.login_supported());
}

#[test]
fn extensions_follow_announced_capabilities() {
    let c = client_with(vec![
        Capability::Imap4Rev1,
        Capability::Enable,
        Capability::Sort,
        Capability::Move,
        Capability::Other("CHILDREN".to_string()),
    ]);
    assert!(c.ext_enable_supported());
    assert!(c.ext_sort_supported());
    assert!(c.ext_move_supported());
    assert!(!c.ext_sasl_ir_supported());
    assert!(!c.ext_id_supported());
    assert!(!c.ext_uidplus_supported());
    assert!(!c.ext_thread_supported());
    assert!(!c.ext_idle_supported());
    assert!(!c.ext_binary_supported());
    assert!(c.announces(CapabilityKind::Enable));
    assert!(!c.announces(CapabilityKind::LoginDisabled));

    let d = client_with(vec![
        Capability::SaslIr,
        Capability::Id,
        Capability::UidPlus,
        Capability::Thread,
        Capability::Idle,
        Capability::Binary,
    ]);
    assert!(d.ext_sasl_ir_supported());
    assert!(d.ext_id_supported());
    assert!(d.ext_uidplus_supported());
    assert!(d.ext_thread_supported());
    assert!(d.ext_idle_supported());
    assert!(d.ext_binary_supported());
    assert!(!d.ext_enable_supported());
}

#[test]
fn auth_mechanisms_are_listed_in_order() {
    let c = client_with(vec![
        Capability::Imap4Rev1,
        Capability::Auth(AuthMechanism::Plain),
        Capability::Idle,
        Capability::Auth(AuthMechanism::Other("X-CUSTOM".to_string())),
        Capability::Auth(AuthMechanism::XOAuth2),
    ]);
    let ms = c.supported_auth_mechanisms();
    assert_eq!(ms.len(), 3);
    assert!(matches!(ms[0], AuthMechanism::Plain));
    assert!(matches!(ms[1], AuthMechanism::Other(s) if s == "X-CUSTOM"));
    assert!(matches!(ms[2], AuthMechanism::XOAuth2));
    assert!(c.supports_auth_mechanism(AuthMechanism::Plain));
    assert!(c.supports_auth_mechanism(AuthMechanism::XOAuth2));
    assert!(c.supports_auth_mechanism(AuthMechanism::Other("X-CUSTOM".to_string())));
    assert!(!c.supports_auth_mechanism(AuthMechanism::Other("x-custom".to_string())));
    assert!(!c.supports_auth_mechanism(AuthMechanism::Login));
    assert!(!Client::new().supports_auth_mechanism(AuthMechanism::Plain));
    assert_eq!(Client::new().supported_auth_mechanisms().len(), 0);
}

#[test]
fn mechanism_comparison() {
    assert!(AuthMechanism::Plain.same_as(&AuthMechanism::Plain));
    assert!(!AuthMechanism::Plain.same_as(&AuthMechanism::Login));
    assert!(!AuthMechanism::Plain.same_as(&AuthMechanism::Other("PLAIN".to_string())));
    assert!(AuthMechanism::Other("A".to_string()).same_as(&AuthMechanism::Other("A".to_string())));
}

#[test]
fn adopting_capabilities() {
    let mut c = Client::new();
    c.set_idle_timeout(Timeout::from_secs(3));
    assert!(!c.adopt_capabilities(None));
    assert_eq!(c.capabilities().len(), 1);
    assert!(c.adopt_capabilities(Some(vec![Capability::Idle, Capability::Move])));
    assert_eq!(c.capabilities().len(), 2);
    assert!(matches!(c.capabilities_iter()[1], Capability::Move));
    assert_eq!(c.get_idle_timeout().secs, 3);
}

#[test]
fn enable_request_needs_extension_and_capabilities() {
    let plain = Client::new();
    assert_eq!(plain.enable_request(vec!["UTF8=ACCEPT"]), None);
    let c = client_with(vec![Capability::Enable]);
    assert_eq!(c.enable_request(Vec::<&str>::new()), None);
    assert_eq!(c.enable_request(vec!["UTF8=ACCEPT"]), Some(vec!["UTF8=ACCEPT"]));
}

#[test]
fn id_request_needs_extension() {
    assert_eq!(Client::new().id_request(Some(7)), None);
    assert_eq!(client_with(vec![Capability::Id]).id_request(Some(7)), Some(Some(7)));
}

#[test]
fn move_falls_back_to_copy_delete_expunge() {
    assert_eq!(
        Client::new().move_steps(),
        vec![MoveStep::Copy, MoveStep::MarkDeleted, MoveStep::Expunge]
    );
    assert_eq!(client_with(vec![Capability::Move]).move_steps(), vec![MoveStep::Move]);
}

#[test]
fn greeting_plan_after_starttls() {
    assert_eq!(greeting_plan(true), GreetingPlan::RefreshCapabilities);
    assert_eq!(greeting_plan(false), GreetingPlan::ReceiveGreeting);
}
