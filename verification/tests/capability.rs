use pal::{Capability, CapabilitySet, Effect};

#[test]
fn denies_effect_without_capability() {
    let caps = CapabilitySet::with([Capability::Log]);
    let fetch = Effect::HttpFetch {
        url: "https://example.invalid".into(),
    };
    assert_eq!(caps.authorize(&fetch), Err(Capability::HttpFetch));
}

#[test]
fn allows_effect_with_capability() {
    let caps = CapabilitySet::with([Capability::Log]);
    let log = Effect::Log {
        message: "hello".into(),
    };
    assert!(caps.authorize(&log).is_ok());
}

#[test]
fn required_capability_matches_effect_kind() {
    assert_eq!(
        Effect::Log { message: "m".into() }.required_capability(),
        Capability::Log
    );
    assert_eq!(
        Effect::WriteLocal { path: "p".into(), content: "c".into() }.required_capability(),
        Capability::WriteLocal
    );
    assert_eq!(
        Effect::HttpFetch { url: "u".into() }.required_capability(),
        Capability::HttpFetch
    );
}

#[test]
fn with_ignores_duplicates_and_keeps_order() {
    let caps = CapabilitySet::with([
        Capability::HttpFetch,
        Capability::Log,
        Capability::HttpFetch,
    ]);
    assert_eq!(caps.granted(), &[Capability::HttpFetch, Capability::Log]);
    assert!(caps.is_granted(Capability::Log));
    assert!(!caps.is_granted(Capability::WriteLocal));
}

#[test]
fn grant_twice_is_grant_once() {
    let mut caps = CapabilitySet::new();
    assert!(caps.granted().is_empty());
    caps.grant(Capability::WriteLocal);
    caps.grant(Capability::WriteLocal);
    assert_eq!(caps.granted(), &[Capability::WriteLocal]);
    caps.grant(Capability::Log);
    assert_eq!(caps.granted(), &[Capability::WriteLocal, Capability::Log]);
}

#[test]
fn empty_set_denies_every_effect() {
    let caps = CapabilitySet::with([]);
    let write = Effect::WriteLocal {
        path: "out.txt".into(),
        content: "x".into(),
    };
    assert_eq!(caps.authorize(&write), Err(Capability::WriteLocal));
    assert_eq!(CapabilitySet::default(), CapabilitySet::new());
    let copy = CapabilitySet::with([Capability::Log]).clone();
    assert_eq!(copy.granted(), &[Capability::Log]);
}
