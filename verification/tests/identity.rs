//! Terminals, their namespaces, the settings and the capabilities.

use ratty::capability::SceneCapability;
use ratty::config::{AppConfig, TerminalConfig};
use ratty::identity::{
    grid_is_admissible, max_live_terminals, IngressSource, TerminalAllocError, TerminalId,
    TerminalIdentity, TerminalRegistry, TerminalReleaseError, MAX_LIVE_TERMINALS, MAX_NAMESPACE,
    MAX_TERMINAL_AXIS, MIN_TERMINAL_AXIS,
};

fn local() -> IngressSource {
    IngressSource::test_boot()
}

#[test]
fn derivation_truth_table_for_local() {
    let mut config = AppConfig::default();

    config.trust.local.avatar_scene = true;
    config.audio.allow_scene_ambient = true;
    assert!(SceneCapability::AvatarScene.granted_to(local(), &config));
    assert!(SceneCapability::SceneAmbient.granted_to(local(), &config));

    config.trust.local.avatar_scene = false;
    config.audio.allow_scene_ambient = false;
    assert!(!SceneCapability::AvatarScene.granted_to(local(), &config));
    assert!(!SceneCapability::SceneAmbient.granted_to(local(), &config));

    // The two grants are independent bits.
    config.trust.local.avatar_scene = true;
    assert!(SceneCapability::AvatarScene.granted_to(local(), &config));
    assert!(!SceneCapability::SceneAmbient.granted_to(local(), &config));
}

#[test]
fn avatar_scene_defaults_to_granted() {
    let config = AppConfig::default();
    assert!(SceneCapability::AvatarScene.granted_to(local(), &config));
}

#[test]
fn trust_section_parses_and_revokes() {
    let config = AppConfig::from_toml_str("[trust.local]\navatar_scene = false\n")
        .expect("trust section parses");
    assert!(!SceneCapability::AvatarScene.granted_to(local(), &config));
    // Unrelated grants are untouched by the [trust] section.
    assert!(SceneCapability::SceneAmbient.granted_to(local(), &config));
}

#[test]
fn absent_trust_section_defaults_cleanly() {
    let config = AppConfig::from_toml_str("").expect("empty config parses");
    assert!(SceneCapability::AvatarScene.granted_to(local(), &config));
}

#[test]
fn broken_settings_are_refused() {
    assert!(AppConfig::from_toml_str("[trust.local\n").is_err());
    assert!(AppConfig::from_toml_str("[terminal]\ndefault_cols = 70000\n").is_err());
    assert!(AppConfig::from_toml_str("[trust.local]\navatar_scene = 3\n").is_err());
    assert!(AppConfig::from_toml_str("[audio]\nallow_scene_ambient = false\n")
        .map(|config| !config.audio.allow_scene_ambient)
        .unwrap_or(false));
}

#[test]
fn allocate_mints_lowest_slot_first_and_errors_explicitly_on_exhaustion() {
    let mut registry = TerminalRegistry::default();
    for expected in 0..=MAX_NAMESPACE {
        let identity = registry.allocate().expect("128 slots exist");
        assert_eq!(identity.namespace(), expected, "allocation is lowest-free-first");
        assert_eq!(
            identity.id(),
            TerminalId::from_raw(u64::from(expected) + 1),
            "ids are monotonic from 1"
        );
    }
    assert_eq!(
        registry.allocate(),
        Err(TerminalAllocError::NamespacesExhausted),
        "the 129th allocation errors explicitly; nothing above 127 is ever minted"
    );
    assert!(!TerminalAllocError::NamespacesExhausted.message().is_empty());
}

#[test]
fn recycle_reuses_the_lowest_freed_slot_while_ids_keep_climbing() {
    let mut registry = TerminalRegistry::default();
    let a = registry.allocate().expect("slot 0");
    let b = registry.allocate().expect("slot 1");
    assert_eq!(registry.release(a.id()), Ok(0), "release returns the slot");
    let c = registry.allocate().expect("the recycled slot");
    assert_eq!(c.namespace(), 0, "the freed slot is recycled lowest-first");
    assert_eq!(
        c.id(),
        TerminalId::from_raw(3),
        "the TerminalId counter never reuses — recycling is namespace-only"
    );
    assert_ne!(c.id(), a.id(), "a recycled slot's tenant is a new terminal");
    assert_eq!(b.namespace(), 1, "the untouched lease is unaffected");
}

#[test]
fn double_release_and_unknown_ids_error_loudly() {
    let mut registry = TerminalRegistry::default();
    let a = registry.allocate().expect("slot 0");
    assert_eq!(registry.release(a.id()), Ok(0));
    assert_eq!(
        registry.release(a.id()),
        Err(TerminalReleaseError::UnknownTerminal(a.id())),
        "double-free is an explicit error, never swallowed"
    );
    assert_eq!(
        registry.release(TerminalId::from_raw(999)),
        Err(TerminalReleaseError::UnknownTerminal(TerminalId::from_raw(999))),
        "an id the registry never minted errors"
    );
    assert!(TerminalReleaseError::UnknownTerminal(a.id()).message().contains('1'));
}

#[test]
fn the_live_cap_clamps_to_what_the_wire_can_address() {
    let mut config = TerminalConfig::default();
    assert_eq!(config.max_live, 4, "the shipped default");
    assert_eq!(max_live_terminals(&config), 4);
    config.max_live = 0;
    assert_eq!(max_live_terminals(&config), 1);
    config.max_live = 9_999;
    assert_eq!(max_live_terminals(&config), MAX_LIVE_TERMINALS);
    assert_eq!(MAX_LIVE_TERMINALS, 128);

    let parsed = AppConfig::from_toml_str("[terminal]\nmax_live = 1\n")
        .expect("the terminal section parses");
    assert_eq!(parsed.terminal.max_live, 1);
    assert_eq!(parsed.terminal.default_cols, 104);
    assert_eq!(parsed.terminal.scrollback, 2_000);
    let bare = AppConfig::from_toml_str("[terminal]\ndefault_cols = 80\n")
        .expect("an existing config without the key still parses");
    assert_eq!(bare.terminal.max_live, 4);
}

#[test]
fn the_grid_ceiling_bounds_both_axes_and_the_area() {
    assert!(grid_is_admissible(80, 24));
    assert!(grid_is_admissible(MIN_TERMINAL_AXIS, MIN_TERMINAL_AXIS));
    assert!(grid_is_admissible(MAX_TERMINAL_AXIS, 24));
    assert!(!grid_is_admissible(1, 24));
    assert!(!grid_is_admissible(80, 1));
    assert!(!grid_is_admissible(0, 0));
    assert!(!grid_is_admissible(MAX_TERMINAL_AXIS + 1, 24));
    assert!(!grid_is_admissible(80, MAX_TERMINAL_AXIS + 1));
    assert!(!grid_is_admissible(u16::MAX, u16::MAX));
    assert!(!grid_is_admissible(MAX_TERMINAL_AXIS, MAX_TERMINAL_AXIS));
}

#[test]
fn live_count_tracks_leases_not_entities() {
    let mut registry = TerminalRegistry::default();
    assert_eq!(registry.live_count(), 0);
    let a = registry.allocate().expect("slot 0");
    let _b = registry.allocate().expect("slot 1");
    assert_eq!(registry.live_count(), 2);
    registry.release(a.id()).expect("a is live");
    assert_eq!(registry.live_count(), 1);
}

#[test]
fn bind_resolves_live_terminals_and_dead_ids_resolve_none() {
    let mut registry = TerminalRegistry::default();
    let a = registry.allocate().expect("slot 0");
    let seat: u64 = 77;
    assert_eq!(registry.entity_of(a.id()), None, "unbound resolves None");
    registry.bind(a.id(), seat).expect("a is live");
    assert_eq!(registry.entity_of(a.id()), Some(seat));
    assert_eq!(registry.namespace_of(a.id()), Some(0));
    registry.release(a.id()).expect("a is live");
    assert_eq!(
        registry.entity_of(a.id()),
        None,
        "a dead TerminalId resolves None; nothing aliases"
    );
    assert_eq!(registry.namespace_of(a.id()), None);
    assert_eq!(
        registry.bind(a.id(), seat),
        Err(TerminalReleaseError::UnknownTerminal(a.id())),
        "binding a dead id errors"
    );
}

#[test]
fn the_boot_identity_is_what_a_fresh_registry_mints() {
    let mut registry = TerminalRegistry::new();
    let minted = registry.allocate().expect("slot 0");
    let boot = TerminalIdentity::test_boot();
    assert_eq!(minted, boot);
    assert_eq!(boot.ingress().namespace(), 0);
    assert_eq!(boot.ingress().terminal(), boot.id());
    assert_eq!(boot.id().raw(), 1);
}
