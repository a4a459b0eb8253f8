use crosstalk::registry::{
    populate, ProviderConfig, ProviderId, Registry, RegistryError,
};

fn cfg(
    id: ProviderId,
    name: &str,
    enabled: bool,
    credential: Option<&str>,
    models: &[&str],
) -> ProviderConfig {
    ProviderConfig {
        id,
        display_name: name.to_owned(),
        enabled,
        credential: credential.map(|c| c.to_owned()),
        models: models.iter().map(|m| (*m).to_owned()).collect(),
    }
}

fn two_provider_registry() -> Registry {
    populate(vec![
        cfg(ProviderId::OpenAi, "Provider A", true, Some("key-a"), &["m1"]),
        cfg(ProviderId::Anthropic, "Provider B", true, Some("key-b"), &["m2"]),
    ])
    .unwrap()
}

#[test]
fn populate_registers_enabled_providers_in_order() {
    let reg = two_provider_registry();
    let ds = reg.descriptors();
    assert_eq!(ds.len(), 2);
    assert_eq!(ds[0].id, ProviderId::OpenAi);
    assert_eq!(ds[0].display_name, "Provider A");
    assert_eq!(ds[0].models, vec!["m1".to_owned()]);
    assert_eq!(ds[1].id, ProviderId::Anthropic);
}

#[test]
fn populate_skips_disabled_providers() {
    let reg = populate(vec![
        cfg(ProviderId::OpenAi, "A", false, None, &["m1"]),
        cfg(ProviderId::Anthropic, "B", true, Some("key"), &["m2"]),
    ])
    .unwrap();
    let ds = reg.descriptors();
    assert_eq!(ds.len(), 1);
    assert_eq!(ds[0].id, ProviderId::Anthropic);
}

#[test]
fn populate_fails_without_credentials() {
    let r = populate(vec![cfg(ProviderId::Google, "G", true, None, &["m"])]);
    assert_eq!(
        r.err().unwrap(),
        RegistryError::MissingCredentials { provider: ProviderId::Google }
    );
}

#[test]
fn populate_fails_on_duplicate_provider() {
    let r = populate(vec![
        cfg(ProviderId::OpenAi, "A", true, Some("k1"), &["m1"]),
        cfg(ProviderId::OpenAi, "A again", true, Some("k2"), &["m2"]),
    ]);
    assert_eq!(
        r.err().unwrap(),
        RegistryError::DuplicateProvider { provider: ProviderId::OpenAi }
    );
}

#[test]
fn resolve_finds_unique_owner() {
    // A model offered by exactly one provider resolves to that provider.
    let reg = two_provider_registry();
    let m1 = "m1".to_owned();
    let res = reg.resolve(Some(&m1), None).unwrap();
    assert_eq!(res.provider, ProviderId::OpenAi);
    assert_eq!(res.model, "m1");
}

#[test]
fn resolve_explicit_model_selects_provider_b() {
    // Registry {A: [m1], B: [m2]}, user requests m2, no default configured.
    let reg = two_provider_registry();
    let m2 = "m2".to_owned();
    let res = reg.resolve(Some(&m2), None).unwrap();
    assert_eq!(res.provider, ProviderId::Anthropic);
    assert_eq!(res.model, "m2");
}

#[test]
fn resolve_unknown_model_fails_with_context() {
    let reg = two_provider_registry();
    let missing = "m3".to_owned();
    let e = reg.resolve(Some(&missing), None).err().unwrap();
    assert_eq!(e.requested, Some("m3".to_owned()));
    assert_eq!(e.known, vec!["m1".to_owned(), "m2".to_owned()]);
}

#[test]
fn resolve_uses_default_when_no_explicit_model() {
    let reg = two_provider_registry();
    let default = "m2".to_owned();
    let res = reg.resolve(None, Some(&default)).unwrap();
    assert_eq!(res.provider, ProviderId::Anthropic);
    assert_eq!(res.model, "m2");
}

#[test]
fn resolve_explicit_beats_default() {
    let reg = two_provider_registry();
    let explicit = "m1".to_owned();
    let default = "m2".to_owned();
    let res = reg.resolve(Some(&explicit), Some(&default)).unwrap();
    assert_eq!(res.provider, ProviderId::OpenAi);
}

#[test]
fn resolve_unknown_explicit_does_not_fall_back_to_default() {
    let reg = two_provider_registry();
    let explicit = "nope".to_owned();
    let default = "m2".to_owned();
    let e = reg.resolve(Some(&explicit), Some(&default)).err().unwrap();
    assert_eq!(e.requested, Some("nope".to_owned()));
}

#[test]
fn resolve_nothing_requested_fails() {
    let reg = two_provider_registry();
    let e = reg.resolve(None, None).err().unwrap();
    assert_eq!(e.requested, None);
    assert_eq!(e.known, vec!["m1".to_owned(), "m2".to_owned()]);
}

#[test]
fn resolve_ambiguous_model_first_registered_wins() {
    let reg = populate(vec![
        cfg(ProviderId::OpenAi, "A", true, Some("ka"), &["shared"]),
        cfg(ProviderId::Anthropic, "B", true, Some("kb"), &["shared"]),
    ])
    .unwrap();
    let shared = "shared".to_owned();
    let res = reg.resolve(Some(&shared), None).unwrap();
    assert_eq!(res.provider, ProviderId::OpenAi);
}

#[test]
fn known_models_flattens_in_registration_order() {
    let reg = populate(vec![
        cfg(ProviderId::OpenAi, "A", true, Some("ka"), &["a1", "a2"]),
        cfg(ProviderId::Anthropic, "B", true, Some("kb"), &["b1"]),
    ])
    .unwrap();
    assert_eq!(
        reg.known_models(),
        vec!["a1".to_owned(), "a2".to_owned(), "b1".to_owned()]
    );
}

#[test]
fn list_enumerates_all_rows_in_order() {
    let reg = populate(vec![
        cfg(ProviderId::OpenAi, "A", true, Some("ka"), &["a1", "a2"]),
        cfg(ProviderId::Anthropic, "B", true, Some("kb"), &["b1"]),
    ])
    .unwrap();
    let rows = reg.list(None);
    let flat: Vec<(ProviderId, String)> =
        rows.into_iter().map(|r| (r.provider, r.model)).collect();
    assert_eq!(
        flat,
        vec![
            (ProviderId::OpenAi, "a1".to_owned()),
            (ProviderId::OpenAi, "a2".to_owned()),
            (ProviderId::Anthropic, "b1".to_owned()),
        ]
    );
}

#[test]
fn list_respects_provider_filter() {
    let reg = two_provider_registry();
    let rows = reg.list(Some(ProviderId::Anthropic));
    assert_eq!(rows.len(), 1);
    assert_eq!(rows[0].provider, ProviderId::Anthropic);
    assert_eq!(rows[0].model, "m2");
}
