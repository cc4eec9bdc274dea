use ccs::config::{
    build_env, get_base_url, get_default, get_description, get_env_key, none_if_empty,
    profile_field, profile_fields, set_base_url, set_default, set_description, set_env_key,
    Config, Field, Models, Profile, Provider, Section, PROFILE_FIELD_COUNT,
};
use ccs::strmap::StrMap;

fn table(pairs: &[(&str, &str)]) -> StrMap<String> {
    let mut m = StrMap::new();
    for (k, v) in pairs {
        m.insert(k.to_string(), v.to_string());
    }
    m
}

fn lookup<'a>(e: &'a StrMap<String>, key: &str) -> Option<&'a str> {
    e.get(key).map(String::as_str)
}

#[test]
fn env_table_is_injected() {
    let profile = Profile {
        env: Some(table(&[
            ("CLAUDE_CODE_MAX_OUTPUT_TOKENS", "16000"),
            ("CLAUDE_AUTOCOMPACT_PCT_OVERRIDE", "80"),
        ])),
        ..Default::default()
    };

    let e = build_env(&profile, true, "");
    assert_eq!(lookup(&e, "CLAUDE_CODE_MAX_OUTPUT_TOKENS"), Some("16000"));
    assert_eq!(lookup(&e, "CLAUDE_AUTOCOMPACT_PCT_OVERRIDE"), Some("80"));
}

#[test]
fn env_table_overrides_models_on_conflict() {
    let profile = Profile {
        models: Some(Models {
            default: Some("base-model".to_string()),
            ..Default::default()
        }),
        env: Some(table(&[("ANTHROPIC_MODEL", "override-model")])),
        ..Default::default()
    };

    let e = build_env(&profile, true, "");
    assert_eq!(lookup(&e, "ANTHROPIC_MODEL"), Some("override-model"));
}

#[test]
fn env_table_overrides_provider_on_conflict() {
    let profile = Profile {
        provider: Some(Provider {
            base_url: "https://api.example.com".to_string(),
            env_key: "MY_API_KEY".to_string(),
        }),
        env: Some(table(&[("ANTHROPIC_BASE_URL", "https://override.example.com")])),
        ..Default::default()
    };

    // reveal = false so no token is needed
    let e = build_env(&profile, false, "");
    assert_eq!(lookup(&e, "ANTHROPIC_BASE_URL"), Some("https://override.example.com"));
}

#[test]
fn masked_env_references_the_key_variable() {
    let profile = Profile {
        provider: Some(Provider {
            base_url: "https://api.example.com".to_string(),
            env_key: "MY_API_KEY".to_string(),
        }),
        ..Default::default()
    };
    let e = build_env(&profile, false, "secret");
    assert_eq!(lookup(&e, "ANTHROPIC_BASE_URL"), Some("https://api.example.com"));
    assert_eq!(lookup(&e, "ANTHROPIC_AUTH_TOKEN"), Some("$MY_API_KEY"));
    assert_eq!(lookup(&e, "ANTHROPIC_API_KEY"), Some("(cleared)"));
    assert_eq!(e.len(), 3);
}

#[test]
fn revealed_env_carries_the_token() {
    let profile = Profile {
        provider: Some(Provider {
            base_url: "https://api.example.com".to_string(),
            env_key: "MY_API_KEY".to_string(),
        }),
        ..Default::default()
    };
    let e = build_env(&profile, true, "sk-123");
    assert_eq!(lookup(&e, "ANTHROPIC_AUTH_TOKEN"), Some("sk-123"));
    assert_eq!(lookup(&e, "ANTHROPIC_API_KEY"), Some(""));
}

#[test]
fn model_names_map_to_their_variables() {
    let profile = Profile {
        models: Some(Models {
            default: Some("m0".to_string()),
            default_fable: Some("m1".to_string()),
            default_opus: Some("m2".to_string()),
            default_sonnet: Some("m3".to_string()),
            default_haiku: None,
            subagent: Some("m5".to_string()),
        }),
        ..Default::default()
    };
    let e = build_env(&profile, false, "");
    assert_eq!(lookup(&e, "ANTHROPIC_MODEL"), Some("m0"));
    assert_eq!(lookup(&e, "ANTHROPIC_DEFAULT_FABLE_MODEL"), Some("m1"));
    assert_eq!(lookup(&e, "ANTHROPIC_DEFAULT_OPUS_MODEL"), Some("m2"));
    assert_eq!(lookup(&e, "ANTHROPIC_DEFAULT_SONNET_MODEL"), Some("m3"));
    assert_eq!(lookup(&e, "ANTHROPIC_DEFAULT_HAIKU_MODEL"), None);
    assert_eq!(lookup(&e, "CLAUDE_CODE_SUBAGENT_MODEL"), Some("m5"));
    assert_eq!(e.len(), 5);
}

#[test]
fn empty_profile_builds_empty_env() {
    let e = build_env(&Profile::default(), true, "x");
    assert!(e.is_empty());
}

#[test]
fn none_if_empty_maps_empty_to_none() {
    assert_eq!(none_if_empty(String::new()), None);
    assert_eq!(none_if_empty("a".to_string()), Some("a".to_string()));
}

#[test]
fn description_set_then_get() {
    let mut p = Profile::default();
    set_description(&mut p, "hello".to_string());
    assert_eq!(get_description(&p), Some("hello".to_string()));
    set_description(&mut p, String::new());
    assert_eq!(get_description(&p), None);
}

#[test]
fn model_set_creates_models_table() {
    let mut p = Profile::default();
    assert_eq!(get_default(&p), None);
    set_default(&mut p, "sonnet-4-6".to_string());
    assert_eq!(get_default(&p), Some("sonnet-4-6".to_string()));
    assert!(p.models.is_some());
    assert_eq!(p.models.as_ref().unwrap().default_opus, None);
    set_default(&mut p, String::new());
    assert_eq!(get_default(&p), None);
    assert!(p.models.is_some());
}

#[test]
fn base_url_empty_is_ignored() {
    let mut p = Profile::default();
    set_base_url(&mut p, String::new());
    assert!(p.provider.is_none());
    set_base_url(&mut p, "https://x".to_string());
    assert_eq!(get_base_url(&p), Some("https://x".to_string()));
    assert_eq!(get_env_key(&p), Some(String::new()));
    set_base_url(&mut p, String::new());
    assert_eq!(get_base_url(&p), Some("https://x".to_string()));
}

#[test]
fn env_key_set_keeps_empty_value() {
    let mut p = Profile::default();
    set_env_key(&mut p, "KEY".to_string());
    assert_eq!(get_env_key(&p), Some("KEY".to_string()));
    assert_eq!(get_base_url(&p), Some(String::new()));
    set_env_key(&mut p, String::new());
    assert_eq!(get_env_key(&p), Some(String::new()));
}

#[test]
fn field_table_lists_all_fields_in_order() {
    let fields = profile_fields();
    assert_eq!(fields.len(), PROFILE_FIELD_COUNT);
    let labels: Vec<&str> = fields.iter().map(|f| f.label).collect();
    assert_eq!(
        labels,
        vec!["description", "default", "fable", "opus", "sonnet", "haiku", "subagent", "base_url", "env_key"]
    );
    assert_eq!(fields[0].section, Section::Profile);
    assert_eq!(fields[6].section, Section::Models);
    assert_eq!(fields[7].section, Section::Provider);
    assert_eq!(fields[8].field, Field::EnvKey);
    assert_eq!(Section::Models.title(), "Models");
}

#[test]
fn field_def_set_then_get_round_trips() {
    let mut p = Profile::default();
    for i in 0..PROFILE_FIELD_COUNT {
        let fd = profile_field(i);
        fd.set(&mut p, format!("v{i}"));
    }
    for i in 0..PROFILE_FIELD_COUNT {
        let fd = profile_field(i);
        assert_eq!(fd.get(&p), Some(format!("v{i}")));
    }
}

#[test]
fn config_new_is_empty() {
    let c = Config::new();
    assert!(c.profiles.is_empty());
}

#[test]
fn masked_env_does_not_depend_on_token() {
    let profile = Profile {
        provider: Some(Provider { base_url: "u".to_string(), env_key: "K".to_string() }),
        ..Default::default()
    };
    let a = build_env(&profile, false, "one");
    let b = build_env(&profile, false, "two");
    assert_eq!(a.keys(), b.keys());
    for k in a.keys() {
        assert_eq!(a.get(&k), b.get(&k));
    }
}
