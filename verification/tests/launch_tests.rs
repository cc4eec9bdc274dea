use ccs::config::{Profile, Provider};
use ccs::launch::{has_prefix, launch_args, launch_env, profile_arg};
use ccs::strmap::StrMap;

fn args(v: &[&str]) -> Vec<String> {
    v.iter().map(|s| s.to_string()).collect()
}

#[test]
fn profile_arg_skips_options() {
    assert_eq!(profile_arg(&args(&["ccs", "work"])), Some("work".to_string()));
    assert_eq!(profile_arg(&args(&["ccs", "--help"])), None);
    assert_eq!(profile_arg(&args(&["ccs"])), None);
    assert_eq!(profile_arg(&args(&["ccs", ""])), Some(String::new()));
}

#[test]
fn launch_args_drop_the_profile_name() {
    let a = args(&["ccs", "work", "--resume", "work", "x"]);
    assert_eq!(launch_args(&a, "work"), args(&["--resume", "x"]));
    assert_eq!(launch_args(&args(&[]), "work"), args(&[]));
}

#[test]
fn prefix_test() {
    assert!(has_prefix("ANTHROPIC_MODEL", "ANTHROPIC_"));
    assert!(!has_prefix("ANTHROPIC", "ANTHROPIC_"));
    assert!(has_prefix("x", ""));
}

#[test]
fn shell_anthropic_variables_are_dropped_and_profile_wins() {
    let vars = vec![
        ("PATH".to_string(), "/bin".to_string()),
        ("ANTHROPIC_MODEL".to_string(), "shell-model".to_string()),
        ("ANTHROPIC_API_KEY".to_string(), "shell-key".to_string()),
        ("FOO".to_string(), "shell".to_string()),
    ];
    let mut env = StrMap::new();
    env.insert("FOO".to_string(), "profile".to_string());
    let profile = Profile {
        provider: Some(Provider {
            base_url: "https://api.example.com".to_string(),
            env_key: "MY_API_KEY".to_string(),
        }),
        env: Some(env),
        ..Default::default()
    };
    let e = launch_env(&vars, &profile, "tok");
    assert_eq!(e.get("PATH").map(String::as_str), Some("/bin"));
    assert_eq!(e.get("ANTHROPIC_MODEL"), None);
    assert_eq!(e.get("ANTHROPIC_API_KEY").map(String::as_str), Some(""));
    assert_eq!(e.get("ANTHROPIC_AUTH_TOKEN").map(String::as_str), Some("tok"));
    assert_eq!(e.get("FOO").map(String::as_str), Some("profile"));
    assert_eq!(e.len(), 5);
}
