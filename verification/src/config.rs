use vstd::prelude::*;
use vstd::string::*;

use crate::strmap::{pairs_map, StrMap};

verus! {

// ── types ──────────────────────────────────────────────────────────────────

/// An API endpoint and the name of the environment variable that holds its key.
pub struct Provider {
    pub base_url: String,
    pub env_key: String,
}

/// Model names to pass to the coding assistant; unset ones are left out.
pub struct Models {
    pub default: Option<String>,
    pub default_fable: Option<String>,
    pub default_opus: Option<String>,
    pub default_sonnet: Option<String>,
    pub default_haiku: Option<String>,
    pub subagent: Option<String>,
}

/// One named configuration.
pub struct Profile {
    pub description: Option<String>,
    pub models: Option<Models>,
    pub provider: Option<Provider>,
    /// Arbitrary environment variables injected verbatim.
    /// Applied last, so they win over `models` / `provider` on key conflicts.
    pub env: Option<StrMap<String>>,
}

/// All profiles, by name.
pub struct Config {
    pub profiles: StrMap<Profile>,
}

impl Default for Models {
    fn default() -> (m: Self)
        ensures
            m.default is None,
            m.default_fable is None,
            m.default_opus is None,
            m.default_sonnet is None,
            m.default_haiku is None,
            m.subagent is None,
    {
        Models {
            default: None,
            default_fable: None,
            default_opus: None,
            default_sonnet: None,
            default_haiku: None,
            subagent: None,
        }
    }
}

impl Default for Profile {
    fn default() -> (p: Self)
        ensures
            p.description is None,
            p.models is None,
            p.provider is None,
            p.env is None,
    {
        Profile { description: None, models: None, provider: None, env: None }
    }
}

impl Config {
    /// A configuration without profiles.
    pub fn new() -> (c: Self)
        ensures
            c.profiles@ == Map::<Seq<char>, Profile>::empty(),
    {
        Config { profiles: StrMap::new() }
    }
}

// ── environment ────────────────────────────────────────────────────────────

/// The character contents of a map's string values.
pub open spec fn str_values(m: Map<Seq<char>, String>) -> Map<Seq<char>, Seq<char>> {
    m.map_values(|s: String| s@)
}

/// `m` with `key` set to the contents of `v`, if there is a `v`.
pub open spec fn insert_some(m: Map<Seq<char>, Seq<char>>, key: Seq<char>, v: Option<String>) -> Map<
    Seq<char>,
    Seq<char>,
> {
    match v {
        Some(s) => m.insert(key, s@),
        None => m,
    }
}

/// The variables that a profile's model names set.
pub open spec fn models_env(models: Option<Models>) -> Map<Seq<char>, Seq<char>> {
    match models {
        Some(m) => insert_some(
            insert_some(
                insert_some(
                    insert_some(
                        insert_some(
                            insert_some(Map::empty(), "ANTHROPIC_MODEL"@, m.default),
                            "ANTHROPIC_DEFAULT_FABLE_MODEL"@,
                            m.default_fable,
                        ),
                        "ANTHROPIC_DEFAULT_OPUS_MODEL"@,
                        m.default_opus,
                    ),
                    "ANTHROPIC_DEFAULT_SONNET_MODEL"@,
                    m.default_sonnet,
                ),
                "ANTHROPIC_DEFAULT_HAIKU_MODEL"@,
                m.default_haiku,
            ),
            "CLAUDE_CODE_SUBAGENT_MODEL"@,
            m.subagent,
        ),
        None => Map::empty(),
    }
}

/// The variables that a profile's provider sets. Revealed, the token is the
/// value of the variable the provider names; masked, it is a `$NAME` reference.
pub open spec fn provider_env(provider: Option<Provider>, reveal: bool, token: Seq<char>) -> Map<
    Seq<char>,
    Seq<char>,
> {
    match provider {
        Some(pr) => if reveal {
            Map::empty().insert("ANTHROPIC_BASE_URL"@, pr.base_url@).insert(
                "ANTHROPIC_AUTH_TOKEN"@,
                token,
            ).insert("ANTHROPIC_API_KEY"@, Seq::<char>::empty())
        } else {
            Map::empty().insert("ANTHROPIC_BASE_URL"@, pr.base_url@).insert(
                "ANTHROPIC_AUTH_TOKEN"@,
                "$"@ + pr.env_key@,
            ).insert("ANTHROPIC_API_KEY"@, "(cleared)"@)
        },
        None => Map::empty(),
    }
}

/// The profile's own `env` table.
pub open spec fn env_table(env: Option<StrMap<String>>) -> Map<Seq<char>, Seq<char>> {
    match env {
        Some(e) => str_values(e@),
        None => Map::empty(),
    }
}

/// The environment a profile starts the coding assistant with: model variables, then
/// provider variables, then the `env` table, each later one winning.
pub open spec fn spec_build_env(profile: Profile, reveal: bool, token: Seq<char>) -> Map<
    Seq<char>,
    Seq<char>,
> {
    models_env(profile.models).union_prefer_right(
        provider_env(profile.provider, reveal, token),
    ).union_prefer_right(env_table(profile.env))
}

proof fn lemma_str_values_insert(m: Map<Seq<char>, String>, k: Seq<char>, v: String)
    ensures
        str_values(m.insert(k, v)) == str_values(m).insert(k, v@),
{
}

pub(crate) fn insert_str(env_map: &mut StrMap<String>, key: &str, value: String)
    ensures
        str_values(final(env_map)@) == str_values(old(env_map)@).insert(key@, value@),
{
    proof {
        lemma_str_values_insert(env_map@, key@, value);
    }
    env_map.insert(String::from_str(key), value);
}

fn insert_if_some(env_map: &mut StrMap<String>, key: &str, value: &Option<String>)
    ensures
        str_values(final(env_map)@) == insert_some(str_values(old(env_map)@), key@, *value),
{
    match value {
        Some(v) => insert_str(env_map, key, v.clone()),
        None => {},
    }
}

/// Copies every entry of `other` into `env_map`, replacing what was there.
pub fn extend_with(env_map: &mut StrMap<String>, other: &StrMap<String>)
    ensures
        str_values(final(env_map)@) == str_values(old(env_map)@).union_prefer_right(str_values(other@)),
{
    let ghost base = str_values(env_map@);
    let n = other.len();
    let mut i: usize = 0;
    while i < n
        invariant
            n == other.pairs().len(),
            i <= n,
            str_values(env_map@) == base.union_prefer_right(
                str_values(pairs_map(other.pairs().take(i as int))),
            ),
        decreases n - i,
    {
        let ghost before = other.pairs().take(i as int);
        let ghost entry = other.pairs()[i as int];
        let k = other.key_at(i);
        let v = other.value_at(i);
        insert_str(env_map, k.as_str(), v.clone());
        proof {
            let after = other.pairs().take(i + 1);
            assert(after.drop_last() =~= before);
            lemma_str_values_insert(pairs_map(before), entry.0@, entry.1);
            assert(base.union_prefer_right(str_values(pairs_map(before))).insert(k@, v@)
                =~= base.union_prefer_right(str_values(pairs_map(before)).insert(k@, v@)));
        }
        i = i + 1;
    }
    assert(other.pairs().take(n as int) =~= other.pairs());
}

/// The environment for launching the coding assistant with `profile`.
///
/// With `reveal`, `ANTHROPIC_AUTH_TOKEN` is `token`, the value of the variable
/// that the provider's `env_key` names (the caller reads it), and
/// `ANTHROPIC_API_KEY` is empty; without, the token is shown as `$NAME` and the
/// key as `(cleared)`. The `env` table is applied last and wins on conflicts.
pub fn build_env(profile: &Profile, reveal: bool, token: &str) -> (env_map: StrMap<String>)
    ensures
        str_values(env_map@) == spec_build_env(*profile, reveal, token@),
{
    let mut env_map: StrMap<String> = StrMap::new();
    assert(str_values(env_map@) =~= Map::empty());

    if let Some(models) = &profile.models {
        insert_if_some(&mut env_map, "ANTHROPIC_MODEL", &models.default);
        insert_if_some(&mut env_map, "ANTHROPIC_DEFAULT_FABLE_MODEL", &models.default_fable);
        insert_if_some(&mut env_map, "ANTHROPIC_DEFAULT_OPUS_MODEL", &models.default_opus);
        insert_if_some(&mut env_map, "ANTHROPIC_DEFAULT_SONNET_MODEL", &models.default_sonnet);
        insert_if_some(&mut env_map, "ANTHROPIC_DEFAULT_HAIKU_MODEL", &models.default_haiku);
        insert_if_some(&mut env_map, "CLAUDE_CODE_SUBAGENT_MODEL", &models.subagent);
    }
    assert(str_values(env_map@) == models_env(profile.models));

    if let Some(provider) = &profile.provider {
        insert_str(&mut env_map, "ANTHROPIC_BASE_URL", provider.base_url.clone());
        if reveal {
            insert_str(&mut env_map, "ANTHROPIC_AUTH_TOKEN", String::from_str(token));
            insert_str(&mut env_map, "ANTHROPIC_API_KEY", String::new());
        } else {
            let mut masked = String::from_str("$");
            masked.append(provider.env_key.as_str());
            insert_str(&mut env_map, "ANTHROPIC_AUTH_TOKEN", masked);
            insert_str(&mut env_map, "ANTHROPIC_API_KEY", String::from_str("(cleared)"));
        }
    }
    assert(str_values(env_map@) =~= models_env(profile.models).union_prefer_right(
        provider_env(profile.provider, reveal, token@),
    ));

    // keep last: the env table wins over models/provider (see Profile::env).
    if let Some(env) = &profile.env {
        extend_with(&mut env_map, env);
    }
    env_map
}

/// The names of the variables a profile can set outside its `env` table are
/// all different.
proof fn lemma_variable_names_distinct()
    ensures
        "ANTHROPIC_MODEL"@.len() == 15,
        "ANTHROPIC_DEFAULT_FABLE_MODEL"@.len() == 29,
        "ANTHROPIC_DEFAULT_OPUS_MODEL"@.len() == 28,
        "ANTHROPIC_DEFAULT_SONNET_MODEL"@.len() == 30,
        "ANTHROPIC_DEFAULT_HAIKU_MODEL"@.len() == 29,
        "CLAUDE_CODE_SUBAGENT_MODEL"@.len() == 26,
        "ANTHROPIC_BASE_URL"@.len() == 18,
        "ANTHROPIC_AUTH_TOKEN"@.len() == 20,
        "ANTHROPIC_API_KEY"@.len() == 17,
        "ANTHROPIC_DEFAULT_FABLE_MODEL"@ != "ANTHROPIC_DEFAULT_HAIKU_MODEL"@,
{
    reveal_strlit("ANTHROPIC_MODEL");
    reveal_strlit("ANTHROPIC_DEFAULT_FABLE_MODEL");
    reveal_strlit("ANTHROPIC_DEFAULT_OPUS_MODEL");
    reveal_strlit("ANTHROPIC_DEFAULT_SONNET_MODEL");
    reveal_strlit("ANTHROPIC_DEFAULT_HAIKU_MODEL");
    reveal_strlit("CLAUDE_CODE_SUBAGENT_MODEL");
    reveal_strlit("ANTHROPIC_BASE_URL");
    reveal_strlit("ANTHROPIC_AUTH_TOKEN");
    reveal_strlit("ANTHROPIC_API_KEY");
    assert("ANTHROPIC_DEFAULT_FABLE_MODEL"@[18] != "ANTHROPIC_DEFAULT_HAIKU_MODEL"@[18]);
}

/// The table overrides `key`.
pub open spec fn overridden(profile: Profile, key: Seq<char>) -> bool {
    profile.env is Some && profile.env->0@.contains_key(key)
}

/// `env[key]` is the text of `v` when `v` is set, and `key` is absent otherwise.
pub open spec fn sets(env: Map<Seq<char>, Seq<char>>, key: Seq<char>, v: Option<String>) -> bool {
    match v {
        Some(s) => env.contains_key(key) && env[key] == s@,
        None => !env.contains_key(key),
    }
}

/// Each model name that is set reaches the environment under its variable,
/// and one that is unset leaves its variable out (unless the `env` table sets
/// it): `default` as `ANTHROPIC_MODEL`, `default_fable`, `default_opus`,
/// `default_sonnet` and `default_haiku` as `ANTHROPIC_DEFAULT_*_MODEL`, and
/// `subagent` as `CLAUDE_CODE_SUBAGENT_MODEL`.
pub proof fn lemma_model_names_reach_env(profile: Profile, reveal: bool, token: Seq<char>)
    ensures
        ({
            let m = models_or_default(profile.models);
            let e = spec_build_env(profile, reveal, token);
            &&& !overridden(profile, "ANTHROPIC_MODEL"@) ==> sets(e, "ANTHROPIC_MODEL"@, m.default)
            &&& !overridden(profile, "ANTHROPIC_DEFAULT_FABLE_MODEL"@) ==> sets(
                e,
                "ANTHROPIC_DEFAULT_FABLE_MODEL"@,
                m.default_fable,
            )
            &&& !overridden(profile, "ANTHROPIC_DEFAULT_OPUS_MODEL"@) ==> sets(
                e,
                "ANTHROPIC_DEFAULT_OPUS_MODEL"@,
                m.default_opus,
            )
            &&& !overridden(profile, "ANTHROPIC_DEFAULT_SONNET_MODEL"@) ==> sets(
                e,
                "ANTHROPIC_DEFAULT_SONNET_MODEL"@,
                m.default_sonnet,
            )
            &&& !overridden(profile, "ANTHROPIC_DEFAULT_HAIKU_MODEL"@) ==> sets(
                e,
                "ANTHROPIC_DEFAULT_HAIKU_MODEL"@,
                m.default_haiku,
            )
            &&& !overridden(profile, "CLAUDE_CODE_SUBAGENT_MODEL"@) ==> sets(
                e,
                "CLAUDE_CODE_SUBAGENT_MODEL"@,
                m.subagent,
            )
        }),
{
    lemma_variable_names_distinct();
}

/// With a provider, the base URL reaches `ANTHROPIC_BASE_URL`; revealed, the
/// token is `ANTHROPIC_AUTH_TOKEN` and `ANTHROPIC_API_KEY` is empty; masked,
/// the token is `$` followed by the key variable's name and the key reads
/// `(cleared)` (each unless the `env` table sets it). Without a provider none
/// of the three is set by anything but the table.
pub proof fn lemma_provider_reaches_env(profile: Profile, reveal: bool, token: Seq<char>)
    ensures
        ({
            let e = spec_build_env(profile, reveal, token);
            match profile.provider {
                Some(pr) => {
                    &&& !overridden(profile, "ANTHROPIC_BASE_URL"@) ==> e.contains_key(
                        "ANTHROPIC_BASE_URL"@,
                    ) && e["ANTHROPIC_BASE_URL"@] == pr.base_url@
                    &&& !overridden(profile, "ANTHROPIC_AUTH_TOKEN"@) ==> e.contains_key(
                        "ANTHROPIC_AUTH_TOKEN"@,
                    ) && e["ANTHROPIC_AUTH_TOKEN"@] == (if reveal {
                        token
                    } else {
                        seq!['$'] + pr.env_key@
                    })
                    &&& !overridden(profile, "ANTHROPIC_API_KEY"@) ==> e.contains_key(
                        "ANTHROPIC_API_KEY"@,
                    ) && e["ANTHROPIC_API_KEY"@] == (if reveal {
                        Seq::<char>::empty()
                    } else {
                        seq!['(', 'c', 'l', 'e', 'a', 'r', 'e', 'd', ')']
                    })
                },
                None => {
                    &&& !overridden(profile, "ANTHROPIC_BASE_URL"@) ==> !e.contains_key(
                        "ANTHROPIC_BASE_URL"@,
                    )
                    &&& !overridden(profile, "ANTHROPIC_AUTH_TOKEN"@) ==> !e.contains_key(
                        "ANTHROPIC_AUTH_TOKEN"@,
                    )
                    &&& !overridden(profile, "ANTHROPIC_API_KEY"@) ==> !e.contains_key(
                        "ANTHROPIC_API_KEY"@,
                    )
                },
            }
        }),
{
    lemma_variable_names_distinct();
    reveal_strlit("$");
    reveal_strlit("(cleared)");
    assert("(cleared)"@ =~= seq!['(', 'c', 'l', 'e', 'a', 'r', 'e', 'd', ')']);
    assert("$"@ =~= seq!['$']);
}

/// Nothing else comes into the environment: every variable in it is one of
/// the nine that model names and the provider set, or is in the `env` table.
pub proof fn lemma_env_holds_nothing_else(profile: Profile, reveal: bool, token: Seq<char>, key: Seq<char>)
    requires
        spec_build_env(profile, reveal, token).contains_key(key),
        !overridden(profile, key),
    ensures
        key == "ANTHROPIC_MODEL"@ || key == "ANTHROPIC_DEFAULT_FABLE_MODEL"@ || key
            == "ANTHROPIC_DEFAULT_OPUS_MODEL"@ || key == "ANTHROPIC_DEFAULT_SONNET_MODEL"@ || key
            == "ANTHROPIC_DEFAULT_HAIKU_MODEL"@ || key == "CLAUDE_CODE_SUBAGENT_MODEL"@ || key
            == "ANTHROPIC_BASE_URL"@ || key == "ANTHROPIC_AUTH_TOKEN"@ || key == "ANTHROPIC_API_KEY"@,
{
}

/// The `env` table wins over the model and provider variables: every key it
/// holds gets exactly its value in the built environment.
pub proof fn lemma_env_table_wins(profile: Profile, reveal: bool, token: Seq<char>, key: Seq<char>)
    requires
        profile.env is Some,
        profile.env->0@.contains_key(key),
    ensures
        spec_build_env(profile, reveal, token).contains_key(key),
        spec_build_env(profile, reveal, token)[key] == profile.env->0@[key]@,
{
}

/// A masked environment does not depend on the token: nothing secret is shown.
pub proof fn lemma_masked_env_ignores_token(profile: Profile, t1: Seq<char>, t2: Seq<char>)
    ensures
        spec_build_env(profile, false, t1) == spec_build_env(profile, false, t2),
{
}

// ── field definitions ──────────────────────────────────────────────────────

/// `None` for the empty string, the string itself otherwise.
pub open spec fn spec_none_if_empty(s: String) -> Option<String> {
    if s@.len() == 0 {
        None
    } else {
        Some(s)
    }
}

/// Maps the empty string to `None`, anything else to `Some`.
pub fn none_if_empty(s: String) -> (res: Option<String>)
    ensures
        res == spec_none_if_empty(s),
{
    if s.as_str().is_empty() {
        None
    } else {
        Some(s)
    }
}

fn clone_opt(o: &Option<String>) -> (c: Option<String>)
    ensures
        c == *o,
{
    match o {
        Some(s) => Some(s.clone()),
        None => None,
    }
}

/// The profile's model names, or none set.
pub open spec fn models_or_default(m: Option<Models>) -> Models {
    match m {
        Some(m) => m,
        None => Models {
            default: None,
            default_fable: None,
            default_opus: None,
            default_sonnet: None,
            default_haiku: None,
            subagent: None,
        },
    }
}

/// The provider's base URL, empty when there is no provider.
pub open spec fn base_url_or_empty(p: Option<Provider>) -> Seq<char> {
    match p {
        Some(p) => p.base_url@,
        None => Seq::empty(),
    }
}

/// The provider's key variable name, empty when there is no provider.
pub open spec fn env_key_or_empty(p: Option<Provider>) -> Seq<char> {
    match p {
        Some(p) => p.env_key@,
        None => Seq::empty(),
    }
}

fn take_models(p: &mut Profile) -> (m: Models)
    ensures
        m == models_or_default(old(p).models),
        final(p).models is None,
        final(p).description == old(p).description,
        final(p).provider == old(p).provider,
        final(p).env == old(p).env,
{
    match p.models.take() {
        Some(m) => m,
        None => Models::default(),
    }
}

fn take_provider(p: &mut Profile) -> (pr: Provider)
    ensures
        pr.base_url@ == base_url_or_empty(old(p).provider),
        pr.env_key@ == env_key_or_empty(old(p).provider),
        old(p).provider is Some ==> pr == old(p).provider->0,
        final(p).provider is None,
        final(p).description == old(p).description,
        final(p).models == old(p).models,
        final(p).env == old(p).env,
{
    match p.provider.take() {
        Some(pr) => pr,
        None => Provider { base_url: String::new(), env_key: String::new() },
    }
}

// Profile section

/// The description.
pub fn get_description(p: &Profile) -> (r: Option<String>)
    ensures
        r == p.description,
{
    clone_opt(&p.description)
}

/// Sets the description; the empty string unsets it.
pub fn set_description(p: &mut Profile, v: String)
    ensures
        final(p).description == spec_none_if_empty(v),
        final(p).models == old(p).models,
        final(p).provider == old(p).provider,
        final(p).env == old(p).env,
{
    p.description = none_if_empty(v);
}

// Models section

/// The `default` model name.
pub fn get_default(p: &Profile) -> (r: Option<String>)
    ensures
        r == (match p.models {
            Some(m) => m.default,
            None => None,
        }),
{
    match &p.models {
        Some(m) => clone_opt(&m.default),
        None => None,
    }
}

/// Sets the `default` model name, creating the models table if needed; the empty
/// string unsets it.
pub fn set_default(p: &mut Profile, v: String)
    ensures
        final(p).models is Some,
        final(p).models->0.default == spec_none_if_empty(v),
        final(p).models->0.default_fable == models_or_default(old(p).models).default_fable,
        final(p).models->0.default_opus == models_or_default(old(p).models).default_opus,
        final(p).models->0.default_sonnet == models_or_default(old(p).models).default_sonnet,
        final(p).models->0.default_haiku == models_or_default(old(p).models).default_haiku,
        final(p).models->0.subagent == models_or_default(old(p).models).subagent,
        final(p).description == old(p).description,
        final(p).provider == old(p).provider,
        final(p).env == old(p).env,
{
    let mut m = take_models(p);
    m.default = none_if_empty(v);
    p.models = Some(m);
}

/// The `default_fable` model name.
pub fn get_default_fable(p: &Profile) -> (r: Option<String>)
    ensures
        r == (match p.models {
            Some(m) => m.default_fable,
            None => None,
        }),
{
    match &p.models {
        Some(m) => clone_opt(&m.default_fable),
        None => None,
    }
}

/// Sets the `default_fable` model name, creating the models table if needed; the empty
/// string unsets it.
pub fn set_default_fable(p: &mut Profile, v: String)
    ensures
        final(p).models is Some,
        final(p).models->0.default_fable == spec_none_if_empty(v),
        final(p).models->0.default == models_or_default(old(p).models).default,
        final(p).models->0.default_opus == models_or_default(old(p).models).default_opus,
        final(p).models->0.default_sonnet == models_or_default(old(p).models).default_sonnet,
        final(p).models->0.default_haiku == models_or_default(old(p).models).default_haiku,
        final(p).models->0.subagent == models_or_default(old(p).models).subagent,
        final(p).description == old(p).description,
        final(p).provider == old(p).provider,
        final(p).env == old(p).env,
{
    let mut m = take_models(p);
    m.default_fable = none_if_empty(v);
    p.models = Some(m);
}

/// The `default_opus` model name.
pub fn get_default_opus(p: &Profile) -> (r: Option<String>)
    ensures
        r == (match p.models {
            Some(m) => m.default_opus,
            None => None,
        }),
{
    match &p.models {
        Some(m) => clone_opt(&m.default_opus),
        None => None,
    }
}

/// Sets the `default_opus` model name, creating the models table if needed; the empty
/// string unsets it.
pub fn set_default_opus(p: &mut Profile, v: String)
    ensures
        final(p).models is Some,
        final(p).models->0.default_opus == spec_none_if_empty(v),
        final(p).models->0.default == models_or_default(old(p).models).default,
        final(p).models->0.default_fable == models_or_default(old(p).models).default_fable,
        final(p).models->0.default_sonnet == models_or_default(old(p).models).default_sonnet,
        final(p).models->0.default_haiku == models_or_default(old(p).models).default_haiku,
        final(p).models->0.subagent == models_or_default(old(p).models).subagent,
        final(p).description == old(p).description,
        final(p).provider == old(p).provider,
        final(p).env == old(p).env,
{
    let mut m = take_models(p);
    m.default_opus = none_if_empty(v);
    p.models = Some(m);
}

/// The `default_sonnet` model name.
pub fn get_default_sonnet(p: &Profile) -> (r: Option<String>)
    ensures
        r == (match p.models {
            Some(m) => m.default_sonnet,
            None => None,
        }),
{
    match &p.models {
        Some(m) => clone_opt(&m.default_sonnet),
        None => None,
    }
}

/// Sets the `default_sonnet` model name, creating the models table if needed; the empty
/// string unsets it.
pub fn set_default_sonnet(p: &mut Profile, v: String)
    ensures
        final(p).models is Some,
        final(p).models->0.default_sonnet == spec_none_if_empty(v),
        final(p).models->0.default == models_or_default(old(p).models).default,
        final(p).models->0.default_fable == models_or_default(old(p).models).default_fable,
        final(p).models->0.default_opus == models_or_default(old(p).models).default_opus,
        final(p).models->0.default_haiku == models_or_default(old(p).models).default_haiku,
        final(p).models->0.subagent == models_or_default(old(p).models).subagent,
        final(p).description == old(p).description,
        final(p).provider == old(p).provider,
        final(p).env == old(p).env,
{
    let mut m = take_models(p);
    m.default_sonnet = none_if_empty(v);
    p.models = Some(m);
}

/// The `default_haiku` model name.
pub fn get_default_haiku(p: &Profile) -> (r: Option<String>)
    ensures
        r == (match p.models {
            Some(m) => m.default_haiku,
            None => None,
        }),
{
    match &p.models {
        Some(m) => clone_opt(&m.default_haiku),
        None => None,
    }
}

/// Sets the `default_haiku` model name, creating the models table if needed; the empty
/// string unsets it.
pub fn set_default_haiku(p: &mut Profile, v: String)
    ensures
        final(p).models is Some,
        final(p).models->0.default_haiku == spec_none_if_empty(v),
        final(p).models->0.default == models_or_default(old(p).models).default,
        final(p).models->0.default_fable == models_or_default(old(p).models).default_fable,
        final(p).models->0.default_opus == models_or_default(old(p).models).default_opus,
        final(p).models->0.default_sonnet == models_or_default(old(p).models).default_sonnet,
        final(p).models->0.subagent == models_or_default(old(p).models).subagent,
        final(p).description == old(p).description,
        final(p).provider == old(p).provider,
        final(p).env == old(p).env,
{
    let mut m = take_models(p);
    m.default_haiku = none_if_empty(v);
    p.models = Some(m);
}

/// The `subagent` model name.
pub fn get_subagent(p: &Profile) -> (r: Option<String>)
    ensures
        r == (match p.models {
            Some(m) => m.subagent,
            None => None,
        }),
{
    match &p.models {
        Some(m) => clone_opt(&m.subagent),
        None => None,
    }
}

/// Sets the `subagent` model name, creating the models table if needed; the empty
/// string unsets it.
pub fn set_subagent(p: &mut Profile, v: String)
    ensures
        final(p).models is Some,
        final(p).models->0.subagent == spec_none_if_empty(v),
        final(p).models->0.default == models_or_default(old(p).models).default,
        final(p).models->0.default_fable == models_or_default(old(p).models).default_fable,
        final(p).models->0.default_opus == models_or_default(old(p).models).default_opus,
        final(p).models->0.default_sonnet == models_or_default(old(p).models).default_sonnet,
        final(p).models->0.default_haiku == models_or_default(old(p).models).default_haiku,
        final(p).description == old(p).description,
        final(p).provider == old(p).provider,
        final(p).env == old(p).env,
{
    let mut m = take_models(p);
    m.subagent = none_if_empty(v);
    p.models = Some(m);
}

// Provider section

/// The provider's base URL, if there is a provider.
pub fn get_base_url(p: &Profile) -> (r: Option<String>)
    ensures
        r == (match p.provider {
            Some(pr) => Some(pr.base_url),
            None => None,
        }),
{
    match &p.provider {
        Some(pr) => Some(pr.base_url.clone()),
        None => None,
    }
}

/// Sets the provider's base URL, creating the provider (with an empty
/// `env_key`) if needed. The empty string leaves the profile unchanged.
pub fn set_base_url(p: &mut Profile, v: String)
    ensures
        v@.len() == 0 ==> *final(p) == *old(p),
        v@.len() != 0 ==> {
            &&& final(p).provider is Some
            &&& final(p).provider->0.base_url == v
            &&& final(p).provider->0.env_key@ == env_key_or_empty(old(p).provider)
            &&& old(p).provider is Some ==> final(p).provider->0.env_key == old(p).provider->0.env_key
            &&& final(p).description == old(p).description
            &&& final(p).models == old(p).models
            &&& final(p).env == old(p).env
        },
{
    if v.as_str().is_empty() {
        return;
    }
    let mut pr = take_provider(p);
    pr.base_url = v;
    p.provider = Some(pr);
}

/// The name of the variable that holds the provider's key, if there is a provider.
pub fn get_env_key(p: &Profile) -> (r: Option<String>)
    ensures
        r == (match p.provider {
            Some(pr) => Some(pr.env_key),
            None => None,
        }),
{
    match &p.provider {
        Some(pr) => Some(pr.env_key.clone()),
        None => None,
    }
}

/// Sets the name of the key variable, creating the provider (with an empty
/// `base_url`) if needed. The empty string is stored as it is.
pub fn set_env_key(p: &mut Profile, v: String)
    ensures
        final(p).provider is Some,
        final(p).provider->0.env_key == v,
        final(p).provider->0.base_url@ == base_url_or_empty(old(p).provider),
        old(p).provider is Some ==> final(p).provider->0.base_url == old(p).provider->0.base_url,
        final(p).description == old(p).description,
        final(p).models == old(p).models,
        final(p).env == old(p).env,
{
    let mut pr = take_provider(p);
    pr.env_key = v;
    p.provider = Some(pr);
}

// ── the editable fields of a profile ───────────────────────────────────────

/// The group a field is shown under.
#[derive(Clone, Copy, Debug, PartialEq, Eq, Structural)]
pub enum Section {
    Profile,
    Models,
    Provider,
}

impl Section {
    /// The section's heading.
    pub fn title(&self) -> (t: &'static str)
        ensures
            t@ == spec_section_title(*self),
    {
        match self {
            Section::Profile => "Profile",
            Section::Models => "Models",
            Section::Provider => "Provider",
        }
    }
}

/// The heading of a section.
pub open spec fn spec_section_title(s: Section) -> Seq<char> {
    match s {
        Section::Profile => "Profile"@,
        Section::Models => "Models"@,
        Section::Provider => "Provider"@,
    }
}

/// Which value of a profile a field reads and writes.
#[derive(Clone, Copy, Debug, PartialEq, Eq, Structural)]
pub enum Field {
    Description,
    Default,
    DefaultFable,
    DefaultOpus,
    DefaultSonnet,
    DefaultHaiku,
    Subagent,
    BaseUrl,
    EnvKey,
}

/// An editable field: its label, its section, and the value it stands for.
#[derive(Clone, Copy, Debug)]
pub struct FieldDef {
    pub label: &'static str,
    pub section: Section,
    pub field: Field,
}

/// The number of editable fields.
pub const PROFILE_FIELD_COUNT: usize = 9;

/// The field shown at position `i`.
pub open spec fn spec_field(i: int) -> Field {
    if i == 0 {
        Field::Description
    } else if i == 1 {
        Field::Default
    } else if i == 2 {
        Field::DefaultFable
    } else if i == 3 {
        Field::DefaultOpus
    } else if i == 4 {
        Field::DefaultSonnet
    } else if i == 5 {
        Field::DefaultHaiku
    } else if i == 6 {
        Field::Subagent
    } else if i == 7 {
        Field::BaseUrl
    } else {
        Field::EnvKey
    }
}

/// The section of the field at position `i`.
pub open spec fn spec_section(i: int) -> Section {
    if i == 0 {
        Section::Profile
    } else if i <= 6 {
        Section::Models
    } else {
        Section::Provider
    }
}

/// The label of the field at position `i`.
pub open spec fn spec_label(i: int) -> Seq<char> {
    if i == 0 {
        "description"@
    } else if i == 1 {
        "default"@
    } else if i == 2 {
        "fable"@
    } else if i == 3 {
        "opus"@
    } else if i == 4 {
        "sonnet"@
    } else if i == 5 {
        "haiku"@
    } else if i == 6 {
        "subagent"@
    } else if i == 7 {
        "base_url"@
    } else {
        "env_key"@
    }
}

/// The field definition at position `i`, in display order.
pub fn profile_field(i: usize) -> (fd: FieldDef)
    requires
        i < PROFILE_FIELD_COUNT,
    ensures
        fd.field == spec_field(i as int),
        fd.section == spec_section(i as int),
        fd.label@ == spec_label(i as int),
{
    if i == 0 {
        FieldDef { label: "description", section: Section::Profile, field: Field::Description }
    } else if i == 1 {
        FieldDef { label: "default", section: Section::Models, field: Field::Default }
    } else if i == 2 {
        FieldDef { label: "fable", section: Section::Models, field: Field::DefaultFable }
    } else if i == 3 {
        FieldDef { label: "opus", section: Section::Models, field: Field::DefaultOpus }
    } else if i == 4 {
        FieldDef { label: "sonnet", section: Section::Models, field: Field::DefaultSonnet }
    } else if i == 5 {
        FieldDef { label: "haiku", section: Section::Models, field: Field::DefaultHaiku }
    } else if i == 6 {
        FieldDef { label: "subagent", section: Section::Models, field: Field::Subagent }
    } else if i == 7 {
        FieldDef { label: "base_url", section: Section::Provider, field: Field::BaseUrl }
    } else {
        FieldDef { label: "env_key", section: Section::Provider, field: Field::EnvKey }
    }
}

/// All field definitions, in display order.
pub fn profile_fields() -> (fields: Vec<FieldDef>)
    ensures
        fields@.len() == PROFILE_FIELD_COUNT,
        forall|i: int|
            0 <= i < PROFILE_FIELD_COUNT ==> {
                &&& (#[trigger] fields@[i]).field == spec_field(i)
                &&& fields@[i].section == spec_section(i)
                &&& fields@[i].label@ == spec_label(i)
            },
{
    let mut fields: Vec<FieldDef> = Vec::new();
    let mut i: usize = 0;
    while i < PROFILE_FIELD_COUNT
        invariant
            i <= PROFILE_FIELD_COUNT,
            fields@.len() == i,
            forall|j: int|
                0 <= j < i ==> {
                    &&& (#[trigger] fields@[j]).field == spec_field(j)
                    &&& fields@[j].section == spec_section(j)
                    &&& fields@[j].label@ == spec_label(j)
                },
        decreases PROFILE_FIELD_COUNT - i,
    {
        fields.push(profile_field(i));
        i = i + 1;
    }
    fields
}

/// The value a field shows for a profile, `None` when unset.
pub open spec fn spec_get(f: Field, p: Profile) -> Option<String> {
    match f {
        Field::Description => p.description,
        Field::Default => models_or_default(p.models).default,
        Field::DefaultFable => models_or_default(p.models).default_fable,
        Field::DefaultOpus => models_or_default(p.models).default_opus,
        Field::DefaultSonnet => models_or_default(p.models).default_sonnet,
        Field::DefaultHaiku => models_or_default(p.models).default_haiku,
        Field::Subagent => models_or_default(p.models).subagent,
        Field::BaseUrl => match p.provider {
            Some(pr) => Some(pr.base_url),
            None => None,
        },
        Field::EnvKey => match p.provider {
            Some(pr) => Some(pr.env_key),
            None => None,
        },
    }
}

/// The characters of the value a field shows, `None` when unset.
pub open spec fn spec_get_view(f: Field, p: Profile) -> Option<Seq<char>> {
    match spec_get(f, p) {
        Some(s) => Some(s@),
        None => None,
    }
}

/// The field is one of the provider's.
pub open spec fn is_provider_field(f: Field) -> bool {
    f == Field::BaseUrl || f == Field::EnvKey
}

/// The field is one of the model names.
pub open spec fn is_model_field(f: Field) -> bool {
    !is_provider_field(f) && f != Field::Description
}

/// `None` for the empty sequence, the sequence itself otherwise.
pub open spec fn opt_nonempty(v: Seq<char>) -> Option<Seq<char>> {
    if v.len() == 0 {
        None
    } else {
        Some(v)
    }
}

/// `new` is what writing the text `v` into field `f` of `old` gives.
pub open spec fn spec_set(f: Field, old: Profile, new: Profile, v: Seq<char>) -> bool {
    &&& new.env == old.env
    &&& f != Field::Description ==> new.description == old.description
    &&& !is_model_field(f) ==> new.models == old.models
    &&& !is_provider_field(f) ==> new.provider == old.provider
    &&& match f {
        Field::Description => spec_get_view(f, new) == opt_nonempty(v),
        Field::BaseUrl => if v.len() == 0 {
            new == old
        } else {
            &&& new.provider is Some
            &&& new.provider->0.base_url@ == v
            &&& new.provider->0.env_key@ == env_key_or_empty(old.provider)
            &&& old.provider is Some ==> new.provider->0.env_key == old.provider->0.env_key
        },
        Field::EnvKey => {
            &&& new.provider is Some
            &&& new.provider->0.env_key@ == v
            &&& new.provider->0.base_url@ == base_url_or_empty(old.provider)
            &&& old.provider is Some ==> new.provider->0.base_url == old.provider->0.base_url
        },
        _ => {
            &&& new.models is Some
            &&& spec_get_view(f, new) == opt_nonempty(v)
            &&& forall|g: Field|
                is_model_field(g) && g != f ==> #[trigger] spec_get(g, new) == spec_get(g, old)
        },
    }
}

impl FieldDef {
    /// The field's value in `p`, `None` when unset.
    pub fn get(&self, p: &Profile) -> (r: Option<String>)
        ensures
            r == spec_get(self.field, *p),
    {
        match self.field {
            Field::Description => get_description(p),
            Field::Default => get_default(p),
            Field::DefaultFable => get_default_fable(p),
            Field::DefaultOpus => get_default_opus(p),
            Field::DefaultSonnet => get_default_sonnet(p),
            Field::DefaultHaiku => get_default_haiku(p),
            Field::Subagent => get_subagent(p),
            Field::BaseUrl => get_base_url(p),
            Field::EnvKey => get_env_key(p),
        }
    }

    /// Writes `v` into the field of `p`.
    pub fn set(&self, p: &mut Profile, v: String)
        ensures
            spec_set(self.field, *old(p), *final(p), v@),
    {
        match self.field {
            Field::Description => set_description(p, v),
            Field::Default => set_default(p, v),
            Field::DefaultFable => set_default_fable(p, v),
            Field::DefaultOpus => set_default_opus(p, v),
            Field::DefaultSonnet => set_default_sonnet(p, v),
            Field::DefaultHaiku => set_default_haiku(p, v),
            Field::Subagent => set_subagent(p, v),
            Field::BaseUrl => set_base_url(p, v),
            Field::EnvKey => set_env_key(p, v),
        }
    }
}

/// Reading a field back after writing it: the model names and the description
/// read back the written value, `None` for the empty string; the base URL reads
/// back the written value, and writing the empty string leaves it as it was;
/// the key variable name reads back exactly what was written.
pub proof fn lemma_get_after_set(f: Field, old: Profile, new: Profile, v: Seq<char>)
    requires
        spec_set(f, old, new, v),
    ensures
        spec_get_view(f, new) == (match f {
            Field::BaseUrl => if v.len() == 0 {
                spec_get_view(f, old)
            } else {
                Some(v)
            },
            Field::EnvKey => Some(v),
            _ => opt_nonempty(v),
        }),
{
}

/// Writing a field leaves every other field as it was, except that writing a
/// provider field into a profile without a provider makes the other provider
/// field read as the empty string.
pub proof fn lemma_set_keeps_other_fields(f: Field, g: Field, old: Profile, new: Profile, v: Seq<char>)
    requires
        spec_set(f, old, new, v),
        g != f,
    ensures
        spec_get_view(g, new) == spec_get_view(g, old) || (is_provider_field(f)
            && is_provider_field(g) && spec_get_view(g, old) is None && spec_get_view(g, new)
            == Some(Seq::<char>::empty())),
{
}

} // verus!
