use vstd::prelude::*;
use vstd::string::*;

use crate::config::{build_env, extend_with, insert_str, spec_build_env, str_values, Profile};
use crate::strmap::StrMap;

verus! {

/// `s` begins with `prefix`.
pub open spec fn starts_with(s: Seq<char>, prefix: Seq<char>) -> bool {
    prefix.len() <= s.len() && s.take(prefix.len() as int) == prefix
}

/// Whether `s` begins with `prefix`.
pub fn has_prefix(s: &str, prefix: &str) -> (b: bool)
    ensures
        b == starts_with(s@, prefix@),
{
    let ls = s.unicode_len();
    let lp = prefix.unicode_len();
    if lp > ls {
        return false;
    }
    let mut i: usize = 0;
    while i < lp
        invariant
            ls == s@.len(),
            lp == prefix@.len(),
            lp <= ls,
            i <= lp,
            s@.take(i as int) == prefix@.take(i as int),
        decreases lp - i,
    {
        if s.get_char(i) != prefix.get_char(i) {
            return false;
        }
        i = i + 1;
    }
    assert(prefix@.take(lp as int) =~= prefix@);
    true
}

/// The profile named on the command line: the first argument, unless it is an
/// option (it starts with `-`).
pub open spec fn spec_profile_arg(args: Seq<Seq<char>>) -> Option<Seq<char>> {
    if args.len() > 1 && !starts_with(args[1], "-"@) {
        Some(args[1])
    } else {
        None
    }
}

/// The arguments as character sequences.
pub open spec fn args_view(args: Seq<String>) -> Seq<Seq<char>> {
    Seq::new(args.len(), |i: int| args[i]@)
}

/// The profile named on the command line (`args[0]` is the program), if any:
/// such a profile is launched directly, without the manager.
pub fn profile_arg(args: &Vec<String>) -> (name: Option<String>)
    ensures
        match name {
            Some(n) => spec_profile_arg(args_view(args@)) == Some(n@),
            None => spec_profile_arg(args_view(args@)) is None,
        },
{
    if args.len() > 1 && !has_prefix(args[1].as_str(), "-") {
        Some(args[1].clone())
    } else {
        None
    }
}

/// `args` without any argument equal to `name`.
pub open spec fn drop_all(args: Seq<Seq<char>>, name: Seq<char>) -> Seq<Seq<char>>
    decreases args.len(),
{
    if args.len() == 0 {
        Seq::empty()
    } else if args.last() == name {
        drop_all(args.drop_last(), name)
    } else {
        drop_all(args.drop_last(), name).push(args.last())
    }
}

/// The arguments after the program name, less every one equal to `name`.
pub open spec fn spec_launch_args(args: Seq<Seq<char>>, name: Seq<char>) -> Seq<Seq<char>> {
    if args.len() == 0 {
        Seq::empty()
    } else {
        drop_all(args.subrange(1, args.len() as int), name)
    }
}

/// The arguments to hand to the coding assistant: those after the program name, less
/// every one equal to the profile's name.
pub fn launch_args(args: &Vec<String>, profile_name: &str) -> (user_args: Vec<String>)
    ensures
        args_view(user_args@) == spec_launch_args(args_view(args@), profile_name@),
        args@.len() == 0 ==> user_args@.len() == 0,
        args@.len() > 0 ==> args_view(user_args@) == drop_all(
            args_view(args@).subrange(1, args@.len() as int),
            profile_name@,
        ),
{
    let n = args.len();
    let mut user_args: Vec<String> = Vec::new();
    if n == 0 {
        assert(args_view(user_args@) =~= Seq::<Seq<char>>::empty());
        return user_args;
    }
    let ghost all = args_view(args@);
    let mut i: usize = 1;
    while i < n
        invariant
            n == args@.len(),
            all == args_view(args@),
            1 <= i <= n,
            args_view(user_args@) == drop_all(all.subrange(1, i as int), profile_name@),
        decreases n - i,
    {
        assert(all.subrange(1, i + 1).drop_last() =~= all.subrange(1, i as int));
        if !same_text(args[i].as_str(), profile_name) {
            user_args.push(args[i].clone());
            assert(args_view(user_args@) =~= drop_all(all.subrange(1, i as int), profile_name@).push(
                args@[i as int]@,
            ));
        }
        i = i + 1;
    }
    user_args
}

/// Whether `a` and `b` hold the same characters.
fn same_text(a: &str, b: &str) -> (r: bool)
    ensures
        r == (a@ == b@),
{
    let r = has_prefix(a, b) && a.unicode_len() == b.unicode_len();
    proof {
        assert(a@.take(a@.len() as int) =~= a@);
    }
    r
}

/// The prefix of the variables that a profile owns.
pub open spec fn owned_prefix() -> Seq<char> {
    "ANTHROPIC_"@
}

/// The shell's variables, without those that start with `ANTHROPIC_`; a later
/// entry wins over an earlier one of the same name.
pub open spec fn shell_env(vars: Seq<(String, String)>) -> Map<Seq<char>, Seq<char>>
    decreases vars.len(),
{
    if vars.len() == 0 {
        Map::empty()
    } else if starts_with(vars.last().0@, owned_prefix()) {
        shell_env(vars.drop_last())
    } else {
        shell_env(vars.drop_last()).insert(vars.last().0@, vars.last().1@)
    }
}

/// The environment the coding assistant is launched with: the shell's variables less the
/// `ANTHROPIC_` ones, with the profile's revealed environment over them.
pub open spec fn spec_launch_env(vars: Seq<(String, String)>, profile: Profile, token: Seq<char>) -> Map<
    Seq<char>,
    Seq<char>,
> {
    shell_env(vars).union_prefer_right(spec_build_env(profile, true, token))
}

/// The environment for launching the coding assistant with `profile`: `vars` are the
/// shell's variables, `token` the value of the variable that the provider's
/// `env_key` names.
pub fn launch_env(vars: &Vec<(String, String)>, profile: &Profile, token: &str) -> (env_map: StrMap<
    String,
>)
    ensures
        str_values(env_map@) == spec_launch_env(vars@, *profile, token@),
{
    let mut env_map: StrMap<String> = StrMap::new();
    let n = vars.len();
    let mut i: usize = 0;
    while i < n
        invariant
            n == vars@.len(),
            i <= n,
            str_values(env_map@) == shell_env(vars@.take(i as int)),
        decreases n - i,
    {
        let ghost before = vars@.take(i as int);
        assert(vars@.take(i + 1).drop_last() =~= before);
        let (k, v) = &vars[i];
        if !has_prefix(k.as_str(), "ANTHROPIC_") {
            insert_str(&mut env_map, k.as_str(), v.clone());
        }
        i = i + 1;
    }
    assert(vars@.take(n as int) =~= vars@);
    // Built last over the filtered shell variables, so profile values, the
    // `env` table included, win over exported ones.
    let built = build_env(profile, true, token);
    extend_with(&mut env_map, &built);
    env_map
}

/// The profile's values win over the shell's: every variable the profile sets
/// has the profile's value.
pub proof fn lemma_profile_wins_over_shell(
    vars: Seq<(String, String)>,
    profile: Profile,
    token: Seq<char>,
    key: Seq<char>,
)
    requires
        spec_build_env(profile, true, token).contains_key(key),
    ensures
        spec_launch_env(vars, profile, token).contains_key(key),
        spec_launch_env(vars, profile, token)[key] == spec_build_env(profile, true, token)[key],
{
}

proof fn lemma_shell_env_drops_owned(vars: Seq<(String, String)>, key: Seq<char>)
    requires
        starts_with(key, owned_prefix()),
    ensures
        !shell_env(vars).contains_key(key),
    decreases vars.len(),
{
    if vars.len() > 0 {
        lemma_shell_env_drops_owned(vars.drop_last(), key);
    }
}

/// No `ANTHROPIC_` variable of the shell reaches the coding assistant: such a variable
/// is there only when the profile sets it.
pub proof fn lemma_shell_anthropic_dropped(
    vars: Seq<(String, String)>,
    profile: Profile,
    token: Seq<char>,
    key: Seq<char>,
)
    requires
        starts_with(key, owned_prefix()),
        !spec_build_env(profile, true, token).contains_key(key),
    ensures
        !spec_launch_env(vars, profile, token).contains_key(key),
{
    lemma_shell_env_drops_owned(vars, key);
}

/// The profile chosen on the command line is the first argument after the
/// program name, whatever follows it, unless that argument starts with `-`;
/// with no such argument, none is chosen.
pub proof fn lemma_profile_arg_is_first_argument(args: Seq<Seq<char>>)
    ensures
        args.len() >= 2 && (args[1].len() == 0 || args[1][0] != '-') ==> spec_profile_arg(args)
            == Some(args[1]),
        args.len() >= 2 && args[1].len() > 0 && args[1][0] == '-' ==> spec_profile_arg(args) is None,
        args.len() < 2 ==> spec_profile_arg(args) is None,
{
    reveal_strlit("-");
    if args.len() >= 2 && args[1].len() > 0 {
        assert(args[1].take(1)[0] == args[1][0]);
        if args[1][0] == '-' {
            assert(args[1].take(1) =~= "-"@);
        }
    }
}

proof fn lemma_seq_push_contains(s: Seq<Seq<char>>, x: Seq<char>, a: Seq<char>)
    ensures
        s.push(x).contains(a) <==> s.contains(a) || a == x,
{
    if s.contains(a) {
        let i = choose|i: int| 0 <= i < s.len() && s[i] == a;
        assert(s.push(x)[i] == a);
    }
    if a == x {
        assert(s.push(x)[s.len() as int] == a);
    }
    if s.push(x).contains(a) {
        let i = choose|i: int| 0 <= i < s.push(x).len() && s.push(x)[i] == a;
        if i < s.len() {
            assert(s[i] == a);
        }
    }
}

proof fn lemma_drop_all_contains(args: Seq<Seq<char>>, name: Seq<char>, a: Seq<char>)
    ensures
        drop_all(args, name).contains(a) <==> args.contains(a) && a != name,
    decreases args.len(),
{
    if args.len() == 0 {
        assert(!drop_all(args, name).contains(a));
    } else {
        let rest = args.drop_last();
        lemma_drop_all_contains(rest, name, a);
        assert(args =~= rest.push(args.last()));
        lemma_seq_push_contains(rest, args.last(), a);
        if args.last() != name {
            lemma_seq_push_contains(drop_all(rest, name), args.last(), a);
        }
    }
}

proof fn lemma_drop_all_absent(args: Seq<Seq<char>>, name: Seq<char>)
    requires
        !args.contains(name),
    ensures
        drop_all(args, name) == args,
    decreases args.len(),
{
    if args.len() > 0 {
        let rest = args.drop_last();
        assert(args =~= rest.push(args.last()));
        lemma_seq_push_contains(rest, args.last(), name);
        lemma_drop_all_absent(rest, name);
    }
}

/// The arguments handed on are those after the program name less the profile's
/// name: none of them is the name, every other argument is kept, nothing else
/// comes in, and with the name absent they are handed on as they are.
pub proof fn lemma_launch_args_drop_only_the_name(args: Seq<Seq<char>>, name: Seq<char>)
    ensures
        args.len() == 0 ==> spec_launch_args(args, name).len() == 0,
        forall|i: int|
            0 <= i < spec_launch_args(args, name).len() ==> #[trigger] spec_launch_args(args, name)[i]
                != name,
        forall|i: int|
            1 <= i < args.len() && args[i] != name ==> #[trigger] spec_launch_args(
                args,
                name,
            ).contains(args[i]),
        forall|a: Seq<char>|
            #[trigger] spec_launch_args(args, name).contains(a) ==> exists|i: int|
                1 <= i < args.len() && args[i] == a,
        args.len() > 0 && (forall|i: int| 1 <= i < args.len() ==> args[i] != name)
            ==> spec_launch_args(args, name) =~= args.subrange(1, args.len() as int),
{
    if args.len() == 0 {
        return;
    }
    let tail = args.subrange(1, args.len() as int);
    let d = drop_all(tail, name);
    assert forall|i: int| 0 <= i < d.len() implies #[trigger] d[i] != name by {
        lemma_drop_all_contains(tail, name, d[i]);
    }
    assert forall|i: int| 1 <= i < args.len() && args[i] != name implies #[trigger] d.contains(args[i]) by {
        assert(tail[i - 1] == args[i]);
        lemma_drop_all_contains(tail, name, args[i]);
    }
    assert forall|a: Seq<char>| #[trigger] d.contains(a) implies exists|i: int|
        1 <= i < args.len() && args[i] == a by {
        lemma_drop_all_contains(tail, name, a);
        let j = choose|j: int| 0 <= j < tail.len() && tail[j] == a;
        assert(args[j + 1] == a);
    }
    if forall|i: int| 1 <= i < args.len() ==> args[i] != name {
        assert(!tail.contains(name)) by {
            if tail.contains(name) {
                let j = choose|j: int| 0 <= j < tail.len() && tail[j] == name;
                assert(args[j + 1] == name);
            }
        }
        lemma_drop_all_absent(tail, name);
    }
}

/// `k` begins with `ANTHROPIC_`.
pub open spec fn is_anthropic_name(k: Seq<char>) -> bool {
    k.len() >= 10 && k.subrange(0, 10) == "ANTHROPIC_"@
}

proof fn lemma_prefix_is_anthropic(k: Seq<char>)
    ensures
        starts_with(k, owned_prefix()) == is_anthropic_name(k),
{
    reveal_strlit("ANTHROPIC_");
    if k.len() >= 10 {
        assert(k.take(10) =~= k.subrange(0, 10));
    }
}

proof fn lemma_shell_env_dom(vars: Seq<(String, String)>, k: Seq<char>)
    ensures
        shell_env(vars).contains_key(k) <==> !is_anthropic_name(k) && exists|i: int|
            0 <= i < vars.len() && (#[trigger] vars[i]).0@ == k,
    decreases vars.len(),
{
    if vars.len() > 0 {
        let rest = vars.drop_last();
        lemma_shell_env_dom(rest, k);
        lemma_prefix_is_anthropic(vars.last().0@);
        if exists|i: int| 0 <= i < rest.len() && (#[trigger] rest[i]).0@ == k {
            let i = choose|i: int| 0 <= i < rest.len() && (#[trigger] rest[i]).0@ == k;
            assert(vars[i] == rest[i]);
        }
        if exists|i: int| 0 <= i < vars.len() && (#[trigger] vars[i]).0@ == k {
            let i = choose|i: int| 0 <= i < vars.len() && (#[trigger] vars[i]).0@ == k;
            if i < vars.len() - 1 {
                assert(rest[i] == vars[i]);
            }
        }
    }
}

proof fn lemma_shell_env_value(vars: Seq<(String, String)>, k: Seq<char>, i: int)
    requires
        0 <= i < vars.len(),
        vars[i].0@ == k,
        !is_anthropic_name(k),
        forall|j: int| i < j < vars.len() ==> vars[j].0@ != k,
    ensures
        shell_env(vars).contains_key(k),
        shell_env(vars)[k] == vars[i].1@,
    decreases vars.len(),
{
    let rest = vars.drop_last();
    lemma_prefix_is_anthropic(vars.last().0@);
    if i < vars.len() - 1 {
        assert(vars[vars.len() - 1].0@ != k);
        assert(rest[i] == vars[i]);
        assert forall|j: int| i < j < rest.len() implies rest[j].0@ != k by {
            assert(rest[j] == vars[j]);
        }
        lemma_shell_env_value(rest, k, i);
    }
}

/// Every shell variable whose name does not start with `ANTHROPIC_`, and that
/// the profile does not set, reaches the launch environment with its value
/// (the last one given for that name); a variable that neither the shell (less
/// its `ANTHROPIC_` ones) nor the profile gives is not there.
pub proof fn lemma_shell_variables_pass_through(
    vars: Seq<(String, String)>,
    profile: Profile,
    token: Seq<char>,
    k: Seq<char>,
)
    ensures
        forall|i: int|
            0 <= i < vars.len() && (#[trigger] vars[i]).0@ == k && !is_anthropic_name(k)
                && !spec_build_env(profile, true, token).contains_key(k) && (forall|j: int|
                i < j < vars.len() ==> vars[j].0@ != k) ==> spec_launch_env(vars, profile, token).contains_key(k)
                && spec_launch_env(vars, profile, token)[k] == vars[i].1@,
        spec_launch_env(vars, profile, token).contains_key(k) ==> spec_build_env(profile, true, token).contains_key(k)
            || (!is_anthropic_name(k) && exists|i: int| 0 <= i < vars.len() && (#[trigger] vars[i]).0@ == k),
{
    lemma_shell_env_dom(vars, k);
    assert forall|i: int|
        0 <= i < vars.len() && (#[trigger] vars[i]).0@ == k && !is_anthropic_name(k)
            && !spec_build_env(profile, true, token).contains_key(k) && (forall|j: int|
            i < j < vars.len() ==> vars[j].0@ != k) implies spec_launch_env(vars, profile, token).contains_key(k)
            && spec_launch_env(vars, profile, token)[k] == vars[i].1@ by {
        lemma_shell_env_value(vars, k, i);
    }
}

} // verus!
