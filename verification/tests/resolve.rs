use speedrun_on_linux::config::{EnvironmentDependencies, GameEnvironment, GameEnvironments};
use speedrun_on_linux::expand::ExpandContext;
use speedrun_on_linux::strmap::StrMap;
use speedrun_on_linux::Error;

fn profile(before: &[&str], after: &[&str], vars: &[(&str, &str)]) -> GameEnvironment {
    let mut env = StrMap::new();
    for (k, v) in vars {
        env.insert(k.to_string(), v.to_string());
    }
    GameEnvironment {
        deps: EnvironmentDependencies {
            before: before.iter().map(|s| s.to_string()).collect(),
            after: after.iter().map(|s| s.to_string()).collect(),
        },
        env,
    }
}

fn get<'a>(env: &'a StrMap<String>, k: &str) -> Option<&'a String> {
    env.get(k)
}

#[test]
fn no_deps_yields_own_expanded_vars() {
    let mut envs = GameEnvironments::new();
    envs.insert("base".to_string(), profile(&[], &[], &[("A", "1"), ("B", "${A}2")]));
    let ctx = ExpandContext::empty();
    let r = envs.resolve("base", &ctx).expect("resolution should succeed");
    assert_eq!(r.len(), 2);
    assert_eq!(get(&r, "A"), Some(&"1".to_string()));
    assert_eq!(get(&r, "B"), Some(&"12".to_string()));
}

#[test]
fn before_dep_merged_and_own_vars_win() {
    let mut envs = GameEnvironments::new();
    envs.insert("A".to_string(), profile(&[], &[], &[("X", "x"), ("FOO", "a")]));
    envs.insert("P".to_string(), profile(&["A"], &[], &[("FOO", "b")]));
    let ctx = ExpandContext::empty();
    let rp = envs.resolve("P", &ctx).expect("resolution should succeed");
    assert_eq!(get(&rp, "X"), Some(&"x".to_string()));
    assert_eq!(get(&rp, "FOO"), Some(&"b".to_string()));
    let ra = envs.resolve("A", &ctx).expect("resolution should succeed");
    assert_eq!(get(&ra, "FOO"), Some(&"a".to_string()));
}

#[test]
fn after_dep_sees_own_vars() {
    let mut envs = GameEnvironments::new();
    envs.insert("P".to_string(), profile(&[], &["B"], &[("V", "1")]));
    envs.insert("B".to_string(), profile(&[], &[], &[("W", "${V}!")]));
    let ctx = ExpandContext::empty();
    let r = envs.resolve("P", &ctx).expect("resolution should succeed");
    assert_eq!(get(&r, "V"), Some(&"1".to_string()));
    assert_eq!(get(&r, "W"), Some(&"1!".to_string()));
}

#[test]
fn own_vars_not_visible_to_before_deps() {
    let mut envs = GameEnvironments::new();
    envs.insert("A".to_string(), profile(&[], &[], &[("W", "${V}")]));
    envs.insert("P".to_string(), profile(&["A"], &[], &[("V", "1")]));
    let ctx = ExpandContext::empty();
    assert_eq!(envs.resolve("P", &ctx).err(), Some(Error::VariableNotFound("V".to_string())));
}

#[test]
fn missing_profile_named_at_top() {
    let envs = GameEnvironments::new();
    let ctx = ExpandContext::empty();
    assert_eq!(envs.resolve("nope", &ctx).err(), Some(Error::ProfileNotFound("nope".to_string())));
}

#[test]
fn missing_profile_named_at_depth() {
    let mut envs = GameEnvironments::new();
    envs.insert("P".to_string(), profile(&["A"], &[], &[]));
    envs.insert("A".to_string(), profile(&[], &["gone"], &[]));
    let ctx = ExpandContext::empty();
    assert_eq!(envs.resolve("P", &ctx).err(), Some(Error::ProfileNotFound("gone".to_string())));
}

#[test]
fn cyclic_dependency_is_rejected() {
    let mut envs = GameEnvironments::new();
    envs.insert("A".to_string(), profile(&["B"], &[], &[]));
    envs.insert("B".to_string(), profile(&["A"], &[], &[]));
    let ctx = ExpandContext::empty();
    assert_eq!(envs.resolve("A", &ctx).err(), Some(Error::CyclicDependency("A".to_string())));
}

#[test]
fn self_dependency_is_rejected() {
    let mut envs = GameEnvironments::new();
    envs.insert("A".to_string(), profile(&[], &["A"], &[]));
    let ctx = ExpandContext::empty();
    assert_eq!(envs.resolve("A", &ctx).err(), Some(Error::CyclicDependency("A".to_string())));
}

#[test]
fn later_writer_wins_on_same_key() {
    let mut envs = GameEnvironments::new();
    envs.insert("P".to_string(), profile(&[], &["B"], &[("K", "first")]));
    envs.insert("B".to_string(), profile(&[], &[], &[("K", "second")]));
    let ctx = ExpandContext::empty();
    let r = envs.resolve("P", &ctx).expect("resolution should succeed");
    assert_eq!(get(&r, "K"), Some(&"second".to_string()));
    assert_eq!(r.len(), 1);
}

#[test]
fn sequential_resolutions_share_no_state() {
    let mut envs = GameEnvironments::new();
    envs.insert("first".to_string(), profile(&[], &[], &[("FOO", "set")]));
    envs.insert("second".to_string(), profile(&[], &[], &[("BAR", "${FOO}")]));
    let ctx = ExpandContext::empty();
    let r1 = envs.resolve("first", &ctx).expect("resolution should succeed");
    assert_eq!(get(&r1, "FOO"), Some(&"set".to_string()));
    // the accumulator of the first call must not leak into the second
    assert_eq!(envs.resolve("second", &ctx).err(), Some(Error::VariableNotFound("FOO".to_string())));
    // and running the same resolution twice gives the same result
    let r1b = envs.resolve("first", &ctx).expect("resolution should succeed");
    assert_eq!(get(&r1b, "FOO"), Some(&"set".to_string()));
    assert_eq!(r1b.len(), r1.len());
}

#[test]
fn diamond_dependency_resolves_twice_without_cycle_error() {
    let mut envs = GameEnvironments::new();
    envs.insert("base".to_string(), profile(&[], &[], &[("N", "0")]));
    envs.insert("L".to_string(), profile(&["base"], &[], &[("A", "l")]));
    envs.insert("R".to_string(), profile(&["base"], &[], &[("B", "r")]));
    envs.insert("P".to_string(), profile(&["L", "R"], &[], &[]));
    let ctx = ExpandContext::empty();
    let r = envs.resolve("P", &ctx).expect("resolution should succeed");
    assert_eq!(get(&r, "N"), Some(&"0".to_string()));
    assert_eq!(get(&r, "A"), Some(&"l".to_string()));
    assert_eq!(get(&r, "B"), Some(&"r".to_string()));
}
