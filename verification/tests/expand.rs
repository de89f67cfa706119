use speedrun_on_linux::expand::{expand, ExpandContext};
use speedrun_on_linux::strmap::StrMap;
use speedrun_on_linux::Error;

fn empty_env() -> StrMap<String> {
    StrMap::new()
}

#[test]
fn steam_path_substitution() {
    let mut ctx = ExpandContext::empty();
    ctx.steam_path = Some("/home/u/Steam".to_string());
    let r = expand("${STEAM_PATH}/x", &ctx, &empty_env());
    assert_eq!(r, Ok("/home/u/Steam/x".to_string()));
}

#[test]
fn proton_path_substitution() {
    let mut ctx = ExpandContext::empty();
    ctx.proton_path = Some("/opt/proton".to_string());
    let r = expand("run ${PROTON_PATH} now", &ctx, &empty_env());
    assert_eq!(r, Ok("run /opt/proton now".to_string()));
}

#[test]
fn literal_passes_through() {
    let ctx = ExpandContext::empty();
    assert_eq!(expand("plain text", &ctx, &empty_env()), Ok("plain text".to_string()));
    assert_eq!(expand("", &ctx, &empty_env()), Ok(String::new()));
}

#[test]
fn accumulated_env_substitution() {
    let ctx = ExpandContext::empty();
    let mut env = empty_env();
    env.insert("K".to_string(), "v".to_string());
    assert_eq!(expand("${K}", &ctx, &env), Ok("v".to_string()));
    assert_eq!(expand("$K", &ctx, &env), Ok("v".to_string()));
}

#[test]
fn accumulated_env_wins_over_process_env() {
    let mut ctx = ExpandContext::empty();
    ctx.process_env.insert("K".to_string(), "process".to_string());
    let mut env = empty_env();
    env.insert("K".to_string(), "accumulated".to_string());
    assert_eq!(expand("${K}", &ctx, &env), Ok("accumulated".to_string()));
}

#[test]
fn steam_path_layer_wins_over_env() {
    let mut ctx = ExpandContext::empty();
    ctx.steam_path = Some("config".to_string());
    let mut env = empty_env();
    env.insert("STEAM_PATH".to_string(), "fromenv".to_string());
    assert_eq!(expand("${STEAM_PATH}", &ctx, &env), Ok("config".to_string()));
}

#[test]
fn process_env_fallback() {
    let mut ctx = ExpandContext::empty();
    ctx.process_env.insert("SOME_VAR".to_string(), "thing".to_string());
    assert_eq!(expand("${SOME_VAR}", &ctx, &empty_env()), Ok("thing".to_string()));
}

#[test]
fn xdg_default_when_process_env_lacks_it() {
    let mut ctx = ExpandContext::empty();
    ctx.xdg_data = Some("/home/u/.local/share".to_string());
    assert_eq!(
        expand("${XDG_DATA_HOME}/db", &ctx, &empty_env()),
        Ok("/home/u/.local/share/db".to_string())
    );
}

#[test]
fn process_env_wins_over_xdg_default() {
    let mut ctx = ExpandContext::empty();
    ctx.xdg_data = Some("/default".to_string());
    ctx.process_env.insert("XDG_DATA_HOME".to_string(), "/explicit".to_string());
    assert_eq!(expand("${XDG_DATA_HOME}", &ctx, &empty_env()), Ok("/explicit".to_string()));
}

#[test]
fn tilde_expands_to_home() {
    let mut ctx = ExpandContext::empty();
    ctx.home = Some("/home/u".to_string());
    assert_eq!(expand("~/Steam", &ctx, &empty_env()), Ok("/home/u/Steam".to_string()));
    assert_eq!(expand("~", &ctx, &empty_env()), Ok("/home/u".to_string()));
}

#[test]
fn tilde_without_home_is_an_error() {
    let ctx = ExpandContext::empty();
    assert_eq!(
        expand("~/Steam", &ctx, &empty_env()),
        Err(Error::VariableNotFound("HOME".to_string()))
    );
}

#[test]
fn tilde_not_at_path_start_is_literal() {
    let ctx = ExpandContext::empty();
    assert_eq!(expand("a~b", &ctx, &empty_env()), Ok("a~b".to_string()));
    assert_eq!(expand("~user/x", &ctx, &empty_env()), Ok("~user/x".to_string()));
}

#[test]
fn unknown_variable_is_an_error_not_empty() {
    let ctx = ExpandContext::empty();
    assert_eq!(
        expand("${NOPE}", &ctx, &empty_env()),
        Err(Error::VariableNotFound("NOPE".to_string()))
    );
    assert_eq!(
        expand("x$NOPE", &ctx, &empty_env()),
        Err(Error::VariableNotFound("NOPE".to_string()))
    );
}

#[test]
fn default_value_used_when_unknown() {
    let ctx = ExpandContext::empty();
    assert_eq!(expand("${NOPE:-fallback}", &ctx, &empty_env()), Ok("fallback".to_string()));
}

#[test]
fn default_value_ignored_when_known() {
    let ctx = ExpandContext::empty();
    let mut env = empty_env();
    env.insert("K".to_string(), "v".to_string());
    assert_eq!(expand("${K:-fallback}", &ctx, &env), Ok("v".to_string()));
}

#[test]
fn malformed_syntax_is_an_error() {
    let ctx = ExpandContext::empty();
    let cases = ["$", "${}", "${X", "${X:-d", "$5", "a${ }b", "${X:}"];
    for c in cases {
        assert_eq!(
            expand(c, &ctx, &empty_env()),
            Err(Error::ExpansionError(c.to_string())),
            "case {c:?}"
        );
    }
}
