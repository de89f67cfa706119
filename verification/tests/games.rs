use speedrun_on_linux::config::{
    Config, EnvironmentDependencies, GameConfig, GameConfigs, GameEnvironment, GameEnvironments,
    GamePath, LiveSplit, Proton, Steam,
};
use speedrun_on_linux::expand::ExpandContext;
use speedrun_on_linux::strmap::StrMap;
use speedrun_on_linux::Error;

fn test_config() -> Config {
    let mut paths: StrMap<GamePath> = StrMap::new();
    paths.insert("1.08".to_string(), GamePath::One("/games/ds3/1.08/DarkSoulsIII.exe".to_string()));
    paths.insert(
        "1.15".to_string(),
        GamePath::Many(vec![
            "/games/ds3/1.15/DarkSoulsIII.exe".to_string(),
            "--launcher".to_string(),
        ]),
    );
    paths.insert("broken".to_string(), GamePath::Many(vec![]));
    let mut games: StrMap<GameConfig> = StrMap::new();
    games.insert(
        "DarkSoulsIII".to_string(),
        GameConfig { app_id: "374320".to_string(), env: None, gamescope: false, paths },
    );
    let mut profile_env: StrMap<String> = StrMap::new();
    profile_env.insert("WINEDEBUG".to_string(), "-all".to_string());
    profile_env.insert("STEAM_DIR".to_string(), "${STEAM_PATH}".to_string());
    let mut envs = GameEnvironments::new();
    envs.insert(
        "DarkSoulsIII".to_string(),
        GameEnvironment {
            deps: EnvironmentDependencies { before: vec![], after: vec![] },
            env: profile_env,
        },
    );
    Config {
        steam: Steam { path: "/home/u/Steam".to_string() },
        proton: Proton { path: "/home/u/Proton".to_string() },
        livesplit: LiveSplit { path: "/home/u/LiveSplit".to_string() },
        games: GameConfigs(games),
        envs,
    }
}

fn env_value(env: &StrMap<String>, k: &str) -> Option<String> {
    env.get(k).cloned()
}

#[test]
fn versions_lists_all_labels_once() {
    let cfg = test_config();
    let mut vs = cfg.versions("DarkSoulsIII").expect("known game");
    vs.sort();
    assert_eq!(vs, vec!["1.08".to_string(), "1.15".to_string(), "broken".to_string()]);
    assert!(cfg.versions("Unknown").is_none());
}

#[test]
fn lookup_single_and_list_paths() {
    let cfg = test_config();
    assert_eq!(
        cfg.lookup("DarkSoulsIII", "1.08"),
        Ok(vec!["/games/ds3/1.08/DarkSoulsIII.exe".to_string()])
    );
    assert_eq!(
        cfg.lookup("DarkSoulsIII", "1.15"),
        Ok(vec!["/games/ds3/1.15/DarkSoulsIII.exe".to_string(), "--launcher".to_string()])
    );
}

#[test]
fn unknown_version_and_empty_list_fail_alike() {
    let cfg = test_config();
    assert_eq!(
        cfg.lookup("DarkSoulsIII", "9.99"),
        Err(Error::VersionNotFound("DarkSoulsIII".to_string(), "9.99".to_string()))
    );
    assert_eq!(
        cfg.lookup("DarkSoulsIII", "broken"),
        Err(Error::VersionNotFound("DarkSoulsIII".to_string(), "broken".to_string()))
    );
    assert_eq!(cfg.lookup("Unknown", "1.0"), Err(Error::GameNotFound("Unknown".to_string())));
}

#[test]
fn get_game_builds_argv_env_and_injections() {
    let cfg = test_config();
    let sys = ExpandContext::empty();
    let game = cfg.get_game("DarkSoulsIII", "1.08", &cfg, &sys).expect("game should build");
    assert_eq!(game.argv, vec!["/games/ds3/1.08/DarkSoulsIII.exe".to_string()]);
    assert_eq!(game.proton_path, "/home/u/Proton/proton".to_string());
    assert!(!game.gamescope);
    assert_eq!(env_value(&game.env, "WINEDEBUG"), Some("-all".to_string()));
    // the profile saw the configuration-path layer
    assert_eq!(env_value(&game.env, "STEAM_DIR"), Some("/home/u/Steam".to_string()));
    // the two infrastructure variables were filled in
    assert_eq!(
        env_value(&game.env, "STEAM_COMPAT_DATA_PATH"),
        Some("/home/u/Steam/steamapps/compatdata/374320".to_string())
    );
    assert_eq!(
        env_value(&game.env, "STEAM_COMPAT_CLIENT_INSTALL_PATH"),
        Some("/home/u/Proton".to_string())
    );
}

#[test]
fn profile_supplied_compat_variables_take_precedence() {
    let mut cfg = test_config();
    let mut profile_env: StrMap<String> = StrMap::new();
    profile_env.insert("STEAM_COMPAT_DATA_PATH".to_string(), "/custom".to_string());
    cfg.envs.insert(
        "DarkSoulsIII".to_string(),
        GameEnvironment {
            deps: EnvironmentDependencies { before: vec![], after: vec![] },
            env: profile_env,
        },
    );
    let sys = ExpandContext::empty();
    let game = cfg.get_game("DarkSoulsIII", "1.08", &cfg, &sys).expect("game should build");
    assert_eq!(env_value(&game.env, "STEAM_COMPAT_DATA_PATH"), Some("/custom".to_string()));
    assert_eq!(
        env_value(&game.env, "STEAM_COMPAT_CLIENT_INSTALL_PATH"),
        Some("/home/u/Proton".to_string())
    );
}

#[test]
fn get_game_unknown_game_and_version_errors() {
    let cfg = test_config();
    let sys = ExpandContext::empty();
    assert!(matches!(
        cfg.get_game("Unknown", "1.0", &cfg, &sys),
        Err(Error::GameNotFound(n)) if n == "Unknown"
    ));
    assert!(matches!(
        cfg.get_game("DarkSoulsIII", "9.99", &cfg, &sys),
        Err(Error::VersionNotFound(g, v)) if g == "DarkSoulsIII" && v == "9.99"
    ));
}

#[test]
fn get_game_follows_env_reference() {
    let mut cfg = test_config();
    // point the game at a profile under a different name
    let mut games: StrMap<GameConfig> = StrMap::new();
    let mut paths: StrMap<GamePath> = StrMap::new();
    paths.insert("1.0".to_string(), GamePath::One("/games/x.exe".to_string()));
    games.insert(
        "X".to_string(),
        GameConfig {
            app_id: "1".to_string(),
            env: Some("shared".to_string()),
            gamescope: true,
            paths,
        },
    );
    cfg.games = GameConfigs(games);
    let mut profile_env: StrMap<String> = StrMap::new();
    profile_env.insert("MARK".to_string(), "yes".to_string());
    cfg.envs.insert(
        "shared".to_string(),
        GameEnvironment {
            deps: EnvironmentDependencies { before: vec![], after: vec![] },
            env: profile_env,
        },
    );
    let sys = ExpandContext::empty();
    let game = cfg.get_game("X", "1.0", &cfg, &sys).expect("game should build");
    assert!(game.gamescope);
    assert_eq!(env_value(&game.env, "MARK"), Some("yes".to_string()));
}

#[test]
fn error_messages_name_the_cause() {
    assert_eq!(
        Error::GameNotFound("X".to_string()).message(),
        "Couldn't find game: X".to_string()
    );
    assert_eq!(
        Error::ProfileNotFound("P".to_string()).message(),
        "P: environment not found".to_string()
    );
    assert_eq!(
        Error::VersionNotFound("G".to_string(), "2".to_string()).message(),
        "Couldn't find path to version 2 for game G".to_string()
    );
}

#[test]
fn duplicate_names_are_detected() {
    let cfg = test_config();
    assert!(cfg.check_well_formed());
    let mut bad = test_config();
    bad.envs.0.pairs.push((
        "DarkSoulsIII".to_string(),
        speedrun_on_linux::config::GameEnvironment {
            deps: speedrun_on_linux::config::EnvironmentDependencies {
                before: vec![],
                after: vec![],
            },
            env: StrMap::new(),
        },
    ));
    assert!(!bad.check_well_formed());
}
