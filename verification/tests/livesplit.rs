use speedrun_on_linux::config::{Config, GameConfigs, GameEnvironments, Proton, Steam};
use speedrun_on_linux::config::LiveSplit as LiveSplitPath;
use speedrun_on_linux::livesplit::LiveSplit;
use speedrun_on_linux::strmap::StrMap;

fn test_config() -> Config {
    Config {
        steam: Steam { path: "/tmp/sol/Steam".to_string() },
        proton: Proton { path: "/tmp/sol/Steam/steamapps/common/Proton 8.0".to_string() },
        livesplit: LiveSplitPath { path: "/tmp/sol/LiveSplit".to_string() },
        games: GameConfigs(StrMap::new()),
        envs: GameEnvironments::new(),
    }
}

#[test]
fn test_livesplit() {
    let config = test_config();
    let ls = LiveSplit::new(&config);
    assert_eq!(ls.steam_path, "/tmp/sol/Steam".to_string());
    assert_eq!(ls.proton_path, "/tmp/sol/Steam/steamapps/common/Proton 8.0".to_string());
    assert_eq!(ls.livesplit_path, "/tmp/sol/LiveSplit".to_string());
}

#[test]
fn install_paths_are_under_the_configured_directory() {
    let ls = LiveSplit::new(&test_config());
    assert_eq!(ls.exe_path(), "/tmp/sol/LiveSplit/LiveSplit.exe".to_string());
    assert_eq!(ls.plugin_path(), "/tmp/sol/LiveSplit/Components/SoulSplitter.dll".to_string());
    assert_eq!(ls.components_dir(), "/tmp/sol/LiveSplit/Components".to_string());
    assert_eq!(
        ls.proton_exe(),
        "/tmp/sol/Steam/steamapps/common/Proton 8.0/proton".to_string()
    );
}

#[test]
fn launch_env_holds_the_four_entries() {
    let ls = LiveSplit::new(&test_config());
    let appid = "374320".to_string();
    let path_var = "/usr/bin:/bin".to_string();
    let env = ls.launch_env(&appid, &path_var);
    assert_eq!(env.len(), 4);
    assert_eq!(
        env.get("STEAM_COMPAT_DATA_PATH").cloned(),
        Some("/tmp/sol/Steam/steamapps/compatdata/374320".to_string())
    );
    assert_eq!(
        env.get("STEAM_COMPAT_CLIENT_INSTALL_PATH").cloned(),
        Some("/tmp/sol/Steam".to_string())
    );
    assert_eq!(
        env.get("PATH").cloned(),
        Some("/tmp/sol/Steam/steamapps/common/Proton 8.0:/usr/bin:/bin".to_string())
    );
    assert_eq!(env.get("APPID").cloned(), Some("374320".to_string()));
}
