use vstd::prelude::*;
use vstd::string::*;

use crate::config::Config;
use crate::strmap::StrMap;

verus! {

/// The timer tool's launch description: the three configured paths it needs.
/// The caller checks the installation on disk, downloads what is missing,
/// finds the running game's Steam application id, and spawns the plan.
pub struct LiveSplit {
    pub steam_path: String,
    pub proton_path: String,
    pub livesplit_path: String,
}

impl LiveSplit {
    /// Captures from the configuration what the timer launch needs.
    pub fn new(config: &Config) -> (r: LiveSplit)
        ensures
            r.steam_path@ == config.steam.path@,
            r.proton_path@ == config.proton.path@,
            r.livesplit_path@ == config.livesplit.path@,
    {
        LiveSplit {
            steam_path: config.steam.path.clone(),
            proton_path: config.proton.path.clone(),
            livesplit_path: config.livesplit.path.clone(),
        }
    }

    /// The compatibility-layer binary to spawn.
    pub fn proton_exe(&self) -> (r: String)
        ensures
            r@ == self.proton_path@ + "/proton"@,
    {
        self.proton_path.clone().concat("/proton")
    }

    /// The timer executable inside the installation.
    pub fn exe_path(&self) -> (r: String)
        ensures
            r@ == self.livesplit_path@ + "/LiveSplit.exe"@,
    {
        self.livesplit_path.clone().concat("/LiveSplit.exe")
    }

    /// The plugin library inside the installation.
    pub fn plugin_path(&self) -> (r: String)
        ensures
            r@ == self.livesplit_path@ + "/Components/SoulSplitter.dll"@,
    {
        self.livesplit_path.clone().concat("/Components/SoulSplitter.dll")
    }

    /// Where the plugin archive is unpacked.
    pub fn components_dir(&self) -> (r: String)
        ensures
            r@ == self.livesplit_path@ + "/Components"@,
    {
        self.livesplit_path.clone().concat("/Components")
    }

    /// The environment the timer is launched with: the compatibility-data
    /// path of the running game, the client install path, the caller's PATH
    /// value behind the compatibility layer's own directory, and the raw
    /// application id.
    pub fn launch_env(&self, steam_appid: &String, path_var: &String) -> (r: StrMap<String>)
        ensures
            r.wf(),
            r@ == Map::<Seq<char>, Seq<char>>::empty().insert(
                "STEAM_COMPAT_DATA_PATH"@,
                self.steam_path@ + "/steamapps/compatdata/"@ + steam_appid@,
            ).insert("STEAM_COMPAT_CLIENT_INSTALL_PATH"@, self.steam_path@).insert(
                "PATH"@,
                self.proton_path@ + ":"@ + path_var@,
            ).insert("APPID"@, steam_appid@),
    {
        let mut r: StrMap<String> = StrMap::new();
        r.insert(
            String::from_str("STEAM_COMPAT_DATA_PATH"),
            crate::config::compat_data_path(&self.steam_path, steam_appid.as_str()),
        );
        r.insert(String::from_str("STEAM_COMPAT_CLIENT_INSTALL_PATH"), self.steam_path.clone());
        r.insert(
            String::from_str("PATH"),
            self.proton_path.clone().concat(":").concat(path_var.as_str()),
        );
        r.insert(String::from_str("APPID"), steam_appid.clone());
        r
    }
}

} // verus!
