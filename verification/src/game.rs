use vstd::prelude::*;
use vstd::string::*;

use crate::config::{Config, GameConfig};
use crate::strmap::StrMap;

verus! {

/// Everything the launch step needs to spawn a game: the compatibility-layer
/// binary, the executable path with its arguments, the resolved environment,
/// and the compositor flag. The core builds this; the caller spawns it.
pub struct Game {
    pub proton_path: String,
    pub argv: Vec<String>,
    pub env: StrMap<String>,
    pub gamescope: bool,
}

/// The mathematical form of a `Game`.
pub struct GameV {
    pub proton_path: Seq<char>,
    pub argv: Seq<Seq<char>>,
    pub env: Map<Seq<char>, Seq<char>>,
    pub gamescope: bool,
}

impl View for Game {
    type V = GameV;

    open spec fn view(&self) -> GameV {
        GameV {
            proton_path: self.proton_path@,
            argv: self.argv.deep_view(),
            env: self.env@,
            gamescope: self.gamescope,
        }
    }
}

impl Game {
    /// Packs a launch description. The compatibility-layer binary is the
    /// `proton` executable under the configured path.
    pub fn new(
        argv: Vec<String>,
        env: StrMap<String>,
        config: &Config,
        game_config: &GameConfig,
    ) -> (g: Game)
        ensures
            g@.proton_path == config.proton.path@ + "/proton"@,
            g@.argv == argv.deep_view(),
            g@.env == env@,
            g.env.wf() <==> env.wf(),
            g@.gamescope == game_config.gamescope,
    {
        let proton_path = config.proton.path.clone().concat("/proton");
        let gamescope = game_config.gamescope;
        Game { argv, env, proton_path, gamescope }
    }
}

/// A copy of a list of strings, element for element.
pub fn clone_string_vec(v: &Vec<String>) -> (r: Vec<String>)
    ensures
        r@ == v@,
{
    let n = v.len();
    let mut r: Vec<String> = Vec::new();
    let mut i: usize = 0;
    while i < n
        invariant
            n == v@.len(),
            i <= n,
            r@.len() == i,
            forall|j: int| 0 <= j < i ==> r@[j] == v@[j],
        decreases n - i,
    {
        r.push(v[i].clone());
        i = i + 1;
    }
    proof {
        assert(r@ =~= v@);
    }
    r
}

} // verus!
