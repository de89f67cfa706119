use vstd::prelude::*;
use vstd::set_lib::lemma_len_subset;

use crate::expand::{expand, expand_spec, CtxSpec, ExpandContext};
use crate::strmap::{lemma_map_of_dom, str_eq, StrMap};
use crate::{Error, SpecError};

verus! {

/// Where the Steam installation lives.
pub struct Steam {
    pub path: String,
}

/// Where the compatibility layer lives.
pub struct Proton {
    pub path: String,
}

/// Where the timer tool lives.
pub struct LiveSplit {
    pub path: String,
}

/// The executable for one version of a game: either a single path, or a path
/// followed by extra launch arguments.
pub enum GamePath {
    One(String),
    Many(Vec<String>),
}

/// The mathematical form of a `GamePath`.
pub enum GamePathSpec {
    One(Seq<char>),
    Many(Seq<Seq<char>>),
}

impl DeepView for GamePath {
    type V = GamePathSpec;

    open spec fn deep_view(&self) -> GamePathSpec {
        match self {
            GamePath::One(s) => GamePathSpec::One(s@),
            GamePath::Many(v) => GamePathSpec::Many(v.deep_view()),
        }
    }
}

/// One game entry: its Steam application id, an optional reference to the
/// environment profile it launches under (its own name when absent), whether
/// it runs under the gamescope compositor, and its version-to-path mapping.
pub struct GameConfig {
    pub app_id: String,
    pub env: Option<String>,
    pub gamescope: bool,
    pub paths: StrMap<GamePath>,
}

/// The mathematical form of a `GameConfig`.
pub struct GameConfigSpec {
    pub app_id: Seq<char>,
    pub env: Option<Seq<char>>,
    pub gamescope: bool,
    pub paths: Map<Seq<char>, GamePathSpec>,
}

impl DeepView for GameConfig {
    type V = GameConfigSpec;

    open spec fn deep_view(&self) -> GameConfigSpec {
        GameConfigSpec {
            app_id: self.app_id@,
            env: self.env.deep_view(),
            gamescope: self.gamescope,
            paths: self.paths@,
        }
    }
}

/// The games of the configuration, by name.
pub struct GameConfigs(pub StrMap<GameConfig>);

/// The profiles a profile asks to have resolved before and after its own
/// variables, each list in sequence order.
pub struct EnvironmentDependencies {
    pub before: Vec<String>,
    pub after: Vec<String>,
}

/// One environment profile: its ordering dependencies and its own variables,
/// raw strings that may contain variable references.
pub struct GameEnvironment {
    pub deps: EnvironmentDependencies,
    pub env: StrMap<String>,
}

/// The mathematical form of a `GameEnvironment`.
pub struct ProfileSpec {
    pub before: Seq<Seq<char>>,
    pub after: Seq<Seq<char>>,
    pub vars: Seq<(Seq<char>, Seq<char>)>,
}

impl DeepView for GameEnvironment {
    type V = ProfileSpec;

    open spec fn deep_view(&self) -> ProfileSpec {
        ProfileSpec {
            before: self.deps.before.deep_view(),
            after: self.deps.after.deep_view(),
            vars: self.env.entries(),
        }
    }
}

/// The environment profiles of the configuration, by name.
pub struct GameEnvironments(pub StrMap<GameEnvironment>);

impl View for GameEnvironments {
    type V = Map<Seq<char>, ProfileSpec>;

    open spec fn view(&self) -> Map<Seq<char>, ProfileSpec> {
        self.0@
    }
}

/// The whole configuration: three filesystem locations and the two name maps.
/// Read-only once built; resolution never changes it.
pub struct Config {
    pub steam: Steam,
    pub proton: Proton,
    pub livesplit: LiveSplit,
    pub games: GameConfigs,
    pub envs: GameEnvironments,
}

impl Config {
    pub open spec fn wf(&self) -> bool {
        &&& self.games.0.wf()
        &&& self.envs.0.wf()
        &&& forall|i: int|
            0 <= i < self.games.0.spec_len() ==> (#[trigger] self.games.0.value_at(i)).paths.wf()
    }
}

/// Applies a profile's own variables, in order, to an accumulated
/// environment: each raw value is expanded against the environment built so
/// far, then written over any existing entry for its key.
pub open spec fn apply_vars_spec(
    vars: Seq<(Seq<char>, Seq<char>)>,
    ctx: CtxSpec,
    env: Map<Seq<char>, Seq<char>>,
) -> Result<Map<Seq<char>, Seq<char>>, SpecError>
    decreases vars.len(),
{
    if vars.len() == 0 {
        Ok(env)
    } else {
        match expand_spec(vars[0].1, ctx, env) {
            Ok(val) => apply_vars_spec(vars.drop_first(), ctx, env.insert(vars[0].0, val)),
            Err(e) => Err(e),
        }
    }
}

pub proof fn lemma_visiting_measure(
    dom: Set<Seq<char>>,
    visiting: Set<Seq<char>>,
    name: Seq<char>,
)
    requires
        dom.finite(),
        dom.contains(name),
        !visiting.contains(name),
    ensures
        dom.difference(visiting.insert(name)).len() < dom.difference(visiting).len(),
{
    let d = dom.difference(visiting);
    assert(dom.difference(visiting.insert(name)) =~= d.remove(name));
    assert(d.contains(name));
    assert(d.subset_of(dom));
    lemma_len_subset(d, dom);
    vstd::set::axiom_set_remove_len(d, name);
}

/// Depth-first resolution of one profile: its `before` dependencies, then its
/// own variables, then its `after` dependencies, all merging into one shared
/// accumulator. A name absent from the configuration fails with
/// `ProfileNotFound`; re-entering a profile that is still being resolved
/// fails with `CyclicDependency`. All-or-nothing: any failure aborts the
/// whole traversal.
pub open spec fn resolve_one_spec(
    profiles: Map<Seq<char>, ProfileSpec>,
    ctx: CtxSpec,
    env: Map<Seq<char>, Seq<char>>,
    visiting: Set<Seq<char>>,
    name: Seq<char>,
) -> Result<Map<Seq<char>, Seq<char>>, SpecError>
    decreases profiles.dom().difference(visiting).len(), 0int, 0int
        when profiles.dom().finite()
{
    if !profiles.dom().contains(name) {
        Err(SpecError::ProfileNotFound(name))
    } else if visiting.contains(name) {
        Err(SpecError::CyclicDependency(name))
    } else {
        let p = profiles[name];
        let v2 = visiting.insert(name);
        proof {
            lemma_visiting_measure(profiles.dom(), visiting, name);
        }
        match resolve_list_spec(profiles, ctx, env, v2, p.before) {
            Ok(e1) => match apply_vars_spec(p.vars, ctx, e1) {
                Ok(e2) => resolve_list_spec(profiles, ctx, e2, v2, p.after),
                Err(e) => Err(e),
            },
            Err(e) => Err(e),
        }
    }
}

/// Resolves a dependency list in sequence order, threading the accumulator.
pub open spec fn resolve_list_spec(
    profiles: Map<Seq<char>, ProfileSpec>,
    ctx: CtxSpec,
    env: Map<Seq<char>, Seq<char>>,
    visiting: Set<Seq<char>>,
    names: Seq<Seq<char>>,
) -> Result<Map<Seq<char>, Seq<char>>, SpecError>
    decreases profiles.dom().difference(visiting).len(), 1int, names.len()
        when profiles.dom().finite()
{
    if names.len() == 0 {
        Ok(env)
    } else {
        match resolve_one_spec(profiles, ctx, env, visiting, names[0]) {
            Ok(e) => resolve_list_spec(profiles, ctx, e, visiting, names.drop_first()),
            Err(e) => Err(e),
        }
    }
}

/// Resolution of a named profile from scratch: an empty accumulator and an
/// empty chain of profiles underway.
pub open spec fn resolve_spec(
    profiles: Map<Seq<char>, ProfileSpec>,
    ctx: CtxSpec,
    name: Seq<char>,
) -> Result<Map<Seq<char>, Seq<char>>, SpecError> {
    resolve_one_spec(profiles, ctx, Map::empty(), Set::empty(), name)
}

/// The set of names held by a chain of profile names.
pub open spec fn names_set(v: Seq<String>) -> Set<Seq<char>> {
    Set::new(|x: Seq<char>| exists|i: int| 0 <= i < v.len() && v[i]@ == x)
}

pub proof fn lemma_names_set_push(v: Seq<String>, s: String)
    ensures
        names_set(v.push(s)) =~= names_set(v).insert(s@),
{
    assert forall|x: Seq<char>| names_set(v.push(s)).contains(x) implies names_set(v).insert(
        s@,
    ).contains(x) by {
        let i = choose|i: int| 0 <= i < v.push(s).len() && v.push(s)[i]@ == x;
        if i < v.len() {
            assert(v[i]@ == x);
        } else {
            assert(x == s@);
        }
    }
    assert forall|x: Seq<char>| names_set(v).insert(s@).contains(x) implies names_set(
        v.push(s),
    ).contains(x) by {
        if x == s@ {
            assert(v.push(s)[v.len() as int]@ == x);
        } else {
            let i = choose|i: int| 0 <= i < v.len() && v[i]@ == x;
            assert(v.push(s)[i]@ == x);
        }
    }
}

fn vec_contains_str(v: &Vec<String>, s: &str) -> (r: bool)
    ensures
        r == names_set(v@).contains(s@),
{
    let n = v.len();
    let mut i: usize = 0;
    while i < n
        invariant
            n == v@.len(),
            i <= n,
            forall|j: int| 0 <= j < i ==> v@[j]@ != s@,
        decreases n - i,
    {
        if str_eq(v[i].as_str(), s) {
            proof {
                assert(names_set(v@).contains(s@));
            }
            return true;
        }
        i = i + 1;
    }
    false
}

impl GameEnvironment {
    /// Expands and writes this profile's own variables into the accumulator.
    fn apply(&self, env: &mut StrMap<String>, ctx: &ExpandContext) -> (r: Result<(), Error>)
        requires
            old(env).wf(),
            ctx.wf(),
        ensures
            final(env).wf(),
            match r {
                Ok(_) => apply_vars_spec(self.deep_view().vars, ctx@, old(env)@) == Ok::<
                    _,
                    SpecError,
                >(final(env)@),
                Err(e) => apply_vars_spec(self.deep_view().vars, ctx@, old(env)@) == Err::<
                    Map<Seq<char>, Seq<char>>,
                    _,
                >(e@),
            },
    {
        let ghost vars = self.deep_view().vars;
        let n = self.env.len();
        let mut j: usize = 0;
        proof {
            assert(vars.skip(0) =~= vars);
        }
        while j < n
            invariant
                j <= n,
                n == self.env.spec_len(),
                vars == self.deep_view().vars,
                env.wf(),
                ctx.wf(),
                apply_vars_spec(vars, ctx@, old(env)@) == apply_vars_spec(
                    vars.skip(j as int),
                    ctx@,
                    env@,
                ),
            decreases n - j,
        {
            let p = self.env.pair_at(j);
            let key = p.0;
            let raw = p.1;
            proof {
                assert(vars[j as int] == (key@, raw@));
                assert(vars.skip(j as int)[0] == vars[j as int]);
                assert(vars.skip(j as int).drop_first() =~= vars.skip(j as int + 1));
            }
            match expand(raw.as_str(), ctx, env) {
                Ok(val) => {
                    env.insert(key.clone(), val);
                },
                Err(e) => {
                    return Err(e);
                },
            }
            j = j + 1;
        }
        proof {
            assert(vars.skip(n as int) =~= Seq::<(Seq<char>, Seq<char>)>::empty());
        }
        Ok(())
    }
}

impl GameEnvironments {
    pub open spec fn wf(&self) -> bool {
        self.0.wf()
    }

    /// An empty set of profiles.
    pub fn new() -> (r: Self)
        ensures
            r@ == Map::<Seq<char>, ProfileSpec>::empty(),
            r.wf(),
    {
        GameEnvironments(StrMap::new())
    }

    /// Adds or replaces a profile under a name.
    pub fn insert(&mut self, name: String, profile: GameEnvironment)
        requires
            old(self).wf(),
        ensures
            final(self).wf(),
            final(self)@ == old(self)@.insert(name@, profile.deep_view()),
    {
        self.0.insert(name, profile);
    }

    fn traverse(
        &self,
        env: &mut StrMap<String>,
        visiting: &mut Vec<String>,
        current: &str,
        ctx: &ExpandContext,
    ) -> (r: Result<(), Error>)
        requires
            self.wf(),
            old(env).wf(),
            ctx.wf(),
        ensures
            final(env).wf(),
            final(visiting)@ == old(visiting)@,
            match r {
                Ok(_) => resolve_one_spec(
                    self@,
                    ctx@,
                    old(env)@,
                    names_set(old(visiting)@),
                    current@,
                ) == Ok::<_, SpecError>(final(env)@),
                Err(e) => resolve_one_spec(
                    self@,
                    ctx@,
                    old(env)@,
                    names_set(old(visiting)@),
                    current@,
                ) == Err::<Map<Seq<char>, Seq<char>>, _>(e@),
            },
        decreases self@.dom().difference(names_set(old(visiting)@)).len(),
    {
        let ghost profiles = self@;
        let ghost v0 = names_set(old(visiting)@);
        proof {
            lemma_map_of_dom(self.0.entries());
        }
        let prof = match self.0.get(current) {
            None => {
                return Err(Error::ProfileNotFound(current.to_owned()));
            },
            Some(p) => p,
        };
        let ghost pspec = prof.deep_view();
        if vec_contains_str(visiting, current) {
            return Err(Error::CyclicDependency(current.to_owned()));
        }
        let ghost env0 = env@;
        visiting.push(current.to_owned());
        let ghost v2 = names_set(visiting@);
        let ghost chain = visiting@;
        proof {
            lemma_names_set_push(old(visiting)@, chain.last());
            assert(v2 == v0.insert(current@));
            assert(profiles.dom().contains(current@));
            assert(!v0.contains(current@));
            lemma_visiting_measure(profiles.dom(), v0, current@);
            assert(chain.drop_last() =~= old(visiting)@);
        }
        // the profiles listed before this one, in sequence order
        let nb = prof.deps.before.len();
        let mut k: usize = 0;
        proof {
            assert(pspec.before.skip(0) =~= pspec.before);
        }
        while k < nb
            invariant
                k <= nb,
                nb == prof.deps.before@.len(),
                self.wf(),
                ctx.wf(),
                env.wf(),
                profiles == self@,
                profiles.dom().finite(),
                profiles.dom().contains(current@),
                !v0.contains(current@),
                v0 == names_set(old(visiting)@),
                env0 == old(env)@,
                chain.len() == old(visiting)@.len() + 1,
                pspec == prof.deep_view(),
                prof.deep_view() == profiles[current@],
                visiting@ == chain,
                names_set(chain) == v2,
                v2 == v0.insert(current@),
                chain.drop_last() == old(visiting)@,
                resolve_list_spec(profiles, ctx@, env0, v2, pspec.before) == resolve_list_spec(
                    profiles,
                    ctx@,
                    env@,
                    v2,
                    pspec.before.skip(k as int),
                ),
            decreases nb - k,
        {
            let node = &prof.deps.before[k];
            proof {
                assert(pspec.before[k as int] == node@);
                assert(pspec.before.skip(k as int)[0] == pspec.before[k as int]);
                assert(pspec.before.skip(k as int).drop_first() =~= pspec.before.skip(
                    k as int + 1,
                ));
                lemma_visiting_measure(profiles.dom(), v0, current@);
            }
            match self.traverse(env, visiting, node.as_str(), ctx) {
                Ok(_) => {},
                Err(e) => {
                    proof {
                        assert(resolve_list_spec(profiles, ctx@, env0, v2, pspec.before) == Err::<
                            Map<Seq<char>, Seq<char>>,
                            SpecError,
                        >(e@));
                        assert(resolve_one_spec(profiles, ctx@, env0, v0, current@) == Err::<
                            Map<Seq<char>, Seq<char>>,
                            SpecError,
                        >(e@));
                    }
                    visiting.pop();
                    return Err(e);
                },
            }
            k = k + 1;
        }
        proof {
            assert(pspec.before.skip(nb as int) =~= Seq::<Seq<char>>::empty());
            assert(resolve_list_spec(profiles, ctx@, env0, v2, pspec.before) == Ok::<
                _,
                SpecError,
            >(env@));
        }
        // this profile's own variables
        let ghost env1 = env@;
        match prof.apply(env, ctx) {
            Ok(_) => {},
            Err(e) => {
                visiting.pop();
                return Err(e);
            },
        }
        // the profiles listed after this one, in sequence order
        let ghost env2 = env@;
        let na = prof.deps.after.len();
        let mut k2: usize = 0;
        proof {
            assert(pspec.after.skip(0) =~= pspec.after);
        }
        while k2 < na
            invariant
                k2 <= na,
                na == prof.deps.after@.len(),
                self.wf(),
                ctx.wf(),
                env.wf(),
                profiles == self@,
                profiles.dom().finite(),
                profiles.dom().contains(current@),
                !v0.contains(current@),
                v0 == names_set(old(visiting)@),
                env0 == old(env)@,
                chain.len() == old(visiting)@.len() + 1,
                pspec == prof.deep_view(),
                prof.deep_view() == profiles[current@],
                visiting@ == chain,
                names_set(chain) == v2,
                v2 == v0.insert(current@),
                chain.drop_last() == old(visiting)@,
                resolve_list_spec(profiles, ctx@, env2, v2, pspec.after) == resolve_list_spec(
                    profiles,
                    ctx@,
                    env@,
                    v2,
                    pspec.after.skip(k2 as int),
                ),
                resolve_list_spec(profiles, ctx@, env0, v2, pspec.before) == Ok::<_, SpecError>(
                    env1,
                ),
                apply_vars_spec(pspec.vars, ctx@, env1) == Ok::<_, SpecError>(env2),
            decreases na - k2,
        {
            let node = &prof.deps.after[k2];
            proof {
                assert(pspec.after[k2 as int] == node@);
                assert(pspec.after.skip(k2 as int)[0] == pspec.after[k2 as int]);
                assert(pspec.after.skip(k2 as int).drop_first() =~= pspec.after.skip(
                    k2 as int + 1,
                ));
                lemma_visiting_measure(profiles.dom(), v0, current@);
            }
            match self.traverse(env, visiting, node.as_str(), ctx) {
                Ok(_) => {},
                Err(e) => {
                    proof {
                        assert(resolve_list_spec(profiles, ctx@, env2, v2, pspec.after) == Err::<
                            Map<Seq<char>, Seq<char>>,
                            SpecError,
                        >(e@));
                        assert(resolve_one_spec(profiles, ctx@, env0, v0, current@) == Err::<
                            Map<Seq<char>, Seq<char>>,
                            SpecError,
                        >(e@));
                    }
                    visiting.pop();
                    return Err(e);
                },
            }
            k2 = k2 + 1;
        }
        proof {
            assert(pspec.after.skip(na as int) =~= Seq::<Seq<char>>::empty());
            assert(resolve_list_spec(profiles, ctx@, env2, v2, pspec.after) == Ok::<
                _,
                SpecError,
            >(env@));
        }
        visiting.pop();
        Ok(())
    }

    /// Resolves the complete environment for a named profile. Each call
    /// starts from a fresh, empty accumulator, so the result is a function of
    /// the configuration, the context and the name alone: sequential calls
    /// never observe each other's state.
    pub fn resolve(&self, name: &str, ctx: &ExpandContext) -> (r: Result<StrMap<String>, Error>)
        requires
            self.wf(),
            ctx.wf(),
        ensures
            match r {
                Ok(env) => env.wf() && resolve_spec(self@, ctx@, name@) == Ok::<_, SpecError>(
                    env@,
                ),
                Err(e) => resolve_spec(self@, ctx@, name@) == Err::<
                    Map<Seq<char>, Seq<char>>,
                    _,
                >(e@),
            },
    {
        let mut env: StrMap<String> = StrMap::new();
        let mut visiting: Vec<String> = Vec::new();
        proof {
            assert(names_set(visiting@) =~= Set::<Seq<char>>::empty());
            assert(env@ =~= Map::<Seq<char>, Seq<char>>::empty());
        }
        match self.traverse(&mut env, &mut visiting, name, ctx) {
            Ok(_) => Ok(env),
            Err(e) => Err(e),
        }
    }
}


/// The path where Steam keeps a game's compatibility data, under the Steam
/// installation, named by the game's application id.
pub fn compat_data_path(steam_path: &String, app_id: &str) -> (r: String)
    ensures
        r@ == steam_path@ + "/steamapps/compatdata/"@ + app_id@,
{
    steam_path.clone().concat("/steamapps/compatdata/").concat(app_id)
}

/// The executable paths for one version of a game: a single path stands
/// alone, a non-empty list is taken as it is, and an absent version or an
/// empty list is `VersionNotFound`, naming the game and the version.
pub open spec fn lookup_paths_spec(
    g: GameConfigSpec,
    name: Seq<char>,
    version: Seq<char>,
) -> Result<Seq<Seq<char>>, SpecError> {
    if !g.paths.contains_key(version) {
        Err(SpecError::VersionNotFound(name, version))
    } else {
        match g.paths[version] {
            GamePathSpec::One(p) => Ok(seq![p]),
            GamePathSpec::Many(v) => if v.len() > 0 {
                Ok(v)
            } else {
                Err(SpecError::VersionNotFound(name, version))
            },
        }
    }
}

/// The launch description for one version of a game: the game is looked up,
/// its profile (its `env` reference, or its own name) is resolved against the
/// configuration paths and the given system context, the version's paths are
/// looked up, and the two compatibility variables are filled in only where
/// the resolved environment did not set them itself.
pub open spec fn get_game_spec(
    games: Map<Seq<char>, GameConfigSpec>,
    profiles: Map<Seq<char>, ProfileSpec>,
    steam: Seq<char>,
    proton: Seq<char>,
    sys: CtxSpec,
    name: Seq<char>,
    version: Seq<char>,
) -> Result<crate::game::GameV, SpecError> {
    let ctx = CtxSpec { steam_path: Some(steam), proton_path: Some(proton), ..sys };
    if !games.contains_key(name) {
        Err(SpecError::GameNotFound(name))
    } else {
        let g = games[name];
        let env_name = match g.env {
            Some(e) => e,
            None => name,
        };
        match resolve_spec(profiles, ctx, env_name) {
            Ok(env) => match lookup_paths_spec(g, name, version) {
                Ok(argv) => {
                    let env1 = if env.contains_key("STEAM_COMPAT_DATA_PATH"@) {
                        env
                    } else {
                        env.insert(
                            "STEAM_COMPAT_DATA_PATH"@,
                            steam + "/steamapps/compatdata/"@ + g.app_id,
                        )
                    };
                    let env2 = if env1.contains_key("STEAM_COMPAT_CLIENT_INSTALL_PATH"@) {
                        env1
                    } else {
                        env1.insert("STEAM_COMPAT_CLIENT_INSTALL_PATH"@, proton)
                    };
                    Ok(
                        crate::game::GameV {
                            proton_path: proton + "/proton"@,
                            argv,
                            env: env2,
                            gamescope: g.gamescope,
                        },
                    )
                },
                Err(e) => Err(e),
            },
            Err(e) => Err(e),
        }
    }
}


/// A list that holds exactly the keys of a mapping, each once.
pub open spec fn lists_keys_of(ks: Seq<Seq<char>>, m: Map<Seq<char>, GamePathSpec>) -> bool {
    &&& forall|i: int| 0 <= i < ks.len() ==> m.contains_key(#[trigger] ks[i])
    &&& forall|k: Seq<char>| #[trigger] m.contains_key(k) ==> ks.contains(k)
    &&& forall|i: int, j: int| 0 <= i < j < ks.len() ==> ks[i] != ks[j]
}

impl Config {
    /// Decides well-formedness at run time: no duplicate game, profile or
    /// version names anywhere in the configuration.
    pub fn check_well_formed(&self) -> (r: bool)
        ensures
            r == self.wf(),
    {
        if !self.games.0.keys_unique() {
            return false;
        }
        if !self.envs.0.keys_unique() {
            return false;
        }
        let n = self.games.0.len();
        let mut i: usize = 0;
        while i < n
            invariant
                n == self.games.0.spec_len(),
                i <= n,
                self.games.0.wf(),
                self.envs.0.wf(),
                forall|j: int|
                    0 <= j < i ==> (#[trigger] self.games.0.value_at(j)).paths.wf(),
            decreases n - i,
        {
            let g = self.games.0.pair_at(i).1;
            if !g.paths.keys_unique() {
                return false;
            }
            i = i + 1;
        }
        true
    }

    /// The version labels configured for a game: exactly the keys of its
    /// version-to-path mapping, each once, or nothing for an unknown game.
    pub fn versions(&self, name: &str) -> (r: Option<Vec<String>>)
        requires
            self.wf(),
        ensures
            match r {
                Some(ks) => self.games.0@.contains_key(name@) && lists_keys_of(
                    ks.deep_view(),
                    self.games.0@[name@].paths,
                ),
                None => !self.games.0@.contains_key(name@),
            },
    {
        match self.games.0.get(name) {
            Some(g) => {
                proof {
                    let w = choose|w: int|
                        0 <= w < self.games.0.spec_len() && self.games.0.key_at(w) == name@
                            && *g == self.games.0.value_at(w);
                    assert(self.games.0.value_at(w).paths.wf());
                    lemma_map_of_dom(g.paths.entries());
                }
                let ks = g.paths.keys();
                proof {
                    let kv = ks.deep_view();
                    let m = g.paths@;
                    assert(self.games.0@[name@] == g.deep_view());
                    assert(self.games.0@[name@].paths == m);
                    assert(kv.len() == g.paths.spec_len());
                    assert forall|i: int| 0 <= i < kv.len() implies m.contains_key(
                        #[trigger] kv[i],
                    ) by {
                        assert(kv[i] == ks@[i]@);
                        assert(ks@[i]@ == g.paths.key_at(i));
                        assert(g.paths.entries()[i].0 == g.paths.key_at(i));
                    }
                    assert forall|k: Seq<char>| #[trigger] m.contains_key(k) implies kv.contains(
                        k,
                    ) by {
                        let i = choose|i: int|
                            0 <= i < g.paths.entries().len() && g.paths.entries()[i].0 == k;
                        assert(g.paths.key_at(i) == k);
                        assert(ks@[i]@ == k);
                        assert(kv[i] == k);
                    }
                    assert forall|i: int, j: int|
                        0 <= i < j < kv.len() implies kv[i] != kv[j] by {
                        assert(kv[i] == g.paths.key_at(i));
                        assert(kv[j] == g.paths.key_at(j));
                    }
                    assert(lists_keys_of(kv, m));
                }
                Some(ks)
            },
            None => None,
        }
    }

    /// Looks up the executable paths for one version of a game. An unknown
    /// game fails with `GameNotFound`; a known game with no entry for the
    /// version, or an entry holding an empty list, fails with
    /// `VersionNotFound` naming both.
    pub fn lookup(&self, name: &str, version: &str) -> (r: Result<Vec<String>, Error>)
        requires
            self.wf(),
        ensures
            match r {
                Ok(ps) => self.games.0@.contains_key(name@) && lookup_paths_spec(
                    self.games.0@[name@],
                    name@,
                    version@,
                ) == Ok::<_, SpecError>(ps.deep_view()),
                Err(e) => (!self.games.0@.contains_key(name@) && e@ == SpecError::GameNotFound(
                    name@,
                )) || (self.games.0@.contains_key(name@) && lookup_paths_spec(
                    self.games.0@[name@],
                    name@,
                    version@,
                ) == Err::<Seq<Seq<char>>, _>(e@)),
            },
    {
        let game = match self.games.0.get(name) {
            None => {
                return Err(Error::GameNotFound(name.to_owned()));
            },
            Some(g) => g,
        };
        proof {
            let w = choose|w: int|
                0 <= w < self.games.0.spec_len() && self.games.0.key_at(w) == name@ && *game
                    == self.games.0.value_at(w);
            assert(self.games.0.value_at(w).paths.wf());
        }
        match game.paths.get(version) {
            Some(GamePath::One(p)) => {
                let mut ps: Vec<String> = Vec::new();
                ps.push(p.clone());
                proof {
                    assert(ps.deep_view() =~= seq![p@]);
                }
                Ok(ps)
            },
            Some(GamePath::Many(v)) => {
                if v.len() > 0 {
                    let ps = crate::game::clone_string_vec(v);
                    proof {
                        assert(ps.deep_view() =~= v.deep_view());
                    }
                    Ok(ps)
                } else {
                    Err(Error::VersionNotFound(name.to_owned(), version.to_owned()))
                }
            },
            None => Err(Error::VersionNotFound(name.to_owned(), version.to_owned())),
        }
    }

    /// Builds the launch description for one version of a game, resolving its
    /// environment profile against this configuration's paths and the given
    /// system context. All-or-nothing: any failure is returned unchanged and
    /// no partial result exists.
    pub fn get_game(
        &self,
        name: &str,
        version: &str,
        config: &Config,
        sys: &ExpandContext,
    ) -> (r: Result<crate::game::Game, Error>)
        requires
            self.wf(),
            sys.wf(),
        ensures
            match r {
                Ok(g) => get_game_spec(
                    self.games.0@,
                    self.envs@,
                    config.steam.path@,
                    config.proton.path@,
                    sys@,
                    name@,
                    version@,
                ) == Ok::<_, SpecError>(g@) && g.env.wf(),
                Err(e) => get_game_spec(
                    self.games.0@,
                    self.envs@,
                    config.steam.path@,
                    config.proton.path@,
                    sys@,
                    name@,
                    version@,
                ) == Err::<crate::game::GameV, _>(e@),
            },
    {
        let ctx = sys.with_config_paths(&config.steam.path, &config.proton.path);
        let game = match self.games.0.get(name) {
            None => {
                return Err(Error::GameNotFound(name.to_owned()));
            },
            Some(g) => g,
        };
        proof {
            let w = choose|w: int|
                0 <= w < self.games.0.spec_len() && self.games.0.key_at(w) == name@ && *game
                    == self.games.0.value_at(w);
            assert(self.games.0.value_at(w).paths.wf());
        }
        let env_name: &str = match &game.env {
            Some(e) => e.as_str(),
            None => name,
        };
        let mut env = match self.envs.resolve(env_name, &ctx) {
            Ok(e) => e,
            Err(e) => {
                return Err(e);
            },
        };
        let argv = match game.paths.get(version) {
            Some(GamePath::One(p)) => {
                let mut ps: Vec<String> = Vec::new();
                ps.push(p.clone());
                proof {
                    assert(ps.deep_view() =~= seq![p@]);
                }
                ps
            },
            Some(GamePath::Many(v)) if v.len() > 0 => {
                let ps = crate::game::clone_string_vec(v);
                proof {
                    assert(ps.deep_view() =~= v.deep_view());
                }
                ps
            },
            _ => {
                return Err(Error::VersionNotFound(name.to_owned(), version.to_owned()));
            },
        };
        if !env.contains_key("STEAM_COMPAT_DATA_PATH") {
            let val = compat_data_path(&config.steam.path, game.app_id.as_str());
            env.insert(String::from_str("STEAM_COMPAT_DATA_PATH"), val);
        }
        if !env.contains_key("STEAM_COMPAT_CLIENT_INSTALL_PATH") {
            env.insert(
                String::from_str("STEAM_COMPAT_CLIENT_INSTALL_PATH"),
                config.proton.path.clone(),
            );
        }
        Ok(crate::game::Game::new(argv, env, config, game))
    }
}


} // verus!
