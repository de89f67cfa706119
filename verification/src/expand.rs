use vstd::prelude::*;
use vstd::string::*;

use crate::strmap::StrMap;
use crate::{Error, SpecError};

verus! {

/// The lookup layers consulted while expanding a raw string, in priority
/// order: the two configuration-derived paths, the environment accumulated so
/// far by the resolver (passed separately), the raw process environment, and
/// the OS base-directory defaults for the five conventional names. The home
/// directory serves the leading-tilde shorthand. All of these are plain
/// values handed in by the caller: expansion itself reads no ambient state.
pub struct ExpandContext {
    pub steam_path: Option<String>,
    pub proton_path: Option<String>,
    pub home: Option<String>,
    pub xdg_data: Option<String>,
    pub xdg_config: Option<String>,
    pub xdg_state: Option<String>,
    pub xdg_cache: Option<String>,
    pub xdg_runtime: Option<String>,
    pub process_env: StrMap<String>,
}

/// The mathematical form of an `ExpandContext`.
pub struct CtxSpec {
    pub steam_path: Option<Seq<char>>,
    pub proton_path: Option<Seq<char>>,
    pub home: Option<Seq<char>>,
    pub xdg_data: Option<Seq<char>>,
    pub xdg_config: Option<Seq<char>>,
    pub xdg_state: Option<Seq<char>>,
    pub xdg_cache: Option<Seq<char>>,
    pub xdg_runtime: Option<Seq<char>>,
    pub process_env: Map<Seq<char>, Seq<char>>,
}

impl View for ExpandContext {
    type V = CtxSpec;

    open spec fn view(&self) -> CtxSpec {
        CtxSpec {
            steam_path: self.steam_path.deep_view(),
            proton_path: self.proton_path.deep_view(),
            home: self.home.deep_view(),
            xdg_data: self.xdg_data.deep_view(),
            xdg_config: self.xdg_config.deep_view(),
            xdg_state: self.xdg_state.deep_view(),
            xdg_cache: self.xdg_cache.deep_view(),
            xdg_runtime: self.xdg_runtime.deep_view(),
            process_env: self.process_env@,
        }
    }
}

impl ExpandContext {
    pub open spec fn wf(&self) -> bool {
        self.process_env.wf()
    }

    /// A context with no layers at all, the base for building one by hand.
    pub fn empty() -> (r: ExpandContext)
        ensures
            r.wf(),
            r@.steam_path is None,
            r@.proton_path is None,
            r@.home is None,
            r@.xdg_data is None,
            r@.xdg_config is None,
            r@.xdg_state is None,
            r@.xdg_cache is None,
            r@.xdg_runtime is None,
            r@.process_env == Map::<Seq<char>, Seq<char>>::empty(),
    {
        ExpandContext {
            steam_path: None,
            proton_path: None,
            home: None,
            xdg_data: None,
            xdg_config: None,
            xdg_state: None,
            xdg_cache: None,
            xdg_runtime: None,
            process_env: StrMap::new(),
        }
    }

    /// The same context with the two configuration-derived path layers set.
    pub fn with_config_paths(&self, steam: &String, proton: &String) -> (r: ExpandContext)
        ensures
            r@ == (CtxSpec {
                steam_path: Some(steam@),
                proton_path: Some(proton@),
                ..self@
            }),
            r.wf() <==> self.wf(),
    {
        ExpandContext {
            steam_path: Some(steam.clone()),
            proton_path: Some(proton.clone()),
            home: clone_opt(&self.home),
            xdg_data: clone_opt(&self.xdg_data),
            xdg_config: clone_opt(&self.xdg_config),
            xdg_state: clone_opt(&self.xdg_state),
            xdg_cache: clone_opt(&self.xdg_cache),
            xdg_runtime: clone_opt(&self.xdg_runtime),
            process_env: self.process_env.duplicate(),
        }
    }
}

fn clone_opt(o: &Option<String>) -> (r: Option<String>)
    ensures
        r.deep_view() == o.deep_view(),
        r == *o,
{
    match o {
        Some(s) => Some(s.clone()),
        None => None,
    }
}

/// What a variable name resolves to, over the layers in priority order.
pub open spec fn lookup_spec(ctx: CtxSpec, env: Map<Seq<char>, Seq<char>>, name: Seq<char>) -> Option<
    Seq<char>,
> {
    if name == "STEAM_PATH"@ && ctx.steam_path is Some {
        ctx.steam_path
    } else if name == "PROTON_PATH"@ && ctx.proton_path is Some {
        ctx.proton_path
    } else if env.contains_key(name) {
        Some(env[name])
    } else if ctx.process_env.contains_key(name) {
        Some(ctx.process_env[name])
    } else if name == "XDG_DATA_HOME"@ && ctx.xdg_data is Some {
        ctx.xdg_data
    } else if name == "XDG_CONFIG_HOME"@ && ctx.xdg_config is Some {
        ctx.xdg_config
    } else if name == "XDG_STATE_HOME"@ && ctx.xdg_state is Some {
        ctx.xdg_state
    } else if name == "XDG_CACHE_HOME"@ && ctx.xdg_cache is Some {
        ctx.xdg_cache
    } else if name == "XDG_RUNTIME_HOME"@ && ctx.xdg_runtime is Some {
        ctx.xdg_runtime
    } else {
        None
    }
}

/// Resolves a variable name through the layers; `None` means no layer knows it.
pub fn lookup_var(name: &str, ctx: &ExpandContext, env: &StrMap<String>) -> (r: Option<String>)
    requires
        ctx.wf(),
        env.wf(),
    ensures
        r.deep_view() == lookup_spec(ctx@, env@, name@),
{
    if crate::strmap::str_eq(name, "STEAM_PATH") {
        if let Some(s) = &ctx.steam_path {
            return Some(s.clone());
        }
    }
    if crate::strmap::str_eq(name, "PROTON_PATH") {
        if let Some(s) = &ctx.proton_path {
            return Some(s.clone());
        }
    }
    if let Some(v) = env.get(name) {
        return Some(v.clone());
    }
    if let Some(v) = ctx.process_env.get(name) {
        return Some(v.clone());
    }
    if crate::strmap::str_eq(name, "XDG_DATA_HOME") {
        if let Some(s) = &ctx.xdg_data {
            return Some(s.clone());
        }
    }
    if crate::strmap::str_eq(name, "XDG_CONFIG_HOME") {
        if let Some(s) = &ctx.xdg_config {
            return Some(s.clone());
        }
    }
    if crate::strmap::str_eq(name, "XDG_STATE_HOME") {
        if let Some(s) = &ctx.xdg_state {
            return Some(s.clone());
        }
    }
    if crate::strmap::str_eq(name, "XDG_CACHE_HOME") {
        if let Some(s) = &ctx.xdg_cache {
            return Some(s.clone());
        }
    }
    if crate::strmap::str_eq(name, "XDG_RUNTIME_HOME") {
        if let Some(s) = &ctx.xdg_runtime {
            return Some(s.clone());
        }
    }
    None
}

/// Characters that may open a variable name.
pub open spec fn is_name_start(c: char) -> bool {
    ('a' <= c && c <= 'z') || ('A' <= c && c <= 'Z') || c == '_'
}

/// Characters that may continue a variable name.
pub open spec fn is_name_char(c: char) -> bool {
    is_name_start(c) || ('0' <= c && c <= '9')
}

fn name_start_exec(c: char) -> (r: bool)
    ensures
        r == is_name_start(c),
{
    ('a' <= c && c <= 'z') || ('A' <= c && c <= 'Z') || c == '_'
}

fn name_char_exec(c: char) -> (r: bool)
    ensures
        r == is_name_char(c),
{
    name_start_exec(c) || ('0' <= c && c <= '9')
}

/// How many name characters run from position `i`.
pub open spec fn name_run_len(s: Seq<char>, i: int) -> nat
    decreases s.len() - i
        when 0 <= i <= s.len()
{
    if i >= s.len() || !is_name_char(s[i]) {
        0
    } else {
        (1 + name_run_len(s, i + 1)) as nat
    }
}

pub proof fn lemma_name_run(s: Seq<char>, i: int)
    requires
        0 <= i <= s.len(),
    ensures
        i + name_run_len(s, i) <= s.len(),
        forall|j: int| i <= j < i + name_run_len(s, i) ==> is_name_char(s[j]),
        i + name_run_len(s, i) < s.len() ==> !is_name_char(s[i + name_run_len(s, i)]),
    decreases s.len() - i,
{
    if i >= s.len() || !is_name_char(s[i]) {
    } else {
        lemma_name_run(s, i + 1);
    }
}

/// How many characters run from position `i` before a closing brace.
pub open spec fn brace_run_len(s: Seq<char>, i: int) -> nat
    decreases s.len() - i
        when 0 <= i <= s.len()
{
    if i >= s.len() || s[i] == '}' {
        0
    } else {
        (1 + brace_run_len(s, i + 1)) as nat
    }
}

pub proof fn lemma_brace_run(s: Seq<char>, i: int)
    requires
        0 <= i <= s.len(),
    ensures
        i + brace_run_len(s, i) <= s.len(),
        forall|j: int| i <= j < i + brace_run_len(s, i) ==> s[j] != '}',
        i + brace_run_len(s, i) < s.len() ==> s[i + brace_run_len(s, i)] == '}',
    decreases s.len() - i,
{
    if i >= s.len() || s[i] == '}' {
    } else {
        lemma_brace_run(s, i + 1);
    }
}

/// Single-pass expansion of the suffix of `s` that starts at `i`: literal
/// characters are kept, `${NAME}` and `$NAME` are replaced by what the layers
/// resolve `NAME` to, and `${NAME:-default}` falls back to the literal default
/// text when no layer knows the name. An unresolvable reference is an error,
/// never a silent empty substitution; a stray `$`, an empty or unclosed braced
/// form is a syntax error carrying the whole raw string.
pub open spec fn expand_at(
    s: Seq<char>,
    i: int,
    ctx: CtxSpec,
    env: Map<Seq<char>, Seq<char>>,
) -> Result<Seq<char>, SpecError>
    decreases s.len() - i
        when 0 <= i <= s.len()
{
    if i == s.len() {
        Ok(Seq::empty())
    } else if s[i] != '$' {
        match expand_at(s, i + 1, ctx, env) {
            Ok(r) => Ok(seq![s[i]] + r),
            Err(e) => Err(e),
        }
    } else if i + 1 == s.len() {
        Err(SpecError::ExpansionError(s))
    } else if s[i + 1] == '{' {
        let nl = name_run_len(s, i + 2) as int;
        let ne = i + 2 + nl;
        if nl == 0 {
            Err(SpecError::ExpansionError(s))
        } else if ne >= s.len() {
            Err(SpecError::ExpansionError(s))
        } else if s[ne] == '}' {
            let name = s.subrange(i + 2, ne);
            match lookup_spec(ctx, env, name) {
                Some(v) => match expand_at(s, ne + 1, ctx, env) {
                    Ok(r) => Ok(v + r),
                    Err(e) => Err(e),
                },
                None => Err(SpecError::VariableNotFound(name)),
            }
        } else if s[ne] == ':' && ne + 1 < s.len() && s[ne + 1] == '-' {
            let dl = brace_run_len(s, ne + 2) as int;
            let ce = ne + 2 + dl;
            if ce >= s.len() {
                Err(SpecError::ExpansionError(s))
            } else {
                let name = s.subrange(i + 2, ne);
                let dflt = s.subrange(ne + 2, ce);
                match lookup_spec(ctx, env, name) {
                    Some(v) => match expand_at(s, ce + 1, ctx, env) {
                        Ok(r) => Ok(v + r),
                        Err(e) => Err(e),
                    },
                    None => match expand_at(s, ce + 1, ctx, env) {
                        Ok(r) => Ok(dflt + r),
                        Err(e) => Err(e),
                    },
                }
            }
        } else {
            Err(SpecError::ExpansionError(s))
        }
    } else if is_name_start(s[i + 1]) {
        let nl = name_run_len(s, i + 1) as int;
        let ne = i + 1 + nl;
        let name = s.subrange(i + 1, ne);
        match lookup_spec(ctx, env, name) {
            Some(v) => {
                proof {
                    lemma_name_run(s, i + 1);
                }
                match expand_at(s, ne, ctx, env) {
                    Ok(r) => Ok(v + r),
                    Err(e) => Err(e),
                }
            },
            None => Err(SpecError::VariableNotFound(name)),
        }
    } else {
        Err(SpecError::ExpansionError(s))
    }
}

/// Full expansion of a raw string: a leading `~` (alone or before `/`) means
/// the home directory, and the rest is expanded as `expand_at` describes.
pub open spec fn expand_spec(s: Seq<char>, ctx: CtxSpec, env: Map<Seq<char>, Seq<char>>) -> Result<
    Seq<char>,
    SpecError,
> {
    if s.len() >= 1 && s[0] == '~' && (s.len() == 1 || s[1] == '/') {
        match ctx.home {
            Some(h) => match expand_at(s, 1, ctx, env) {
                Ok(r) => Ok(h + r),
                Err(e) => Err(e),
            },
            None => Err(SpecError::VariableNotFound("HOME"@)),
        }
    } else {
        expand_at(s, 0, ctx, env)
    }
}

/// The mathematical form of an expansion outcome.
pub open spec fn str_result_view(r: Result<String, Error>) -> Result<Seq<char>, SpecError> {
    match r {
        Ok(s) => Ok(s@),
        Err(e) => Err(e@),
    }
}

/// The position just after the variable-name run that starts at `j`.
fn name_run_end(s: &str, j: usize) -> (r: usize)
    requires
        j <= s@.len(),
    ensures
        r == j + name_run_len(s@, j as int),
        j <= r <= s@.len(),
    decreases s@.len() - j,
{
    let n = s.unicode_len();
    if j == n {
        return j;
    }
    if !name_char_exec(s.get_char(j)) {
        return j;
    }
    proof {
        lemma_name_run(s@, j as int + 1);
    }
    name_run_end(s, j + 1)
}

/// The position of the closing brace at or after `j`, or the end of `s`.
fn brace_run_end(s: &str, j: usize) -> (r: usize)
    requires
        j <= s@.len(),
    ensures
        r == j + brace_run_len(s@, j as int),
        j <= r <= s@.len(),
    decreases s@.len() - j,
{
    let n = s.unicode_len();
    if j == n {
        return j;
    }
    if s.get_char(j) == '}' {
        return j;
    }
    proof {
        lemma_brace_run(s@, j as int + 1);
    }
    brace_run_end(s, j + 1)
}

fn expand_from(s: &str, i: usize, ctx: &ExpandContext, env: &StrMap<String>) -> (r: Result<
    String,
    Error,
>)
    requires
        i <= s@.len(),
        ctx.wf(),
        env.wf(),
    ensures
        str_result_view(r) == expand_at(s@, i as int, ctx@, env@),
    decreases s@.len() - i,
{
    let n = s.unicode_len();
    if i == n {
        return Ok(String::new());
    }
    let c = s.get_char(i);
    if c != '$' {
        match expand_from(s, i + 1, ctx, env) {
            Ok(r) => {
                let mut out = s.substring_char(i, i + 1).to_owned();
                out.append(r.as_str());
                proof {
                    assert(s@.subrange(i as int, i as int + 1) =~= seq![s@[i as int]]);
                }
                Ok(out)
            },
            Err(e) => Err(e),
        }
    } else if i + 1 == n {
        Err(Error::ExpansionError(s.to_owned()))
    } else {
        let c1 = s.get_char(i + 1);
        if c1 == '{' {
            let ne = name_run_end(s, i + 2);
            if ne == i + 2 {
                return Err(Error::ExpansionError(s.to_owned()));
            }
            if ne == n {
                return Err(Error::ExpansionError(s.to_owned()));
            }
            let cb = s.get_char(ne);
            if cb == '}' {
                let name = s.substring_char(i + 2, ne);
                match lookup_var(name, ctx, env) {
                    Some(v) => match expand_from(s, ne + 1, ctx, env) {
                        Ok(r) => {
                            let mut out = v;
                            out.append(r.as_str());
                            Ok(out)
                        },
                        Err(e) => Err(e),
                    },
                    None => Err(Error::VariableNotFound(name.to_owned())),
                }
            } else if cb == ':' && ne + 1 < n && s.get_char(ne + 1) == '-' {
                let de = brace_run_end(s, ne + 2);
                if de == n {
                    return Err(Error::ExpansionError(s.to_owned()));
                }
                let name = s.substring_char(i + 2, ne);
                let dflt = s.substring_char(ne + 2, de);
                match lookup_var(name, ctx, env) {
                    Some(v) => match expand_from(s, de + 1, ctx, env) {
                        Ok(r) => {
                            let mut out = v;
                            out.append(r.as_str());
                            Ok(out)
                        },
                        Err(e) => Err(e),
                    },
                    None => match expand_from(s, de + 1, ctx, env) {
                        Ok(r) => {
                            let mut out = dflt.to_owned();
                            out.append(r.as_str());
                            Ok(out)
                        },
                        Err(e) => Err(e),
                    },
                }
            } else {
                Err(Error::ExpansionError(s.to_owned()))
            }
        } else if name_start_exec(c1) {
            let ne = name_run_end(s, i + 1);
            let name = s.substring_char(i + 1, ne);
            match lookup_var(name, ctx, env) {
                Some(v) => match expand_from(s, ne, ctx, env) {
                    Ok(r) => {
                        let mut out = v;
                        out.append(r.as_str());
                        Ok(out)
                    },
                    Err(e) => Err(e),
                },
                None => Err(Error::VariableNotFound(name.to_owned())),
            }
        } else {
            Err(Error::ExpansionError(s.to_owned()))
        }
    }
}

/// Expands one raw string through the layered lookup chain.
pub fn expand(raw: &str, ctx: &ExpandContext, env: &StrMap<String>) -> (r: Result<String, Error>)
    requires
        ctx.wf(),
        env.wf(),
    ensures
        str_result_view(r) == expand_spec(raw@, ctx@, env@),
{
    let n = raw.unicode_len();
    if n >= 1 && raw.get_char(0) == '~' {
        let tilde = n == 1 || raw.get_char(1) == '/';
        if tilde {
            match &ctx.home {
                Some(h) => match expand_from(raw, 1, ctx, env) {
                    Ok(r) => {
                        let mut out = h.clone();
                        out.append(r.as_str());
                        Ok(out)
                    },
                    Err(e) => Err(e),
                },
                None => Err(Error::VariableNotFound(String::from_str("HOME"))),
            }
        } else {
            expand_from(raw, 0, ctx, env)
        }
    } else {
        expand_from(raw, 0, ctx, env)
    }
}

} // verus!
