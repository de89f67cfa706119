use vstd::prelude::*;

use crate::config::{
    apply_vars_spec, lemma_visiting_measure, resolve_list_spec, resolve_one_spec, resolve_spec,
    ProfileSpec,
};
use crate::expand::{expand_at, expand_spec, is_name_char, name_run_len, CtxSpec};
use crate::SpecError;

verus! {

/// The variable names a profile writes.
pub open spec fn var_keys(vars: Seq<(Seq<char>, Seq<char>)>) -> Set<Seq<char>> {
    Set::new(|k: Seq<char>| exists|i: int| 0 <= i < vars.len() && vars[i].0 == k)
}

/// Applying a profile's variables writes exactly its own keys; any one other
/// key is carried over unchanged, present afterwards exactly when present
/// before.
pub proof fn lemma_apply_vars_frame_at(
    vars: Seq<(Seq<char>, Seq<char>)>,
    ctx: CtxSpec,
    env: Map<Seq<char>, Seq<char>>,
    r: Map<Seq<char>, Seq<char>>,
    k: Seq<char>,
)
    requires
        apply_vars_spec(vars, ctx, env) == Ok::<_, SpecError>(r),
    ensures
        !var_keys(vars).contains(k) ==> ((r.contains_key(k) <==> env.contains_key(k)) && (
        env.contains_key(k) ==> r[k] == env[k])),
        r.contains_key(k) ==> env.contains_key(k) || var_keys(vars).contains(k),
    decreases vars.len(),
{
    if vars.len() == 0 {
    } else {
        match expand_spec(vars[0].1, ctx, env) {
            Ok(val) => {
                let e1 = env.insert(vars[0].0, val);
                lemma_apply_vars_frame_at(vars.drop_first(), ctx, e1, r, k);
                assert(var_keys(vars).contains(vars[0].0));
                if var_keys(vars.drop_first()).contains(k) {
                    let i = choose|i: int|
                        0 <= i < vars.drop_first().len() && vars.drop_first()[i].0 == k;
                    assert(vars[i + 1].0 == k);
                    assert(var_keys(vars).contains(k));
                }
            },
            Err(_) => {
                assert(false);
            },
        }
    }
}

/// An expansion failure is a missing variable or malformed syntax, nothing
/// else.
pub proof fn lemma_expand_at_err_kind(
    s: Seq<char>,
    i: int,
    ctx: CtxSpec,
    env: Map<Seq<char>, Seq<char>>,
    e: SpecError,
)
    requires
        0 <= i <= s.len(),
        expand_at(s, i, ctx, env) == Err::<Seq<char>, _>(e),
    ensures
        e is VariableNotFound || e is ExpansionError,
    decreases s.len() - i,
{
    if i == s.len() {
    } else if s[i] != '$' {
        lemma_expand_at_err_kind(s, i + 1, ctx, env, e);
    } else if i + 1 == s.len() {
    } else if s[i + 1] == '{' {
        let nl = name_run_len(s, i + 2) as int;
        let ne = i + 2 + nl;
        crate::expand::lemma_name_run(s, i + 2);
        if nl == 0 || ne >= s.len() {
        } else if s[ne] == '}' {
            let name = s.subrange(i + 2, ne);
            match crate::expand::lookup_spec(ctx, env, name) {
                Some(_) => {
                    lemma_expand_at_err_kind(s, ne + 1, ctx, env, e);
                },
                None => {},
            }
        } else if s[ne] == ':' && ne + 1 < s.len() && s[ne + 1] == '-' {
            let dl = crate::expand::brace_run_len(s, ne + 2) as int;
            let ce = ne + 2 + dl;
            crate::expand::lemma_brace_run(s, ne + 2);
            if ce >= s.len() {
            } else {
                if expand_at(s, ce + 1, ctx, env) is Err {
                    lemma_expand_at_err_kind(s, ce + 1, ctx, env, e);
                }
            }
        } else {
        }
    } else if crate::expand::is_name_start(s[i + 1]) {
        let nl = name_run_len(s, i + 1) as int;
        let ne = i + 1 + nl;
        crate::expand::lemma_name_run(s, i + 1);
        let name = s.subrange(i + 1, ne);
        match crate::expand::lookup_spec(ctx, env, name) {
            Some(_) => {
                lemma_expand_at_err_kind(s, ne, ctx, env, e);
            },
            None => {},
        }
    } else {
    }
}

pub proof fn lemma_expand_err_kind(
    s: Seq<char>,
    ctx: CtxSpec,
    env: Map<Seq<char>, Seq<char>>,
    e: SpecError,
)
    requires
        expand_spec(s, ctx, env) == Err::<Seq<char>, _>(e),
    ensures
        e is VariableNotFound || e is ExpansionError,
{
    if s.len() >= 1 && s[0] == '~' && (s.len() == 1 || s[1] == '/') {
        match ctx.home {
            Some(_) => {
                let inner = expand_at(s, 1, ctx, env);
                if inner is Err {
                    lemma_expand_at_err_kind(s, 1, ctx, env, e);
                }
            },
            None => {},
        }
    } else {
        lemma_expand_at_err_kind(s, 0, ctx, env, e);
    }
}

/// A failure while applying a profile's own variables is an expansion
/// failure, never a missing or cyclic profile.
pub proof fn lemma_apply_vars_err_kind(
    vars: Seq<(Seq<char>, Seq<char>)>,
    ctx: CtxSpec,
    env: Map<Seq<char>, Seq<char>>,
    e: SpecError,
)
    requires
        apply_vars_spec(vars, ctx, env) == Err::<Map<Seq<char>, Seq<char>>, _>(e),
    ensures
        e is VariableNotFound || e is ExpansionError,
    decreases vars.len(),
{
    if vars.len() == 0 {
    } else {
        match expand_spec(vars[0].1, ctx, env) {
            Ok(val) => {
                lemma_apply_vars_err_kind(vars.drop_first(), ctx, env.insert(vars[0].0, val), e);
            },
            Err(_) => {
                lemma_expand_err_kind(vars[0].1, ctx, env, e);
            },
        }
    }
}

/// Shrinking the chain of profiles underway can only help: a resolution that
/// succeeds under some chain succeeds identically under any subchain.
pub proof fn lemma_resolve_one_mono(
    profiles: Map<Seq<char>, ProfileSpec>,
    ctx: CtxSpec,
    env: Map<Seq<char>, Seq<char>>,
    v1: Set<Seq<char>>,
    v2: Set<Seq<char>>,
    name: Seq<char>,
)
    requires
        profiles.dom().finite(),
        v2.subset_of(v1),
        resolve_one_spec(profiles, ctx, env, v1, name) is Ok,
    ensures
        resolve_one_spec(profiles, ctx, env, v2, name) == resolve_one_spec(
            profiles,
            ctx,
            env,
            v1,
            name,
        ),
    decreases profiles.dom().difference(v2).len(), 0int, 0int,
{
    assert(profiles.dom().contains(name));
    assert(!v1.contains(name));
    assert(!v2.contains(name));
    let p = profiles[name];
    let w1 = v1.insert(name);
    let w2 = v2.insert(name);
    assert(w2.subset_of(w1));
    lemma_visiting_measure(profiles.dom(), v2, name);
    assert(resolve_list_spec(profiles, ctx, env, w1, p.before) is Ok);
    lemma_resolve_list_mono(profiles, ctx, env, w1, w2, p.before);
    let e1 = resolve_list_spec(profiles, ctx, env, w1, p.before)->Ok_0;
    assert(apply_vars_spec(p.vars, ctx, e1) is Ok);
    let e2 = apply_vars_spec(p.vars, ctx, e1)->Ok_0;
    assert(resolve_list_spec(profiles, ctx, e2, w1, p.after) is Ok);
    lemma_resolve_list_mono(profiles, ctx, e2, w1, w2, p.after);
}

pub proof fn lemma_resolve_list_mono(
    profiles: Map<Seq<char>, ProfileSpec>,
    ctx: CtxSpec,
    env: Map<Seq<char>, Seq<char>>,
    v1: Set<Seq<char>>,
    v2: Set<Seq<char>>,
    names: Seq<Seq<char>>,
)
    requires
        profiles.dom().finite(),
        v2.subset_of(v1),
        resolve_list_spec(profiles, ctx, env, v1, names) is Ok,
    ensures
        resolve_list_spec(profiles, ctx, env, v2, names) == resolve_list_spec(
            profiles,
            ctx,
            env,
            v1,
            names,
        ),
    decreases profiles.dom().difference(v2).len(), 1int, names.len(),
{
    if names.len() == 0 {
    } else {
        assert(resolve_one_spec(profiles, ctx, env, v1, names[0]) is Ok);
        lemma_resolve_one_mono(profiles, ctx, env, v1, v2, names[0]);
        let e = resolve_one_spec(profiles, ctx, env, v1, names[0])->Ok_0;
        lemma_resolve_list_mono(profiles, ctx, e, v1, v2, names.drop_first());
    }
}

/// A profile with no dependencies resolves to exactly the expanded form of
/// its own variables, applied to an empty environment.
pub proof fn lemma_resolve_no_deps(
    profiles: Map<Seq<char>, ProfileSpec>,
    ctx: CtxSpec,
    name: Seq<char>,
)
    requires
        profiles.dom().finite(),
        profiles.contains_key(name),
        profiles[name].before.len() == 0,
        profiles[name].after.len() == 0,
    ensures
        resolve_spec(profiles, ctx, name) == apply_vars_spec(
            profiles[name].vars,
            ctx,
            Map::empty(),
        ),
{
    let p = profiles[name];
    let v2 = Set::<Seq<char>>::empty().insert(name);
    assert(resolve_list_spec(profiles, ctx, Map::empty(), v2, p.before) == Ok::<_, SpecError>(
        Map::<Seq<char>, Seq<char>>::empty(),
    ));
    match apply_vars_spec(p.vars, ctx, Map::empty()) {
        Ok(e2) => {
            assert(resolve_list_spec(profiles, ctx, e2, v2, p.after) == Ok::<_, SpecError>(e2));
        },
        Err(_) => {},
    }
}

/// Every entry of `ra` whose key is not in `written` appears unchanged in `rp`.
pub open spec fn carries_over(
    ra: Map<Seq<char>, Seq<char>>,
    rp: Map<Seq<char>, Seq<char>>,
    written: Set<Seq<char>>,
) -> bool {
    forall|k: Seq<char>|
        ra.contains_key(k) && !written.contains(k) ==> rp.contains_key(k) && rp[k] == ra[k]
}

/// Every key of `rp` was in `ra` or was written.
pub open spec fn no_new_keys(
    ra: Map<Seq<char>, Seq<char>>,
    rp: Map<Seq<char>, Seq<char>>,
    written: Set<Seq<char>>,
) -> bool {
    forall|k: Seq<char>| rp.contains_key(k) ==> ra.contains_key(k) || written.contains(k)
}

/// With `before = [A]` and nothing after, resolving P is exactly: resolve A
/// from scratch, then apply P's own variables over that result. P's writes
/// win on key collisions, and every other entry of A's result carries over.
pub proof fn lemma_resolve_before_dep(
    profiles: Map<Seq<char>, ProfileSpec>,
    ctx: CtxSpec,
    p: Seq<char>,
    a: Seq<char>,
    rp: Map<Seq<char>, Seq<char>>,
    ra: Map<Seq<char>, Seq<char>>,
)
    requires
        profiles.dom().finite(),
        profiles.contains_key(p),
        profiles[p].before == seq![a],
        profiles[p].after.len() == 0,
        resolve_spec(profiles, ctx, p) == Ok::<_, SpecError>(rp),
        resolve_spec(profiles, ctx, a) == Ok::<_, SpecError>(ra),
    ensures
        apply_vars_spec(profiles[p].vars, ctx, ra) == Ok::<_, SpecError>(rp),
        carries_over(ra, rp, var_keys(profiles[p].vars)),
        no_new_keys(ra, rp, var_keys(profiles[p].vars)),
{
    let prof = profiles[p];
    let v2 = Set::<Seq<char>>::empty().insert(p);
    let empty = Map::<Seq<char>, Seq<char>>::empty();
    assert(resolve_one_spec(profiles, ctx, empty, v2, a) is Ok) by {
        assert(prof.before[0] == a);
        assert(resolve_list_spec(profiles, ctx, empty, v2, prof.before) is Ok);
    }
    let x = resolve_one_spec(profiles, ctx, empty, v2, a)->Ok_0;
    lemma_resolve_one_mono(profiles, ctx, empty, v2, Set::empty(), a);
    assert(x == ra);
    assert(prof.before.drop_first() =~= Seq::<Seq<char>>::empty());
    assert(resolve_list_spec(profiles, ctx, ra, v2, Seq::<Seq<char>>::empty()) == Ok::<
        _,
        SpecError,
    >(ra));
    assert(resolve_list_spec(profiles, ctx, ra, v2, prof.before.drop_first()) == Ok::<
        _,
        SpecError,
    >(ra));
    assert(resolve_list_spec(profiles, ctx, empty, v2, prof.before) == Ok::<_, SpecError>(ra));
    assert(prof.after =~= Seq::<Seq<char>>::empty());
    match apply_vars_spec(prof.vars, ctx, ra) {
        Ok(e2) => {
            assert(resolve_list_spec(profiles, ctx, e2, v2, prof.after) == Ok::<_, SpecError>(
                e2,
            ));
            assert(e2 == rp);
            assert(apply_vars_spec(prof.vars, ctx, ra) == Ok::<_, SpecError>(rp));
        },
        Err(_) => {
            assert(false);
        },
    }
    let written = var_keys(profiles[p].vars);
    assert forall|k: Seq<char>|
        ra.contains_key(k) && !written.contains(k) implies rp.contains_key(k) && rp[k] == ra[k] by {
        lemma_apply_vars_frame_at(profiles[p].vars, ctx, ra, rp, k);
        assert(rp.contains_key(k) && rp[k] == ra[k]);
    }
    assert(carries_over(ra, rp, written));
    assert forall|k: Seq<char>| rp.contains_key(k) implies ra.contains_key(k)
        || written.contains(k) by {
        lemma_apply_vars_frame_at(profiles[p].vars, ctx, ra, rp, k);
    }
    assert(no_new_keys(ra, rp, written));
}

/// With nothing before and `after = [B]`, resolving P is exactly: apply P's
/// own variables to an empty environment, then resolve B over that result.
/// B's expansion layer therefore sees every variable P defines.
pub proof fn lemma_after_dep_sees_vars(
    profiles: Map<Seq<char>, ProfileSpec>,
    ctx: CtxSpec,
    p: Seq<char>,
    b: Seq<char>,
)
    requires
        profiles.dom().finite(),
        profiles.contains_key(p),
        profiles[p].before.len() == 0,
        profiles[p].after == seq![b],
    ensures
        resolve_spec(profiles, ctx, p) == (match apply_vars_spec(
            profiles[p].vars,
            ctx,
            Map::empty(),
        ) {
            Ok(e2) => resolve_one_spec(
                profiles,
                ctx,
                e2,
                Set::<Seq<char>>::empty().insert(p),
                b,
            ),
            Err(e) => Err(e),
        }),
{
    let prof = profiles[p];
    let v2 = Set::<Seq<char>>::empty().insert(p);
    let empty = Map::<Seq<char>, Seq<char>>::empty();
    assert(prof.before =~= Seq::<Seq<char>>::empty());
    assert(resolve_list_spec(profiles, ctx, empty, v2, prof.before) == Ok::<_, SpecError>(empty));
    match apply_vars_spec(prof.vars, ctx, empty) {
        Ok(e2) => {
            assert(prof.after[0] == b);
            assert(prof.after.drop_first() =~= Seq::<Seq<char>>::empty());
            match resolve_one_spec(profiles, ctx, e2, v2, b) {
                Ok(y) => {
                    assert(resolve_list_spec(profiles, ctx, y, v2, Seq::<Seq<char>>::empty())
                        == Ok::<_, SpecError>(y));
                    assert(resolve_list_spec(profiles, ctx, y, v2, prof.after.drop_first())
                        == Ok::<_, SpecError>(y));
                    assert(resolve_list_spec(profiles, ctx, e2, v2, prof.after) == Ok::<
                        _,
                        SpecError,
                    >(y));
                },
                Err(_) => {},
            }
        },
        Err(_) => {},
    }
}

/// Asking for a name that is not in the configuration fails at once with
/// `ProfileNotFound` naming it.
pub proof fn lemma_resolve_missing_direct(
    profiles: Map<Seq<char>, ProfileSpec>,
    ctx: CtxSpec,
    name: Seq<char>,
)
    requires
        profiles.dom().finite(),
        !profiles.contains_key(name),
    ensures
        resolve_spec(profiles, ctx, name) == Err::<Map<Seq<char>, Seq<char>>, _>(
            SpecError::ProfileNotFound(name),
        ),
{
}

/// Whenever resolution fails with `ProfileNotFound`, at any depth of the
/// dependency chain, the name it carries is one the configuration lacks.
pub proof fn lemma_resolve_one_missing_name(
    profiles: Map<Seq<char>, ProfileSpec>,
    ctx: CtxSpec,
    env: Map<Seq<char>, Seq<char>>,
    visiting: Set<Seq<char>>,
    name: Seq<char>,
    m: Seq<char>,
)
    requires
        profiles.dom().finite(),
        resolve_one_spec(profiles, ctx, env, visiting, name) == Err::<
            Map<Seq<char>, Seq<char>>,
            _,
        >(SpecError::ProfileNotFound(m)),
    ensures
        !profiles.contains_key(m),
    decreases profiles.dom().difference(visiting).len(), 0int, 0int,
{
    if !profiles.dom().contains(name) {
        assert(m == name);
    } else if visiting.contains(name) {
    } else {
        let p = profiles[name];
        let v2 = visiting.insert(name);
        lemma_visiting_measure(profiles.dom(), visiting, name);
        match resolve_list_spec(profiles, ctx, env, v2, p.before) {
            Ok(e1) => {
                match apply_vars_spec(p.vars, ctx, e1) {
                    Ok(e2) => {
                        lemma_resolve_list_missing_name(profiles, ctx, e2, v2, p.after, m);
                    },
                    Err(e) => {
                        lemma_apply_vars_err_kind(p.vars, ctx, e1, e);
                    },
                }
            },
            Err(_) => {
                lemma_resolve_list_missing_name(profiles, ctx, env, v2, p.before, m);
            },
        }
    }
}

pub proof fn lemma_resolve_list_missing_name(
    profiles: Map<Seq<char>, ProfileSpec>,
    ctx: CtxSpec,
    env: Map<Seq<char>, Seq<char>>,
    visiting: Set<Seq<char>>,
    names: Seq<Seq<char>>,
    m: Seq<char>,
)
    requires
        profiles.dom().finite(),
        resolve_list_spec(profiles, ctx, env, visiting, names) == Err::<
            Map<Seq<char>, Seq<char>>,
            _,
        >(SpecError::ProfileNotFound(m)),
    ensures
        !profiles.contains_key(m),
    decreases profiles.dom().difference(visiting).len(), 1int, names.len(),
{
    if names.len() == 0 {
    } else {
        match resolve_one_spec(profiles, ctx, env, visiting, names[0]) {
            Ok(e) => {
                lemma_resolve_list_missing_name(profiles, ctx, e, visiting, names.drop_first(), m);
            },
            Err(_) => {
                lemma_resolve_one_missing_name(profiles, ctx, env, visiting, names[0], m);
            },
        }
    }
}

/// A braced reference to a name the accumulated environment holds expands to
/// exactly that value, provided no configuration-path layer shadows the name.
pub proof fn lemma_expand_env_ref(k: Seq<char>, ctx: CtxSpec, env: Map<Seq<char>, Seq<char>>)
    requires
        k.len() > 0,
        forall|i: int| 0 <= i < k.len() ==> is_name_char(k[i]),
        env.contains_key(k),
        !(k == "STEAM_PATH"@ && ctx.steam_path is Some),
        !(k == "PROTON_PATH"@ && ctx.proton_path is Some),
    ensures
        expand_spec(seq!['$', '{'] + k + seq!['}'], ctx, env) == Ok::<_, SpecError>(env[k]),
{
    let s = seq!['$', '{'] + k + seq!['}'];
    assert(s.len() == k.len() + 3);
    assert(s[0] == '$');
    assert(s[1] == '{');
    assert forall|j: int| 2 <= j < 2 + k.len() implies is_name_char(s[j]) by {
        assert(s[j] == k[j - 2]);
    }
    assert(s[2 + k.len() as int] == '}');
    assert(!is_name_char('}'));
    lemma_name_run_exact(s, 2, k.len() as int);
    let ne = 2 + k.len() as int;
    assert(s.subrange(2, ne) =~= k);
    assert(expand_at(s, ne + 1, ctx, env) == Ok::<_, SpecError>(Seq::<char>::empty()));
    assert(crate::expand::lookup_spec(ctx, env, k) == Some(env[k]));
    assert(env[k] + Seq::<char>::empty() =~= env[k]);
    assert(expand_at(s, 0, ctx, env) == Ok::<_, SpecError>(env[k]));
}

pub proof fn lemma_name_run_exact(s: Seq<char>, i: int, m: int)
    requires
        0 <= i,
        0 <= m,
        i + m <= s.len(),
        forall|j: int| i <= j < i + m ==> is_name_char(s[j]),
        i + m == s.len() || !is_name_char(s[i + m]),
    ensures
        name_run_len(s, i) == m,
    decreases m,
{
    if m == 0 {
    } else {
        lemma_name_run_exact(s, i + 1, m - 1);
    }
}

} // verus!
