//! Replacement of `$NAME` references in command tokens by the values of
//! environment variables.
use vstd::prelude::*;

verus! {

/// The characters a variable name is made of.
pub open spec fn is_name_char(c: char) -> bool {
    ('A' <= c && c <= 'Z') || ('a' <= c && c <= 'z') || ('0' <= c && c <= '9') || c == '_'
}

/// The length of the run of name characters of `s` that starts at `i`.
pub open spec fn name_len(s: Seq<char>, i: int) -> nat
    decreases s.len() - i,
{
    if 0 <= i < s.len() && is_name_char(s[i]) {
        1 + name_len(s, i + 1)
    } else {
        0
    }
}

/// The environment as name/value pairs of characters.
pub open spec fn env_view(env: Seq<(String, String)>) -> Seq<(Seq<char>, Seq<char>)> {
    env.map_values(|p: (String, String)| (p.0@, p.1@))
}

/// The value of the first variable of `env` called `name`, if any.
pub open spec fn env_value(env: Seq<(Seq<char>, Seq<char>)>, name: Seq<char>) -> Option<Seq<char>>
    decreases env.len(),
{
    if env.len() == 0 {
        None
    } else if env[0].0 == name {
        Some(env[0].1)
    } else {
        env_value(env.drop_first(), name)
    }
}

/// Whether a reference `$NAME` starts at `i`: a `$` followed by a name character.
pub open spec fn reference_at(s: Seq<char>, i: int) -> bool {
    0 <= i && i + 1 < s.len() && s[i] == '$' && is_name_char(s[i + 1])
}

/// `s` from position `i` on, with each `$NAME` (the longest run of name
/// characters) replaced by the variable's value, and left as it is where
/// no such variable is defined.
pub open spec fn expand_from(s: Seq<char>, i: int, env: Seq<(Seq<char>, Seq<char>)>) -> Seq<char>
    decreases s.len() - i,
    via expand_from_decreases
{
    if i < 0 || i >= s.len() {
        Seq::<char>::empty()
    } else if reference_at(s, i) {
        let end = i + 1 + name_len(s, i + 1);
        let replacement = match env_value(env, s.subrange(i + 1, end)) {
            Some(v) => v,
            None => s.subrange(i, end),
        };
        replacement + expand_from(s, end, env)
    } else {
        seq![s[i]] + expand_from(s, i + 1, env)
    }
}

/// The references `$NAME` of `s`, from position `i` on, whose variable is not defined.
pub open spec fn unresolved_from(s: Seq<char>, i: int, env: Seq<(Seq<char>, Seq<char>)>) -> Seq<
    Seq<char>,
>
    decreases s.len() - i,
    via unresolved_from_decreases
{
    if i < 0 || i >= s.len() {
        Seq::<Seq<char>>::empty()
    } else if reference_at(s, i) {
        let end = i + 1 + name_len(s, i + 1);
        let rest = unresolved_from(s, end, env);
        match env_value(env, s.subrange(i + 1, end)) {
            Some(v) => rest,
            None => seq![s.subrange(i, end)] + rest,
        }
    } else {
        unresolved_from(s, i + 1, env)
    }
}

#[via_fn]
proof fn expand_from_decreases(s: Seq<char>, i: int, env: Seq<(Seq<char>, Seq<char>)>) {
    if 0 <= i < s.len() && reference_at(s, i) {
        lemma_name_len_bound(s, i + 1);
    }
}

#[via_fn]
proof fn unresolved_from_decreases(s: Seq<char>, i: int, env: Seq<(Seq<char>, Seq<char>)>) {
    if 0 <= i < s.len() && reference_at(s, i) {
        lemma_name_len_bound(s, i + 1);
    }
}

pub fn is_name_char_exec(c: char) -> (r: bool)
    ensures
        r == is_name_char(c),
{
    ('A' <= c && c <= 'Z') || ('a' <= c && c <= 'z') || ('0' <= c && c <= '9') || c == '_'
}

proof fn lemma_name_len_bound(s: Seq<char>, i: int)
    requires
        0 <= i <= s.len(),
    ensures
        i + name_len(s, i) <= s.len(),
    decreases s.len() - i,
{
    if i < s.len() && is_name_char(s[i]) {
        lemma_name_len_bound(s, i + 1);
    }
}

/// The end of the run of name characters of `s` that starts at `start`.
fn name_end(s: &str, n: usize, start: usize) -> (e: usize)
    requires
        n == s@.len(),
        start <= n,
    ensures
        e == start + name_len(s@, start as int),
        e <= n,
{
    let mut j: usize = start;
    proof {
        lemma_name_len_bound(s@, start as int);
    }
    while j < n && is_name_char_exec(s.get_char(j))
        invariant
            n == s@.len(),
            start <= j <= n,
            name_len(s@, start as int) == (j - start) + name_len(s@, j as int),
        decreases n - j,
    {
        j = j + 1;
    }
    j
}

/// The value of the first variable of `env` called `name`.
pub fn lookup_env(env: &Vec<(String, String)>, name: &String) -> (r: Option<String>)
    ensures
        match r {
            Some(v) => env_value(env_view(env@), name@) == Some(v@),
            None => env_value(env_view(env@), name@) is None,
        },
{
    let ghost e = env_view(env@);
    let mut i: usize = 0;
    assert(e.subrange(0, e.len() as int) =~= e);
    while i < env.len()
        invariant
            i <= env.len(),
            e == env_view(env@),
            env_value(e, name@) == env_value(e.subrange(i as int, e.len() as int), name@),
        decreases env.len() - i,
    {
        let ghost rest = e.subrange(i as int, e.len() as int);
        assert(rest.drop_first() =~= e.subrange(i + 1, e.len() as int));
        assert(rest[0] == e[i as int]);
        if env[i].0 == *name {
            return Some(env[i].1.clone());
        }
        i = i + 1;
    }
    None
}

/// Expands the `$NAME` references of `token` from `env`; also returns the
/// references that were left as they are, for lack of a variable.
pub fn expand_token(token: &str, env: &Vec<(String, String)>) -> (r: (String, Vec<String>))
    ensures
        r.0@ == expand_from(token@, 0, env_view(env@)),
        r.1@.map_values(|s: String| s@) == unresolved_from(token@, 0, env_view(env@)),
{
    let ghost e = env_view(env@);
    let ghost s = token@;
    let n = token.unicode_len();
    let mut out = String::new();
    let mut missing: Vec<String> = Vec::new();
    let mut i: usize = 0;
    assert(out@ + expand_from(s, 0, e) =~= expand_from(s, 0, e));
    assert(missing@.map_values(|s: String| s@) + unresolved_from(s, 0, e) =~= unresolved_from(
        s,
        0,
        e,
    ));
    while i < n
        invariant
            n == s.len(),
            s == token@,
            e == env_view(env@),
            i <= n,
            out@ + expand_from(s, i as int, e) == expand_from(s, 0, e),
            missing@.map_values(|s: String| s@) + unresolved_from(s, i as int, e)
                == unresolved_from(s, 0, e),
        decreases n - i,
    {
        let ghost out0 = out@;
        let ghost missing0 = missing@.map_values(|s: String| s@);
        let c = token.get_char(i);
        if c == '$' && i + 1 < n && is_name_char_exec(token.get_char(i + 1)) {
            assert(reference_at(s, i as int));
            let end = name_end(token, n, i + 1);
            let name = String::from_str(token.substring_char(i + 1, end));
            let whole = token.substring_char(i, end);
            match lookup_env(env, &name) {
                Some(v) => {
                    out.append(v.as_str());
                },
                None => {
                    out.append(whole);
                    missing.push(String::from_str(whole));
                    assert(missing@.map_values(|s: String| s@) =~= missing0.push(whole@));
                    assert(missing0.push(whole@) + unresolved_from(s, end as int, e) =~= missing0
                        + (seq![whole@] + unresolved_from(s, end as int, e)));
                },
            }
            assert(out0 + expand_from(s, i as int, e) =~= out@ + expand_from(s, end as int, e));
            i = end;
        } else {
            assert(!reference_at(s, i as int));
            out.append(token.substring_char(i, i + 1));
            assert(out0 + expand_from(s, i as int, e) =~= out@ + expand_from(s, i + 1, e));
            i = i + 1;
        }
    }
    (out, missing)
}

/// The value that applying the pairs of `pairs` in order gives to `k`: the last one wins.
pub open spec fn env_entry(pairs: Seq<(Seq<char>, Seq<char>)>, k: Seq<char>) -> Option<Seq<char>>
    decreases pairs.len(),
{
    if pairs.len() == 0 {
        None
    } else if pairs.last().0 == k {
        Some(pairs.last().1)
    } else {
        env_entry(pairs.drop_last(), k)
    }
}

/// The value of `k` in the global environment overlaid with the job's: the job's wins.
pub open spec fn overlay_entry(
    global: Seq<(Seq<char>, Seq<char>)>,
    job: Seq<(Seq<char>, Seq<char>)>,
    k: Seq<char>,
) -> Option<Seq<char>> {
    match env_entry(job, k) {
        Some(v) => Some(v),
        None => env_entry(global, k),
    }
}

/// No two pairs share a name.
pub open spec fn unique_keys(pairs: Seq<(Seq<char>, Seq<char>)>) -> bool {
    forall|i: int, j: int| 0 <= i < j < pairs.len() ==> pairs[i].0 != pairs[j].0
}

proof fn lemma_entry_update(
    p: Seq<(Seq<char>, Seq<char>)>,
    j: int,
    v: Seq<char>,
    k: Seq<char>,
)
    requires
        unique_keys(p),
        0 <= j < p.len(),
    ensures
        env_entry(p.update(j, (p[j].0, v)), k) == if k == p[j].0 {
            Some(v)
        } else {
            env_entry(p, k)
        },
    decreases p.len(),
{
    let q = p.update(j, (p[j].0, v));
    if j == p.len() - 1 {
        assert(q.drop_last() =~= p.drop_last());
    } else {
        assert(q.drop_last() =~= p.drop_last().update(j, (p[j].0, v)));
        lemma_entry_update(p.drop_last(), j, v, k);
    }
}

/// Sets `key` to `value` in `envs`, in place of the value it had.
fn set_env(envs: &mut Vec<(String, String)>, key: &String, value: &String)
    requires
        unique_keys(env_view(old(envs)@)),
    ensures
        unique_keys(env_view(final(envs)@)),
        forall|k: Seq<char>|
            #![trigger env_entry(env_view(final(envs)@), k)]
            env_entry(env_view(final(envs)@), k) == if k == key@ {
                Some(value@)
            } else {
                env_entry(env_view(old(envs)@), k)
            },
{
    let ghost p = env_view(envs@);
    let mut j: usize = 0;
    while j < envs.len()
        invariant
            j <= envs.len(),
            p == env_view(envs@),
            p == env_view(old(envs)@),
            unique_keys(p),
            forall|m: int| 0 <= m < j ==> p[m].0 != key@,
        decreases envs.len() - j,
    {
        if envs[j].0 == *key {
            assert(p[j as int].0 == key@);
            envs.set(j, (key.clone(), value.clone()));
            assert(env_view(envs@) =~= p.update(j as int, (p[j as int].0, value@)));
            assert forall|k: Seq<char>| #[trigger]
                env_entry(env_view(envs@), k) == if k == key@ {
                    Some(value@)
                } else {
                    env_entry(p, k)
                } by {
                lemma_entry_update(p, j as int, value@, k);
            }
            return;
        }
        j = j + 1;
    }
    envs.push((key.clone(), value.clone()));
    assert(env_view(envs@) =~= p.push((key@, value@)));
    assert(env_view(envs@).drop_last() =~= p);
}

/// The environment of a job's command: the global variables overlaid with
/// the job's own, each name once.
pub fn merge_envs(global: &Vec<(String, String)>, job: &Vec<(String, String)>) -> (r: Vec<(String, String)>)
    ensures
        unique_keys(env_view(r@)),
        forall|k: Seq<char>|
            #![trigger env_entry(env_view(r@), k)]
            env_entry(env_view(r@), k) == overlay_entry(env_view(global@), env_view(job@), k),
{
    let ghost g = env_view(global@);
    let ghost jb = env_view(job@);
    let mut r: Vec<(String, String)> = Vec::new();
    let mut i: usize = 0;
    while i < global.len()
        invariant
            i <= global.len(),
            g == env_view(global@),
            unique_keys(env_view(r@)),
            forall|k: Seq<char>|
                #![trigger env_entry(env_view(r@), k)]
                env_entry(env_view(r@), k) == env_entry(g.subrange(0, i as int), k),
        decreases global.len() - i,
    {
        assert(g.subrange(0, i + 1).drop_last() =~= g.subrange(0, i as int));
        set_env(&mut r, &global[i].0, &global[i].1);
        i = i + 1;
    }
    assert(g.subrange(0, global.len() as int) =~= g);
    i = 0;
    while i < job.len()
        invariant
            i <= job.len(),
            g == env_view(global@),
            jb == env_view(job@),
            unique_keys(env_view(r@)),
            forall|k: Seq<char>|
                #![trigger env_entry(env_view(r@), k)]
                env_entry(env_view(r@), k) == overlay_entry(g, jb.subrange(0, i as int), k),
        decreases job.len() - i,
    {
        assert(jb.subrange(0, i + 1).drop_last() =~= jb.subrange(0, i as int));
        set_env(&mut r, &job[i].0, &job[i].1);
        i = i + 1;
    }
    assert(jb.subrange(0, job.len() as int) =~= jb);
    r
}

} // verus!
