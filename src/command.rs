//! Assembly of the arguments of a job's command: feature flags, global extra
//! arguments, and what follows a `--` separator.
use crate::features::{features_of, merge_features, merged_features, split_on, views_of};
use crate::job::Settings;
use vstd::prelude::*;

verus! {

/// What an argument of the command must be: given text, or a merge of two
/// feature lists (whose order is not fixed).
pub ghost enum ArgTemplate {
    Exact(Seq<char>),
    Merged(Seq<char>, Seq<char>),
}

/// Whether `actual` is an argument that `t` describes.
pub open spec fn fills(actual: Seq<char>, t: ArgTemplate) -> bool {
    match t {
        ArgTemplate::Exact(x) => actual == x,
        ArgTemplate::Merged(a, b) => split_on(actual, ',').no_duplicates() && features_of(actual)
            == merged_features(a, b),
    }
}

/// Whether the arguments `actual` are, one for one, those that `ts` describe.
pub open spec fn fills_all(actual: Seq<Seq<char>>, ts: Seq<ArgTemplate>) -> bool {
    &&& actual.len() == ts.len()
    &&& forall|i: int| 0 <= i < ts.len() ==> fills(#[trigger] actual[i], ts[i])
}

pub open spec fn exact_all(v: Seq<Seq<char>>) -> Seq<ArgTemplate> {
    v.map_values(|x: Seq<char>| ArgTemplate::Exact(x))
}

/// Where the left-to-right scan of the arguments stands.
pub ghost struct ScanState {
    /// The arguments given so far.
    pub args: Seq<ArgTemplate>,
    /// Whether the previous argument was `--features`, held back.
    pub last_is_features: bool,
    /// Whether a `--features` argument has been handled.
    pub features_done: bool,
    /// Whether the job gave `--no-default-features` itself.
    pub no_default_done: bool,
    /// Whether a `--` separator was met.
    pub double_dash: bool,
    /// The arguments after the separator, passed on as they are.
    pub deferred: Seq<Seq<char>>,
}

pub open spec fn scan_start() -> ScanState {
    ScanState {
        args: Seq::empty(),
        last_is_features: false,
        features_done: false,
        no_default_done: false,
        double_dash: false,
        deferred: Seq::empty(),
    }
}

/// The arguments that stand for the job's feature list `arg`, under the global settings.
pub open spec fn features_args(arg: Seq<char>, settings: Settings) -> Seq<ArgTemplate> {
    match settings.features {
        Some(f) => if settings.no_default_features {
            seq![ArgTemplate::Exact("--features"@), ArgTemplate::Exact(f@)]
        } else {
            seq![ArgTemplate::Exact("--features"@), ArgTemplate::Merged(arg, f@)]
        },
        None => if settings.no_default_features {
            Seq::empty()
        } else {
            seq![ArgTemplate::Exact("--features"@), ArgTemplate::Exact(arg)]
        },
    }
}

/// The scan after one more argument.
pub open spec fn scan_step(st: ScanState, arg: Seq<char>, settings: Settings) -> ScanState {
    if st.double_dash {
        ScanState { deferred: st.deferred.push(arg), ..st }
    } else if arg == "--"@ {
        ScanState { double_dash: true, ..st }
    } else if st.last_is_features {
        if settings.all_features {
            ScanState { last_is_features: false, ..st }
        } else {
            ScanState {
                args: st.args + features_args(arg, settings),
                last_is_features: false,
                features_done: true,
                ..st
            }
        }
    } else if arg == "--no-default-features"@ {
        ScanState { args: st.args.push(ArgTemplate::Exact(arg)), no_default_done: true, ..st }
    } else if arg == "--features"@ {
        ScanState { last_is_features: true, ..st }
    } else {
        ScanState { args: st.args.push(ArgTemplate::Exact(arg)), ..st }
    }
}

/// The scan of all of `toks`, from the left.
pub open spec fn scan(toks: Seq<Seq<char>>, settings: Settings) -> ScanState
    decreases toks.len(),
{
    if toks.len() == 0 {
        scan_start()
    } else {
        scan_step(scan(toks.drop_last(), settings), toks.last(), settings)
    }
}

/// The arguments of a finished scan, with the global flags that the job did
/// not give, then the separator and what followed it.
pub open spec fn finish(st: ScanState, settings: Settings) -> Seq<ArgTemplate> {
    st.args + (if settings.no_default_features && !st.no_default_done {
        seq![ArgTemplate::Exact("--no-default-features"@)]
    } else {
        Seq::empty()
    }) + (if settings.all_features {
        seq![ArgTemplate::Exact("--all-features"@)]
    } else {
        Seq::empty()
    }) + (if !st.features_done && settings.features is Some && !settings.all_features {
        seq![ArgTemplate::Exact("--features"@), ArgTemplate::Exact(settings.features->0@)]
    } else {
        Seq::empty()
    }) + (if st.double_dash {
        seq![ArgTemplate::Exact("--"@)] + exact_all(st.deferred)
    } else {
        Seq::empty()
    })
}

/// The arguments of a job that takes extra arguments, from the tokens that
/// follow its program.
pub open spec fn extended_args(rest: Seq<Seq<char>>, settings: Settings) -> Seq<ArgTemplate> {
    finish(scan(rest + views_of(settings.additional_job_args@), settings), settings)
}

proof fn lemma_fills_push(a: Seq<Seq<char>>, ts: Seq<ArgTemplate>, x: Seq<char>, t: ArgTemplate)
    requires
        fills_all(a, ts),
        fills(x, t),
    ensures
        fills_all(a.push(x), ts.push(t)),
{
    assert forall|i: int| 0 <= i < ts.len() + 1 implies fills(#[trigger] a.push(x)[i], ts.push(t)[i]) by {
        if i < ts.len() {
            assert(a.push(x)[i] == a[i]);
        }
    }
}

/// Pushes `s` onto `args`, which the templates `ts` describe.
fn push_arg(args: &mut Vec<String>, s: String, Ghost(ts): Ghost<Seq<ArgTemplate>>, Ghost(t): Ghost<ArgTemplate>)
    requires
        fills_all(views_of(old(args)@), ts),
        fills(s@, t),
    ensures
        fills_all(views_of(final(args)@), ts.push(t)),
{
    proof {
        lemma_fills_push(views_of(args@), ts, s@, t);
    }
    args.push(s);
    assert(views_of(args@) =~= views_of(old(args)@).push(s@));
}

/// The arguments of a job that takes extra arguments: its own tokens after
/// the program, then the global extra arguments, with feature flags brought
/// in line with the global settings.
pub fn assemble_args(rest: &Vec<String>, settings: &Settings) -> (r: Vec<String>)
    ensures
        fills_all(views_of(r@), extended_args(views_of(rest@), *settings)),
{
    let mut stream: Vec<String> = Vec::new();
    let mut k: usize = 0;
    while k < rest.len()
        invariant
            k <= rest.len(),
            views_of(stream@) == views_of(rest@).subrange(0, k as int),
        decreases rest.len() - k,
    {
        let ghost before = views_of(stream@);
        stream.push(rest[k].clone());
        assert(views_of(stream@) =~= before.push(rest@[k as int]@));
        assert(views_of(stream@) =~= views_of(rest@).subrange(0, k + 1));
        k = k + 1;
    }
    k = 0;
    let extra = &settings.additional_job_args;
    while k < extra.len()
        invariant
            k <= extra.len(),
            extra == settings.additional_job_args,
            views_of(stream@) == views_of(rest@) + views_of(extra@).subrange(0, k as int),
        decreases extra.len() - k,
    {
        let ghost before = views_of(stream@);
        stream.push(extra[k].clone());
        assert(views_of(stream@) =~= before.push(extra@[k as int]@));
        assert(views_of(stream@) =~= views_of(rest@) + views_of(extra@).subrange(0, k + 1));
        k = k + 1;
    }
    assert(views_of(rest@) =~= views_of(rest@).subrange(0, rest.len() as int));
    assert(views_of(extra@).subrange(0, extra.len() as int) =~= views_of(extra@));
    let ghost toks = views_of(stream@);

    let dash_dash = String::from_str("--");
    let features_flag = String::from_str("--features");
    let no_default_flag = String::from_str("--no-default-features");
    let mut args: Vec<String> = Vec::new();
    let mut deferred: Vec<String> = Vec::new();
    let mut last_is_features = false;
    let mut features_done = false;
    let mut no_default_done = false;
    let mut double_dash = false;
    let mut i: usize = 0;
    assert(toks.subrange(0, 0) =~= Seq::<Seq<char>>::empty());
    assert(views_of(args@) =~= Seq::<Seq<char>>::empty());
    assert(views_of(deferred@) =~= Seq::<Seq<char>>::empty());
    while i < stream.len()
        invariant
            i <= stream.len(),
            toks == views_of(stream@),
            dash_dash@ == "--"@,
            features_flag@ == "--features"@,
            no_default_flag@ == "--no-default-features"@,
            fills_all(views_of(args@), scan(toks.subrange(0, i as int), *settings).args),
            views_of(deferred@) == scan(toks.subrange(0, i as int), *settings).deferred,
            last_is_features == scan(toks.subrange(0, i as int), *settings).last_is_features,
            features_done == scan(toks.subrange(0, i as int), *settings).features_done,
            no_default_done == scan(toks.subrange(0, i as int), *settings).no_default_done,
            double_dash == scan(toks.subrange(0, i as int), *settings).double_dash,
        decreases stream.len() - i,
    {
        let ghost st = scan(toks.subrange(0, i as int), *settings);
        let ghost next = toks.subrange(0, i + 1);
        assert(next.drop_last() =~= toks.subrange(0, i as int));
        assert(next.last() == stream@[i as int]@);
        let arg = &stream[i];
        if double_dash {
            deferred.push(arg.clone());
            assert(views_of(deferred@) =~= st.deferred.push(arg@));
        } else if *arg == dash_dash {
            double_dash = true;
        } else if last_is_features {
            if !settings.all_features {
                features_done = true;
                let ghost ts = st.args;
                match &settings.features {
                    Some(f) => {
                        push_arg(&mut args, features_flag.clone(), Ghost(ts), Ghost(ArgTemplate::Exact("--features"@)));
                        if settings.no_default_features {
                            push_arg(&mut args, f.clone(), Ghost(ts.push(ArgTemplate::Exact("--features"@))), Ghost(ArgTemplate::Exact(f@)));
                            assert(ts.push(ArgTemplate::Exact("--features"@)).push(ArgTemplate::Exact(f@)) =~= ts + features_args(arg@, *settings));
                        } else {
                            let merged = merge_features(arg.as_str(), f.as_str());
                            push_arg(&mut args, merged, Ghost(ts.push(ArgTemplate::Exact("--features"@))), Ghost(ArgTemplate::Merged(arg@, f@)));
                            assert(ts.push(ArgTemplate::Exact("--features"@)).push(ArgTemplate::Merged(arg@, f@)) =~= ts + features_args(arg@, *settings));
                        }
                    },
                    None => {
                        if !settings.no_default_features {
                            push_arg(&mut args, features_flag.clone(), Ghost(ts), Ghost(ArgTemplate::Exact("--features"@)));
                            push_arg(&mut args, arg.clone(), Ghost(ts.push(ArgTemplate::Exact("--features"@))), Ghost(ArgTemplate::Exact(arg@)));
                            assert(ts.push(ArgTemplate::Exact("--features"@)).push(ArgTemplate::Exact(arg@)) =~= ts + features_args(arg@, *settings));
                        } else {
                            assert(ts =~= ts + features_args(arg@, *settings));
                        }
                    },
                }
            }
            last_is_features = false;
        } else if *arg == no_default_flag {
            no_default_done = true;
            push_arg(&mut args, arg.clone(), Ghost(st.args), Ghost(ArgTemplate::Exact(arg@)));
        } else if *arg == features_flag {
            last_is_features = true;
        } else {
            push_arg(&mut args, arg.clone(), Ghost(st.args), Ghost(ArgTemplate::Exact(arg@)));
        }
        i = i + 1;
    }
    assert(toks.subrange(0, stream.len() as int) =~= toks);
    let ghost st = scan(toks, *settings);
    let ghost ts = st.args;
    if settings.no_default_features && !no_default_done {
        push_arg(&mut args, no_default_flag, Ghost(ts), Ghost(ArgTemplate::Exact("--no-default-features"@)));
        proof { ts = ts.push(ArgTemplate::Exact("--no-default-features"@)); }
    }
    if settings.all_features {
        push_arg(&mut args, String::from_str("--all-features"), Ghost(ts), Ghost(ArgTemplate::Exact("--all-features"@)));
        proof { ts = ts.push(ArgTemplate::Exact("--all-features"@)); }
    }
    if !features_done {
        match &settings.features {
            Some(f) => {
                if !settings.all_features {
                    push_arg(&mut args, features_flag, Ghost(ts), Ghost(ArgTemplate::Exact("--features"@)));
                    push_arg(&mut args, f.clone(), Ghost(ts.push(ArgTemplate::Exact("--features"@))), Ghost(ArgTemplate::Exact(f@)));
                    proof { ts = ts.push(ArgTemplate::Exact("--features"@)).push(ArgTemplate::Exact(f@)); }
                }
            },
            None => {},
        }
    }
    if double_dash {
        push_arg(&mut args, dash_dash, Ghost(ts), Ghost(ArgTemplate::Exact("--"@)));
        proof { ts = ts.push(ArgTemplate::Exact("--"@)); }
        let ghost base = ts;
        let mut j: usize = 0;
        assert(base + exact_all(views_of(deferred@).subrange(0, 0)) =~= base);
        while j < deferred.len()
            invariant
                j <= deferred.len(),
                views_of(deferred@) == st.deferred,
                fills_all(views_of(args@), base + exact_all(st.deferred.subrange(0, j as int))),
            decreases deferred.len() - j,
        {
            let ghost before = base + exact_all(st.deferred.subrange(0, j as int));
            push_arg(&mut args, deferred[j].clone(), Ghost(before), Ghost(ArgTemplate::Exact(deferred@[j as int]@)));
            assert(before.push(ArgTemplate::Exact(deferred@[j as int]@)) =~= base + exact_all(st.deferred.subrange(0, j + 1)));
            j = j + 1;
        }
        assert(st.deferred.subrange(0, deferred.len() as int) =~= st.deferred);
        proof { ts = base + exact_all(st.deferred); }
    }
    assert(ts =~= finish(st, *settings));
    args
}

/// No token of `toks` is `t`.
pub open spec fn no_token(toks: Seq<Seq<char>>, t: Seq<char>) -> bool {
    forall|i: int| 0 <= i < toks.len() ==> toks[i] != t
}

proof fn lemma_scan_under_all_features(toks: Seq<Seq<char>>, settings: Settings)
    requires
        settings.all_features,
        no_token(toks, "--"@),
    ensures
        !scan(toks, settings).double_dash,
        forall|i: int|
            0 <= i < scan(toks, settings).args.len() ==> scan(toks, settings).args[i]
                != ArgTemplate::Exact("--features"@),
    decreases toks.len(),
{
    reveal_strlit("--features");
    reveal_strlit("--no-default-features");
    if toks.len() > 0 {
        lemma_scan_under_all_features(toks.drop_last(), settings);
        assert(toks.last() == toks[toks.len() - 1]);
    }
}

/// Under a global `all_features`, no `--features` argument survives the
/// scan of `rest` and the global extra arguments, and `--all-features` is added.
pub proof fn lemma_all_features_args(rest: Seq<Seq<char>>, settings: Settings)    requires
        settings.all_features,
        no_token(rest + views_of(settings.additional_job_args@), "--"@),
    ensures
        extended_args(rest, settings).contains(ArgTemplate::Exact("--all-features"@)),
        forall|i: int|
            0 <= i < extended_args(rest, settings).len() ==> extended_args(rest, settings)[i]
                != ArgTemplate::Exact("--features"@),
{
    let toks = rest + views_of(settings.additional_job_args@);
    lemma_scan_under_all_features(toks, settings);
    reveal_strlit("--features");
    reveal_strlit("--all-features");
    reveal_strlit("--no-default-features");
    let st = scan(toks, settings);
    let a = extended_args(rest, settings);
    let k = st.args.len() + if settings.no_default_features && !st.no_default_done {
        1int
    } else {
        0
    };
    let ndf: Seq<ArgTemplate> = if settings.no_default_features && !st.no_default_done {
        seq![ArgTemplate::Exact("--no-default-features"@)]
    } else {
        Seq::empty()
    };
    assert(a =~= st.args + ndf + seq![ArgTemplate::Exact("--all-features"@)]);
    assert(a[k] == ArgTemplate::Exact("--all-features"@));
    assert forall|i: int| 0 <= i < a.len() implies a[i] != ArgTemplate::Exact("--features"@) by {
        assert("--features"@.len() == 10);
        assert("--all-features"@.len() == 14);
        assert("--no-default-features"@.len() == 21);
        if i < st.args.len() {
            assert(a[i] == st.args[i]);
        } else if i < st.args.len() + ndf.len() {
            assert(a[i] == ndf[i - st.args.len()]);
        } else {
            assert(a[i] == ArgTemplate::Exact("--all-features"@));
        }
    }
}

} // verus!
