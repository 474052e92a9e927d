//! The binding of a job, the global settings and the directories of a run.
use crate::command::{
    assemble_args, exact_all, extended_args, fills_all, lemma_all_features_args, no_token,
    ArgTemplate,
};
use crate::env_vars::{
    env_entry, env_view, expand_from, expand_token, merge_envs, overlay_entry, unique_keys,
    unresolved_from,
};
use crate::features::views_of;
use crate::job::{
    precedence, resolve_setting, AnalyzerRef, ConcreteJobRef, Job, LinePattern, Report, Settings,
    SoundSetup,
};
use crate::paths::{is_absolute, is_absolute_path, join, join_path};
use vstd::prelude::*;

verus! {

/// A rule that tells which changed paths do not trigger a run.
#[derive(Clone, Debug)]
pub enum Ignorer {
    /// The `.gitignore` rules of the repository holding `root`.
    Git { root: String },
    /// Glob patterns, relative to `root`.
    Glob { root: String, patterns: Vec<String> },
}

/// Ignore rules: a path is ignored when any of them ignores it.
#[derive(Clone, Debug)]
pub struct IgnorerSet {
    pub ignorers: Vec<Ignorer>,
}

impl IgnorerSet {
    /// Whether a path is ignored, given what each rule, in order, says of it.
    pub fn excludes(&self, verdicts: &Vec<bool>) -> (r: bool)
        requires
            verdicts.len() == self.ignorers.len(),
        ensures
            r == exists|i: int| 0 <= i < verdicts.len() && verdicts[i],
    {
        let mut i: usize = 0;
        while i < verdicts.len()
            invariant
                i <= verdicts.len(),
                forall|m: int| 0 <= m < i ==> !verdicts[m],
            decreases verdicts.len() - i,
        {
            if verdicts[i] {
                return true;
            }
            i = i + 1;
        }
        false
    }
}

/// What is needed to launch a job's command.
#[derive(Clone, Debug)]
pub struct CommandBuilder {
    /// The program.
    pub exe: String,
    pub args: Vec<String>,
    pub current_dir: String,
    /// Environment variables set for the command, each name once.
    pub envs: Vec<(String, String)>,
    /// Whether standard output is captured besides standard error.
    pub with_stdout: bool,
    /// The `$NAME` references left in the command for lack of a variable.
    pub unresolved_vars: Vec<String>,
}

/// Why no command can be built for a job.
#[derive(Clone, Copy, Debug, PartialEq, Eq, Structural)]
pub enum ConfigurationError {
    /// The job's command has no token.
    EmptyCommand,
}

/// The job's command tokens, with `$NAME` references expanded when the job asks for it.
pub open spec fn expanded_command(job: Job, env: Seq<(Seq<char>, Seq<char>)>) -> Seq<Seq<char>> {
    if job.expand_env_vars() {
        job.command@.map_values(|t: String| expand_from(t@, 0, env))
    } else {
        views_of(job.command@)
    }
}

/// The unresolved references of all of `tokens`, in order.
pub open spec fn all_unresolved(tokens: Seq<Seq<char>>, env: Seq<(Seq<char>, Seq<char>)>) -> Seq<
    Seq<char>,
>
    decreases tokens.len(),
{
    if tokens.len() == 0 {
        Seq::empty()
    } else {
        all_unresolved(tokens.drop_last(), env) + unresolved_from(tokens.last(), 0, env)
    }
}

/// The command with the scoped tests appended: only the first one for a
/// plain `cargo test`, which takes a single test name.
pub open spec fn scoped_command(cmd: Seq<Seq<char>>, tests: Seq<Seq<char>>) -> Seq<Seq<char>> {
    if tests.len() > 0 && cmd.len() >= 2 {
        if cmd[0] == "cargo"@ && cmd[1] == "test"@ {
            cmd.push(tests[0])
        } else {
            cmd + tests
        }
    } else {
        cmd
    }
}

/// The strings of `v` from position `from` on.
pub fn clone_from(v: &Vec<String>, from: usize) -> (r: Vec<String>)
    requires
        from <= v.len(),
    ensures
        views_of(r@) == views_of(v@).subrange(from as int, v.len() as int),
{
    let mut r: Vec<String> = Vec::new();
    let mut i: usize = from;
    while i < v.len()
        invariant
            from <= i <= v.len(),
            views_of(r@) == views_of(v@).subrange(from as int, i as int),
        decreases v.len() - i,
    {
        let ghost before = views_of(r@);
        r.push(v[i].clone());
        assert(views_of(r@) =~= before.push(v@[i as int]@));
        assert(views_of(v@).subrange(from as int, i + 1) =~= before.push(v@[i as int]@));
        i = i + 1;
    }
    r
}

/// Moves the strings of `src` to the end of `dst`.
fn append_strings(dst: &mut Vec<String>, src: Vec<String>)
    ensures
        views_of(final(dst)@) == views_of(old(dst)@) + views_of(src@),
{
    let mut i: usize = 0;
    while i < src.len()
        invariant
            i <= src.len(),
            views_of(dst@) == views_of(old(dst)@) + views_of(src@).subrange(0, i as int),
        decreases src.len() - i,
    {
        let ghost before = views_of(dst@);
        dst.push(src[i].clone());
        assert(views_of(dst@) =~= before.push(src@[i as int]@));
        assert(views_of(src@).subrange(0, i + 1) =~= views_of(src@).subrange(0, i as int).push(
            src@[i as int]@,
        ));
        i = i + 1;
    }
    assert(views_of(src@).subrange(0, src.len() as int) =~= views_of(src@));
}

proof fn lemma_fills_exact(v: Seq<Seq<char>>)
    ensures
        fills_all(v, exact_all(v)),
{
}

/// The description of a run of a job, from the arguments, the environment
/// and the surroundings.
#[derive(Debug)]
pub struct Mission<'s> {
    pub location_name: String,
    pub concrete_job_ref: ConcreteJobRef,
    pub execution_directory: String,
    pub package_directory: String,
    pub workspace_directory: Option<String>,
    pub job: Job,
    pub paths_to_watch: Vec<String>,
    pub settings: &'s Settings,
}

impl<'s> Mission<'s> {
    /// The command tokens after expansion and test scoping: the program, then its arguments.
    pub open spec fn command_tokens(&self, env: Seq<(Seq<char>, Seq<char>)>) -> Seq<Seq<char>> {
        scoped_command(
            expanded_command(self.job, env),
            views_of(self.concrete_job_ref.scope.tests@),
        )
    }

    /// What the arguments of the job's command are to be.
    pub open spec fn arg_templates(&self, env: Seq<(Seq<char>, Seq<char>)>) -> Seq<ArgTemplate> {
        let rest = self.command_tokens(env).drop_first();
        if self.job.extraneous_args() {
            extended_args(rest, *self.settings)
        } else {
            exact_all(rest)
        }
    }
}

impl<'s> Mission<'s> {
    /// The ignore rules of the job: the `.gitignore` rules unless the job
    /// turns them off (and only where the package is in a repository, as
    /// `git_repository_found` tells), then the job's own glob patterns, if any.
    pub fn ignorer(&self, git_repository_found: bool) -> (r: IgnorerSet)
        ensures
            ({
                let git = self.job.apply_gitignore != Some(false) && git_repository_found;
                let glob = self.job.ignore@.len() > 0;
                &&& r.ignorers@.len() == (if git { 1int } else { 0 }) + (if glob { 1int } else { 0 })
                &&& git ==> (r.ignorers@[0] matches Ignorer::Git { root } && root@ == self.package_directory@)
                &&& glob ==> (r.ignorers@.last() matches Ignorer::Glob { root, patterns } && root@
                    == self.package_directory@ && views_of(patterns@) == views_of(self.job.ignore@))
            }),
    {
        let mut ignorers: Vec<Ignorer> = Vec::new();
        if self.job.apply_gitignore != Some(false) && git_repository_found {
            ignorers.push(Ignorer::Git { root: self.package_directory.clone() });
        }
        if self.job.ignore.len() > 0 {
            let patterns = clone_from(&self.job.ignore, 0);
            assert(views_of(self.job.ignore@).subrange(0, self.job.ignore@.len() as int) =~= views_of(self.job.ignore@));
            ignorers.push(Ignorer::Glob { root: self.package_directory.clone(), patterns });
        }
        IgnorerSet { ignorers }
    }

    /// Whether a run's report counts as a success, under the job's tolerance
    /// of warnings and failed tests.
    pub fn is_success(&self, report: &Report) -> (r: bool)
        ensures
            r == report.spec_is_success(self.job.spec_allow_warnings(), self.job.spec_allow_failures()),
    {
        report.is_success(self.job.allow_warnings(), self.job.allow_failures())
    }

    /// The path that a relative `path` names under the workspace, whose
    /// existence decides `make_absolute`; none for an absolute path or
    /// without a workspace.
    pub fn workspace_candidate(&self, path: &String) -> (r: Option<String>)
        ensures
            match r {
                Some(c) => !is_absolute_path(path@) && self.workspace_directory is Some && c@
                    == join_path(self.workspace_directory->0@, path@),
                None => is_absolute_path(path@) || self.workspace_directory is None,
            },
    {
        if is_absolute(path.as_str()) {
            return None;
        }
        match &self.workspace_directory {
            Some(workspace) => Some(join(workspace.as_str(), path.as_str())),
            None => None,
        }
    }

    /// Makes `path` absolute. Build tools give some paths relative to the
    /// workspace rather than to the package: a relative path goes under the
    /// workspace where it exists there (`workspace_candidate_exists` tells),
    /// else under the package.
    pub fn make_absolute(&self, path: String, workspace_candidate_exists: bool) -> (r: String)
        ensures
            r@ == if is_absolute_path(path@) {
                path@
            } else if self.workspace_directory is Some && workspace_candidate_exists {
                join_path(self.workspace_directory->0@, path@)
            } else {
                join_path(self.package_directory@, path@)
            },
    {
        if is_absolute(path.as_str()) {
            return path;
        }
        if let Some(workspace) = &self.workspace_directory {
            if workspace_candidate_exists {
                return join(workspace.as_str(), path.as_str());
            }
        }
        join(self.package_directory.as_str(), path.as_str())
    }

    /// Builds (without running it) the job's command, with the variables of
    /// `env` for the `$NAME` references.
    pub fn get_command(&self, env: &Vec<(String, String)>) -> (r: Result<
        CommandBuilder,
        ConfigurationError,
    >)
        ensures
            r is Err <==> self.job.command@.len() == 0,
            match r {
                Ok(c) => {
                    &&& c.exe@ == self.command_tokens(env_view(env@))[0]
                    &&& fills_all(views_of(c.args@), self.arg_templates(env_view(env@)))
                    &&& c.current_dir@ == self.execution_directory@
                    &&& unique_keys(env_view(c.envs@))
                    &&& forall|k: Seq<char>|
                        #![trigger env_entry(env_view(c.envs@), k)]
                        env_entry(env_view(c.envs@), k) == overlay_entry(
                            env_view(self.settings.all_jobs.env@),
                            env_view(self.job.env@),
                            k,
                        )
                    &&& c.with_stdout == self.job.spec_need_stdout()
                    &&& views_of(c.unresolved_vars@) == if self.job.spec_expand_env_vars() {
                        all_unresolved(views_of(self.job.command@), env_view(env@))
                    } else {
                        Seq::empty()
                    }
                },
                Err(e) => e == ConfigurationError::EmptyCommand,
            },
    {
        let ghost e = env_view(env@);
        let ghost cmd = views_of(self.job.command@);
        let expand = self.job.expand_env_vars();
        let mut tokens: Vec<String> = Vec::new();
        let mut unresolved: Vec<String> = Vec::new();
        let mut i: usize = 0;
        while i < self.job.command.len()
            invariant
                i <= self.job.command.len(),
                e == env_view(env@),
                cmd == views_of(self.job.command@),
                expand == self.job.spec_expand_env_vars(),
                views_of(tokens@) == expanded_command(self.job, e).subrange(0, i as int),
                views_of(unresolved@) == if expand {
                    all_unresolved(cmd.subrange(0, i as int), e)
                } else {
                    Seq::empty()
                },
            decreases self.job.command.len() - i,
        {
            let ghost before = views_of(tokens@);
            assert(cmd.subrange(0, i + 1).drop_last() =~= cmd.subrange(0, i as int));
            if expand {
                let (t, missing) = expand_token(self.job.command[i].as_str(), env);
                tokens.push(t);
                append_strings(&mut unresolved, missing);
            } else {
                tokens.push(self.job.command[i].clone());
            }
            assert(views_of(tokens@) =~= before.push(views_of(tokens@).last()));
            assert(views_of(tokens@) =~= expanded_command(self.job, e).subrange(0, i + 1));
            i = i + 1;
        }
        assert(expanded_command(self.job, e).subrange(0, i as int) =~= expanded_command(self.job, e));
        assert(cmd.subrange(0, i as int) =~= cmd);
        if tokens.len() == 0 {
            return Err(ConfigurationError::EmptyCommand);
        }
        let tests = &self.concrete_job_ref.scope.tests;
        if tests.len() > 0 && tokens.len() >= 2 {
            let cargo = String::from_str("cargo");
            let test = String::from_str("test");
            if tokens[0] == cargo && tokens[1] == test {
                let ghost before = views_of(tokens@);
                tokens.push(tests[0].clone());
                assert(views_of(tokens@) =~= before.push(tests@[0]@));
            } else {
                let extra = clone_from(tests, 0);
                assert(views_of(tests@).subrange(0, tests@.len() as int) =~= views_of(tests@));
                append_strings(&mut tokens, extra);
            }
        }
        let ghost all = views_of(tokens@);
        assert(all == self.command_tokens(e));
        let exe = tokens[0].clone();
        let rest = clone_from(&tokens, 1);
        assert(views_of(tokens@).subrange(1, tokens@.len() as int) =~= all.drop_first());
        let envs = merge_envs(&self.settings.all_jobs.env, &self.job.env);
        let args = if self.job.extraneous_args() {
            assemble_args(&rest, self.settings)
        } else {
            proof {
                lemma_fills_exact(views_of(rest@));
            }
            rest
        };
        Ok(
            CommandBuilder {
                exe,
                args,
                current_dir: self.execution_directory.clone(),
                envs,
                with_stdout: self.job.need_stdout(),
                unresolved_vars: unresolved,
            },
        )
    }

    /// The command that stops the job, if it has one.
    pub fn kill_command(&self) -> (r: Option<Vec<String>>)
        ensures
            match (r, self.job.kill) {
                (Some(c), Some(k)) => views_of(c@) == views_of(k@),
                (None, None) => true,
                _ => false,
            },
    {
        match &self.job.kill {
            Some(k) => {
                let c = clone_from(k, 0);
                assert(views_of(k@).subrange(0, k@.len() as int) =~= views_of(k@));
                Some(c)
            },
            None => None,
        }
    }

    /// Whether the job needs standard output and not just standard error.
    pub fn need_stdout(&self) -> (r: bool)
        ensures
            r == precedence(self.job.need_stdout, self.settings.all_jobs.need_stdout, false),
    {
        resolve_setting(self.job.need_stdout, self.settings.all_jobs.need_stdout, false)
    }

    /// The analyzer of the job's output.
    pub fn analyzer(&self) -> (r: AnalyzerRef)
        ensures
            r == precedence(self.job.analyzer, self.settings.all_jobs.analyzer, AnalyzerRef::Standard),
    {
        resolve_setting(self.job.analyzer, self.settings.all_jobs.analyzer, AnalyzerRef::default())
    }

    /// The patterns of output lines to leave out: the job's if it has a
    /// list, else the global one; an empty list means none.
    pub fn ignored_lines_patterns(&self) -> (r: Option<&Vec<LinePattern>>)
        ensures
            ({
                let chosen = match self.job.ignored_lines {
                    Some(p) => Some(p),
                    None => self.settings.all_jobs.ignored_lines,
                };
                match r {
                    Some(p) => chosen == Some(*p) && p@.len() > 0,
                    None => chosen is None || chosen->0@.len() == 0,
                }
            }),
    {
        let chosen = match &self.job.ignored_lines {
            Some(p) => Some(p),
            None => self.settings.all_jobs.ignored_lines.as_ref(),
        };
        match chosen {
            Some(p) => if p.len() > 0 {
                Some(p)
            } else {
                None
            },
            None => None,
        }
    }

    /// What a sound player for the job needs, when the job has sound on.
    pub fn sound_player_if_needed(&self) -> (r: Option<SoundSetup>)
        ensures
            r == if self.job.sound.spec_is_enabled() {
                Some(SoundSetup { base_volume: self.job.sound.spec_base_volume() })
            } else {
                None
            },
    {
        if self.job.sound.is_enabled() {
            Some(SoundSetup { base_volume: self.job.sound.get_base_volume() })
        } else {
            None
        }
    }
}

/// Under a global `all_features`, a job that takes extra arguments gets
/// `--all-features` and no `--features` argument, whatever its own tokens
/// say before any `--` separator.
pub proof fn all_features_overrides_job_features(m: &Mission, env: Seq<(Seq<char>, Seq<char>)>)
    requires
        m.job.spec_extraneous_args(),
        m.settings.all_features,
        no_token(m.command_tokens(env).drop_first() + views_of(m.settings.additional_job_args@), "--"@),
    ensures
        m.arg_templates(env).contains(ArgTemplate::Exact("--all-features"@)),
        forall|i: int|
            0 <= i < m.arg_templates(env).len() ==> m.arg_templates(env)[i] != ArgTemplate::Exact(
                "--features"@,
            ),
{
    lemma_all_features_args(m.command_tokens(env).drop_first(), *m.settings);
}

/// A job that takes no extra arguments gets none of the global feature
/// flags: its arguments are its own tokens, as they are.
pub proof fn plain_job_gets_no_feature_flags(
    m: &Mission,
    env: Seq<(Seq<char>, Seq<char>)>,
    flag: Seq<char>,
)
    requires
        !m.job.spec_extraneous_args(),
        flag == "--features"@ || flag == "--all-features"@ || flag == "--no-default-features"@,
        no_token(m.command_tokens(env).drop_first(), flag),
    ensures
        m.arg_templates(env) == exact_all(m.command_tokens(env).drop_first()),
        forall|i: int|
            0 <= i < m.arg_templates(env).len() ==> m.arg_templates(env)[i] != ArgTemplate::Exact(
                flag,
            ),
{
}

} // verus!
