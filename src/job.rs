//! The declarative inputs of a run: jobs, global settings, the job reference
//! with its test scope, and the report a run produces.
use vstd::prelude::*;

verus! {

/// The effective value of a setting: the job's own value wins, then the
/// global one, then the built-in default.
pub open spec fn precedence<T>(job: Option<T>, global: Option<T>, default: T) -> T {
    match job {
        Some(v) => v,
        None => match global {
            Some(g) => g,
            None => default,
        },
    }
}

/// Resolves a setting through the job, global, default chain.
pub fn resolve_setting<T: Copy>(job: Option<T>, global: Option<T>, default: T) -> (r: T)
    ensures
        r == precedence(job, global, default),
{
    match job {
        Some(v) => v,
        None => match global {
            Some(g) => g,
            None => default,
        },
    }
}

/// The analyzer that reads a job's output.
#[derive(Clone, Copy, Debug, PartialEq, Eq, Structural)]
pub enum AnalyzerRef {
    Standard,
    Nextest,
    Eslint,
    Biome,
    PythonPytest,
}

impl Default for AnalyzerRef {
    fn default() -> (r: AnalyzerRef)
        ensures
            r == AnalyzerRef::Standard,
    {
        AnalyzerRef::Standard
    }
}

/// A pattern of output lines to leave out of the report.
#[derive(Clone, Debug)]
pub struct LinePattern {
    pub pattern: String,
}

/// A playback volume, in percent.
#[derive(Clone, Copy, Debug, PartialEq, Eq, Structural)]
pub struct Volume {
    pub percent: u16,
}

pub const DEFAULT_VOLUME_PERCENT: u16 = 100;

/// Whether a job plays sounds, and how loud.
#[derive(Clone, Copy, Debug, PartialEq, Eq, Structural)]
pub struct SoundConfig {
    pub enabled: Option<bool>,
    pub base_volume: Option<Volume>,
}

impl SoundConfig {
    pub open spec fn spec_is_enabled(&self) -> bool {
        self.enabled == Some(true)
    }

    pub open spec fn spec_base_volume(&self) -> Volume {
        match self.base_volume {
            Some(v) => v,
            None => Volume { percent: DEFAULT_VOLUME_PERCENT },
        }
    }

    /// Sound is off unless the job turns it on.
    #[verifier::when_used_as_spec(spec_is_enabled)]
    pub fn is_enabled(&self) -> (r: bool)
        ensures
            r == self.spec_is_enabled(),
    {
        match self.enabled {
            Some(e) => e,
            None => false,
        }
    }

    #[verifier::when_used_as_spec(spec_base_volume)]
    pub fn get_base_volume(&self) -> (r: Volume)
        ensures
            r == self.spec_base_volume(),
    {
        match self.base_volume {
            Some(v) => v,
            None => Volume { percent: DEFAULT_VOLUME_PERCENT },
        }
    }
}

/// What a sound backend needs to be opened for a job.
#[derive(Clone, Copy, Debug, PartialEq, Eq, Structural)]
pub struct SoundSetup {
    pub base_volume: Volume,
}

/// A named, declarative task.
#[derive(Clone, Debug)]
pub struct Job {
    /// The command tokens: the program, then its arguments.
    pub command: Vec<String>,
    /// Glob patterns of paths whose changes do not trigger a run.
    pub ignore: Vec<String>,
    /// Environment variables given to the command.
    pub env: Vec<(String, String)>,
    pub need_stdout: Option<bool>,
    pub ignored_lines: Option<Vec<LinePattern>>,
    pub analyzer: Option<AnalyzerRef>,
    pub sound: SoundConfig,
    /// A command that stops the job, in place of killing its process.
    pub kill: Option<Vec<String>>,
    /// Whether `$NAME` in command tokens is replaced from the environment (default: yes).
    pub expand_env_vars: Option<bool>,
    /// Whether feature flags and global extra arguments are applied (default: yes).
    pub extraneous_args: Option<bool>,
    /// Whether `.gitignore` rules apply (default: yes).
    pub apply_gitignore: Option<bool>,
    pub allow_warnings: Option<bool>,
    pub allow_failures: Option<bool>,
}

impl Job {
    pub open spec fn spec_expand_env_vars(&self) -> bool {
        self.expand_env_vars != Some(false)
    }

    pub open spec fn spec_extraneous_args(&self) -> bool {
        self.extraneous_args != Some(false)
    }

    pub open spec fn spec_need_stdout(&self) -> bool {
        self.need_stdout == Some(true)
    }

    pub open spec fn spec_allow_warnings(&self) -> bool {
        self.allow_warnings == Some(true)
    }

    pub open spec fn spec_allow_failures(&self) -> bool {
        self.allow_failures == Some(true)
    }

    #[verifier::when_used_as_spec(spec_expand_env_vars)]
    pub fn expand_env_vars(&self) -> (r: bool)
        ensures
            r == self.spec_expand_env_vars(),
    {
        self.expand_env_vars != Some(false)
    }

    #[verifier::when_used_as_spec(spec_extraneous_args)]
    pub fn extraneous_args(&self) -> (r: bool)
        ensures
            r == self.spec_extraneous_args(),
    {
        self.extraneous_args != Some(false)
    }

    #[verifier::when_used_as_spec(spec_need_stdout)]
    pub fn need_stdout(&self) -> (r: bool)
        ensures
            r == self.spec_need_stdout(),
    {
        self.need_stdout == Some(true)
    }

    #[verifier::when_used_as_spec(spec_allow_warnings)]
    pub fn allow_warnings(&self) -> (r: bool)
        ensures
            r == self.spec_allow_warnings(),
    {
        self.allow_warnings == Some(true)
    }

    #[verifier::when_used_as_spec(spec_allow_failures)]
    pub fn allow_failures(&self) -> (r: bool)
        ensures
            r == self.spec_allow_failures(),
    {
        self.allow_failures == Some(true)
    }
}

/// Process-wide settings, shared by every mission.
#[derive(Clone, Debug)]
pub struct Settings {
    /// Defaults for every job.
    pub all_jobs: Job,
    /// Features to enable, as a comma-separated list.
    pub features: Option<String>,
    pub no_default_features: bool,
    pub all_features: bool,
    /// Arguments appended to the command of every job that takes extra arguments.
    pub additional_job_args: Vec<String>,
}

/// The tests a run is restricted to; none means all.
#[derive(Clone, Debug)]
pub struct Scope {
    pub tests: Vec<String>,
}

impl Scope {
    pub open spec fn spec_has_tests(&self) -> bool {
        self.tests@.len() > 0
    }

    #[verifier::when_used_as_spec(spec_has_tests)]
    pub fn has_tests(&self) -> (r: bool)
        ensures
            r == self.spec_has_tests(),
    {
        self.tests.len() > 0
    }
}

/// A job by name, with an optional test scope.
#[derive(Clone, Debug)]
pub struct ConcreteJobRef {
    pub name: String,
    pub scope: Scope,
}

/// Counts of what a run of a job found.
#[derive(Clone, Copy, Debug, PartialEq, Eq, Structural)]
pub struct Stats {
    pub warnings: usize,
    pub errors: usize,
    pub test_fails: usize,
}

/// The outcome of a run of a job.
#[derive(Clone, Copy, Debug, PartialEq, Eq, Structural)]
pub struct Report {
    pub stats: Stats,
}

impl Report {
    pub open spec fn spec_is_success(&self, allow_warnings: bool, allow_failures: bool) -> bool {
        &&& self.stats.errors == 0
        &&& (allow_failures || self.stats.test_fails == 0)
        &&& (allow_warnings || self.stats.warnings == 0)
    }

    /// A run succeeds when it has no error, and no failed test or warning
    /// unless those are allowed.
    #[verifier::when_used_as_spec(spec_is_success)]
    pub fn is_success(&self, allow_warnings: bool, allow_failures: bool) -> (r: bool)
        ensures
            r == self.spec_is_success(allow_warnings, allow_failures),
    {
        self.stats.errors == 0 && (allow_failures || self.stats.test_fails == 0) && (
        allow_warnings || self.stats.warnings == 0)
    }
}

} // verus!
