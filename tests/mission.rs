use bacon_mission::features::merge_features;
use bacon_mission::job::{
    AnalyzerRef, ConcreteJobRef, Job, LinePattern, Report, Scope, Settings, SoundConfig, Stats,
    Volume,
};
use bacon_mission::mission::{ConfigurationError, Ignorer, Mission};
use std::collections::BTreeSet;

fn strings(v: &[&str]) -> Vec<String> {
    v.iter().map(|s| s.to_string()).collect()
}

fn job(command: &[&str]) -> Job {
    Job {
        command: strings(command),
        ignore: Vec::new(),
        env: Vec::new(),
        need_stdout: None,
        ignored_lines: None,
        analyzer: None,
        sound: SoundConfig { enabled: None, base_volume: None },
        kill: None,
        expand_env_vars: None,
        extraneous_args: None,
        apply_gitignore: None,
        allow_warnings: None,
        allow_failures: None,
    }
}

fn settings() -> Settings {
    Settings {
        all_jobs: job(&[]),
        features: None,
        no_default_features: false,
        all_features: false,
        additional_job_args: Vec::new(),
    }
}

fn mission<'s>(job: Job, settings: &'s Settings, tests: &[&str]) -> Mission<'s> {
    Mission {
        location_name: "here".to_string(),
        concrete_job_ref: ConcreteJobRef {
            name: "check".to_string(),
            scope: Scope { tests: strings(tests) },
        },
        execution_directory: "/work/pkg".to_string(),
        package_directory: "/work/pkg".to_string(),
        workspace_directory: Some("/work".to_string()),
        job,
        paths_to_watch: Vec::new(),
        settings,
    }
}

fn args_of(m: &Mission, env: &Vec<(String, String)>) -> Vec<String> {
    m.get_command(env).unwrap().args
}

fn feature_set(s: &str) -> BTreeSet<String> {
    s.split(',').map(|f| f.to_string()).collect()
}

fn names_once(s: &str) -> bool {
    let v: Vec<&str> = s.split(',').collect();
    let set: BTreeSet<&str> = v.iter().copied().collect();
    set.len() == v.len()
}

#[test]
fn merge_features_unites_both_lists() {
    let r = merge_features("a,b", "b,c");
    assert!(names_once(&r));
    assert_eq!(feature_set(&r), feature_set("a,b,c"));
}

#[test]
fn merge_features_is_commutative() {
    let ab = merge_features("x,y", "z,x");
    let ba = merge_features("z,x", "x,y");
    assert_eq!(feature_set(&ab), feature_set(&ba));
    assert!(names_once(&ab) && names_once(&ba));
}

#[test]
fn merge_features_with_itself_dedups() {
    let r = merge_features("a,a,b", "a,a,b");
    assert!(names_once(&r));
    assert_eq!(feature_set(&r), feature_set("a,b"));
}

#[test]
fn merge_features_of_empty_lists() {
    assert_eq!(merge_features("", ""), "");
    let r = merge_features("", "a");
    assert_eq!(feature_set(&r), feature_set(",a"));
}

#[test]
fn absolute_path_is_unchanged() {
    let s = settings();
    let m = mission(job(&["cargo", "check"]), &s, &[]);
    assert_eq!(m.workspace_candidate(&"/etc/x.rs".to_string()), None);
    assert_eq!(m.make_absolute("/etc/x.rs".to_string(), true), "/etc/x.rs");
    assert_eq!(m.make_absolute("/etc/x.rs".to_string(), false), "/etc/x.rs");
}

#[test]
fn relative_path_under_workspace_when_present() {
    let s = settings();
    let m = mission(job(&["cargo", "check"]), &s, &[]);
    let p = "src/main.rs".to_string();
    assert_eq!(m.workspace_candidate(&p), Some("/work/src/main.rs".to_string()));
    assert_eq!(m.make_absolute(p, true), "/work/src/main.rs");
}

#[test]
fn relative_path_under_package_otherwise() {
    let s = settings();
    let mut m = mission(job(&["cargo", "check"]), &s, &[]);
    assert_eq!(m.make_absolute("src/main.rs".to_string(), false), "/work/pkg/src/main.rs");
    m.workspace_directory = None;
    assert_eq!(m.workspace_candidate(&"a.rs".to_string()), None);
    assert_eq!(m.make_absolute("a.rs".to_string(), true), "/work/pkg/a.rs");
    m.package_directory = "/root/".to_string();
    assert_eq!(m.make_absolute("a.rs".to_string(), false), "/root/a.rs");
}

#[test]
fn empty_command_is_a_configuration_error() {
    let s = settings();
    let m = mission(job(&[]), &s, &[]);
    assert_eq!(m.get_command(&Vec::new()).unwrap_err(), ConfigurationError::EmptyCommand);
}

#[test]
fn plain_job_gets_no_global_flags() {
    let mut s = settings();
    s.features = Some("f".to_string());
    s.no_default_features = true;
    s.all_features = true;
    s.additional_job_args = strings(&["--extra"]);
    let mut j = job(&["cargo", "build", "--release"]);
    j.extraneous_args = Some(false);
    let m = mission(j, &s, &[]);
    let c = m.get_command(&Vec::new()).unwrap();
    assert_eq!(c.exe, "cargo");
    assert_eq!(c.args, strings(&["build", "--release"]));
    assert_eq!(c.current_dir, "/work/pkg");
}

#[test]
fn all_features_drops_job_features() {
    let mut s = settings();
    s.all_features = true;
    let m = mission(job(&["cargo", "check", "--features", "foo"]), &s, &[]);
    assert_eq!(args_of(&m, &Vec::new()), strings(&["check", "--all-features"]));
}

#[test]
fn cargo_test_takes_only_first_scoped_test() {
    let s = settings();
    let m = mission(job(&["cargo", "test"]), &s, &["a", "b"]);
    let c = m.get_command(&Vec::new()).unwrap();
    assert_eq!(c.exe, "cargo");
    assert_eq!(c.args, strings(&["test", "a"]));
}

#[test]
fn other_commands_take_all_scoped_tests() {
    let s = settings();
    let m = mission(job(&["cargo", "nextest", "run"]), &s, &["a", "b"]);
    assert_eq!(args_of(&m, &Vec::new()), strings(&["nextest", "run", "a", "b"]));
}

#[test]
fn scope_needs_two_tokens() {
    let s = settings();
    let m = mission(job(&["make"]), &s, &["a"]);
    let c = m.get_command(&Vec::new()).unwrap();
    assert_eq!(c.exe, "make");
    assert!(c.args.is_empty());
}

#[test]
fn unset_variable_stays_and_is_reported() {
    let s = settings();
    let m = mission(job(&["echo", "$UNSET_VAR_xyz"]), &s, &[]);
    let c = m.get_command(&Vec::new()).unwrap();
    assert_eq!(c.args, strings(&["$UNSET_VAR_xyz"]));
    assert_eq!(c.unresolved_vars, strings(&["$UNSET_VAR_xyz"]));
}

#[test]
fn set_variable_is_replaced() {
    let s = settings();
    let m = mission(job(&["run-$TOOL", "--dir=$HOME/x", "$", "$$A-b"]), &s, &[]);
    let env = vec![
        ("HOME".to_string(), "/home/me".to_string()),
        ("TOOL".to_string(), "fast".to_string()),
        ("A".to_string(), "1".to_string()),
    ];
    let c = m.get_command(&env).unwrap();
    assert_eq!(c.exe, "run-fast");
    assert_eq!(c.args, strings(&["--dir=/home/me/x", "$", "$1-b"]));
    assert!(c.unresolved_vars.is_empty());
}

#[test]
fn expansion_can_be_turned_off() {
    let s = settings();
    let mut j = job(&["echo", "$HOME"]);
    j.expand_env_vars = Some(false);
    let m = mission(j, &s, &[]);
    let env = vec![("HOME".to_string(), "/home/me".to_string())];
    let c = m.get_command(&env).unwrap();
    assert_eq!(c.args, strings(&["$HOME"]));
    assert!(c.unresolved_vars.is_empty());
}

#[test]
fn sample_end_to_end() {
    let mut s = settings();
    s.no_default_features = true;
    let mut j = job(&["cargo", "check"]);
    j.extraneous_args = Some(true);
    j.ignore = strings(&["target/"]);
    let m = mission(j, &s, &[]);
    let c = m.get_command(&Vec::new()).unwrap();
    assert_eq!(c.exe, "cargo");
    assert_eq!(c.args, strings(&["check", "--no-default-features"]));
    let set = m.ignorer(true);
    assert_eq!(set.ignorers.len(), 2);
    assert!(matches!(&set.ignorers[0], Ignorer::Git { root } if root == "/work/pkg"));
    assert!(matches!(&set.ignorers[1], Ignorer::Glob { root, patterns }
        if root == "/work/pkg" && *patterns == strings(&["target/"])));
    let set = m.ignorer(false);
    assert_eq!(set.ignorers.len(), 1);
    assert!(matches!(&set.ignorers[0], Ignorer::Glob { .. }));
}

#[test]
fn gitignore_can_be_turned_off() {
    let s = settings();
    let mut j = job(&["cargo", "check"]);
    j.apply_gitignore = Some(false);
    let m = mission(j, &s, &[]);
    assert!(m.ignorer(true).ignorers.is_empty());
}

#[test]
fn ignorer_set_excludes_when_any_rule_does() {
    let s = settings();
    let mut j = job(&["cargo", "check"]);
    j.ignore = strings(&["*.log"]);
    let set = mission(j, &s, &[]).ignorer(true);
    assert!(set.excludes(&vec![false, true]));
    assert!(set.excludes(&vec![true, false]));
    assert!(!set.excludes(&vec![false, false]));
}

#[test]
fn features_merge_with_global_features() {
    let mut s = settings();
    s.features = Some("g".to_string());
    let m = mission(job(&["cargo", "check", "--features", "j"]), &s, &[]);
    let a = args_of(&m, &Vec::new());
    assert_eq!(a.len(), 3);
    assert_eq!(a[0], "check");
    assert_eq!(a[1], "--features");
    assert_eq!(feature_set(&a[2]), feature_set("g,j"));
}

#[test]
fn global_features_replace_job_features_without_defaults() {
    let mut s = settings();
    s.features = Some("g".to_string());
    s.no_default_features = true;
    let m = mission(job(&["cargo", "check", "--features", "j"]), &s, &[]);
    assert_eq!(
        args_of(&m, &Vec::new()),
        strings(&["check", "--features", "g", "--no-default-features"])
    );
}

#[test]
fn no_features_passed_without_defaults_and_global_list() {
    let mut s = settings();
    s.no_default_features = true;
    let m = mission(job(&["cargo", "check", "--features", "j", "--no-default-features"]), &s, &[]);
    assert_eq!(args_of(&m, &Vec::new()), strings(&["check", "--no-default-features"]));
}

#[test]
fn job_features_kept_without_global_settings() {
    let s = settings();
    let m = mission(job(&["cargo", "check", "--features", "j"]), &s, &[]);
    assert_eq!(args_of(&m, &Vec::new()), strings(&["check", "--features", "j"]));
}

#[test]
fn global_features_added_when_job_has_none() {
    let mut s = settings();
    s.features = Some("g,h".to_string());
    let m = mission(job(&["cargo", "check"]), &s, &[]);
    assert_eq!(args_of(&m, &Vec::new()), strings(&["check", "--features", "g,h"]));
}

#[test]
fn arguments_after_double_dash_come_last() {
    let mut s = settings();
    s.features = Some("g".to_string());
    s.all_features = false;
    s.no_default_features = true;
    s.additional_job_args = strings(&["--locked"]);
    let m = mission(job(&["cargo", "test", "--", "--features", "x"]), &s, &[]);
    assert_eq!(
        args_of(&m, &Vec::new()),
        strings(&[
            "test",
            "--no-default-features",
            "--features",
            "g",
            "--",
            "--features",
            "x",
            "--locked"
        ])
    );
}

#[test]
fn additional_args_are_appended() {
    let mut s = settings();
    s.additional_job_args = strings(&["--locked", "--offline"]);
    let m = mission(job(&["cargo", "check"]), &s, &[]);
    assert_eq!(args_of(&m, &Vec::new()), strings(&["check", "--locked", "--offline"]));
}

#[test]
fn job_env_overrides_global_env() {
    let mut s = settings();
    s.all_jobs.env = vec![
        ("A".to_string(), "global".to_string()),
        ("B".to_string(), "b".to_string()),
    ];
    let mut j = job(&["cargo", "check"]);
    j.env = vec![("A".to_string(), "job".to_string()), ("C".to_string(), "c".to_string())];
    let m = mission(j, &s, &[]);
    let mut envs = m.get_command(&Vec::new()).unwrap().envs;
    envs.sort();
    assert_eq!(
        envs,
        vec![
            ("A".to_string(), "job".to_string()),
            ("B".to_string(), "b".to_string()),
            ("C".to_string(), "c".to_string()),
        ]
    );
}

#[test]
fn need_stdout_precedence() {
    let mut s = settings();
    let m = mission(job(&["x"]), &s, &[]);
    assert!(!m.need_stdout());
    s.all_jobs.need_stdout = Some(true);
    let m = mission(job(&["x"]), &s, &[]);
    assert!(m.need_stdout());
    let mut j = job(&["x"]);
    j.need_stdout = Some(false);
    let m = mission(j, &s, &[]);
    assert!(!m.need_stdout());
}

#[test]
fn analyzer_precedence() {
    let mut s = settings();
    assert_eq!(mission(job(&["x"]), &s, &[]).analyzer(), AnalyzerRef::Standard);
    s.all_jobs.analyzer = Some(AnalyzerRef::Eslint);
    assert_eq!(mission(job(&["x"]), &s, &[]).analyzer(), AnalyzerRef::Eslint);
    let mut j = job(&["x"]);
    j.analyzer = Some(AnalyzerRef::Nextest);
    assert_eq!(mission(j, &s, &[]).analyzer(), AnalyzerRef::Nextest);
}

#[test]
fn ignored_lines_precedence() {
    let mut s = settings();
    assert!(mission(job(&["x"]), &s, &[]).ignored_lines_patterns().is_none());
    s.all_jobs.ignored_lines = Some(vec![LinePattern { pattern: "^note".to_string() }]);
    let m = mission(job(&["x"]), &s, &[]);
    assert_eq!(m.ignored_lines_patterns().unwrap()[0].pattern, "^note");
    let mut j = job(&["x"]);
    j.ignored_lines = Some(Vec::new());
    assert!(mission(j, &s, &[]).ignored_lines_patterns().is_none());
}

#[test]
fn sound_only_when_enabled() {
    let s = settings();
    assert!(mission(job(&["x"]), &s, &[]).sound_player_if_needed().is_none());
    let mut j = job(&["x"]);
    j.sound = SoundConfig { enabled: Some(true), base_volume: None };
    let setup = mission(j, &s, &[]).sound_player_if_needed().unwrap();
    assert_eq!(setup.base_volume, Volume { percent: 100 });
    let mut j = job(&["x"]);
    j.sound = SoundConfig { enabled: Some(true), base_volume: Some(Volume { percent: 30 }) };
    let setup = mission(j, &s, &[]).sound_player_if_needed().unwrap();
    assert_eq!(setup.base_volume.percent, 30);
}

#[test]
fn kill_command_is_the_jobs() {
    let s = settings();
    assert_eq!(mission(job(&["x"]), &s, &[]).kill_command(), None);
    let mut j = job(&["x"]);
    j.kill = Some(strings(&["pkill", "x"]));
    assert_eq!(mission(j, &s, &[]).kill_command(), Some(strings(&["pkill", "x"])));
}

#[test]
fn success_depends_on_tolerances() {
    let s = settings();
    let report = Report { stats: Stats { warnings: 2, errors: 0, test_fails: 1 } };
    let m = mission(job(&["x"]), &s, &[]);
    assert!(!m.is_success(&report));
    let mut j = job(&["x"]);
    j.allow_warnings = Some(true);
    j.allow_failures = Some(true);
    assert!(mission(j, &s, &[]).is_success(&report));
    let failed = Report { stats: Stats { warnings: 0, errors: 1, test_fails: 0 } };
    let mut j = job(&["x"]);
    j.allow_warnings = Some(true);
    j.allow_failures = Some(true);
    assert!(!mission(j, &s, &[]).is_success(&failed));
}
