use std::path::PathBuf;

use grep_cache::command::run;
use grep_cache::command::tokenize;
use grep_cache::command::SearchRequest;
use grep_cache::forerunner::forerunner_plan;
use grep_cache::gate::is_git_repo;
use grep_cache::source::dyn_source_with_dir;
use grep_cache::source::dynamic_args;
use grep_cache::source::select_source;
use grep_cache::source::CacheEntry;
use grep_cache::source::CacheStep;
use grep_cache::source::SourceDecision;

#[test]
fn test_git_repo() {
    let mut cmd_dir: PathBuf = "/Users/xuliucheng/.vim/plugged/vim-clap".into();
    cmd_dir.push(".git");
    if cmd_dir.exists() {
        println!("{:?} exists", cmd_dir);
    } else {
        println!("{:?} does not exist", cmd_dir);
    }
}

#[test]
fn nonexistent_directory_is_no_repo() {
    assert!(!is_git_repo("/no/such/directory/anywhere"));
}

#[test]
fn metadata_path_is_the_git_child() {
    assert_eq!(grep_cache::gate::git_metadata_path("/work/tree"), "/work/tree/.git");
}

#[test]
fn tokenize_splits_on_whitespace() {
    assert_eq!(tokenize("rg --column -n"), vec!["rg", "--column", "-n"]);
}

#[test]
fn tokenize_collapses_runs_of_whitespace() {
    assert_eq!(tokenize("  rg\t--column\n\n-n  "), vec!["rg", "--column", "-n"]);
}

#[test]
fn tokenize_of_blank_input_is_empty() {
    assert!(tokenize("").is_empty());
    assert!(tokenize(" \t ").is_empty());
}

#[test]
fn run_appends_query_as_single_token() {
    let r = run(
        "rg --column".to_string(),
        "two words (unescaped)",
        None,
        None,
        None,
        false,
        false,
    );
    assert_eq!(r.args, vec!["rg", "--column", "two words (unescaped)"]);
    assert_eq!(r.dir, None);
}

#[test]
fn run_appends_glob_flag_and_literal() {
    let r = run("rg -n".to_string(), "q", Some("*.rs"), None, None, false, false);
    assert_eq!(r.args, vec!["rg", "-n", "q", "-g", "*.rs"]);
}

#[test]
fn run_appends_path_token_when_policy_asks() {
    let r = run("rg -n".to_string(), "q", None, None, None, false, true);
    assert_eq!(r.args, vec!["rg", "-n", "q", "."]);
}

#[test]
fn run_hands_directory_and_bounds_through() {
    let r = run(
        "rg -n".to_string(),
        "q",
        Some("*.md"),
        Some("/work/tree".to_string()),
        Some(30),
        true,
        true,
    );
    assert_eq!(r.args, vec!["rg", "-n", "q", "-g", "*.md", "."]);
    assert_eq!(r.dir, Some("/work/tree".to_string()));
    assert_eq!(r.number, Some(30));
    assert!(r.enable_icon);
}

#[test]
fn dynamic_invocation_is_fixed_and_queryless() {
    assert_eq!(
        dynamic_args(),
        vec!["rg", "--column", "--line-number", "--no-heading", "--color=never", "--smart-case", "''"]
    );
}

#[test]
fn captured_file_wins_and_skips_the_cache() {
    let d = select_source(Some("/tmp/captured".to_string()), Some("/work".to_string()));
    assert!(matches!(d, SourceDecision::Replay(f) if f == "/tmp/captured"));
}

#[test]
fn directory_without_input_consults_the_cache() {
    let d = select_source(None, Some("/work".to_string()));
    assert!(matches!(d, SourceDecision::ConsultCache(dir) if dir == "/work"));
}

#[test]
fn no_input_and_no_directory_spawns_ambient() {
    let d = select_source(None, None);
    assert!(matches!(d, SourceDecision::SpawnAmbient));
}

#[test]
fn valid_cache_entry_short_circuits_spawning() {
    let body: Vec<String> = (0..542).map(|i| format!("match {}", i)).collect();
    let entry = CacheEntry { identifier: "abc123_542".to_string(), body: Some(body) };
    let step = dyn_source_with_dir("/work".to_string(), Some(entry), 100);
    match step {
        CacheStep::UseCached(r) => {
            assert_eq!(r.total, 542);
            assert_eq!(r.lines.len(), 100);
            assert!(r.using_cache);
        }
        CacheStep::SpawnInDir(_) => panic!("a valid entry must not spawn"),
    }
}

#[test]
fn unparsable_entry_falls_through_to_live_execution() {
    let entry = CacheEntry {
        identifier: "abc123".to_string(),
        body: Some(vec!["line".to_string()]),
    };
    let step = dyn_source_with_dir("/work".to_string(), Some(entry), 100);
    assert!(matches!(step, CacheStep::SpawnInDir(d) if d == "/work"));
}

#[test]
fn missing_entry_falls_through_to_live_execution() {
    let step = dyn_source_with_dir("/work".to_string(), None, 100);
    assert!(matches!(step, CacheStep::SpawnInDir(d) if d == "/work"));
}

#[test]
fn forerunner_outside_repository_plans_nothing() {
    let plan = forerunner_plan(Some("/plain/dir".to_string()), None, false, Some(false));
    assert!(plan.is_none());
}

#[test]
fn forerunner_inside_repository_plans_one_queryless_scan() {
    let plan = forerunner_plan(Some("/repo".to_string()), Some(30), true, Some(true));
    let r: SearchRequest = plan.expect("a repository gets a forerunner scan");
    assert_eq!(
        r.args,
        vec!["rg", "--column", "--line-number", "--no-heading", "--color=never", "--smart-case", ""]
    );
    assert_eq!(r.args.last().map(|s| s.len()), Some(0));
    assert_eq!(r.dir, Some("/repo".to_string()));
    assert_eq!(r.number, Some(30));
    assert!(r.enable_icon);
}

#[test]
fn forerunner_with_unresolved_directory_still_scans() {
    let plan = forerunner_plan(None, None, false, None);
    assert!(plan.is_some());
}
