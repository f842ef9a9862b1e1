use schedtoold::action::{args_from_tokens, invocation_args, matching_rule_indices, plan_invocations};
use schedtoold::config::{check_config, Config, ConfigError, CONFIG_VERSION};
use schedtoold::identity::{cmdline_basename, identity_field};
use schedtoold::matcher::{ends_with, rule_matches};
use schedtoold::polling::{new_pids, PollState};
use schedtoold::snapshot::{contains_pid, parse_pid, snapshot_from_names, ROOT_PID};

fn rules() -> Vec<(String, String)> {
    vec![
        ("nginx".to_string(), "-B -p 5".to_string()),
        ("worker".to_string(), "-B -p 3".to_string()),
    ]
}

fn strings(v: &[&str]) -> Vec<String> {
    v.iter().map(|s| s.to_string()).collect()
}

fn sorted(mut v: Vec<u32>) -> Vec<u32> {
    v.sort();
    v
}

#[test]
fn nginx_by_exe_path_gets_one_invocation() {
    let plan = plan_invocations(4242, "/usr/sbin/nginx", "nginx", &rules());
    assert_eq!(plan, vec![strings(&["-B", "-p", "5", "4242"])]);
}

#[test]
fn worker_matched_through_cmdline_only() {
    assert!(!ends_with("/usr/bin/worker-main", "worker"));
    let plan = plan_invocations(77, "/usr/bin/worker-main", "worker", &rules());
    assert_eq!(plan, vec![strings(&["-B", "-p", "3", "77"])]);
    assert_eq!(matching_rule_indices("/usr/bin/worker-main", "worker", &rules()), vec![1]);
}

#[test]
fn unmatched_process_gets_no_invocation() {
    assert!(plan_invocations(5, "/usr/bin/bash", "bash", &rules()).is_empty());
    assert!(matching_rule_indices("", "", &rules()).is_empty());
}

#[test]
fn every_matching_rule_is_applied_in_order() {
    let items = vec![
        ("fish".to_string(), "-N".to_string()),
        ("nginx".to_string(), "-B -p 5".to_string()),
        ("sh".to_string(), "-D".to_string()),
        ("bin/fish".to_string(), "-I -p 0".to_string()),
    ];
    assert_eq!(matching_rule_indices("/usr/bin/fish", "fish", &items), vec![0, 2, 3]);
    let plan = plan_invocations(300, "/usr/bin/fish", "fish", &items);
    assert_eq!(
        plan,
        vec![
            strings(&["-N", "300"]),
            strings(&["-D", "300"]),
            strings(&["-I", "-p", "0", "300"]),
        ]
    );
}

#[test]
fn matching_is_suffix_on_either_field() {
    assert!(rule_matches("/usr/sbin/nginx", "", "nginx"));
    assert!(rule_matches("", "nginx", "nginx"));
    assert!(rule_matches("/usr/bin/fish", "fish", "sh"));
    assert!(!rule_matches("/usr/bin/nginx-debug", "nginx-debug", "nginx"));
    assert!(!rule_matches("/usr/bin/Nginx", "Nginx", "nginx"));
    assert!(rule_matches("/usr/bin/x", "x", ""));
    assert!(!rule_matches("", "", "a"));
}

#[test]
fn ends_with_edge_cases() {
    assert!(ends_with("abc", "abc"));
    assert!(ends_with("abc", "bc"));
    assert!(ends_with("abc", ""));
    assert!(ends_with("", ""));
    assert!(!ends_with("bc", "abc"));
    assert!(!ends_with("abc", "ab"));
    assert!(ends_with("/opt/ünï/çødé", "çødé"));
}

#[test]
fn version_mismatch_is_refused() {
    let cfg = Config { version: 2, items: rules() };
    match check_config(cfg) {
        Err(ConfigError::VersionMismatch { supported, found }) => {
            assert_eq!(supported, 1);
            assert_eq!(found, 2);
        }
        Ok(_) => panic!("version 2 accepted"),
    }
}

#[test]
fn supported_version_is_accepted_unchanged() {
    assert_eq!(CONFIG_VERSION, 1);
    let cfg = Config { version: 1, items: rules() };
    match check_config(cfg) {
        Ok(c) => {
            assert_eq!(c.version, 1);
            assert_eq!(c.items, rules());
        }
        Err(_) => panic!("version 1 refused"),
    }
}

#[test]
fn parse_pid_cases() {
    assert_eq!(parse_pid("42"), Some(42));
    assert_eq!(parse_pid("0"), Some(0));
    assert_eq!(parse_pid("007"), Some(7));
    assert_eq!(parse_pid("+7"), Some(7));
    assert_eq!(parse_pid("4294967295"), Some(4294967295));
    assert_eq!(parse_pid("4294967296"), None);
    assert_eq!(parse_pid("99999999999999999999"), None);
    assert_eq!(parse_pid(""), None);
    assert_eq!(parse_pid("+"), None);
    assert_eq!(parse_pid("-1"), None);
    assert_eq!(parse_pid("self"), None);
    assert_eq!(parse_pid("12a"), None);
    assert_eq!(parse_pid(" 12"), None);
}

#[test]
fn snapshot_skips_root_self_and_non_pids() {
    let names = strings(&["1", "2", "self", "500", "cpuinfo", "731", "500", "+2", "4294967296"]);
    let snap = snapshot_from_names(&names, 731);
    assert_eq!(snap, vec![2, 500]);
    assert!(!contains_pid(&snap, 731));
    assert!(!contains_pid(&snap, ROOT_PID));
}

#[test]
fn snapshot_of_nothing_is_empty() {
    assert!(snapshot_from_names(&Vec::new(), 10).is_empty());
    assert!(snapshot_from_names(&strings(&["1", "10"]), 10).is_empty());
}

#[test]
fn new_pids_is_set_difference() {
    assert_eq!(sorted(new_pids(&vec![3, 5, 8, 9], &vec![1, 5, 9, 12])), vec![3, 8]);
    assert_eq!(sorted(new_pids(&vec![3, 5], &vec![])), vec![3, 5]);
    assert!(new_pids(&vec![], &vec![4]).is_empty());
    assert!(new_pids(&vec![4, 6], &vec![6, 4]).is_empty());
}

#[test]
fn ticks_evaluate_only_the_difference_with_the_previous_snapshot() {
    let mut st = PollState::new();
    assert!(!st.is_processed(10));
    assert_eq!(sorted(st.tick(vec![10, 20, 30])), vec![10, 20, 30]);
    assert_eq!(sorted(st.tick(vec![10, 20, 30, 40])), vec![40]);
    assert!(st.tick(vec![10, 20, 30, 40]).is_empty());
    assert_eq!(sorted(st.tick(vec![20, 50])), vec![50]);
    assert!(st.is_processed(20));
    assert!(!st.is_processed(10));
}

#[test]
fn reappearing_pid_is_evaluated_again() {
    let mut st = PollState::new();
    assert_eq!(st.tick(vec![7]), vec![7]);
    assert!(st.tick(vec![7]).is_empty());
    assert!(st.tick(vec![]).is_empty());
    assert_eq!(st.tick(vec![7]), vec![7]);
}

#[test]
fn own_pid_never_reaches_evaluation() {
    let mut st = PollState::new();
    let own = 4000;
    for names in [strings(&["1", "4000", "12"]), strings(&["4000", "12", "13"])] {
        let snap = snapshot_from_names(&names, own);
        let fresh = st.tick(snap);
        assert!(!contains_pid(&fresh, own));
    }
}

#[test]
fn cmdline_basename_takes_zeroth_argument() {
    assert_eq!(cmdline_basename("nginx\0-g\0daemon off;\0"), "nginx");
    assert_eq!(cmdline_basename("/usr/bin/worker\0"), "/usr/bin/worker");
    assert_eq!(cmdline_basename("\0x\0"), "");
    assert_eq!(cmdline_basename("no terminator"), "");
    assert_eq!(cmdline_basename(""), "");
}

#[test]
fn identity_field_defaults_to_empty() {
    assert_eq!(identity_field(Some("/usr/sbin/nginx".to_string())), "/usr/sbin/nginx");
    assert_eq!(identity_field(Some(String::new())), "");
    assert_eq!(identity_field(None), "");
}

#[test]
fn invocation_args_split_flags_and_append_pid() {
    assert_eq!(invocation_args("-B -p 5", 1234), strings(&["-B", "-p", "5", "1234"]));
    assert_eq!(invocation_args("  -R\t-p  20\n", 9), strings(&["-R", "-p", "20", "9"]));
    assert_eq!(invocation_args("", 0), strings(&["0"]));
    assert_eq!(invocation_args("-D", 4294967295), strings(&["-D", "4294967295"]));
}

#[test]
fn args_from_tokens_appends_decimal_pid() {
    assert_eq!(args_from_tokens(strings(&["-a", "b"]), 305), strings(&["-a", "b", "305"]));
    assert_eq!(args_from_tokens(Vec::new(), 10), strings(&["10"]));
}
