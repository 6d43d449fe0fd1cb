use limiter::config::{
    fixed_share_ratio, local_shmem_path, parse_decimal, parse_u64, ManagerConfig,
    DEFAULT_LOCAL_SHMEM_PATH,
};
use limiter::liveness::{proc_alive, ProcessTable};

fn text(s: &str) -> Option<String> {
    Some(s.to_string())
}

#[test]
fn numbers_are_read_as_the_standard_library_reads_them() {
    for s in [
        "0", "7", "4096", "+12", "007", "18446744073709551615", "18446744073709551616", "", "+",
        "++1", "-1", " 1", "1 ", "1.5", "0x10", "\u{0663}",
    ] {
        assert_eq!(parse_decimal(s), s.parse::<u64>().ok(), "{s:?}");
    }
}

#[test]
fn a_number_that_cannot_be_read_gives_the_default() {
    assert_eq!(parse_u64(text("2048"), 5), 2048);
    assert_eq!(parse_u64(text("lots"), 5), 5);
    assert_eq!(parse_u64(None, 5), 5);
}

#[test]
fn fixed_shares_are_asked_for_by_one_or_true() {
    assert!(fixed_share_ratio(text("1")));
    assert!(fixed_share_ratio(text("true")));
    assert!(fixed_share_ratio(text("TrUe")));
    assert!(!fixed_share_ratio(text("0")));
    assert!(!fixed_share_ratio(text("yes")));
    assert!(!fixed_share_ratio(text("true ")));
    assert!(!fixed_share_ratio(text("")));
    assert!(!fixed_share_ratio(None));
}

#[test]
fn the_local_segment_has_a_default_path() {
    assert_eq!(local_shmem_path(None), "/tmp/vnpu_local_shmem");
    assert_eq!(local_shmem_path(text("/run/x")), "/run/x");
}

#[test]
fn a_configuration_needs_the_path_of_the_registry() {
    let err = ManagerConfig::from_env(None, text("/l"), None, None).unwrap_err();
    assert_eq!(err, "Missing environment variable: NPU_GLOBAL_SHM_PATH");
}

#[test]
fn a_configuration_has_defaults() {
    let config = ManagerConfig::from_env(text("/g"), None, None, None).unwrap();
    assert_eq!(config.global_shm_path, "/g");
    assert_eq!(config.local_shm_path, DEFAULT_LOCAL_SHMEM_PATH);
    assert_eq!(config.priority, None);
    assert_eq!(config.memory_limit_mb, 0);
}

#[test]
fn a_configuration_takes_what_is_set() {
    let config =
        ManagerConfig::from_env(text("/g"), text("/l"), text("2.5"), text("4096")).unwrap();
    assert_eq!(config.local_shm_path, "/l");
    assert_eq!(config.priority, text("2.5"));
    assert_eq!(config.memory_limit_mb, 4096);
}

#[test]
fn a_process_without_a_status_is_dead() {
    assert!(!proc_alive(None));
}

#[test]
fn the_state_letter_tells_whether_a_process_is_alive() {
    assert!(proc_alive(Some("17 (python) S 1 17")));
    assert!(proc_alive(Some("17 (python) R 1 17")));
    assert!(!proc_alive(Some("17 (python) Z 1 17")));
    assert!(!proc_alive(Some("17 (python) X 1 17")));
    assert!(!proc_alive(Some("17 (python) x 1 17")));
}

#[test]
fn a_command_may_hold_parentheses() {
    assert!(proc_alive(Some("17 (a) Z (b) S 1")));
    assert!(!proc_alive(Some("17 (a) S (b) Z 1")));
}

#[test]
fn a_status_that_says_nothing_counts_as_alive() {
    assert!(proc_alive(Some("")));
    assert!(proc_alive(Some("garbage")));
    assert!(proc_alive(Some("17 (x) ")));
}

#[test]
fn a_status_that_ends_at_the_parenthesis_counts_as_alive() {
    assert!(proc_alive(Some("42 (a)")));
    assert!(proc_alive(Some(")")));
}

#[test]
fn a_status_without_a_space_behind_the_parenthesis_counts_as_alive() {
    assert!(proc_alive(Some("17 (x)\u{e9}Z")));
    assert!(!proc_alive(Some("17 (x) Z")));
}

#[test]
fn a_process_table_knows_its_processes() {
    let table = ProcessTable { live: vec![3, 5] };
    assert!(table.is_alive(5));
    assert!(!table.is_alive(4));
}
