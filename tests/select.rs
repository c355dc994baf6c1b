use napkin_math::select::{Pattern, Registry, RegistryError, SelectError};

fn registry() -> Registry<u32> {
    let mut r = Registry::new();
    for (k, name) in [
        "memory_read_sequential",
        "disk_read_sequential",
        "syscall_time",
        "disk_read_random",
        "sort",
    ]
    .iter()
    .enumerate()
    {
        r.register(name, k as u32).unwrap();
    }
    r
}

#[test]
fn pattern_selects_disk_workloads_in_order() {
    let r = registry();
    let chosen = r.select(Some("disk.*")).unwrap();
    assert_eq!(chosen, vec![1, 3]);
    for i in chosen {
        assert!(r.name(i).starts_with("disk"));
    }
}

#[test]
fn pattern_matching_nothing_selects_nothing() {
    let r = registry();
    assert_eq!(r.select(Some("^network")), Ok(vec![]));
}

#[test]
fn no_pattern_selects_nothing() {
    let r = registry();
    assert_eq!(r.select(None), Ok(vec![]));
}

#[test]
fn invalid_pattern_is_an_error() {
    let r = registry();
    assert_eq!(r.select(Some("(disk")), Err(SelectError::InvalidPattern));
    assert!(Pattern::new("[").is_err());
}

#[test]
fn match_all_selects_everything() {
    let r = registry();
    assert_eq!(r.select(Some(".*")), Ok(vec![0, 1, 2, 3, 4]));
    assert_eq!(*r.get(4), 4);
}

#[test]
fn pattern_matches_anywhere_in_name() {
    let r = registry();
    assert_eq!(r.select(Some("read")), Ok(vec![0, 1, 3]));
    assert_eq!(r.select(Some("^sort$")), Ok(vec![4]));
    assert!(Pattern::new("read").is_ok());
}

#[test]
fn duplicate_name_is_refused() {
    let mut r = registry();
    assert_eq!(r.register("sort", 9), Err(RegistryError::DuplicateName));
    assert_eq!(r.len(), 5);
    assert!(r.contains("sort"));
    assert!(!r.contains("tcp_read_write"));
}
