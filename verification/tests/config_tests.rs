use unshare::{Command, Config, Namespace, NamespaceSet, SIGKILL};

#[test]
fn default_policy_isolates_nothing() {
    let config = Config::default();
    assert_eq!(config.death_sig, Some(SIGKILL));
    assert_eq!(config.death_sig, Some(9));
    assert_eq!(config.work_dir, None);
    assert_eq!(config.uid, None);
    assert_eq!(config.gid, None);
    assert_eq!(config.supplementary_gids, None);
    assert_eq!(config.id_maps, None);
    assert_eq!(config.namespaces, NamespaceSet::empty());
    assert!(config.setns_namespaces.is_empty());
    assert!(config.restore_sigmask);
    assert!(!config.make_group_leader);
    assert_eq!(config.fake_root_base, None);
    assert!(config.fake_root_mounts.is_empty());
    assert!(config.fake_root_mkdirs.is_empty());
    assert!(config.fake_root_touchs.is_empty());
}

#[test]
fn a_new_command_holds_the_default_policy() {
    let cmd = Command::new();
    let config = cmd.config();
    assert_eq!(config.death_sig, Some(SIGKILL));
    assert_eq!(config.namespaces, NamespaceSet::empty());
    assert!(config.restore_sigmask);
    assert!(!config.make_group_leader);
}

#[test]
fn the_empty_namespace_set_holds_nothing() {
    let set = NamespaceSet::empty();
    for ns in [
        Namespace::Mount,
        Namespace::Pid,
        Namespace::Net,
        Namespace::Uts,
        Namespace::Ipc,
        Namespace::User,
        Namespace::Cgroup,
    ] {
        assert!(!set.contains(ns));
    }
}

#[test]
fn insert_adds_one_namespace() {
    let all = [
        Namespace::Mount,
        Namespace::Pid,
        Namespace::Net,
        Namespace::Uts,
        Namespace::Ipc,
        Namespace::User,
        Namespace::Cgroup,
    ];
    for added in all {
        let mut set = NamespaceSet::empty();
        set.insert(added);
        for ns in all {
            assert_eq!(set.contains(ns), ns == added);
        }
    }
}

#[test]
fn insert_twice_is_insert_once() {
    let mut once = NamespaceSet::empty();
    once.insert(Namespace::User);
    let mut twice = once;
    twice.insert(Namespace::User);
    assert_eq!(once, twice);
    twice.insert(Namespace::Net);
    assert!(twice.contains(Namespace::User));
    assert!(twice.contains(Namespace::Net));
    assert!(!twice.contains(Namespace::Mount));
}

#[test]
fn the_death_signal_is_the_kill_signal_of_the_system() {
    assert_eq!(SIGKILL, libc::SIGKILL);
}
