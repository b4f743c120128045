use unshare::path::parent;
use unshare::{Command, Config, MountKind, Namespace};

#[test]
fn mounting_a_top_level_directory_registers_no_directory() {
    let mut cmd = Command::new();
    cmd.fakeroot_enable("/sandbox");
    cmd.fakeroot_mount("/bin", "/bin", true);
    let config: &Config = cmd.config();
    assert_eq!(config.fake_root_mkdirs, Vec::<String>::new());
    assert_eq!(config.fake_root_touchs, Vec::<String>::new());
    assert_eq!(config.fake_root_mounts.len(), 1);
    let entry = &config.fake_root_mounts[0];
    assert_eq!(entry.mountpoint, "/bin");
    assert_eq!(entry.staging_path, "/sandbox/bin");
    assert_eq!(entry.source, "/bin");
    assert!(entry.readonly);
    assert_eq!(entry.kind, MountKind::Bind);
}

#[test]
fn mounting_a_device_registers_its_directory_and_placeholder() {
    let mut cmd = Command::new();
    cmd.fakeroot_enable("/sandbox");
    cmd.fakeroot_mount_file("/dev/urandom", "/dev/urandom", false);
    let config = cmd.config();
    assert_eq!(config.fake_root_mkdirs, vec!["/sandbox/dev".to_string()]);
    assert_eq!(config.fake_root_touchs, vec!["/sandbox/dev/urandom".to_string()]);
    assert_eq!(config.fake_root_mounts.len(), 1);
    let entry = &config.fake_root_mounts[0];
    assert_eq!(entry.mountpoint, "/dev/urandom");
    assert_eq!(entry.staging_path, "/sandbox/dev/urandom");
    assert_eq!(entry.source, "/dev/urandom");
    assert!(!entry.readonly);
    assert_eq!(entry.kind, MountKind::Bind);
}

#[test]
fn a_new_command_has_no_private_root() {
    let cmd = Command::new();
    assert_eq!(cmd.fakeroot_base(), None);
    let config = cmd.config();
    assert!(config.fake_root_base.is_none());
    assert!(config.fake_root_mounts.is_empty());
    assert!(config.fake_root_mkdirs.is_empty());
    assert!(config.fake_root_touchs.is_empty());
    assert!(!config.namespaces.contains(Namespace::Mount));
}

#[test]
fn enable_sets_the_base_and_unshares_the_mount_namespace() {
    let mut cmd = Command::new();
    cmd.fakeroot_enable("/dev/shm/sandbox_root");
    assert_eq!(cmd.fakeroot_base(), Some("/dev/shm/sandbox_root"));
    let config = cmd.config();
    assert_eq!(config.fake_root_base.as_deref(), Some("/dev/shm/sandbox_root"));
    assert!(config.namespaces.contains(Namespace::Mount));
    assert!(!config.namespaces.contains(Namespace::Pid));
    assert!(!config.namespaces.contains(Namespace::User));
    assert!(config.fake_root_mounts.is_empty());
    assert!(config.fake_root_mkdirs.is_empty());
    assert!(config.fake_root_touchs.is_empty());
}

#[test]
fn enable_leaves_the_rest_of_the_policy_alone() {
    let mut cmd = Command::new();
    cmd.fakeroot_enable("/sandbox");
    let config = cmd.config();
    let fresh = Config::default();
    assert_eq!(config.death_sig, fresh.death_sig);
    assert_eq!(config.work_dir, fresh.work_dir);
    assert_eq!(config.uid, fresh.uid);
    assert_eq!(config.gid, fresh.gid);
    assert_eq!(config.supplementary_gids, fresh.supplementary_gids);
    assert_eq!(config.id_maps, fresh.id_maps);
    assert_eq!(config.setns_namespaces, fresh.setns_namespaces);
    assert_eq!(config.restore_sigmask, fresh.restore_sigmask);
    assert_eq!(config.make_group_leader, fresh.make_group_leader);
}

#[test]
fn enabling_again_replaces_the_base() {
    let mut cmd = Command::new();
    cmd.fakeroot_enable("/first");
    cmd.fakeroot_mount("/bin", "/bin", false);
    cmd.fakeroot_enable("/second");
    cmd.fakeroot_mount("/etc", "/etc", false);
    let config = cmd.config();
    assert_eq!(config.fake_root_base.as_deref(), Some("/second"));
    assert_eq!(config.fake_root_mounts[0].staging_path, "/first/bin");
    assert_eq!(config.fake_root_mounts[1].staging_path, "/second/etc");
}

#[test]
fn mount_registers_the_directories_above_the_destination() {
    let mut cmd = Command::new();
    cmd.fakeroot_enable("/sandbox");
    cmd.fakeroot_mount("/opt/tools", "/usr/local/lib/tools", false);
    let config = cmd.config();
    assert_eq!(
        config.fake_root_mkdirs,
        vec![
            "/sandbox/usr".to_string(),
            "/sandbox/usr/local".to_string(),
            "/sandbox/usr/local/lib".to_string(),
        ]
    );
    assert!(config.fake_root_touchs.is_empty());
    let entry = &config.fake_root_mounts[0];
    assert_eq!(entry.mountpoint, "/usr/local/lib/tools");
    assert_eq!(entry.staging_path, "/sandbox/usr/local/lib/tools");
    assert_eq!(entry.source, "/opt/tools");
    assert!(!entry.readonly);
    assert_eq!(entry.kind, MountKind::Bind);
}

#[test]
fn mount_file_below_the_root_needs_no_directory() {
    let mut cmd = Command::new();
    cmd.fakeroot_enable("/sandbox");
    cmd.fakeroot_mount_file("/etc/hostname", "/hostname", true);
    let config = cmd.config();
    assert!(config.fake_root_mkdirs.is_empty());
    assert_eq!(config.fake_root_touchs, vec!["/sandbox/hostname".to_string()]);
    let entry = &config.fake_root_mounts[0];
    assert_eq!(entry.staging_path, "/sandbox/hostname");
    assert_eq!(entry.source, "/etc/hostname");
    assert!(entry.readonly);
}

#[test]
fn filesystem_is_a_virtual_entry_that_is_never_readonly() {
    let mut cmd = Command::new();
    cmd.fakeroot_enable("/sandbox");
    cmd.fakeroot_filesystem("tmpfs", "/var/tmp");
    let config = cmd.config();
    assert_eq!(config.fake_root_mkdirs, vec!["/sandbox/var".to_string()]);
    assert!(config.fake_root_touchs.is_empty());
    assert_eq!(config.fake_root_mounts.len(), 1);
    let entry = &config.fake_root_mounts[0];
    assert_eq!(entry.mountpoint, "/var/tmp");
    assert_eq!(entry.staging_path, "/sandbox/var/tmp");
    assert_eq!(entry.source, "tmpfs");
    assert!(!entry.readonly);
    assert_eq!(entry.kind, MountKind::VirtualFilesystem);
}

#[test]
fn entries_keep_the_order_of_registration() {
    let mut cmd = Command::new();
    cmd.fakeroot_enable("/sandbox");
    cmd.fakeroot_mount("/usr", "/usr", true);
    cmd.fakeroot_filesystem("proc", "/proc");
    cmd.fakeroot_mount_file("/dev/null", "/dev/null", false);
    cmd.fakeroot_mount("/home/me/src", "/usr/src/project", false);
    let config = cmd.config();
    let mountpoints: Vec<&str> =
        config.fake_root_mounts.iter().map(|m| m.mountpoint.as_str()).collect();
    assert_eq!(mountpoints, vec!["/usr", "/proc", "/dev/null", "/usr/src/project"]);
    assert_eq!(
        config.fake_root_mkdirs,
        vec![
            "/sandbox/dev".to_string(),
            "/sandbox/usr".to_string(),
            "/sandbox/usr/src".to_string(),
        ]
    );
    assert_eq!(config.fake_root_touchs, vec!["/sandbox/dev/null".to_string()]);
}

#[test]
fn registering_a_destination_twice_repeats_its_directories() {
    let mut cmd = Command::new();
    cmd.fakeroot_enable("/sandbox");
    cmd.fakeroot_mount("/a", "/srv/data/a", true);
    cmd.fakeroot_mount("/a", "/srv/data/a", true);
    cmd.fakeroot_mount_file("/b", "/srv/data/b", false);
    let config = cmd.config();
    assert_eq!(
        config.fake_root_mkdirs,
        vec![
            "/sandbox/srv".to_string(),
            "/sandbox/srv/data".to_string(),
            "/sandbox/srv".to_string(),
            "/sandbox/srv/data".to_string(),
            "/sandbox/srv".to_string(),
            "/sandbox/srv/data".to_string(),
        ]
    );
    assert_eq!(config.fake_root_mounts.len(), 3);
    assert_eq!(config.fake_root_mounts[0].staging_path, "/sandbox/srv/data/a");
    assert_eq!(config.fake_root_mounts[1].staging_path, "/sandbox/srv/data/a");
    assert_eq!(config.fake_root_touchs, vec!["/sandbox/srv/data/b".to_string()]);
}

#[test]
fn every_directory_comes_behind_the_directories_above_it() {
    let base = "/run/user/1000/root";
    let mut cmd = Command::new();
    cmd.fakeroot_enable(base);
    cmd.fakeroot_mount("/x", "/usr/share/doc/x", true);
    cmd.fakeroot_mount_file("/y", "/usr/share/misc/y", false);
    cmd.fakeroot_filesystem("tmpfs", "/var/cache/z");
    cmd.fakeroot_mount("/w", "/usr/w", false);
    cmd.fakeroot_mount("/v", "/var//cache/./deep/v/", false);
    let config = cmd.config();
    for (i, staged) in config.fake_root_mkdirs.iter().enumerate() {
        let inside = staged.strip_prefix(base).unwrap();
        let mut above = parent(inside);
        while let Some(dir) = above {
            if parent(dir).is_none() {
                break;
            }
            let wanted = format!("{}{}", base, dir);
            assert!(config.fake_root_mkdirs[..i].contains(&wanted), "{} before {}", wanted, staged);
            above = parent(dir);
        }
    }
    for entry in &config.fake_root_mounts {
        assert_eq!(entry.staging_path, format!("{}{}", base, entry.mountpoint));
        let mut above = parent(&entry.mountpoint);
        while let Some(dir) = above {
            if parent(dir).is_none() {
                break;
            }
            let wanted = format!("{}{}", base, dir);
            assert!(config.fake_root_mkdirs.contains(&wanted), "{} for {}", wanted, entry.mountpoint);
            above = parent(dir);
        }
    }
}

#[test]
fn the_staging_path_is_the_base_followed_by_the_mountpoint() {
    let mut cmd = Command::new();
    cmd.fakeroot_enable("/dev/shm/unshare_root");
    cmd.fakeroot_mount("/lib64", "/lib64", true);
    cmd.fakeroot_mount_file("/dev/zero", "/dev/zero", false);
    cmd.fakeroot_filesystem("proc", "/proc");
    let config = cmd.config();
    assert_eq!(config.fake_root_mounts[0].staging_path, "/dev/shm/unshare_root/lib64");
    assert_eq!(config.fake_root_mounts[1].staging_path, "/dev/shm/unshare_root/dev/zero");
    assert_eq!(config.fake_root_mounts[2].staging_path, "/dev/shm/unshare_root/proc");
}

#[test]
fn directories_take_the_destination_as_it_is_written() {
    let mut cmd = Command::new();
    cmd.fakeroot_enable("/sandbox");
    cmd.fakeroot_mount("/src", "/usr//share/./doc/", false);
    let config = cmd.config();
    assert_eq!(
        config.fake_root_mkdirs,
        vec!["/sandbox/usr".to_string(), "/sandbox/usr//share".to_string()]
    );
    assert_eq!(config.fake_root_mounts[0].staging_path, "/sandbox/usr//share/./doc/");
}
