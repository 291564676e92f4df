use ow2_server_picker::cgroup::{
    cgroup_root, classid_file, find_net_cls_mount, group_dir, procs_file, CGroup, GROUP_NAME,
    NET_CLS_DIR,
};
use ow2_server_picker::classify::{select_pids, TrackedPids};

#[test]
fn selects_processes_by_exact_working_directory() {
    let procs = vec![
        (100, "/games/app".to_string()),
        (101, "/games/app/sub".to_string()),
        (102, "/games".to_string()),
        (103, "/games/app".to_string()),
    ];
    // Exact path equality, not a prefix match.
    assert_eq!(select_pids(&procs, "/games/app"), vec![100, 103]);
    assert_eq!(select_pids(&procs, "/nowhere"), Vec::<i32>::new());
}

#[test]
fn overlapping_scans_classify_each_id_once() {
    let mut seen_pids = TrackedPids::new();
    let mut group = CGroup::new();

    let newly = seen_pids.scan_step(&vec![1, 2, 3], &mut group);
    assert_eq!(newly, vec![1, 2, 3]);

    // A second scan returning an overlapping set classifies only fresh ids.
    let newly = seen_pids.scan_step(&vec![2, 3, 4], &mut group);
    assert_eq!(newly, vec![4]);

    // A third scan with nothing new issues no write at all.
    let newly = seen_pids.scan_step(&vec![1, 4], &mut group);
    assert_eq!(newly, Vec::<i32>::new());

    // Each unique id was written exactly once, in discovery order.
    assert_eq!(group.procs, vec![1, 2, 3, 4]);
}

#[test]
fn duplicate_ids_within_one_scan_are_written_once() {
    let mut seen_pids = TrackedPids::new();
    let mut group = CGroup::new();
    let newly = seen_pids.scan_step(&vec![7, 7, 8, 7], &mut group);
    assert_eq!(newly, vec![7, 8]);
    assert_eq!(group.procs, vec![7, 8]);
}

#[test]
fn finds_existing_net_cls_mount() {
    let mounts = "sysfs /sys sysfs rw,nosuid 0 0\n\
                  net_cls /sys/fs/cgroup/net_cls cgroup rw,relatime,net_cls 0 0\n\
                  tmpfs /tmp tmpfs rw 0 0\n";
    assert_eq!(
        find_net_cls_mount(mounts),
        Some("/sys/fs/cgroup/net_cls".to_string())
    );
}

#[test]
fn mount_scan_requires_cgroup_type_and_net_cls_option() {
    // net_cls named, but the filesystem type is not cgroup.
    let wrong_type = "net_cls /mnt/x tmpfs rw,net_cls 0 0\n";
    assert_eq!(find_net_cls_mount(wrong_type), None);
    // cgroup mount without the net_cls option.
    let wrong_opts = "cpu /sys/fs/cgroup/cpu cgroup rw,relatime,cpu 0 0\n";
    assert_eq!(find_net_cls_mount(wrong_opts), None);
    // The option must be a whole comma-separated field, not a substring.
    let substring = "x /mnt/y cgroup rw,net_cls_extra 0 0\n";
    assert_eq!(find_net_cls_mount(substring), None);
    // Short or empty lines are skipped.
    assert_eq!(find_net_cls_mount(""), None);
    assert_eq!(find_net_cls_mount("short line\n\n"), None);
}

#[test]
fn first_matching_mount_wins() {
    let mounts = "a /first cgroup net_cls 0 0\nb /second cgroup net_cls 0 0\n";
    assert_eq!(find_net_cls_mount(mounts), Some("/first".to_string()));
}

#[test]
fn cgroup_root_reuses_found_mount() {
    let (root, needs_mount) = cgroup_root(Some("/existing/net_cls".to_string()));
    assert_eq!(root, "/existing/net_cls");
    assert!(!needs_mount);

    let (root, needs_mount) = cgroup_root(None);
    assert_eq!(root, NET_CLS_DIR);
    assert!(needs_mount);
}

#[test]
fn control_file_paths() {
    assert_eq!(GROUP_NAME, "ow2serverpicker");
    let group = group_dir("/sys/fs/cgroup/net_cls");
    assert_eq!(group, "/sys/fs/cgroup/net_cls/ow2serverpicker");
    assert_eq!(
        classid_file(&group),
        "/sys/fs/cgroup/net_cls/ow2serverpicker/net_cls.classid"
    );
    assert_eq!(
        procs_file(&group),
        "/sys/fs/cgroup/net_cls/ow2serverpicker/cgroup.procs"
    );
}
