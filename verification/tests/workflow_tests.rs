use wslarc::command::Cmd;
use wslarc::mount::BootCommandDecision;
use wslarc::config::Config;
use wslarc::init::{CopyDecision, FormatDecision, MismatchOutcome, ProvisionStep};
use wslarc::Error;

fn ready_config() -> Config {
    let mut cfg = Config::default();
    cfg.vhdx.path = "C:\\btrfs.vhdx".to_string();
    cfg.set_user("alice");
    cfg
}

fn render(cmd: &Cmd) -> String {
    cmd.render()
}

#[test]
fn test_classify_partitions_names() {
    let cfg = ready_config();
    let descriptors = wslarc::classify::classify(&cfg);
    let names: Vec<&str> = descriptors.iter().map(|d| d.name.as_str()).collect();

    // backup class alphabetical, then the snapshot-only subvolume, then
    // the nested exclusions, then the transfer class
    assert_eq!(
        names,
        vec![
            "@home",
            "@opt",
            "@usr",
            "@var_lib_pacman",
            "@etc",
            "@home/.cache",
            "@home/.local",
            "@home/.npm",
            "@home/.bun",
            "@home/.vscode-server-insiders",
            "@containers",
            "@var_cache",
            "@var_log",
            "@var_tmp",
        ]
    );

    // no name repeated
    for i in 0..names.len() {
        for j in (i + 1)..names.len() {
            assert_ne!(names[i], names[j]);
        }
    }

    // no mount target claimed twice
    let targets: Vec<&String> = descriptors
        .iter()
        .filter_map(|d| d.mount_target.as_ref())
        .collect();
    for i in 0..targets.len() {
        for j in (i + 1)..targets.len() {
            assert_ne!(targets[i], targets[j]);
        }
    }

    // nested exclusions carry their parent's mount target
    assert_eq!(
        descriptors[5].nested_under.as_deref(),
        Some("/home/alice")
    );
}

#[test]
fn test_ensure_user_decision() {
    let cfg = ready_config();
    assert!(wslarc::init::ensure_user(&cfg, true).is_none());
    let cmd = wslarc::init::ensure_user(&cfg, false).unwrap();
    assert_eq!(render(&cmd), "useradd -M -G wheel alice");
}

#[test]
fn test_format_decision_matches_label() {
    let cfg = ready_config();
    assert!(matches!(
        wslarc::init::format_btrfs(&cfg, "btrfs\n", " ArchBtrfs\n", "/dev/sdc"),
        FormatDecision::AlreadyFormatted
    ));
}

#[test]
fn test_label_mismatch_blocks_format_and_decline_aborts() {
    let mut cfg = ready_config();
    cfg.vhdx.label = "ArchBtrfs".to_string();

    // a device already holding the filesystem under another label is a
    // hazard, never a format command
    match wslarc::init::format_btrfs(&cfg, "btrfs", "Other", "/dev/sdc") {
        FormatDecision::LabelMismatch { current } => assert_eq!(current, "Other"),
        _ => panic!("expected the label-mismatch hazard"),
    }

    // declining the confirmation aborts: nothing is written to the device
    assert!(matches!(
        wslarc::init::resolve_label_mismatch(false),
        MismatchOutcome::Abort
    ));
    assert!(matches!(
        wslarc::init::resolve_label_mismatch(true),
        MismatchOutcome::Proceed
    ));
}

#[test]
fn test_format_unformatted_device() {
    let cfg = ready_config();
    match wslarc::init::format_btrfs(&cfg, "", "", "/dev/sdc") {
        FormatDecision::Format(cmd) => {
            assert_eq!(render(&cmd), "mkfs.btrfs -L ArchBtrfs /dev/sdc");
        }
        _ => panic!("expected a format command"),
    }
}

#[test]
fn test_get_uuid_requires_output() {
    assert!(matches!(
        wslarc::init::get_uuid("  \n"),
        Err(Error::UuidNotFound)
    ));
    assert_eq!(wslarc::init::get_uuid(" ab-cd \n").unwrap(), "ab-cd");
}

#[test]
fn test_find_device_by_label() {
    let out = "sdb \nsdc ArchBtrfs\n";
    assert_eq!(
        wslarc::init::find_device_by_label(out, "ArchBtrfs").unwrap(),
        "/dev/sdc"
    );
    assert!(wslarc::init::find_device_by_label(out, "Missing").is_none());
}

#[test]
fn test_find_new_device() {
    assert_eq!(
        wslarc::init::find_new_device("sda\nsdb\n", "sda\nsdb\nsdc\n").unwrap(),
        "sdc"
    );
    assert!(wslarc::init::find_new_device("sda\n", "sda\n").is_none());
}

#[test]
fn test_normalize_vhdx_path() {
    assert_eq!(
        wslarc::init::normalize_vhdx_path("C:/Users/test/btrfs.vhdx"),
        "C:\\Users\\test\\btrfs.vhdx"
    );
}

#[test]
fn test_mount_base_idempotent() {
    let cfg = ready_config();
    let mounted = "/dev/sdc on /mnt/btrfs type btrfs (rw)\n";
    assert!(wslarc::init::mount_base(&cfg, "/dev/sdc", mounted).is_none());
    let cmd = wslarc::init::mount_base(&cfg, "/dev/sdc", "nothing here\n").unwrap();
    assert_eq!(
        render(&cmd),
        "mount -o compress=zstd:3,noatime,nofail /dev/sdc /mnt/btrfs"
    );
}

#[test]
fn test_create_subvolume_skips_existing() {
    assert!(wslarc::init::create_subvolume("/mnt/setup", "@usr", true).is_none());
    let cmd = wslarc::init::create_subvolume("/mnt/setup", "@usr", false).unwrap();
    assert_eq!(render(&cmd), "btrfs subvolume create /mnt/setup/@usr");
}

#[test]
fn test_copy_if_empty_decisions() {
    assert!(matches!(
        wslarc::init::copy_if_empty("/m", "@usr", "/usr", false, false, true),
        CopyDecision::SkipMissingTarget
    ));
    assert!(matches!(
        wslarc::init::copy_if_empty("/m", "@usr", "/usr", true, false, true),
        CopyDecision::SkipNotEmpty
    ));
    assert!(matches!(
        wslarc::init::copy_if_empty("/m", "@usr", "/usr", true, true, false),
        CopyDecision::SkipMissingSource
    ));
    match wslarc::init::copy_if_empty("/m", "@usr", "/usr", true, true, true) {
        CopyDecision::Copy(cmd) => {
            assert_eq!(render(&cmd), "rsync -aAX --info=progress2 /usr/ /m/@usr/");
        }
        _ => panic!("expected a copy command"),
    }
}

#[test]
fn test_provision_plan_order() {
    let cfg = ready_config();
    let plan = wslarc::init::create_all_subvolumes(&cfg, "/mnt/btrfs-setup");

    // backup class first, alphabetical, then the snapshot-only subvolume
    match &plan[0] {
        ProvisionStep::EnsureSubvolume { name } => assert_eq!(name, "@home"),
        _ => panic!("expected a creation step"),
    }
    match &plan[4] {
        ProvisionStep::EnsureSubvolume { name } => assert_eq!(name, "@etc"),
        _ => panic!("expected the snapshot-only subvolume"),
    }
    // the bootstrap copies follow
    match &plan[5] {
        ProvisionStep::CopyIfEmpty { subvol, source } => {
            assert_eq!(subvol, "@etc");
            assert_eq!(source, "/etc");
        }
        _ => panic!("expected a bootstrap copy"),
    }
    // the last step creates the snapshot directory
    match plan.last().unwrap() {
        ProvisionStep::EnsureSubvolume { name } => assert_eq!(name, ".snapshots"),
        _ => panic!("expected the snapshot directory"),
    }
    // nested exclusions are handed to the account
    assert!(plan.iter().any(|s| matches!(
        s,
        ProvisionStep::Chown { owner, path, recursive: false }
            if owner == "alice:alice" && path == "/mnt/btrfs-setup/@home/.cache"
    )));
    // copy-on-write is disabled on the transfer subvolumes that ask for it
    assert!(plan.iter().any(|s| matches!(
        s,
        ProvisionStep::SetNoCow { path } if path == "/mnt/btrfs-setup/@containers"
    )));
}

#[test]
fn test_show_summary_rows() {
    let cfg = ready_config();
    let rows = wslarc::init::show_summary(&cfg);
    assert_eq!(rows[0], ("VHDX".to_string(), "C:\\btrfs.vhdx".to_string()));
    assert_eq!(rows[3], ("User".to_string(), "alice".to_string()));
    let subvols = rows.iter().find(|r| r.0 == "Subvolumes").unwrap();
    assert_eq!(subvols.1, "4 backup + 5 exclude + 4 transfer");
}

#[test]
fn test_enable_and_disable_services() {
    let cfg = ready_config();
    let enable = wslarc::mount::enable_services(&cfg);
    assert_eq!(render(&enable[0]), "systemctl daemon-reload");
    assert_eq!(render(&enable[1]), "systemctl enable mnt-btrfs.mount");
    assert_eq!(
        render(enable.last().unwrap()),
        "systemctl enable btrbk.timer"
    );

    let disable = wslarc::unmount::run(&cfg);
    assert_eq!(render(&disable[0]), "systemctl disable mnt-btrfs.mount");
    assert_eq!(
        render(disable.last().unwrap()),
        "systemctl disable btrbk.timer"
    );
    // one disable per mount unit, plus the timer
    assert_eq!(disable.len(), 1 + 4 + 4 + 1);
}

#[test]
fn test_has_usr_subvol() {
    let cfg = ready_config();
    assert!(wslarc::mount::has_usr_subvol(&cfg));
    let mut bare = ready_config();
    bare.subvolumes.backup.retain(|e| e.subvol.mount() != "/usr");
    assert!(!wslarc::mount::has_usr_subvol(&bare));
    // the trigger is the mount target, not the entry's name
    let mut renamed = bare.clone();
    renamed.subvolumes.backup.push(wslarc::config::BackupEntry {
        name: "@system".to_string(),
        subvol: wslarc::config::BackupSubvol::Simple("/usr".to_string()),
    });
    assert!(wslarc::mount::has_usr_subvol(&renamed));
}

#[test]
fn test_unit_name_escaping_keeps_targets_distinct() {
    // the delimiter is escaped before separators are replaced, so distinct
    // mount targets keep distinct unit identifiers
    assert_eq!(wslarc::systemd::path_to_unit_name("/a-b"), "a\\x2db");
    assert_eq!(wslarc::systemd::path_to_unit_name("/a/b"), "a-b");
    assert_ne!(
        wslarc::systemd::mount_unit_filename("/a-b"),
        wslarc::systemd::mount_unit_filename("/a/b")
    );
}

#[test]
fn test_generate_units_surfaces_filename_collision() {
    let mut cfg = ready_config();
    // two entries claiming one mount target map to one unit filename:
    // generation refuses rather than letting one unit overwrite the other
    cfg.subvolumes.backup.push(wslarc::config::BackupEntry {
        name: "@usr_again".to_string(),
        subvol: wslarc::config::BackupSubvol::Simple("/usr".to_string()),
    });
    assert!(matches!(
        wslarc::mount::generate_systemd_units(&cfg),
        Err(Error::UnitFilenameCollision)
    ));
}

#[test]
fn test_validate_for_mount_requires_uuid() {
    let mut cfg = ready_config();
    assert!(matches!(
        cfg.validate_for_mount(),
        Err(Error::MissingUuid)
    ));
    assert_eq!(Error::MissingUuid.message(), "UUID not set");
    cfg.uuid = Some("u-1".to_string());
    assert!(cfg.validate_for_mount().is_ok());
}

#[test]
fn test_mounted_at() {
    let mounts = "/dev/sdc on /home/alice type btrfs (rw)\n";
    assert!(wslarc::init::mounted_at("/home/alice", mounts));
    assert!(!wslarc::init::mounted_at("/home/bob", mounts));
}

#[test]
fn test_install_binary_decision() {
    assert!(matches!(
        wslarc::mount::install_binary("/usr/local/bin/wslarc"),
        wslarc::mount::InstallDecision::AlreadyInstalled
    ));
    assert!(matches!(
        wslarc::mount::install_binary("/tmp/wslarc"),
        wslarc::mount::InstallDecision::Install
    ));
}

#[test]
fn test_update_wsl_conf_decisions() {
    assert!(matches!(
        wslarc::mount::update_wsl_conf(Some("/usr/local/bin/wslarc attach")),
        BootCommandDecision::AlreadyConfigured
    ));
    assert!(matches!(
        wslarc::mount::update_wsl_conf(Some("something else")),
        BootCommandDecision::Overwrite
    ));
    assert!(matches!(
        wslarc::mount::update_wsl_conf(None),
        BootCommandDecision::Install
    ));
}

#[test]
fn test_policy_validation_command() {
    let cfg = ready_config();
    let files = wslarc::mount::generate_btrbk_config(&cfg);
    assert_eq!(
        render(&files.validate),
        "btrbk -c /etc/btrbk/btrbk.conf dryrun"
    );
    assert!(files.conf.contains("subvolume @home"));
    assert!(files.timer.contains("OnCalendar="));
}

#[test]
fn test_restore_snapshot_name_resolution() {
    assert_eq!(
        wslarc::restore::snapshot_subvol_name("home.20240101T030000").unwrap(),
        "@home"
    );
    let (base, suffix) = wslarc::restore::parse_snapshot_name("home.20240101T030000").unwrap();
    assert_eq!(base, "home");
    assert_eq!(suffix, "20240101T030000");
    assert!(matches!(
        wslarc::restore::parse_snapshot_name("no-delimiter"),
        Err(Error::InvalidSnapshotName)
    ));
}

#[test]
fn test_restore_skips_backup_of_missing_subvolume() {
    let cfg = ready_config();
    // no live subvolume: the rename is skipped without error
    let none = wslarc::restore::backup_current(&cfg, "@home", false, false);
    assert!(none.is_empty());
    // a live subvolume is renamed away; a leftover rename-away target is
    // deleted first
    let both = wslarc::restore::backup_current(&cfg, "@home", true, true);
    assert_eq!(
        render(&both[0]),
        "btrfs subvolume delete /mnt/btrfs/@home.restore-backup"
    );
    assert_eq!(
        render(&both[1]),
        "mv /mnt/btrfs/@home /mnt/btrfs/@home.restore-backup"
    );
}

#[test]
fn test_restore_commands() {
    let cfg = ready_config();
    let cmd = wslarc::restore::restore_snapshot_cmd(&cfg, "home.20240101T030000", "@home");
    assert_eq!(
        render(&cmd),
        "btrfs subvolume snapshot /mnt/btrfs/.snapshots/home.20240101T030000 /mnt/btrfs/@home"
    );

    let mut with_uuid = ready_config();
    with_uuid.uuid = Some("u-1".to_string());
    let remount = wslarc::restore::remount_cmd(&with_uuid, "@home", "/home/alice");
    assert_eq!(
        render(&remount),
        "mount -t btrfs -o subvol=@home,compress=zstd:3,noatime,nofail UUID=u-1 /home/alice"
    );

    assert_eq!(wslarc::restore::restore_total_steps(true), 5);
    assert_eq!(wslarc::restore::restore_total_steps(false), 3);
    assert!(wslarc::restore::mount_point_for(&cfg, "@etc").is_none());
    assert_eq!(
        wslarc::restore::mount_point_for(&cfg, "@home").unwrap(),
        "/home/alice"
    );
}

#[test]
fn test_restore_unmount_fallback() {
    let cmd = wslarc::restore::unmount_cmd("/home/alice");
    assert_eq!(render(&cmd), "umount /home/alice");
    // the lazy fallback runs only after explicit confirmation
    assert!(wslarc::restore::unmount_retry("/home/alice", false).is_none());
    let lazy = wslarc::restore::unmount_retry("/home/alice", true).unwrap();
    assert_eq!(render(&lazy), "umount -l /home/alice");
}

#[test]
fn test_attach_decision() {
    let cfg = ready_config();
    let visible = "btrfs ArchBtrfs\n";
    assert!(wslarc::attach::run(&cfg, visible).is_none());
    let cmd = wslarc::attach::run(&cfg, "ext4 Other\n").unwrap();
    assert_eq!(
        render(&cmd),
        "/mnt/c/Windows/System32/wsl.exe --mount --vhd C:\\btrfs.vhdx --bare"
    );
}

#[test]
fn test_hook_sync_plan() {
    let cfg = ready_config();
    let versions = vec![("systemd".to_string(), "255.4-2".to_string())];
    let plan =
        wslarc::hook_sync_systemd::run(&cfg, false, Some("ext4-uuid"), &versions, "x86_64").unwrap();
    assert_eq!(
        render(&plan.mount_cmd.unwrap()),
        "mount UUID=ext4-uuid /mnt/ext4-root"
    );
    assert_eq!(
        plan.copies[0].0,
        "/var/cache/pacman/pkg/systemd-255.4-2-x86_64.pkg.tar.zst"
    );
    assert_eq!(
        plan.copies[0].1,
        "/mnt/ext4-root/var/cache/pacman/pkg/systemd-255.4-2-x86_64.pkg.tar.zst"
    );
    assert!(render(&plan.install).starts_with("pacman --sysroot /mnt/ext4-root -U --noconfirm"));

    // mounting is impossible without a probed UUID
    assert!(wslarc::hook_sync_systemd::run(&cfg, false, None, &versions, "x86_64").is_err());

    let (pkg, ver) = wslarc::hook_sync_systemd::parse_package_line("systemd 255.4-2\n").unwrap();
    assert_eq!(pkg, "systemd");
    assert_eq!(ver, "255.4-2");
    assert!(wslarc::hook_sync_systemd::parse_package_line("oneword").is_none());
}

#[test]
fn test_command_rendering() {
    let cmd = wslarc::init::create_subvolume("/m", "@x", false).unwrap();
    // the dry-run report prints exactly the command line that a real
    // invocation would execute
    assert_eq!(cmd.render(), "btrfs subvolume create /m/@x");
}

#[test]
fn test_confirm_or_yes_gate() {
    assert_eq!(wslarc::command::confirm_or_yes(true), Some(true));
    assert_eq!(wslarc::command::confirm_or_yes(false), None);
}

#[test]
fn test_error_messages() {
    assert_eq!(Error::MissingVhdxPath.message(), "VHDX path is required");
    assert_eq!(Error::UuidNotFound.message(), "Could not get filesystem UUID");
}
