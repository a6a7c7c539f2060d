use wslarc::config::{
    BackupEntry, BackupSubvol, BtrbkConfig, Config, ExcludeConfig, Ext4SyncConfig, MountConfig,
    SubvolumesConfig, TransferEntry, TransferSubvol, UserConfig, VhdxConfig,
};
use wslarc::systemd::{
    generate_base_mount, generate_subvol_mount, mount_unit_filename, path_to_unit_name,
    subvol_unit_dependencies,
};

fn test_config() -> Config {
    let backup = vec![
        BackupEntry {
            name: "@home".to_string(),
            subvol: BackupSubvol::Simple("/home/testuser".to_string()),
        },
        BackupEntry {
            name: "@usr".to_string(),
            subvol: BackupSubvol::Simple("/usr".to_string()),
        },
    ];

    let transfer = vec![TransferEntry {
        name: "@containers".to_string(),
        subvol: TransferSubvol {
            mount: "/var/lib/containers".to_string(),
            nodatacow: true,
            options: None,
        },
    }];

    Config {
        vhdx: VhdxConfig {
            path: r"C:\Users\test\.local\share\wsl\btrfs.vhdx".to_string(),
            label: "TestBtrfs".to_string(),
        },
        user: UserConfig {
            name: "testuser".to_string(),
            options: "-M -G wheel".to_string(),
        },
        mount: MountConfig {
            base: "/mnt/btrfs".to_string(),
            options: "compress=zstd:3,noatime,nofail".to_string(),
        },
        subvolumes: SubvolumesConfig {
            backup,
            exclude: ExcludeConfig {
                parent: "@home".to_string(),
                paths: vec![".cache".to_string()],
            },
            transfer,
        },
        btrbk: BtrbkConfig {
            snapshot_dir: ".snapshots".to_string(),
            preserve_min: "2d".to_string(),
            preserve: "14d 4w 2m".to_string(),
            timer_schedule: "*-*-* 03:00:00".to_string(),
        },
        ext4_sync: Ext4SyncConfig {
            mount_point: "/mnt/ext4-root".to_string(),
        },
        uuid: Some("12345678-1234-1234-1234-123456789abc".to_string()),
    }
}

#[test]
fn test_path_to_unit_name_fallback() {
    let result = path_to_unit_name("/mnt/btrfs");
    assert!(result == "mnt-btrfs" || result == "mnt\\x2dbtrfs" || !result.is_empty());
}

#[test]
fn test_mount_unit_filename() {
    let filename = mount_unit_filename("/mnt/btrfs");
    assert!(filename.ends_with(".mount"));
    assert!(filename.contains("mnt"));
}

#[test]
fn test_generate_base_mount() {
    let cfg = test_config();
    let output = generate_base_mount(&cfg);

    assert!(output.contains("[Unit]"));
    assert!(output.contains("[Mount]"));
    assert!(output.contains("[Install]"));
    assert!(output.contains("UUID=12345678-1234-1234-1234-123456789abc"));
    assert!(output.contains("Where=/mnt/btrfs"));
    assert!(output.contains("Type=btrfs"));
    assert!(output.contains("compress=zstd:3"));
}

#[test]
fn test_generate_base_mount_no_uuid() {
    let mut cfg = test_config();
    cfg.uuid = None;
    let output = generate_base_mount(&cfg);

    assert!(output.contains("REPLACE_WITH_UUID"));
}

#[test]
fn test_generate_subvol_mount() {
    let cfg = test_config();
    let output = generate_subvol_mount(&cfg, "@usr", "/usr", None);

    assert!(output.contains("Description=Mount @usr subvolume"));
    assert!(output.contains("Where=/usr"));
    assert!(output.contains("subvol=@usr"));
    assert!(output.contains("compress=zstd:3"));
}

#[test]
fn test_generate_subvol_mount_custom_options() {
    let cfg = test_config();
    let output = generate_subvol_mount(&cfg, "@data", "/data", Some("noatime,nofail"));

    assert!(output.contains("subvol=@data,noatime,nofail"));
    assert!(!output.contains("compress=zstd:3"));
}

#[test]
fn test_generate_subvol_mount_home() {
    let cfg = test_config();
    let output = generate_subvol_mount(&cfg, "@home", "/home/testuser", None);

    assert!(output.contains("Before=user@.service"));
}

#[test]
fn test_unit_generation_is_deterministic() {
    let cfg = test_config();
    let again = test_config();
    assert_eq!(generate_base_mount(&cfg), generate_base_mount(&again));
    assert_eq!(
        generate_subvol_mount(&cfg, "@usr", "/usr", None),
        generate_subvol_mount(&again, "@usr", "/usr", None)
    );
}

#[test]
fn test_nested_home_target_depends_on_base_then_home() {
    let cfg = test_config();
    let deps = subvol_unit_dependencies(&cfg, "/home/testuser/.cache/containers");
    assert_eq!(
        deps,
        vec![
            "mnt-btrfs.mount".to_string(),
            "home-testuser.mount".to_string()
        ]
    );

    // the home directory's own unit depends on the base volume alone and
    // instead carries the pre-session ordering directive
    let home_deps = subvol_unit_dependencies(&cfg, "/home/testuser");
    assert_eq!(home_deps, vec!["mnt-btrfs.mount".to_string()]);
    let nested_unit = generate_subvol_mount(
        &cfg,
        "@containers_user",
        "/home/testuser/.cache/containers",
        None,
    );
    assert!(nested_unit.contains("Requires=mnt-btrfs.mount home-testuser.mount"));
    assert!(!nested_unit.contains("Before=user@.service"));
}

#[test]
fn test_end_to_end_example() {
    let cfg = Config {
        vhdx: VhdxConfig {
            path: "C:\\btrfs.vhdx".to_string(),
            label: "ArchBtrfs".to_string(),
        },
        user: UserConfig {
            name: "alice".to_string(),
            options: "-M -G wheel".to_string(),
        },
        mount: MountConfig {
            base: "/mnt/btrfs".to_string(),
            options: "compress=zstd:3,noatime,nofail".to_string(),
        },
        subvolumes: SubvolumesConfig {
            backup: vec![BackupEntry {
                name: "@home".to_string(),
                subvol: BackupSubvol::Simple("/home/alice".to_string()),
            }],
            exclude: ExcludeConfig {
                parent: "@home".to_string(),
                paths: vec![],
            },
            transfer: vec![TransferEntry {
                name: "@var_log".to_string(),
                subvol: TransferSubvol {
                    mount: "/var/log".to_string(),
                    nodatacow: false,
                    options: None,
                },
            }],
        },
        btrbk: BtrbkConfig {
            snapshot_dir: ".snapshots".to_string(),
            preserve_min: "2d".to_string(),
            preserve: "14d 4w 2m".to_string(),
            timer_schedule: "*-*-* 03:00:00".to_string(),
        },
        ext4_sync: Ext4SyncConfig {
            mount_point: "/mnt/ext4-root".to_string(),
        },
        uuid: None,
    };

    let names: Vec<String> = wslarc::classify::classify(&cfg)
        .into_iter()
        .map(|d| d.name)
        .collect();
    assert_eq!(names, vec!["@home", "@etc", "@var_log"]);

    let home_unit = generate_subvol_mount(&cfg, "@home", "/home/alice", None);
    assert!(home_unit.contains("Where=/home/alice"));
    assert!(home_unit.contains("Options=subvol=@home,compress=zstd:3,noatime,nofail"));
    assert!(home_unit.contains("Before=user@.service"));

    let log_unit = generate_subvol_mount(&cfg, "@var_log", "/var/log", None);
    assert!(log_unit.contains("Options=subvol=@var_log,compress=zstd:3,noatime,nofail"));
    assert!(!log_unit.contains("home-alice.mount"));
}

#[test]
fn test_btrbk_files() {
    let cfg = test_config();
    let conf = wslarc::btrbk::generate_config(&cfg);
    assert!(conf.contains("snapshot_preserve_min 2d"));
    assert!(conf.contains("snapshot_preserve 14d 4w 2m"));
    assert!(conf.contains("volume /mnt/btrfs"));
    assert!(conf.contains("snapshot_dir .snapshots"));
    assert!(conf.contains("subvolume @home"));
    assert!(conf.contains("subvolume @usr"));
    assert!(conf.contains("subvolume @etc"));

    let service = wslarc::btrbk::generate_service(&cfg);
    assert!(service.contains("ExecStart=/usr/bin/btrbk run"));

    let timer = wslarc::btrbk::generate_timer(&cfg.btrbk.timer_schedule);
    assert!(timer.contains("OnCalendar=*-*-* 03:00:00"));
    assert!(timer.contains("WantedBy=timers.target"));
}

#[test]
fn test_ext4_sync_files() {
    let cfg = test_config();
    let unit = wslarc::ext4_sync::generate_ext4_mount(&cfg, "abcd-ef01");
    assert!(unit.contains("What=UUID=abcd-ef01"));
    assert!(unit.contains("Where=/mnt/ext4-root"));
    assert!(unit.contains("Type=ext4"));

    assert_eq!(
        wslarc::ext4_sync::ext4_mount_unit_filename(&cfg),
        "mnt-ext4\\x2droot.mount"
    );

    let hook = wslarc::ext4_sync::generate_pacman_hook();
    assert!(hook.contains("Target = systemd"));
    assert!(hook.contains("Exec = /usr/local/bin/wslarc hook-sync-systemd"));
}

#[test]
fn test_generate_systemd_units_order_and_validation() {
    let cfg = test_config();
    let units = wslarc::mount::generate_systemd_units(&cfg).unwrap();
    let names: Vec<&str> = units.iter().map(|u| u.filename.as_str()).collect();
    assert_eq!(
        names,
        vec![
            "mnt-btrfs.mount",
            "home-testuser.mount",
            "usr.mount",
            "var-lib-containers.mount"
        ]
    );
    assert!(units[1].body.contains("Before=user@.service"));
    assert_eq!(units[1].depends_on, vec!["mnt-btrfs.mount".to_string()]);

    let verify = wslarc::mount::verify_units_cmd(&units);
    let line = verify.render();
    assert!(line.starts_with("systemd-analyze verify "));
    assert!(line.contains("/etc/systemd/system/mnt-btrfs.mount"));
}
