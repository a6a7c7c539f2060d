use wslarc::config::{BackupSubvol, Config, Ext4SyncConfig};
use wslarc::Error;

#[test]
fn test_default_config() {
    let cfg = Config::default();

    assert!(cfg.vhdx.path.is_empty());
    assert_eq!(cfg.vhdx.label, "ArchBtrfs");
    assert_eq!(cfg.mount.base, "/mnt/btrfs");
    assert!(cfg.mount.options.contains("compress=zstd:3"));
    assert!(cfg.uuid.is_none());
}

#[test]
fn test_backup_subvol_simple() {
    let subvol = BackupSubvol::Simple("/usr".to_string());
    assert_eq!(subvol.mount(), "/usr");
    assert!(subvol.options().is_none());
}

#[test]
fn test_backup_subvol_full() {
    let subvol = BackupSubvol::Full {
        mount: "/data".to_string(),
        options: Some("noatime".to_string()),
    };
    assert_eq!(subvol.mount(), "/data");
    assert_eq!(subvol.options(), Some("noatime"));
}

#[test]
fn test_set_user_expands_variables() {
    let mut cfg = Config::default();
    cfg.set_user("alice");

    assert_eq!(cfg.get_user(), "alice");

    if let Some(backup) = cfg.subvolumes.backup.iter().find(|e| e.name == "@home") {
        assert!(backup.subvol.mount().contains("alice"));
        assert!(!backup.subvol.mount().contains("$USER"));
    }
}

#[test]
fn test_load_config_from_toml() {
    let toml_content = r#"
[vhdx]
path = "C:\\Users\\test\\btrfs.vhdx"
label = "TestLabel"

[user]
name = "testuser"

[mount]
base = "/mnt/test"

[subvolumes.backup]
"@home" = "/home/testuser"

[subvolumes.exclude]
parent = "@home"
paths = [".cache"]

[subvolumes.transfer]

[btrbk]
snapshot_dir = ".snapshots"
preserve_min = "1d"
preserve = "7d"
timer_schedule = "*-*-* 02:00:00"
"#;

    let cfg = Config::from_text(toml_content).unwrap();

    assert_eq!(cfg.vhdx.label, "TestLabel");
    assert_eq!(cfg.mount.base, "/mnt/test");
    assert_eq!(cfg.btrbk.preserve_min, "1d");
}

#[test]
fn test_load_or_default_missing_file() {
    let cfg = Config::load_or_default(None).unwrap();
    assert!(cfg.vhdx.path.is_empty());
}

#[test]
fn test_save_and_load_roundtrip() {
    let mut cfg = Config::default();
    cfg.vhdx.path = "C:\\test.vhdx".to_string();
    cfg.user.name = "roundtrip_user".to_string();
    cfg.uuid = Some("test-uuid-1234".to_string());

    let text = cfg.to_text();
    let loaded = Config::from_text(&text).unwrap();

    assert_eq!(loaded.vhdx.path, cfg.vhdx.path);
    assert_eq!(loaded.uuid, cfg.uuid);
}

#[test]
fn test_ext4_sync_default() {
    let sync = Ext4SyncConfig::default();
    assert_eq!(sync.mount_point, "/mnt/ext4-root");
}

#[test]
fn test_roundtrip_reproduces_whole_configuration() {
    let mut cfg = Config::default();
    cfg.vhdx.path = "C:\\images\\btrfs.vhdx".to_string();
    cfg.set_user("alice");
    cfg.uuid = Some("12345678-1234-1234-1234-123456789abc".to_string());

    let text = cfg.to_text();
    let loaded = Config::from_text(&text).unwrap();

    // rendering the reloaded configuration reproduces the text byte for
    // byte, so every field survived the trip
    assert_eq!(loaded.to_text(), text);
    assert_eq!(loaded.vhdx.label, cfg.vhdx.label);
    assert_eq!(loaded.user.name, "alice");
    assert_eq!(loaded.mount.options, cfg.mount.options);
    assert_eq!(loaded.subvolumes.backup.len(), cfg.subvolumes.backup.len());
    assert_eq!(loaded.subvolumes.exclude.paths, cfg.subvolumes.exclude.paths);
    assert_eq!(loaded.subvolumes.transfer.len(), cfg.subvolumes.transfer.len());
    assert_eq!(loaded.btrbk.timer_schedule, cfg.btrbk.timer_schedule);
}

#[test]
fn test_roundtrip_unset_uuid_stays_unset() {
    let mut cfg = Config::default();
    cfg.vhdx.path = "C:\\test.vhdx".to_string();
    cfg.user.name = "bob".to_string();

    let loaded = Config::from_text(&cfg.to_text()).unwrap();
    assert!(loaded.uuid.is_none());
}

#[test]
fn test_roundtrip_full_form_backup_entry() {
    let mut cfg = Config::default();
    cfg.user.name = "carol".to_string();
    cfg.subvolumes.backup.push(wslarc::config::BackupEntry {
        name: "@data".to_string(),
        subvol: BackupSubvol::Full {
            mount: "/data".to_string(),
            options: Some("noatime".to_string()),
        },
    });

    let loaded = Config::from_text(&cfg.to_text()).unwrap();
    let entry = loaded
        .subvolumes
        .backup
        .iter()
        .find(|e| e.name == "@data")
        .unwrap();
    assert_eq!(entry.subvol.mount(), "/data");
    assert_eq!(entry.subvol.options(), Some("noatime"));
}

#[test]
fn test_expand_variables_is_idempotent() {
    let mut once = Config::default();
    once.set_user("alice");
    let mut twice = Config::default();
    twice.set_user("alice");
    twice.expand_variables();

    assert_eq!(once.to_text(), twice.to_text());
}

#[test]
fn test_parse_rejects_malformed_text() {
    assert!(matches!(
        Config::from_text("this is not a configuration"),
        Err(Error::ParseFailure)
    ));
}

#[test]
fn test_parse_rejects_missing_required_fields() {
    // a lone table with no required fields anywhere
    assert!(matches!(
        Config::from_text("[vhdx]\npath = '/x'\n"),
        Err(Error::ParseFailure)
    ));
}

#[test]
fn test_validate_reports_missing_fields() {
    let mut cfg = Config::default();
    assert!(matches!(cfg.validate(), Err(Error::MissingVhdxPath)));
    cfg.vhdx.path = "C:\\test.vhdx".to_string();
    assert!(matches!(cfg.validate(), Err(Error::MissingUser)));
    cfg.user.name = "alice".to_string();
    assert!(cfg.validate().is_ok());
}

#[test]
fn test_parse_ignores_unknown_sections_and_comments() {
    let text = "\
# provisioning setup
[vhdx]
path = '/img/btrfs.vhdx'
label = 'ArchBtrfs'

[future_feature]
knob = 'ignored'

[user]
name = 'alice'

[mount]
base = '/mnt/btrfs'

[subvolumes.exclude]
parent = '@home'
paths = []

[btrbk]
snapshot_dir = '.snapshots'
preserve_min = '2d'
preserve = '14d 4w 2m'
timer_schedule = '*-*-* 03:00:00'
";
    let cfg = Config::from_text(text).unwrap();
    assert_eq!(cfg.vhdx.label, "ArchBtrfs");
    assert!(cfg.subvolumes.backup.is_empty());
    assert!(cfg.subvolumes.exclude.paths.is_empty());
    // omitted optional fields take their documented defaults
    assert_eq!(cfg.user.options, "-M -G wheel");
    assert_eq!(cfg.mount.options, "compress=zstd:3,noatime,nofail");
    assert_eq!(cfg.ext4_sync.mount_point, "/mnt/ext4-root");
    assert!(cfg.uuid.is_none());
}

#[test]
fn test_summary_counts_empty_classes() {
    let mut cfg = Config::default();
    cfg.subvolumes.backup.clear();
    cfg.subvolumes.exclude.paths.clear();
    cfg.subvolumes.transfer.clear();
    let rows = wslarc::init::show_summary(&cfg);
    let subvols = rows.iter().find(|r| r.0 == "Subvolumes").unwrap();
    assert_eq!(subvols.1, "0 backup + 0 exclude + 0 transfer");
}

#[test]
fn test_default_useradd_options() {
    assert_eq!(wslarc::config::default_useradd_options(), "-M -G wheel");
    assert_eq!(
        wslarc::config::default_base_options(),
        "compress=zstd:3,noatime,nofail"
    );
    assert!(wslarc::config::default_subvol_options().is_none());
    assert_eq!(wslarc::config::default_ext4_mount(), "/mnt/ext4-root");
}
