//! The decision core of the snapshot restore workflow: snapshot-name
//! parsing, target resolution, and each step's commands — unmount with its
//! explicit lazy fallback, rename-away of the live subvolume, re-creation
//! from the chosen snapshot, and remount with the same option derivation
//! as unit generation. The renamed-away subvolume is reported, never
//! deleted: it is the operator's only rollback path.
use vstd::prelude::*;

use crate::classify::{backup_target_of, spec_lookup_backup};
use crate::command::{cmd1, push_arg, Cmd};
use crate::config::Config;
use crate::strkit::{str_eq, views_of};

verus! {

broadcast use crate::strkit::lemma_views_push, crate::strkit::lemma_views_empty;

/// The index of the last delimiter in a snapshot name, or `-1`.
pub open spec fn spec_last_dot(s: Seq<char>) -> int
    decreases s.len(),
{
    if s.len() == 0 {
        -1
    } else if s.last() == '.' {
        s.len() - 1
    } else {
        spec_last_dot(s.drop_last())
    }
}

proof fn lemma_last_dot_bounds(s: Seq<char>)
    ensures
        -1 <= spec_last_dot(s) < s.len(),
        spec_last_dot(s) >= 0 ==> s[spec_last_dot(s)] == '.',
        forall|k: int| spec_last_dot(s) < k < s.len() ==> s[k] != '.',
    decreases s.len(),
{
    if s.len() == 0 {
    } else if s.last() == '.' {
    } else {
        lemma_last_dot_bounds(s.drop_last());
        assert forall|k: int| spec_last_dot(s) < k < s.len() implies s[k] != '.' by {
            if k < s.len() - 1 {
                assert(s.drop_last()[k] == s[k]);
            }
        }
    }
}

/// Split a snapshot name at its last delimiter into the subvolume base
/// name and the snapshot suffix. A name without the delimiter is rejected,
/// not guessed at.
pub fn parse_snapshot_name(snapshot: &str) -> (r: Result<(String, String), crate::Error>)
    ensures
        spec_last_dot(snapshot@) < 0 ==> r == Result::<(String, String), crate::Error>::Err(
            crate::Error::InvalidSnapshotName,
        ),
        spec_last_dot(snapshot@) >= 0 ==> (r matches Ok(p) && p.0@ == snapshot@.take(
            spec_last_dot(snapshot@),
        ) && p.1@ == snapshot@.skip(spec_last_dot(snapshot@) + 1)),
{
    proof {
        lemma_last_dot_bounds(snapshot@);
    }
    let n: usize = snapshot.unicode_len();
    let mut i: usize = n;
    while i > 0 && snapshot.get_char(i - 1) != '.'
        invariant
            n == snapshot@.len(),
            i <= n,
            forall|k: int| i <= k < n ==> snapshot@[k] != '.',
        decreases i,
    {
        i -= 1;
    }
    if i == 0 {
        proof {
            if spec_last_dot(snapshot@) >= 0 {
                assert(snapshot@[spec_last_dot(snapshot@)] == '.');
            }
        }
        Err(crate::Error::InvalidSnapshotName)
    } else {
        proof {
            assert(snapshot@[i - 1] == '.');
            assert(spec_last_dot(snapshot@) == i - 1) by {
                if spec_last_dot(snapshot@) > i - 1 {
                    assert(snapshot@[spec_last_dot(snapshot@)] != '.');
                }
                if spec_last_dot(snapshot@) < i - 1 {
                    assert(snapshot@[i - 1] != '.');
                }
            }
        }
        let base = snapshot.substring_char(0, i - 1);
        let suffix = snapshot.substring_char(i, n);
        proof {
            assert(base@ =~= snapshot@.take(i - 1));
            assert(suffix@ =~= snapshot@.skip(i as int));
        }
        Ok((String::from_str(base), String::from_str(suffix)))
    }
}

/// The subvolume a snapshot restores: its base name under the subvolume
/// name prefix.
pub fn snapshot_subvol_name(snapshot: &str) -> (r: Result<String, crate::Error>)
    ensures
        spec_last_dot(snapshot@) < 0 ==> r == Result::<String, crate::Error>::Err(
            crate::Error::InvalidSnapshotName,
        ),
        spec_last_dot(snapshot@) >= 0 ==> (r matches Ok(name) && name@ == "@"@ + snapshot@.take(
            spec_last_dot(snapshot@),
        )),
{
    match parse_snapshot_name(snapshot) {
        Ok((base, _suffix)) => {
            let mut name = String::from_str("@");
            name.append(base.as_str());
            Ok(name)
        },
        Err(e) => Err(e),
    }
}

/// The mount target of the subvolume a restore acts on: none for the
/// snapshot-only subvolume, else its Backup-class target.
pub fn mount_point_for(config: &Config, subvol_name: &str) -> (r: Option<String>)
    ensures
        subvol_name@ == crate::config::snapshot_only_name() ==> r is None,
        subvol_name@ != crate::config::snapshot_only_name() ==> (match r {
            Some(m) => spec_lookup_backup(config@.subvolumes.backup, subvol_name@) matches Some(sv)
                && sv.spec_mount() == m@,
            None => spec_lookup_backup(config@.subvolumes.backup, subvol_name@) is None,
        }),
{
    if str_eq(subvol_name, "@etc") {
        None
    } else {
        backup_target_of(&config.subvolumes.backup, subvol_name)
    }
}

/// The snapshot directory of the configuration.
pub fn snapshot_dir(config: &Config) -> (r: String)
    ensures
        r@ == config@.mount.base + "/"@ + config@.btrbk.snapshot_dir,
{
    crate::init::join_path(config.mount.base.as_str(), config.btrbk.snapshot_dir.as_str())
}

/// The live path of a subvolume under the base mount point.
pub fn live_subvol_path(config: &Config, subvol_name: &str) -> (r: String)
    ensures
        r@ == config@.mount.base + "/"@ + subvol_name@,
{
    crate::init::join_path(config.mount.base.as_str(), subvol_name)
}

/// The rename-away path of a subvolume: the live path under the restore
/// backup suffix.
pub fn restore_backup_path(config: &Config, subvol_name: &str) -> (r: String)
    ensures
        r@ == (config@.mount.base + "/"@ + subvol_name@) + ".restore-backup"@,
{
    let mut r = live_subvol_path(config, subvol_name);
    r.append(".restore-backup");
    r
}

/// The commands of the rename-away step: delete a leftover rename-away
/// subvolume from an earlier restore, then rename the live subvolume.
/// A missing live subvolume skips the rename without error.
pub fn backup_current(
    config: &Config,
    subvol_name: &str,
    live_exists: bool,
    old_backup_exists: bool,
) -> (r: Vec<Cmd>)
    ensures
        crate::command::cmd_views(r@) == (if old_backup_exists {
            seq![
                crate::command::CmdView {
                    program: "btrfs"@,
                    args: seq![
                        "subvolume"@,
                        "delete"@,
                        (config@.mount.base + "/"@ + subvol_name@) + ".restore-backup"@,
                    ],
                },
            ]
        } else {
            Seq::<crate::command::CmdView>::empty()
        }) + (if live_exists {
            seq![
                crate::command::CmdView {
                    program: "mv"@,
                    args: seq![
                        config@.mount.base + "/"@ + subvol_name@,
                        (config@.mount.base + "/"@ + subvol_name@) + ".restore-backup"@,
                    ],
                },
            ]
        } else {
            Seq::<crate::command::CmdView>::empty()
        }),
{
    broadcast use crate::command::lemma_cmd_views_push, crate::command::lemma_cmd_views_empty;

    let mut out: Vec<Cmd> = Vec::new();
    if old_backup_exists {
        let backup_path = restore_backup_path(config, subvol_name);
        let mut args: Vec<String> = Vec::new();
        push_arg(&mut args, "subvolume");
        push_arg(&mut args, "delete");
        args.push(backup_path);
        proof {
            assert(views_of(args@) =~= seq![
                "subvolume"@,
                "delete"@,
                (config@.mount.base + "/"@ + subvol_name@) + ".restore-backup"@,
            ]);
        }
        out.push(Cmd { program: String::from_str("btrfs"), args });
    }
    if live_exists {
        let current = live_subvol_path(config, subvol_name);
        let backup_path = restore_backup_path(config, subvol_name);
        let mut args: Vec<String> = Vec::new();
        args.push(current);
        args.push(backup_path);
        proof {
            assert(views_of(args@) =~= seq![
                config@.mount.base + "/"@ + subvol_name@,
                (config@.mount.base + "/"@ + subvol_name@) + ".restore-backup"@,
            ]);
        }
        out.push(Cmd { program: String::from_str("mv"), args });
    }
    proof {
        assert(crate::command::cmd_views(out@) =~= (if old_backup_exists {
            seq![
                crate::command::CmdView {
                    program: "btrfs"@,
                    args: seq![
                        "subvolume"@,
                        "delete"@,
                        (config@.mount.base + "/"@ + subvol_name@) + ".restore-backup"@,
                    ],
                },
            ]
        } else {
            Seq::<crate::command::CmdView>::empty()
        }) + (if live_exists {
            seq![
                crate::command::CmdView {
                    program: "mv"@,
                    args: seq![
                        config@.mount.base + "/"@ + subvol_name@,
                        (config@.mount.base + "/"@ + subvol_name@) + ".restore-backup"@,
                    ],
                },
            ]
        } else {
            Seq::<crate::command::CmdView>::empty()
        }));
    }
    out
}

/// The command that recreates the live subvolume as a snapshot of the
/// chosen historical snapshot.
pub fn restore_snapshot_cmd(config: &Config, selected: &str, subvol_name: &str) -> (r: Cmd)
    ensures
        r@.program == "btrfs"@,
        r@.args == seq![
            "subvolume"@,
            "snapshot"@,
            (config@.mount.base + "/"@ + config@.btrbk.snapshot_dir) + "/"@ + selected@,
            config@.mount.base + "/"@ + subvol_name@,
        ],
{
    let dir = snapshot_dir(config);
    let source = crate::init::join_path(dir.as_str(), selected);
    let current = live_subvol_path(config, subvol_name);
    let mut args: Vec<String> = Vec::new();
    push_arg(&mut args, "subvolume");
    push_arg(&mut args, "snapshot");
    args.push(source);
    args.push(current);
    proof {
        assert(views_of(args@) =~= seq![
            "subvolume"@,
            "snapshot"@,
            (config@.mount.base + "/"@ + config@.btrbk.snapshot_dir) + "/"@ + selected@,
            config@.mount.base + "/"@ + subvol_name@,
        ]);
    }
    Cmd { program: String::from_str("btrfs"), args }
}

/// The remount command of a restored subvolume: the same option derivation
/// as unit generation — the subvolume selector first, then the entry's
/// custom options if any, else the mount root's defaults.
pub fn remount_cmd(config: &Config, subvol_name: &str, mount_point: &str) -> (r: Cmd)
    ensures
        r@.program == "mount"@,
        r@.args == seq![
            "-t"@,
            "btrfs"@,
            "-o"@,
            crate::systemd::spec_subvol_options(
                config@,
                subvol_name@,
                match spec_lookup_backup(config@.subvolumes.backup, subvol_name@) {
                    Some(sv) => sv.spec_options(),
                    None => None,
                },
            ),
            "UUID="@ + (match config@.uuid {
                Some(u) => u,
                None => Seq::<char>::empty(),
            }),
            mount_point@,
        ],
{
    let custom = backup_options_of(&config.subvolumes.backup, subvol_name);
    let mut opts = String::from_str("subvol=");
    opts.append(subvol_name);
    opts.append(",");
    match &custom {
        Some(o) => opts.append(o.as_str()),
        None => opts.append(config.mount.options.as_str()),
    }
    let mut uuid_arg = String::from_str("UUID=");
    match &config.uuid {
        Some(u) => uuid_arg.append(u.as_str()),
        None => {
            proof {
                assert(uuid_arg@ =~= "UUID="@ + Seq::<char>::empty());
            }
        },
    }
    let mut args: Vec<String> = Vec::new();
    push_arg(&mut args, "-t");
    push_arg(&mut args, "btrfs");
    push_arg(&mut args, "-o");
    args.push(opts);
    args.push(uuid_arg);
    push_arg(&mut args, mount_point);
    proof {
        assert(views_of(args@) =~= seq![
            "-t"@,
            "btrfs"@,
            "-o"@,
            crate::systemd::spec_subvol_options(
                config@,
                subvol_name@,
                match spec_lookup_backup(config@.subvolumes.backup, subvol_name@) {
                    Some(sv) => sv.spec_options(),
                    None => None,
                },
            ),
            "UUID="@ + (match config@.uuid {
                Some(u) => u,
                None => Seq::<char>::empty(),
            }),
            mount_point@,
        ]);
    }
    Cmd { program: String::from_str("mount"), args }
}

/// The custom mount options of the Backup-class entry named `name`, if the
/// entry exists and carries any.
fn backup_options_of(entries: &Vec<crate::config::BackupEntry>, name: &str) -> (r: Option<String>)
    ensures
        match spec_lookup_backup(crate::classify::backup_views(entries@), name@) {
            Some(sv) => match r {
                Some(o) => sv.spec_options() == Some(o@),
                None => sv.spec_options() is None,
            },
            None => r is None,
        },
{
    let ghost all = crate::classify::backup_views(entries@);
    let mut i: usize = 0;
    while i < entries.len()
        invariant
            all == crate::classify::backup_views(entries@),
            entries@.len() == all.len(),
            i <= all.len(),
            forall|k: int| 0 <= k < i ==> #[trigger] all[k].name != name@,
        decreases entries@.len() - i,
    {
        if str_eq(entries[i].name.as_str(), name) {
            proof {
                crate::classify::lemma_lookup_backup_skip(all, name@, i as int);
                assert(all.skip(i as int)[0] == all[i as int]);
                assert(entries@[i as int]@ == all[i as int]);
            }
            return match &entries[i].subvol {
                crate::config::BackupSubvol::Simple(_) => None,
                crate::config::BackupSubvol::Full { options, .. } => match options {
                    Some(o) => Some(o.clone()),
                    None => None,
                },
            };
        }
        proof {
            assert(entries@[i as int]@ == all[i as int]);
        }
        i += 1;
    }
    proof {
        crate::classify::lemma_lookup_backup_skip(all, name@, all.len() as int);
        assert(all.skip(all.len() as int) =~= Seq::<crate::config::BackupEntryView>::empty());
    }
    None
}

/// The lazy-unmount fallback: run only after a failed normal unmount and
/// an explicit confirmation; declining leaves nothing to run and the
/// driver aborts the sequence.
pub fn unmount_retry(mount_point: &str, confirmed: bool) -> (r: Option<Cmd>)
    ensures
        confirmed ==> (r matches Some(cmd) && cmd@.program == "umount"@ && cmd@.args == seq![
            "-l"@,
            mount_point@,
        ]),
        !confirmed ==> r is None,
{
    if confirmed {
        let mut args: Vec<String> = Vec::new();
        push_arg(&mut args, "-l");
        push_arg(&mut args, mount_point);
        proof {
            assert(views_of(args@) =~= seq!["-l"@, mount_point@]);
        }
        Some(Cmd { program: String::from_str("umount"), args })
    } else {
        None
    }
}

/// The normal unmount of the subvolume's mount target.
pub fn unmount_cmd(mount_point: &str) -> (r: Cmd)
    ensures
        r@.program == "umount"@,
        r@.args == seq![mount_point@],
{
    cmd1("umount", mount_point)
}

/// How many steps the restore reports: the unmount and remount steps exist
/// only for a subvolume with a mount target.
pub fn restore_total_steps(has_mount_point: bool) -> (r: u64)
    ensures
        has_mount_point ==> r == 5,
        !has_mount_point ==> r == 3,
{
    if has_mount_point {
        5
    } else {
        3
    }
}

} // verus!
