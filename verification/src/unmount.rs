//! The decision core of the unmount workflow: the commands that disable —
//! never destroy — every generated mount unit and the snapshot timer.
//! Disabling an already-disabled unit is a no-op for the host's service
//! manager, so the whole sequence is idempotent.
use vstd::prelude::*;

use crate::classify::{backup_views, sort_backup, spec_sort_backup};
use crate::command::{cmd2, cmd_views, Cmd, CmdView};
use crate::config::{BackupEntryView, Config, ConfigView, TransferEntryView};
use crate::systemd::{mount_unit_filename, spec_mount_unit_filename};

verus! {

broadcast use
    crate::strkit::lemma_views_push,
    crate::strkit::lemma_views_empty,
    crate::command::lemma_cmd_views_push,
    crate::command::lemma_cmd_views_empty,
;

/// One deactivation per Backup-class unit, in order.
pub open spec fn spec_disable_backup_cmds(s: Seq<BackupEntryView>) -> Seq<CmdView>
    decreases s.len(),
{
    if s.len() == 0 {
        Seq::<CmdView>::empty()
    } else {
        seq![
            CmdView {
                program: "systemctl"@,
                args: seq!["disable"@, spec_mount_unit_filename(s[0].subvol.spec_mount())],
            },
        ] + spec_disable_backup_cmds(s.skip(1))
    }
}

/// One deactivation per Transfer-class unit, in order.
pub open spec fn spec_disable_transfer_cmds(s: Seq<TransferEntryView>) -> Seq<CmdView>
    decreases s.len(),
{
    if s.len() == 0 {
        Seq::<CmdView>::empty()
    } else {
        seq![
            CmdView {
                program: "systemctl"@,
                args: seq!["disable"@, spec_mount_unit_filename(s[0].subvol.mount)],
            },
        ] + spec_disable_transfer_cmds(s.skip(1))
    }
}

/// The deactivation commands of every mount unit: base volume, Backup
/// class in classifier order, Transfer class.
pub open spec fn spec_disable_unit_cmds(c: ConfigView) -> Seq<CmdView> {
    seq![
        CmdView {
            program: "systemctl"@,
            args: seq!["disable"@, spec_mount_unit_filename(c.mount.base)],
        },
    ] + spec_disable_backup_cmds(spec_sort_backup(c.subvolumes.backup))
        + spec_disable_transfer_cmds(c.subvolumes.transfer)
}

/// Compute the commands that disable every generated mount unit.
pub fn disable_mount_units(config: &Config) -> (r: Vec<Cmd>)
    ensures
        cmd_views(r@) == spec_disable_unit_cmds(config@),
{
    let ghost cv = config@;
    let mut out: Vec<Cmd> = Vec::new();
    let base_unit = mount_unit_filename(config.mount.base.as_str());
    out.push(cmd2("systemctl", "disable", base_unit.as_str()));
    let ghost m1 = seq![
        CmdView {
            program: "systemctl"@,
            args: seq!["disable"@, spec_mount_unit_filename(cv.mount.base)],
        },
    ];
    proof {
        assert(cmd_views(out@) =~= m1);
    }

    let sorted = sort_backup(&config.subvolumes.backup);
    let ghost sorted_v = spec_sort_backup(cv.subvolumes.backup);
    let mut i: usize = 0;
    proof {
        assert(sorted_v.skip(0) =~= sorted_v);
        assert(m1 + spec_disable_backup_cmds(sorted_v) =~= cmd_views(out@)
            + spec_disable_backup_cmds(sorted_v.skip(0)));
    }
    while i < sorted.len()
        invariant
            backup_views(sorted@) == sorted_v,
            sorted@.len() == sorted_v.len(),
            i <= sorted_v.len(),
            m1 + spec_disable_backup_cmds(sorted_v) == cmd_views(out@) + spec_disable_backup_cmds(
                sorted_v.skip(i as int),
            ),
        decreases sorted@.len() - i,
    {
        let ghost prev = out@;
        let ghost tail = sorted_v.skip(i as int);
        proof {
            assert(sorted@[i as int]@ == sorted_v[i as int]);
            assert(tail[0] == sorted_v[i as int]);
            assert(tail.skip(1) =~= sorted_v.skip(i + 1));
        }
        let unit = mount_unit_filename(sorted[i].subvol.mount());
        out.push(cmd2("systemctl", "disable", unit.as_str()));
        proof {
            assert(cmd_views(prev) + (seq![
                CmdView {
                    program: "systemctl"@,
                    args: seq!["disable"@, spec_mount_unit_filename(tail[0].subvol.spec_mount())],
                },
            ] + spec_disable_backup_cmds(sorted_v.skip(i + 1))) =~= cmd_views(out@)
                + spec_disable_backup_cmds(sorted_v.skip(i + 1)));
        }
        i += 1;
    }
    proof {
        assert(sorted_v.skip(sorted_v.len() as int) =~= Seq::<BackupEntryView>::empty());
        assert(cmd_views(out@) + Seq::<CmdView>::empty() =~= cmd_views(out@));
        assert(cmd_views(out@) == m1 + spec_disable_backup_cmds(sorted_v));
    }

    let ghost m2 = cmd_views(out@);
    let ghost tv = cv.subvolumes.transfer;
    let mut k: usize = 0;
    proof {
        assert(tv.skip(0) =~= tv);
        assert(m2 + spec_disable_transfer_cmds(tv) =~= cmd_views(out@)
            + spec_disable_transfer_cmds(tv.skip(0)));
    }
    while k < config.subvolumes.transfer.len()
        invariant
            cv == config@,
            tv == cv.subvolumes.transfer,
            config.subvolumes.transfer@.len() == tv.len(),
            k <= tv.len(),
            m2 + spec_disable_transfer_cmds(tv) == cmd_views(out@) + spec_disable_transfer_cmds(
                tv.skip(k as int),
            ),
        decreases tv.len() - k,
    {
        let ghost prev = out@;
        let ghost tail = tv.skip(k as int);
        proof {
            assert(config.subvolumes.transfer@[k as int]@ == tv[k as int]);
            assert(tail[0] == tv[k as int]);
            assert(tail.skip(1) =~= tv.skip(k + 1));
        }
        let unit = mount_unit_filename(config.subvolumes.transfer[k].subvol.mount.as_str());
        out.push(cmd2("systemctl", "disable", unit.as_str()));
        proof {
            assert(cmd_views(prev) + (seq![
                CmdView {
                    program: "systemctl"@,
                    args: seq!["disable"@, spec_mount_unit_filename(tail[0].subvol.mount)],
                },
            ] + spec_disable_transfer_cmds(tv.skip(k + 1))) =~= cmd_views(out@)
                + spec_disable_transfer_cmds(tv.skip(k + 1)));
        }
        k += 1;
    }
    proof {
        assert(tv.skip(tv.len() as int) =~= Seq::<TransferEntryView>::empty());
        assert(cmd_views(out@) + Seq::<CmdView>::empty() =~= cmd_views(out@));
        assert(cmd_views(out@) =~= spec_disable_unit_cmds(cv));
    }
    out
}

/// The whole unmount sequence: every mount unit, then the snapshot timer.
pub fn run(config: &Config) -> (r: Vec<Cmd>)
    ensures
        cmd_views(r@) == spec_disable_unit_cmds(config@) + seq![
            CmdView { program: "systemctl"@, args: seq!["disable"@, "btrbk.timer"@] },
        ],
{
    let mut out = disable_mount_units(config);
    out.push(cmd2("systemctl", "disable", "btrbk.timer"));
    proof {
        assert(cmd_views(out@) =~= spec_disable_unit_cmds(config@) + seq![
            CmdView { program: "systemctl"@, args: seq!["disable"@, "btrbk.timer"@] },
        ]);
    }
    out
}

} // verus!
