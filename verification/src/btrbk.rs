//! Generators for the snapshot policy: the policy tool's configuration
//! (retention rules and the subvolume list), the service that runs the tool
//! once, and the timer that schedules it.
use vstd::prelude::*;

use crate::classify::{backup_views, sort_backup, spec_sort_backup};
use crate::config::{snapshot_only_name, BackupEntryView, Config, ConfigView};

verus! {

/// One `subvolume` line per backup entry, in order.
pub open spec fn spec_subvolume_lines(s: Seq<BackupEntryView>) -> Seq<char>
    decreases s.len(),
{
    if s.len() == 0 {
        Seq::<char>::empty()
    } else {
        "  subvolume "@ + s[0].name + "\n"@ + spec_subvolume_lines(s.skip(1))
    }
}

/// The policy configuration: retention rules, then the volume with its
/// snapshot directory and the snapshotted subvolumes — the Backup class in
/// classifier order, then the snapshot-only subvolume.
pub open spec fn spec_btrbk_config(c: ConfigView) -> Seq<char> {
    "transaction_log /var/log/btrbk.log\nsnapshot_preserve_min "@ + c.btrbk.preserve_min
        + "\nsnapshot_preserve "@ + c.btrbk.preserve + "\n\nvolume "@ + c.mount.base
        + "\n  snapshot_dir "@ + c.btrbk.snapshot_dir + "\n"@ + spec_subvolume_lines(
        spec_sort_backup(c.subvolumes.backup),
    ) + "  subvolume "@ + snapshot_only_name() + "\n"@
}

/// Generate the snapshot-policy configuration.
pub fn generate_config(config: &Config) -> (r: String)
    ensures
        r@ == spec_btrbk_config(config@),
{
    let ghost cv = config@;
    let mut out = String::from_str("transaction_log /var/log/btrbk.log\nsnapshot_preserve_min ");
    out.append(config.btrbk.preserve_min.as_str());
    out.append("\nsnapshot_preserve ");
    out.append(config.btrbk.preserve.as_str());
    out.append("\n\nvolume ");
    out.append(config.mount.base.as_str());
    out.append("\n  snapshot_dir ");
    out.append(config.btrbk.snapshot_dir.as_str());
    out.append("\n");

    let sorted = sort_backup(&config.subvolumes.backup);
    let ghost sorted_v = spec_sort_backup(cv.subvolumes.backup);
    let ghost head = out@;
    let mut i: usize = 0;
    proof {
        assert(sorted_v.skip(0) =~= sorted_v);
    }
    while i < sorted.len()
        invariant
            backup_views(sorted@) == sorted_v,
            sorted@.len() == sorted_v.len(),
            i <= sorted_v.len(),
            head + spec_subvolume_lines(sorted_v) == out@ + spec_subvolume_lines(
                sorted_v.skip(i as int),
            ),
        decreases sorted@.len() - i,
    {
        let ghost prev = out@;
        let ghost tail = sorted_v.skip(i as int);
        out.append("  subvolume ");
        out.append(sorted[i].name.as_str());
        out.append("\n");
        proof {
            assert(sorted@[i as int]@ == sorted_v[i as int]);
            assert(tail[0] == sorted_v[i as int]);
            assert(tail.skip(1) =~= sorted_v.skip(i + 1));
            assert(spec_subvolume_lines(tail) == "  subvolume "@ + sorted_v[i as int].name + "\n"@
                + spec_subvolume_lines(sorted_v.skip(i + 1)));
            assert(prev + spec_subvolume_lines(tail) =~= out@ + spec_subvolume_lines(
                sorted_v.skip(i + 1),
            ));
        }
        i += 1;
    }
    proof {
        assert(sorted_v.skip(sorted_v.len() as int) =~= Seq::<BackupEntryView>::empty());
        assert(spec_subvolume_lines(Seq::<BackupEntryView>::empty()) == Seq::<char>::empty());
        assert(out@ + Seq::<char>::empty() =~= out@);
        assert(out@ == head + spec_subvolume_lines(sorted_v));
    }
    out.append("  subvolume ");
    out.append("@etc");
    out.append("\n");
    proof {
        assert(out@ =~= spec_btrbk_config(cv));
    }
    out
}

/// The service that runs the policy tool once.
pub open spec fn spec_btrbk_service() -> Seq<char> {
    "[Unit]\nDescription=btrbk snapshot\n\n[Service]\nType=oneshot\nExecStart=/usr/bin/btrbk run\n"@
}

/// Generate the service unit that runs the policy tool once.
pub fn generate_service(config: &Config) -> (r: String)
    ensures
        r@ == spec_btrbk_service(),
{
    String::from_str(
        "[Unit]\nDescription=btrbk snapshot\n\n[Service]\nType=oneshot\nExecStart=/usr/bin/btrbk run\n",
    )
}

/// The timer unit carrying the configured schedule expression.
pub open spec fn spec_btrbk_timer(schedule: Seq<char>) -> Seq<char> {
    "[Unit]\nDescription=btrbk timer\n\n[Timer]\nOnCalendar="@ + schedule
        + "\nPersistent=true\n\n[Install]\nWantedBy=timers.target\n"@
}

/// Generate the timer unit with the configured schedule.
pub fn generate_timer(schedule: &str) -> (r: String)
    ensures
        r@ == spec_btrbk_timer(schedule@),
{
    let mut out = String::from_str("[Unit]\nDescription=btrbk timer\n\n[Timer]\nOnCalendar=");
    out.append(schedule);
    out.append("\nPersistent=true\n\n[Install]\nWantedBy=timers.target\n");
    out
}

} // verus!
