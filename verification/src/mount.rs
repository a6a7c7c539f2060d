//! The decision core of the mount workflow: the generated artifacts (mount
//! units, snapshot-policy files, boot command), the validation command that
//! must pass before any of them is enabled, and the activation commands.
//! A thin driver writes the files, runs the commands in order, and aborts
//! on the first failure, so a known-broken artifact is never activated.
use vstd::prelude::*;

use crate::classify::{backup_views, sort_backup, spec_sort_backup};
use crate::command::{cmd1, cmd2, cmd_views, push_arg, Cmd, CmdView};
use crate::config::{BackupEntryView, Config, ConfigView, TransferEntryView};
use crate::strkit::{str_eq, views_of};
use crate::systemd::{
    generate_base_mount, generate_subvol_mount, mount_unit_filename, spec_base_mount,
    spec_mount_unit_filename, spec_subvol_dependencies, spec_subvol_mount,
    subvol_unit_dependencies,
};

verus! {

broadcast use
    crate::strkit::lemma_views_push,
    crate::strkit::lemma_views_empty,
    crate::command::lemma_cmd_views_push,
    crate::command::lemma_cmd_views_empty,
;

/// One generated unit: its filename, its body, and the unit filenames it
/// depends on. It is purely derived: regenerating from the same
/// configuration yields byte-identical text.
pub struct GeneratedUnit {
    pub filename: String,
    pub body: String,
    pub depends_on: Vec<String>,
}

#[verifier::ext_equal]
pub ghost struct GeneratedUnitView {
    pub filename: Seq<char>,
    pub body: Seq<char>,
    pub depends_on: Seq<Seq<char>>,
}

impl View for GeneratedUnit {
    type V = GeneratedUnitView;

    open spec fn view(&self) -> GeneratedUnitView {
        GeneratedUnitView {
            filename: self.filename@,
            body: self.body@,
            depends_on: views_of(self.depends_on@),
        }
    }
}

/// The views of a vector of generated units.
pub open spec fn unit_views(v: Seq<GeneratedUnit>) -> Seq<GeneratedUnitView> {
    Seq::new(v.len(), |i: int| v[i]@)
}

proof fn lemma_unit_views_push(v: Seq<GeneratedUnit>, u: GeneratedUnit)
    ensures
        unit_views(v.push(u)) == unit_views(v).push(u@),
{
    assert forall|idx: int| 0 <= idx < v.push(u).len() implies unit_views(v.push(u))[idx]
        == unit_views(v).push(u@)[idx] by {
        if idx < v.len() {
            assert(v.push(u)[idx] == v[idx]);
        } else {
            assert(v.push(u)[idx] == u);
        }
    }
    assert(unit_views(v.push(u)) =~= unit_views(v).push(u@));
}

/// Some Backup-class entry targets the primary system-binaries directory.
pub open spec fn spec_targets_usr(s: Seq<BackupEntryView>) -> bool {
    exists|i: int| 0 <= i < s.len() && (#[trigger] s[i]).subvol.spec_mount() == "/usr"@
}

/// The Backup class holds an entry whose mount target is the primary
/// system-binaries directory: that directory then lives on the volume, so
/// the secondary root must be kept in sync with it, whatever the entry is
/// named.
pub fn has_usr_subvol(config: &Config) -> (r: bool)
    ensures
        r == spec_targets_usr(config@.subvolumes.backup),
{
    let ghost b = config@.subvolumes.backup;
    let mut i: usize = 0;
    while i < config.subvolumes.backup.len()
        invariant
            b == config@.subvolumes.backup,
            config.subvolumes.backup@.len() == b.len(),
            i <= b.len(),
            forall|k: int| 0 <= k < i ==> (#[trigger] b[k]).subvol.spec_mount() != "/usr"@,
        decreases b.len() - i,
    {
        if str_eq(config.subvolumes.backup[i].subvol.mount(), "/usr") {
            proof {
                assert(config.subvolumes.backup@[i as int]@ == b[i as int]);
                assert(b[i as int].subvol.spec_mount() == "/usr"@);
            }
            return true;
        }
        proof {
            assert(config.subvolumes.backup@[i as int]@ == b[i as int]);
        }
        i += 1;
    }
    proof {
        if spec_targets_usr(b) {
            let k = choose|k: int| 0 <= k < b.len() && b[k].subvol.spec_mount() == "/usr"@;
            assert(b[k].subvol.spec_mount() != "/usr"@);
        }
    }
    false
}

/// The mount unit of one Backup-class entry.
pub open spec fn spec_backup_unit(c: ConfigView, e: BackupEntryView) -> GeneratedUnitView {
    GeneratedUnitView {
        filename: spec_mount_unit_filename(e.subvol.spec_mount()),
        body: spec_subvol_mount(c, e.name, e.subvol.spec_mount(), e.subvol.spec_options()),
        depends_on: spec_subvol_dependencies(c, e.subvol.spec_mount()),
    }
}

/// The mount units of the Backup class, in order.
pub open spec fn spec_backup_units(c: ConfigView, s: Seq<BackupEntryView>) -> Seq<
    GeneratedUnitView,
>
    decreases s.len(),
{
    if s.len() == 0 {
        Seq::<GeneratedUnitView>::empty()
    } else {
        seq![spec_backup_unit(c, s[0])] + spec_backup_units(c, s.skip(1))
    }
}

/// The mount unit of one Transfer-class entry.
pub open spec fn spec_transfer_unit(c: ConfigView, e: TransferEntryView) -> GeneratedUnitView {
    GeneratedUnitView {
        filename: spec_mount_unit_filename(e.subvol.mount),
        body: spec_subvol_mount(c, e.name, e.subvol.mount, e.subvol.options),
        depends_on: spec_subvol_dependencies(c, e.subvol.mount),
    }
}

/// The mount units of the Transfer class, in order.
pub open spec fn spec_transfer_units(c: ConfigView, s: Seq<TransferEntryView>) -> Seq<
    GeneratedUnitView,
>
    decreases s.len(),
{
    if s.len() == 0 {
        Seq::<GeneratedUnitView>::empty()
    } else {
        seq![spec_transfer_unit(c, s[0])] + spec_transfer_units(c, s.skip(1))
    }
}

/// Every mount unit of the configuration: the base volume first, then the
/// Backup class in classifier order, then the Transfer class.
pub open spec fn spec_mount_units(c: ConfigView) -> Seq<GeneratedUnitView> {
    seq![
        GeneratedUnitView {
            filename: spec_mount_unit_filename(c.mount.base),
            body: spec_base_mount(c),
            depends_on: Seq::<Seq<char>>::empty(),
        },
    ] + spec_backup_units(c, spec_sort_backup(c.subvolumes.backup)) + spec_transfer_units(
        c,
        c.subvolumes.transfer,
    )
}

/// No two of the generated units share a filename.
pub open spec fn spec_distinct_filenames(us: Seq<GeneratedUnitView>) -> bool {
    forall|i: int, j: int|
        0 <= i < j < us.len() ==> (#[trigger] us[i]).filename != (#[trigger] us[j]).filename
}

/// Generate every mount unit of the configuration, in a fixed order.
///
/// Two mount targets mapping to one unit filename would have the later
/// unit silently overwrite the earlier when written out, so that state is
/// surfaced as an error instead of a unit list.
pub fn generate_systemd_units(config: &Config) -> (r: Result<Vec<GeneratedUnit>, crate::Error>)
    ensures
        r matches Ok(units) ==> unit_views(units@) == spec_mount_units(config@)
            && spec_distinct_filenames(spec_mount_units(config@)),
        r is Err <==> !spec_distinct_filenames(spec_mount_units(config@)),
        r matches Err(e) ==> e is UnitFilenameCollision,
{
    let out = build_mount_units(config);
    let ghost us = spec_mount_units(config@);
    let mut i: usize = 0;
    while i < out.len()
        invariant
            us == spec_mount_units(config@),
            unit_views(out@) == us,
            out@.len() == us.len(),
            i <= us.len(),
            forall|a: int, b: int|
                0 <= a < i && a < b < us.len() ==> (#[trigger] us[a]).filename != (
                #[trigger] us[b]).filename,
        decreases out@.len() - i,
    {
        let mut j: usize = i + 1;
        while j < out.len()
            invariant
                us == spec_mount_units(config@),
                unit_views(out@) == us,
                out@.len() == us.len(),
                i < us.len(),
                i < j <= us.len(),
                forall|b: int|
                    i < b < j ==> (#[trigger] us[b]).filename != us[i as int].filename,
            decreases out@.len() - j,
        {
            if crate::strkit::str_eq(out[i].filename.as_str(), out[j].filename.as_str()) {
                proof {
                    assert(out@[i as int]@ == us[i as int]);
                    assert(out@[j as int]@ == us[j as int]);
                    assert(us[i as int].filename == us[j as int].filename);
                    assert(!spec_distinct_filenames(us));
                }
                return Err(crate::Error::UnitFilenameCollision);
            }
            proof {
                assert(out@[i as int]@ == us[i as int]);
                assert(out@[j as int]@ == us[j as int]);
            }
            j += 1;
        }
        i += 1;
    }
    proof {
        assert(spec_distinct_filenames(us));
    }
    Ok(out)
}

/// Build the unit list: the base volume first, then the Backup class in
/// classifier order, then the Transfer class.
fn build_mount_units(config: &Config) -> (r: Vec<GeneratedUnit>)
    ensures
        unit_views(r@) == spec_mount_units(config@),
{
    let ghost cv = config@;
    let mut out: Vec<GeneratedUnit> = Vec::new();

    // the base volume's own unit
    out.push(
        GeneratedUnit {
            filename: mount_unit_filename(config.mount.base.as_str()),
            body: generate_base_mount(config),
            depends_on: Vec::new(),
        },
    );
    let ghost m1 = seq![
        GeneratedUnitView {
            filename: spec_mount_unit_filename(cv.mount.base),
            body: spec_base_mount(cv),
            depends_on: Seq::<Seq<char>>::empty(),
        },
    ];
    proof {
        assert(unit_views(out@) =~= m1);
    }

    // the Backup class, in classifier order
    let sorted = sort_backup(&config.subvolumes.backup);
    let ghost sorted_v = spec_sort_backup(cv.subvolumes.backup);
    let mut i: usize = 0;
    proof {
        assert(sorted_v.skip(0) =~= sorted_v);
        assert(m1 + spec_backup_units(cv, sorted_v) =~= unit_views(out@) + spec_backup_units(
            cv,
            sorted_v.skip(0),
        ));
    }
    while i < sorted.len()
        invariant
            cv == config@,
            backup_views(sorted@) == sorted_v,
            sorted@.len() == sorted_v.len(),
            i <= sorted_v.len(),
            m1 + spec_backup_units(cv, sorted_v) == unit_views(out@) + spec_backup_units(
                cv,
                sorted_v.skip(i as int),
            ),
        decreases sorted@.len() - i,
    {
        let ghost prev = out@;
        let ghost tail = sorted_v.skip(i as int);
        let e = &sorted[i];
        proof {
            assert(sorted@[i as int]@ == sorted_v[i as int]);
            assert(tail[0] == sorted_v[i as int]);
            assert(tail.skip(1) =~= sorted_v.skip(i + 1));
        }
        let mount = e.subvol.mount();
        let body = generate_subvol_mount(config, e.name.as_str(), mount, e.subvol.options());
        let filename = mount_unit_filename(e.subvol.mount());
        let deps = subvol_unit_dependencies(config, e.subvol.mount());
        let u = GeneratedUnit { filename, body, depends_on: deps };
        proof {
            assert(u@ == spec_backup_unit(cv, sorted_v[i as int]));
        }
        out.push(u);
        proof {
            lemma_unit_views_push(prev, out@[prev.len() as int]);
            assert(unit_views(prev) + (seq![spec_backup_unit(cv, tail[0])] + spec_backup_units(
                cv,
                sorted_v.skip(i + 1),
            )) =~= unit_views(out@) + spec_backup_units(cv, sorted_v.skip(i + 1)));
        }
        i += 1;
    }
    proof {
        assert(sorted_v.skip(sorted_v.len() as int) =~= Seq::<BackupEntryView>::empty());
        assert(unit_views(out@) + Seq::<GeneratedUnitView>::empty() =~= unit_views(out@));
        assert(unit_views(out@) == m1 + spec_backup_units(cv, sorted_v));
    }

    // the Transfer class
    let ghost m2 = unit_views(out@);
    let ghost tv = cv.subvolumes.transfer;
    let mut k: usize = 0;
    proof {
        assert(tv.skip(0) =~= tv);
        assert(m2 + spec_transfer_units(cv, tv) =~= unit_views(out@) + spec_transfer_units(
            cv,
            tv.skip(0),
        ));
    }
    while k < config.subvolumes.transfer.len()
        invariant
            cv == config@,
            tv == cv.subvolumes.transfer,
            config.subvolumes.transfer@.len() == tv.len(),
            k <= tv.len(),
            m2 + spec_transfer_units(cv, tv) == unit_views(out@) + spec_transfer_units(
                cv,
                tv.skip(k as int),
            ),
        decreases tv.len() - k,
    {
        let ghost prev = out@;
        let ghost tail = tv.skip(k as int);
        let e = &config.subvolumes.transfer[k];
        proof {
            assert(config.subvolumes.transfer@[k as int]@ == tv[k as int]);
            assert(tail[0] == tv[k as int]);
            assert(tail.skip(1) =~= tv.skip(k + 1));
        }
        let custom = match &e.subvol.options {
            Some(o) => Some(o.as_str()),
            None => None,
        };
        let body = generate_subvol_mount(config, e.name.as_str(), e.subvol.mount.as_str(), custom);
        let filename = mount_unit_filename(e.subvol.mount.as_str());
        let deps = subvol_unit_dependencies(config, e.subvol.mount.as_str());
        let u = GeneratedUnit { filename, body, depends_on: deps };
        proof {
            assert(u@ == spec_transfer_unit(cv, tv[k as int]));
        }
        out.push(u);
        proof {
            lemma_unit_views_push(prev, out@[prev.len() as int]);
            assert(unit_views(prev) + (seq![spec_transfer_unit(cv, tail[0])]
                + spec_transfer_units(cv, tv.skip(k + 1))) =~= unit_views(out@)
                + spec_transfer_units(cv, tv.skip(k + 1)));
        }
        k += 1;
    }
    proof {
        assert(tv.skip(tv.len() as int) =~= Seq::<TransferEntryView>::empty());
        assert(unit_views(out@) + Seq::<GeneratedUnitView>::empty() =~= unit_views(out@));
        assert(unit_views(out@) =~= spec_mount_units(cv));
    }
    out
}

/// The installed path of a unit file.
pub open spec fn spec_unit_path(filename: Seq<char>) -> Seq<char> {
    "/etc/systemd/system/"@ + filename
}

/// The validation command: every generated unit is checked by the external
/// verifier before any is enabled.
pub open spec fn spec_verify_units_cmd(us: Seq<GeneratedUnitView>) -> CmdView {
    CmdView {
        program: "systemd-analyze"@,
        args: seq!["verify"@] + Seq::new(us.len(), |i: int| spec_unit_path(us[i].filename)),
    }
}

/// Build the command that validates every generated unit at once.
pub fn verify_units_cmd(units: &Vec<GeneratedUnit>) -> (r: Cmd)
    ensures
        r@ == spec_verify_units_cmd(unit_views(units@)),
{
    let ghost us = unit_views(units@);
    let ghost paths = Seq::new(us.len(), |i: int| spec_unit_path(us[i].filename));
    let mut args: Vec<String> = Vec::new();
    push_arg(&mut args, "verify");
    let mut i: usize = 0;
    proof {
        assert(views_of(args@) =~= seq!["verify"@] + paths.take(0));
    }
    while i < units.len()
        invariant
            us == unit_views(units@),
            paths == Seq::new(us.len(), |k: int| spec_unit_path(us[k].filename)),
            units@.len() == us.len(),
            i <= us.len(),
            views_of(args@) == seq!["verify"@] + paths.take(i as int),
        decreases units@.len() - i,
    {
        let mut p = String::from_str("/etc/systemd/system/");
        p.append(units[i].filename.as_str());
        proof {
            assert(units@[i as int]@ == us[i as int]);
            assert(p@ == paths[i as int]);
        }
        args.push(p);
        proof {
            assert(views_of(args@) =~= seq!["verify"@] + paths.take(i + 1));
        }
        i += 1;
    }
    proof {
        assert(paths.take(paths.len() as int) =~= paths);
    }
    Cmd { program: String::from_str("systemd-analyze"), args }
}

/// The activation commands: reload the manager, enable the base unit,
/// every Backup-class unit, every Transfer-class unit, and the snapshot
/// timer, in that order.
pub open spec fn spec_enable_cmds(c: ConfigView) -> Seq<CmdView> {
    seq![
        CmdView { program: "systemctl"@, args: seq!["daemon-reload"@] },
        CmdView {
            program: "systemctl"@,
            args: seq!["enable"@, spec_mount_unit_filename(c.mount.base)],
        },
    ] + spec_enable_backup_cmds(spec_sort_backup(c.subvolumes.backup)) + spec_enable_transfer_cmds(
        c.subvolumes.transfer,
    ) + seq![CmdView { program: "systemctl"@, args: seq!["enable"@, "btrbk.timer"@] }]
}

/// One activation per Backup-class unit, in order.
pub open spec fn spec_enable_backup_cmds(s: Seq<BackupEntryView>) -> Seq<CmdView>
    decreases s.len(),
{
    if s.len() == 0 {
        Seq::<CmdView>::empty()
    } else {
        seq![
            CmdView {
                program: "systemctl"@,
                args: seq!["enable"@, spec_mount_unit_filename(s[0].subvol.spec_mount())],
            },
        ] + spec_enable_backup_cmds(s.skip(1))
    }
}

/// One activation per Transfer-class unit, in order.
pub open spec fn spec_enable_transfer_cmds(s: Seq<TransferEntryView>) -> Seq<CmdView>
    decreases s.len(),
{
    if s.len() == 0 {
        Seq::<CmdView>::empty()
    } else {
        seq![
            CmdView {
                program: "systemctl"@,
                args: seq!["enable"@, spec_mount_unit_filename(s[0].subvol.mount)],
            },
        ] + spec_enable_transfer_cmds(s.skip(1))
    }
}

/// Compute the activation commands of the mount workflow.
pub fn enable_services(config: &Config) -> (r: Vec<Cmd>)
    ensures
        cmd_views(r@) == spec_enable_cmds(config@),
{
    let ghost cv = config@;
    let mut out: Vec<Cmd> = Vec::new();
    out.push(cmd1("systemctl", "daemon-reload"));
    let base_unit = mount_unit_filename(config.mount.base.as_str());
    out.push(cmd2("systemctl", "enable", base_unit.as_str()));
    let ghost m1 = seq![
        CmdView { program: "systemctl"@, args: seq!["daemon-reload"@] },
        CmdView {
            program: "systemctl"@,
            args: seq!["enable"@, spec_mount_unit_filename(cv.mount.base)],
        },
    ];
    proof {
        assert(cmd_views(out@) =~= m1);
    }

    let sorted = sort_backup(&config.subvolumes.backup);
    let ghost sorted_v = spec_sort_backup(cv.subvolumes.backup);
    let mut i: usize = 0;
    proof {
        assert(sorted_v.skip(0) =~= sorted_v);
        assert(m1 + spec_enable_backup_cmds(sorted_v) =~= cmd_views(out@)
            + spec_enable_backup_cmds(sorted_v.skip(0)));
    }
    while i < sorted.len()
        invariant
            backup_views(sorted@) == sorted_v,
            sorted@.len() == sorted_v.len(),
            i <= sorted_v.len(),
            m1 + spec_enable_backup_cmds(sorted_v) == cmd_views(out@) + spec_enable_backup_cmds(
                sorted_v.skip(i as int),
            ),
        decreases sorted@.len() - i,
    {
        let ghost prev = out@;
        let ghost tail = sorted_v.skip(i as int);
        proof {
            assert(sorted@[i as int]@ == sorted_v[i as int]);
            assert(tail[0] == sorted_v[i as int]);
            assert(tail.skip(1) =~= sorted_v.skip(i + 1));
        }
        let unit = mount_unit_filename(sorted[i].subvol.mount());
        out.push(cmd2("systemctl", "enable", unit.as_str()));
        proof {
            assert(cmd_views(prev) + (seq![
                CmdView {
                    program: "systemctl"@,
                    args: seq!["enable"@, spec_mount_unit_filename(tail[0].subvol.spec_mount())],
                },
            ] + spec_enable_backup_cmds(sorted_v.skip(i + 1))) =~= cmd_views(out@)
                + spec_enable_backup_cmds(sorted_v.skip(i + 1)));
        }
        i += 1;
    }
    proof {
        assert(sorted_v.skip(sorted_v.len() as int) =~= Seq::<BackupEntryView>::empty());
        assert(cmd_views(out@) + Seq::<CmdView>::empty() =~= cmd_views(out@));
        assert(cmd_views(out@) == m1 + spec_enable_backup_cmds(sorted_v));
    }

    let ghost m2 = cmd_views(out@);
    let ghost tv = cv.subvolumes.transfer;
    let mut k: usize = 0;
    proof {
        assert(tv.skip(0) =~= tv);
        assert(m2 + spec_enable_transfer_cmds(tv) =~= cmd_views(out@) + spec_enable_transfer_cmds(
            tv.skip(0),
        ));
    }
    while k < config.subvolumes.transfer.len()
        invariant
            cv == config@,
            tv == cv.subvolumes.transfer,
            config.subvolumes.transfer@.len() == tv.len(),
            k <= tv.len(),
            m2 + spec_enable_transfer_cmds(tv) == cmd_views(out@) + spec_enable_transfer_cmds(
                tv.skip(k as int),
            ),
        decreases tv.len() - k,
    {
        let ghost prev = out@;
        let ghost tail = tv.skip(k as int);
        proof {
            assert(config.subvolumes.transfer@[k as int]@ == tv[k as int]);
            assert(tail[0] == tv[k as int]);
            assert(tail.skip(1) =~= tv.skip(k + 1));
        }
        let unit = mount_unit_filename(config.subvolumes.transfer[k].subvol.mount.as_str());
        out.push(cmd2("systemctl", "enable", unit.as_str()));
        proof {
            assert(cmd_views(prev) + (seq![
                CmdView {
                    program: "systemctl"@,
                    args: seq!["enable"@, spec_mount_unit_filename(tail[0].subvol.mount)],
                },
            ] + spec_enable_transfer_cmds(tv.skip(k + 1))) =~= cmd_views(out@)
                + spec_enable_transfer_cmds(tv.skip(k + 1)));
        }
        k += 1;
    }
    proof {
        assert(tv.skip(tv.len() as int) =~= Seq::<TransferEntryView>::empty());
        assert(cmd_views(out@) + Seq::<CmdView>::empty() =~= cmd_views(out@));
        assert(cmd_views(out@) == m2 + spec_enable_transfer_cmds(tv));
    }

    out.push(cmd2("systemctl", "enable", "btrbk.timer"));
    proof {
        assert(cmd_views(out@) =~= spec_enable_cmds(cv));
    }
    out
}

/// The snapshot-policy files and the command that validates the policy
/// configuration before anything is installed.
pub struct PolicyFiles {
    /// The policy configuration.
    pub conf: String,
    /// The service that runs the policy tool once.
    pub service: String,
    /// The timer with the configured schedule.
    pub timer: String,
    /// The syntax check that must pass before the files are activated.
    pub validate: Cmd,
}

/// Generate the snapshot-policy files and their validation command.
pub fn generate_btrbk_config(config: &Config) -> (r: PolicyFiles)
    ensures
        r.conf@ == crate::btrbk::spec_btrbk_config(config@),
        r.service@ == crate::btrbk::spec_btrbk_service(),
        r.timer@ == crate::btrbk::spec_btrbk_timer(config@.btrbk.timer_schedule),
        r.validate@.program == "btrbk"@,
        r.validate@.args == seq!["-c"@, "/etc/btrbk/btrbk.conf"@, "dryrun"@],
{
    let conf = crate::btrbk::generate_config(config);
    let service = crate::btrbk::generate_service(config);
    let timer = crate::btrbk::generate_timer(config.btrbk.timer_schedule.as_str());
    let mut args: Vec<String> = Vec::new();
    push_arg(&mut args, "-c");
    push_arg(&mut args, "/etc/btrbk/btrbk.conf");
    push_arg(&mut args, "dryrun");
    proof {
        assert(views_of(args@) =~= seq!["-c"@, "/etc/btrbk/btrbk.conf"@, "dryrun"@]);
    }
    PolicyFiles {
        conf,
        service,
        timer,
        validate: Cmd { program: String::from_str("btrbk"), args },
    }
}

/// Decision of the binary-install step: nothing to do when the running
/// executable already is the installed one.
pub enum InstallDecision {
    /// The binary already runs from its well-known location.
    AlreadyInstalled,
    /// Copy the running binary to the well-known location.
    Install,
}

/// Decide the binary-install step from the running executable's path.
pub fn install_binary(current_path: &str) -> (r: InstallDecision)
    ensures
        current_path@ == "/usr/local/bin/wslarc"@ ==> r is AlreadyInstalled,
        current_path@ != "/usr/local/bin/wslarc"@ ==> r is Install,
{
    if str_eq(current_path, "/usr/local/bin/wslarc") {
        InstallDecision::AlreadyInstalled
    } else {
        InstallDecision::Install
    }
}

/// The boot command registered with the host's boot mechanism.
pub fn attach_command() -> (r: String)
    ensures
        r@ == "/usr/local/bin/wslarc attach"@,
{
    String::from_str("/usr/local/bin/wslarc attach")
}

/// Decision on the boot-time activation command.
pub enum BootCommandDecision {
    /// The boot configuration already carries the command: nothing to do.
    AlreadyConfigured,
    /// It carries a different command: overwriting is explicit and warned.
    Overwrite,
    /// It carries none: install it.
    Install,
}

/// Decide what to do with the boot configuration's command entry, from the
/// entry it currently holds.
pub fn update_wsl_conf(existing: Option<&str>) -> (r: BootCommandDecision)
    ensures
        match existing {
            Some(cmd) => (cmd@ == "/usr/local/bin/wslarc attach"@ ==> r is AlreadyConfigured) && (
            cmd@ != "/usr/local/bin/wslarc attach"@ ==> r is Overwrite),
            None => r is Install,
        },
{
    match existing {
        Some(cmd) => {
            if str_eq(cmd, "/usr/local/bin/wslarc attach") {
                BootCommandDecision::AlreadyConfigured
            } else {
                BootCommandDecision::Overwrite
            }
        },
        None => BootCommandDecision::Install,
    }
}

/// The artifacts of the secondary-root sync step.
pub struct Ext4SyncFiles {
    /// The filename of the secondary root's mount unit.
    pub unit_name: String,
    /// The body of that unit.
    pub unit_body: String,
    /// The package-manager hook.
    pub hook: String,
}

/// Generate the secondary-root sync artifacts from the probed root UUID.
pub fn setup_ext4_sync(config: &Config, ext4_uuid: &str) -> (r: Ext4SyncFiles)
    ensures
        r.unit_name@ == crate::ext4_sync::spec_ext4_mount_unit_filename(config@),
        r.unit_body@ == crate::ext4_sync::spec_ext4_mount(config@, ext4_uuid@),
        r.hook@ == crate::ext4_sync::spec_pacman_hook(),
{
    Ext4SyncFiles {
        unit_name: crate::ext4_sync::ext4_mount_unit_filename(config),
        unit_body: crate::ext4_sync::generate_ext4_mount(config, ext4_uuid),
        hook: crate::ext4_sync::generate_pacman_hook(),
    }
}

} // verus!
