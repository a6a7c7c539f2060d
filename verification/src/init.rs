//! The decision core of the provisioning workflow: each step's idempotency
//! check and the external mutation it calls for, as pure functions from the
//! configuration and the observed external state. A thin driver performs
//! the probes and the mutations in the fixed step order.
use vstd::prelude::*;

use crate::command::{push_arg, Cmd};
use crate::config::{Config, ConfigView};
use crate::strkit::{
    contains_str, has_occurrence, spec_split_ws, spec_trim, split_whitespace, str_eq, trim,
    views_of,
};

verus! {

broadcast use crate::strkit::lemma_views_push, crate::strkit::lemma_views_empty;

/// Join two path fragments with the separator.
pub fn join_path(a: &str, b: &str) -> (r: String)
    ensures
        r@ == a@ + "/"@ + b@,
{
    let mut r = String::from_str(a);
    r.append("/");
    r.append(b);
    r
}

/// Decision of the account step: nothing to do when the account exists,
/// else create it with the configured options.
pub fn ensure_user(config: &Config, user_exists: bool) -> (r: Option<Cmd>)
    ensures
        user_exists ==> r is None,
        !user_exists ==> (r matches Some(cmd) && cmd@.program == "useradd"@ && cmd@.args
            == spec_split_ws(config@.user.options).push(config@.user.name)),
{
    if user_exists {
        None
    } else {
        let mut args = split_whitespace(config.user.options.as_str());
        args.push(config.user.name.clone());
        proof {
            assert(views_of(args@) =~= spec_split_ws(config@.user.options).push(
                config@.user.name,
            ));
        }
        Some(Cmd { program: String::from_str("useradd"), args })
    }
}

/// Decision of the formatting step.
pub enum FormatDecision {
    /// The device already carries the expected filesystem and label.
    AlreadyFormatted,
    /// The device carries the filesystem under another label: a hazardous
    /// state that must not be acted on without explicit confirmation.
    LabelMismatch { current: String },
    /// The device carries no such filesystem: format it.
    Format(Cmd),
}

/// Decide the formatting step from the probed filesystem type and label.
///
/// A device that is already the target filesystem is never formatted,
/// whatever its label: a mismatched label is surfaced as a hazard instead
/// of a mutation, so no write reaches the device on that branch.
pub fn format_btrfs(config: &Config, fstype: &str, current_label: &str, device: &str) -> (r:
    FormatDecision)
    ensures
        spec_trim(fstype@) == "btrfs"@ && spec_trim(current_label@) == config@.vhdx.label
            ==> r is AlreadyFormatted,
        spec_trim(fstype@) == "btrfs"@ && spec_trim(current_label@) != config@.vhdx.label ==> (
        r matches FormatDecision::LabelMismatch { current } && current@ == spec_trim(
            current_label@,
        )),
        spec_trim(fstype@) == "btrfs"@ ==> !(r is Format),
        spec_trim(fstype@) != "btrfs"@ ==> (r matches FormatDecision::Format(cmd) && cmd@.program
            == "mkfs.btrfs"@ && cmd@.args == seq!["-L"@, config@.vhdx.label, device@]),
{
    let ft = trim(fstype);
    if str_eq(ft.as_str(), "btrfs") {
        let cl = trim(current_label);
        if str_eq(cl.as_str(), config.vhdx.label.as_str()) {
            FormatDecision::AlreadyFormatted
        } else {
            FormatDecision::LabelMismatch { current: cl }
        }
    } else {
        let mut args: Vec<String> = Vec::new();
        push_arg(&mut args, "-L");
        args.push(config.vhdx.label.clone());
        push_arg(&mut args, device);
        proof {
            assert(views_of(args@) =~= seq!["-L"@, config@.vhdx.label, device@]);
        }
        FormatDecision::Format(Cmd { program: String::from_str("mkfs.btrfs"), args })
    }
}

/// The outcome of the label-mismatch confirmation gate.
pub enum MismatchOutcome {
    /// The operator explicitly accepted the hazard: use the device as it
    /// stands, still without reformatting it.
    Proceed,
    /// The operator declined: abort, with no write to the device.
    Abort,
}

/// Resolve the label-mismatch hazard from the operator's answer: declining
/// aborts the sequence.
pub fn resolve_label_mismatch(confirmed: bool) -> (r: MismatchOutcome)
    ensures
        confirmed ==> r is Proceed,
        !confirmed ==> r is Abort,
{
    if confirmed {
        MismatchOutcome::Proceed
    } else {
        MismatchOutcome::Abort
    }
}

/// Extract the filesystem UUID from the probe's output: the trimmed text,
/// which must be nonempty.
pub fn get_uuid(output: &str) -> (r: Result<String, crate::Error>)
    ensures
        spec_trim(output@).len() == 0 ==> r == Result::<String, crate::Error>::Err(
            crate::Error::UuidNotFound,
        ),
        spec_trim(output@).len() > 0 ==> (r matches Ok(u) && u@ == spec_trim(output@)),
{
    let t = trim(output);
    if t.as_str().is_empty() {
        Err(crate::Error::UuidNotFound)
    } else {
        Ok(t)
    }
}

/// The volume source path in the form the host's mount tool expects:
/// forward slashes replaced by backslashes.
pub fn normalize_vhdx_path(path: &str) -> (r: String)
    ensures
        r@ == crate::strkit::spec_replace(path@, "/"@, "\\"@),
{
    proof {
        reveal_strlit("/");
    }
    crate::strkit::replace_token(path, "/", "\\")
}

/// The device, if any, that a block-device listing of `NAME LABEL` lines
/// shows under `label`: the first matching line's name, under `/dev/`.
pub open spec fn spec_find_device(lines: Seq<Seq<char>>, label: Seq<char>) -> Option<Seq<char>>
    decreases lines.len(),
{
    if lines.len() == 0 {
        None
    } else {
        let parts = spec_split_ws(lines[0]);
        if parts.len() >= 2 && parts[1] == label {
            Some("/dev/"@ + parts[0])
        } else {
            spec_find_device(lines.skip(1), label)
        }
    }
}

proof fn lemma_find_device_skip(lines: Seq<Seq<char>>, label: Seq<char>, i: int)
    requires
        0 <= i <= lines.len(),
        forall|k: int|
            0 <= k < i ==> !(spec_split_ws(#[trigger] lines[k]).len() >= 2 && spec_split_ws(
                lines[k],
            )[1] == label),
    ensures
        spec_find_device(lines, label) == spec_find_device(lines.skip(i), label),
    decreases i,
{
    if i == 0 {
        assert(lines.skip(0) =~= lines);
    } else {
        assert forall|k: int| 0 <= k < i - 1 implies !(spec_split_ws(
            #[trigger] lines.skip(1)[k],
        ).len() >= 2 && spec_split_ws(lines.skip(1)[k])[1] == label) by {
            assert(lines.skip(1)[k] == lines[k + 1]);
        }
        lemma_find_device_skip(lines.skip(1), label, i - 1);
        assert(lines.skip(1).skip(i - 1) =~= lines.skip(i));
    }
}

/// Find the device that already carries the given label, if any.
pub fn find_device_by_label(lsblk_output: &str, label: &str) -> (r: Option<String>)
    ensures
        match r {
            Some(d) => spec_find_device(crate::strkit::spec_split_lines(lsblk_output@), label@)
                == Some(d@),
            None => spec_find_device(crate::strkit::spec_split_lines(lsblk_output@), label@)
                is None,
        },
{
    let lines = crate::strkit::split_lines(lsblk_output);
    let ghost lv = crate::strkit::spec_split_lines(lsblk_output@);
    let mut i: usize = 0;
    while i < lines.len()
        invariant
            lv == crate::strkit::spec_split_lines(lsblk_output@),
            views_of(lines@) == lv,
            lines@.len() == lv.len(),
            i <= lv.len(),
            forall|k: int|
                0 <= k < i ==> !(spec_split_ws(#[trigger] lv[k]).len() >= 2 && spec_split_ws(
                    lv[k],
                )[1] == label@),
        decreases lines@.len() - i,
    {
        let parts = split_whitespace(lines[i].as_str());
        proof {
            assert(lines@[i as int]@ == lv[i as int]);
        }
        if parts.len() >= 2 && str_eq(parts[1].as_str(), label) {
            proof {
                lemma_find_device_skip(lv, label@, i as int);
                assert(lv.skip(i as int)[0] == lv[i as int]);
                assert(parts@[1]@ == spec_split_ws(lv[i as int])[1]);
                assert(parts@[0]@ == spec_split_ws(lv[i as int])[0]);
            }
            let mut d = String::from_str("/dev/");
            d.append(parts[0].as_str());
            proof {
                assert(d@ == "/dev/"@ + spec_split_ws(lv[i as int])[0]);
                assert(spec_find_device(lv.skip(i as int), label@) == Some(d@));
                assert(spec_find_device(lv, label@) == Some(d@));
                assert(spec_find_device(
                    crate::strkit::spec_split_lines(lsblk_output@),
                    label@,
                ) == Some(d@));
            }
            return Some(d);
        }
        proof {
            assert(!(spec_split_ws(lv[i as int]).len() >= 2 && spec_split_ws(lv[i as int])[1]
                == label@)) by {
                if spec_split_ws(lv[i as int]).len() >= 2 {
                    assert(parts@[1]@ == spec_split_ws(lv[i as int])[1]);
                }
            }
        }
        i += 1;
    }
    proof {
        lemma_find_device_skip(lv, label@, lv.len() as int);
        assert(lv.skip(lv.len() as int) =~= Seq::<Seq<char>>::empty());
    }
    None
}

/// A line equal to `l` occurs in `lines`.
pub open spec fn line_in(lines: Seq<Seq<char>>, l: Seq<char>) -> bool {
    exists|i: int| 0 <= i < lines.len() && #[trigger] lines[i] == l
}

/// The first line of the later listing that the earlier one lacks: the
/// device that appeared.
pub open spec fn spec_find_new_line(before: Seq<Seq<char>>, after: Seq<Seq<char>>) -> Option<
    Seq<char>,
>
    decreases after.len(),
{
    if after.len() == 0 {
        None
    } else if !line_in(before, after[0]) {
        Some(after[0])
    } else {
        spec_find_new_line(before, after.skip(1))
    }
}

proof fn lemma_find_new_line_skip(before: Seq<Seq<char>>, after: Seq<Seq<char>>, i: int)
    requires
        0 <= i <= after.len(),
        forall|k: int| 0 <= k < i ==> line_in(before, #[trigger] after[k]),
    ensures
        spec_find_new_line(before, after) == spec_find_new_line(before, after.skip(i)),
    decreases i,
{
    if i == 0 {
        assert(after.skip(0) =~= after);
    } else {
        assert forall|k: int| 0 <= k < i - 1 implies line_in(
            before,
            #[trigger] after.skip(1)[k],
        ) by {
            assert(after.skip(1)[k] == after[k + 1]);
        }
        lemma_find_new_line_skip(before, after.skip(1), i - 1);
        assert(after.skip(1).skip(i - 1) =~= after.skip(i));
    }
}

/// Find the device name that the later listing shows and the earlier one
/// does not.
pub fn find_new_device(before_output: &str, after_output: &str) -> (r: Option<String>)
    ensures
        match r {
            Some(d) => spec_find_new_line(
                crate::strkit::spec_split_lines(before_output@),
                crate::strkit::spec_split_lines(after_output@),
            ) == Some(d@),
            None => spec_find_new_line(
                crate::strkit::spec_split_lines(before_output@),
                crate::strkit::spec_split_lines(after_output@),
            ) is None,
        },
{
    let before = crate::strkit::split_lines(before_output);
    let after = crate::strkit::split_lines(after_output);
    let ghost bv = crate::strkit::spec_split_lines(before_output@);
    let ghost av = crate::strkit::spec_split_lines(after_output@);
    let mut i: usize = 0;
    while i < after.len()
        invariant
            bv == crate::strkit::spec_split_lines(before_output@),
            av == crate::strkit::spec_split_lines(after_output@),
            views_of(before@) == bv,
            views_of(after@) == av,
            before@.len() == bv.len(),
            after@.len() == av.len(),
            i <= av.len(),
            forall|k: int| 0 <= k < i ==> line_in(bv, #[trigger] av[k]),
        decreases after@.len() - i,
    {
        let mut found = false;
        let mut j: usize = 0;
        while j < before.len()
            invariant
                views_of(before@) == bv,
                before@.len() == bv.len(),
                after@.len() == av.len(),
                i < av.len(),
                views_of(after@) == av,
                j <= bv.len(),
                found ==> line_in(bv, av[i as int]),
                !found ==> forall|k: int| 0 <= k < j ==> #[trigger] bv[k] != av[i as int],
            decreases bv.len() - j,
        {
            if str_eq(before[j].as_str(), after[i].as_str()) {
                proof {
                    assert(before@[j as int]@ == bv[j as int]);
                    assert(after@[i as int]@ == av[i as int]);
                }
                found = true;
            }
            j += 1;
        }
        if !found {
            proof {
                assert(!line_in(bv, av[i as int])) by {
                    if line_in(bv, av[i as int]) {
                        let k = choose|k: int| 0 <= k < bv.len() && bv[k] == av[i as int];
                        assert(bv[k] != av[i as int]);
                    }
                }
                lemma_find_new_line_skip(bv, av, i as int);
                assert(av.skip(i as int)[0] == av[i as int]);
                assert(after@[i as int]@ == av[i as int]);
                assert(spec_find_new_line(bv, av.skip(i as int)) == Some(av[i as int]));
            }
            return Some(after[i].clone());
        }
        i += 1;
    }
    proof {
        lemma_find_new_line_skip(bv, av, av.len() as int);
        assert(av.skip(av.len() as int) =~= Seq::<Seq<char>>::empty());
    }
    None
}

/// A mount point appears mounted in the mount listing: it is preceded by
/// a space and followed by a space or by the end of a line.
pub open spec fn spec_mounted_at(mount_point: Seq<char>, mounts: Seq<char>) -> bool {
    has_occurrence(mounts, " "@ + mount_point + " "@) || has_occurrence(
        mounts,
        " "@ + mount_point + "\n"@,
    )
}

/// Check the mount listing for a mount point.
pub fn mounted_at(mount_point: &str, mounts_output: &str) -> (r: bool)
    ensures
        r == spec_mounted_at(mount_point@, mounts_output@),
{
    let mut pat_mid = String::from_str(" ");
    pat_mid.append(mount_point);
    pat_mid.append(" ");
    let mut pat_end = String::from_str(" ");
    pat_end.append(mount_point);
    pat_end.append("\n");
    proof {
        reveal_strlit(" ");
    }
    contains_str(mounts_output, pat_mid.as_str()) || contains_str(
        mounts_output,
        pat_end.as_str(),
    )
}

/// The base volume appears mounted in the mount listing.
pub open spec fn spec_base_mounted(c: ConfigView, mounts: Seq<char>) -> bool {
    spec_mounted_at(c.mount.base, mounts)
}

/// Decision of the base-mount step: nothing to do when the base volume is
/// already mounted, else mount it with the configured options.
pub fn mount_base(config: &Config, device: &str, mounts_output: &str) -> (r: Option<Cmd>)
    ensures
        spec_base_mounted(config@, mounts_output@) ==> r is None,
        !spec_base_mounted(config@, mounts_output@) ==> (r matches Some(cmd) && cmd@.program
            == "mount"@ && cmd@.args == seq![
            "-o"@,
            config@.mount.options,
            device@,
            config@.mount.base,
        ]),
{
    if mounted_at(config.mount.base.as_str(), mounts_output) {
        None
    } else {
        let mut args: Vec<String> = Vec::new();
        push_arg(&mut args, "-o");
        args.push(config.mount.options.clone());
        push_arg(&mut args, device);
        args.push(config.mount.base.clone());
        proof {
            assert(views_of(args@) =~= seq![
                "-o"@,
                config@.mount.options,
                device@,
                config@.mount.base,
            ]);
        }
        Some(Cmd { program: String::from_str("mount"), args })
    }
}

/// Decision of one subvolume's creation: skip it when it already exists,
/// else create it under the setup mount point.
pub fn create_subvolume(mount_point: &str, name: &str, exists: bool) -> (r: Option<Cmd>)
    ensures
        exists ==> r is None,
        !exists ==> (r matches Some(cmd) && cmd@.program == "btrfs"@ && cmd@.args == seq![
            "subvolume"@,
            "create"@,
            mount_point@ + "/"@ + name@,
        ]),
{
    if exists {
        None
    } else {
        let path = join_path(mount_point, name);
        let mut args: Vec<String> = Vec::new();
        push_arg(&mut args, "subvolume");
        push_arg(&mut args, "create");
        args.push(path);
        proof {
            assert(views_of(args@) =~= seq!["subvolume"@, "create"@, mount_point@ + "/"@ + name@]);
        }
        Some(Cmd { program: String::from_str("btrfs"), args })
    }
}

/// One step of the subvolume provisioning plan. The driver performs each
/// step in order: an `EnsureSubvolume` is created only if missing, a
/// `CopyIfEmpty` goes through [`copy_if_empty`], the rest run directly.
pub enum ProvisionStep {
    /// Create the named subvolume under the setup mount point, unless it
    /// already exists.
    EnsureSubvolume { name: String },
    /// Copy the live `source` directory into the named subvolume if the
    /// subvolume is empty.
    CopyIfEmpty { subvol: String, source: String },
    /// Hand the path to the target account.
    Chown { owner: String, path: String, recursive: bool },
    /// Disable copy-on-write on the path.
    SetNoCow { path: String },
}

#[verifier::ext_equal]
pub ghost enum ProvisionStepView {
    EnsureSubvolume { name: Seq<char> },
    CopyIfEmpty { subvol: Seq<char>, source: Seq<char> },
    Chown { owner: Seq<char>, path: Seq<char>, recursive: bool },
    SetNoCow { path: Seq<char> },
}

impl View for ProvisionStep {
    type V = ProvisionStepView;

    open spec fn view(&self) -> ProvisionStepView {
        match self {
            ProvisionStep::EnsureSubvolume { name } => ProvisionStepView::EnsureSubvolume {
                name: name@,
            },
            ProvisionStep::CopyIfEmpty { subvol, source } => ProvisionStepView::CopyIfEmpty {
                subvol: subvol@,
                source: source@,
            },
            ProvisionStep::Chown { owner, path, recursive } => ProvisionStepView::Chown {
                owner: owner@,
                path: path@,
                recursive: *recursive,
            },
            ProvisionStep::SetNoCow { path } => ProvisionStepView::SetNoCow { path: path@ },
        }
    }
}

/// The views of a vector of provisioning steps.
pub open spec fn step_views(v: Seq<ProvisionStep>) -> Seq<ProvisionStepView> {
    Seq::new(v.len(), |i: int| v[i]@)
}

proof fn lemma_step_views_push(v: Seq<ProvisionStep>, s: ProvisionStep)
    ensures
        step_views(v.push(s)) == step_views(v).push(s@),
{
    assert forall|idx: int| 0 <= idx < v.push(s).len() implies step_views(v.push(s))[idx]
        == step_views(v).push(s@)[idx] by {
        if idx < v.len() {
            assert(v.push(s)[idx] == v[idx]);
        } else {
            assert(v.push(s)[idx] == s);
        }
    }
    assert(step_views(v.push(s)) =~= step_views(v).push(s@));
}

/// The `owner:owner` argument of a chown.
pub open spec fn spec_owner(user: Seq<char>) -> Seq<char> {
    user + ":"@ + user
}

fn owner_string(user: &str) -> (r: String)
    ensures
        r@ == spec_owner(user@),
{
    let mut r = String::from_str(user);
    r.append(":");
    r.append(user);
    r
}

/// One creation step per backup entry, in order.
pub open spec fn spec_ensure_steps(s: Seq<crate::config::BackupEntryView>) -> Seq<
    ProvisionStepView,
>
    decreases s.len(),
{
    if s.len() == 0 {
        Seq::<ProvisionStepView>::empty()
    } else {
        seq![ProvisionStepView::EnsureSubvolume { name: s[0].name }] + spec_ensure_steps(s.skip(1))
    }
}

/// Per nested exclusion: create it, then hand it to the target account.
pub open spec fn spec_exclude_steps(
    parent: Seq<char>,
    paths: Seq<Seq<char>>,
    user: Seq<char>,
    mp: Seq<char>,
) -> Seq<ProvisionStepView>
    decreases paths.len(),
{
    if paths.len() == 0 {
        Seq::<ProvisionStepView>::empty()
    } else {
        seq![
            ProvisionStepView::EnsureSubvolume { name: parent + "/"@ + paths[0] },
            ProvisionStepView::Chown {
                owner: spec_owner(user),
                path: mp + "/"@ + (parent + "/"@ + paths[0]),
                recursive: false,
            },
        ] + spec_exclude_steps(parent, paths.skip(1), user, mp)
    }
}

/// Per transfer entry: create it, and hand it to the target account when
/// its mount target lies in the account's home directory.
pub open spec fn spec_transfer_steps(
    t: Seq<crate::config::TransferEntryView>,
    user: Seq<char>,
    mp: Seq<char>,
) -> Seq<ProvisionStepView>
    decreases t.len(),
{
    if t.len() == 0 {
        Seq::<ProvisionStepView>::empty()
    } else {
        (seq![ProvisionStepView::EnsureSubvolume { name: t[0].name }] + (if has_occurrence(
            t[0].subvol.mount,
            crate::systemd::spec_home_path(user),
        ) {
            seq![
                ProvisionStepView::Chown {
                    owner: spec_owner(user),
                    path: mp + "/"@ + t[0].name,
                    recursive: true,
                },
            ]
        } else {
            Seq::<ProvisionStepView>::empty()
        })) + spec_transfer_steps(t.skip(1), user, mp)
    }
}

/// One copy-on-write switch per transfer entry that asks for it.
pub open spec fn spec_nocow_steps(
    t: Seq<crate::config::TransferEntryView>,
    mp: Seq<char>,
) -> Seq<ProvisionStepView>
    decreases t.len(),
{
    if t.len() == 0 {
        Seq::<ProvisionStepView>::empty()
    } else {
        (if t[0].subvol.nodatacow {
            seq![ProvisionStepView::SetNoCow { path: mp + "/"@ + t[0].name }]
        } else {
            Seq::<ProvisionStepView>::empty()
        }) + spec_nocow_steps(t.skip(1), mp)
    }
}

/// The bootstrap copies into the freshly created system subvolumes.
pub open spec fn spec_bootstrap_copies() -> Seq<ProvisionStepView> {
    seq![
        ProvisionStepView::CopyIfEmpty { subvol: "@etc"@, source: "/etc"@ },
        ProvisionStepView::CopyIfEmpty { subvol: "@usr"@, source: "/usr"@ },
        ProvisionStepView::CopyIfEmpty { subvol: "@opt"@, source: "/opt"@ },
        ProvisionStepView::CopyIfEmpty { subvol: "@var_lib_pacman"@, source: "/var/lib/pacman"@ },
    ]
}

/// The whole provisioning plan: the Backup class in classifier order, the
/// snapshot-only subvolume, the bootstrap copies, the nested exclusions
/// with their ownership, the exclusion parent's ownership, the Transfer
/// class with its ownership, the copy-on-write switches, and the snapshot
/// directory.
pub open spec fn spec_provision_plan(c: ConfigView, mp: Seq<char>) -> Seq<ProvisionStepView> {
    let sorted = crate::classify::spec_sort_backup(c.subvolumes.backup);
    let parent = c.subvolumes.exclude.parent;
    let user = c.user.name;
    spec_ensure_steps(sorted) + seq![
        ProvisionStepView::EnsureSubvolume { name: crate::config::snapshot_only_name() },
    ] + spec_bootstrap_copies() + spec_exclude_steps(
        parent,
        c.subvolumes.exclude.paths,
        user,
        mp,
    ) + seq![
        ProvisionStepView::Chown {
            owner: spec_owner(user),
            path: mp + "/"@ + parent,
            recursive: false,
        },
    ] + spec_transfer_steps(c.subvolumes.transfer, user, mp) + spec_nocow_steps(
        c.subvolumes.transfer,
        mp,
    ) + seq![ProvisionStepView::EnsureSubvolume { name: c.btrbk.snapshot_dir }]
}

/// Compute the ordered provisioning plan for every subvolume of the
/// configuration. Each step is individually idempotent in the driver's
/// hands, so repeating the plan after partial completion converges.
pub fn create_all_subvolumes(config: &Config, mount_point: &str) -> (r: Vec<ProvisionStep>)
    ensures
        step_views(r@) == spec_provision_plan(config@, mount_point@),
{
    let ghost cv = config@;
    let ghost mpv = mount_point@;
    let mut out: Vec<ProvisionStep> = Vec::new();
    let user = config.get_user();
    let owner = owner_string(user.as_str());

    // Backup class, in classifier order
    let sorted = crate::classify::sort_backup(&config.subvolumes.backup);
    let ghost sorted_v = crate::classify::spec_sort_backup(cv.subvolumes.backup);
    let mut i: usize = 0;
    proof {
        assert(sorted_v.skip(0) =~= sorted_v);
        assert(step_views(out@) =~= Seq::<ProvisionStepView>::empty());
        assert(Seq::<ProvisionStepView>::empty() + spec_ensure_steps(sorted_v) =~= step_views(out@)
            + spec_ensure_steps(sorted_v.skip(0)));
    }
    while i < sorted.len()
        invariant
            crate::classify::backup_views(sorted@) == sorted_v,
            sorted@.len() == sorted_v.len(),
            i <= sorted_v.len(),
            spec_ensure_steps(sorted_v) == step_views(out@) + spec_ensure_steps(
                sorted_v.skip(i as int),
            ),
        decreases sorted@.len() - i,
    {
        let ghost prev = out@;
        let ghost tail = sorted_v.skip(i as int);
        let s = ProvisionStep::EnsureSubvolume { name: sorted[i].name.clone() };
        proof {
            assert(sorted@[i as int]@ == sorted_v[i as int]);
            assert(s@ == (ProvisionStepView::EnsureSubvolume { name: tail[0].name }));
        }
        out.push(s);
        proof {
            lemma_step_views_push(prev, ProvisionStep::EnsureSubvolume {
                name: sorted@[i as int].name,
            });
            assert(tail.skip(1) =~= sorted_v.skip(i + 1));
            assert(step_views(prev) + spec_ensure_steps(tail) =~= step_views(out@)
                + spec_ensure_steps(sorted_v.skip(i + 1)));
        }
        i += 1;
    }
    proof {
        assert(sorted_v.skip(sorted_v.len() as int) =~= Seq::<crate::config::BackupEntryView>::empty());
        assert(step_views(out@) + Seq::<ProvisionStepView>::empty() =~= step_views(out@));
        assert(step_views(out@) == spec_ensure_steps(sorted_v));
    }

    // the snapshot-only subvolume, then the bootstrap copies
    let ghost m1 = step_views(out@);
    out.push(ProvisionStep::EnsureSubvolume { name: String::from_str("@etc") });
    out.push(
        ProvisionStep::CopyIfEmpty {
            subvol: String::from_str("@etc"),
            source: String::from_str("/etc"),
        },
    );
    out.push(
        ProvisionStep::CopyIfEmpty {
            subvol: String::from_str("@usr"),
            source: String::from_str("/usr"),
        },
    );
    out.push(
        ProvisionStep::CopyIfEmpty {
            subvol: String::from_str("@opt"),
            source: String::from_str("/opt"),
        },
    );
    out.push(
        ProvisionStep::CopyIfEmpty {
            subvol: String::from_str("@var_lib_pacman"),
            source: String::from_str("/var/lib/pacman"),
        },
    );
    let ghost m2 = m1 + seq![
        ProvisionStepView::EnsureSubvolume { name: crate::config::snapshot_only_name() },
    ] + spec_bootstrap_copies();
    proof {
        assert(step_views(out@) =~= m2);
    }

    // nested exclusions, each handed to the target account
    let ghost paths_v = cv.subvolumes.exclude.paths;
    let mut j: usize = 0;
    proof {
        assert(paths_v.skip(0) =~= paths_v);
        assert(m2 + spec_exclude_steps(cv.subvolumes.exclude.parent, paths_v, cv.user.name, mpv)
            =~= step_views(out@) + spec_exclude_steps(
            cv.subvolumes.exclude.parent,
            paths_v.skip(0),
            cv.user.name,
            mpv,
        ));
    }
    while j < config.subvolumes.exclude.paths.len()
        invariant
            cv == config@,
            mpv == mount_point@,
            user@ == cv.user.name,
            owner@ == spec_owner(cv.user.name),
            paths_v == cv.subvolumes.exclude.paths,
            j <= paths_v.len(),
            config.subvolumes.exclude.paths@.len() == paths_v.len(),
            m2 + spec_exclude_steps(cv.subvolumes.exclude.parent, paths_v, cv.user.name, mpv)
                == step_views(out@) + spec_exclude_steps(
                cv.subvolumes.exclude.parent,
                paths_v.skip(j as int),
                cv.user.name,
                mpv,
            ),
        decreases paths_v.len() - j,
    {
        let ghost prev = out@;
        let ghost tail = paths_v.skip(j as int);
        let nested = join_path(
            config.subvolumes.exclude.parent.as_str(),
            config.subvolumes.exclude.paths[j].as_str(),
        );
        let nested_path = join_path(mount_point, nested.as_str());
        let s1 = ProvisionStep::EnsureSubvolume { name: nested };
        proof {
            assert(config.subvolumes.exclude.paths@[j as int]@ == paths_v[j as int]);
            assert(tail[0] == paths_v[j as int]);
        }
        let ghost s1v = s1@;
        out.push(s1);
        let ghost mid = out@;
        let s2 = ProvisionStep::Chown { owner: owner.clone(), path: nested_path, recursive: false };
        let ghost s2v = s2@;
        out.push(s2);
        proof {
            lemma_step_views_push(prev, mid[prev.len() as int]);
            lemma_step_views_push(mid, out@[mid.len() as int]);
            assert(tail.skip(1) =~= paths_v.skip(j + 1));
            assert(spec_exclude_steps(cv.subvolumes.exclude.parent, tail, cv.user.name, mpv)
                == seq![s1v, s2v] + spec_exclude_steps(
                cv.subvolumes.exclude.parent,
                paths_v.skip(j + 1),
                cv.user.name,
                mpv,
            ));
            assert(step_views(prev) + (seq![s1v, s2v] + spec_exclude_steps(
                cv.subvolumes.exclude.parent,
                paths_v.skip(j + 1),
                cv.user.name,
                mpv,
            )) =~= step_views(out@) + spec_exclude_steps(
                cv.subvolumes.exclude.parent,
                paths_v.skip(j + 1),
                cv.user.name,
                mpv,
            ));
        }
        j += 1;
    }
    proof {
        assert(paths_v.skip(paths_v.len() as int) =~= Seq::<Seq<char>>::empty());
        assert(step_views(out@) + Seq::<ProvisionStepView>::empty() =~= step_views(out@));
        assert(step_views(out@) == m2 + spec_exclude_steps(
            cv.subvolumes.exclude.parent,
            paths_v,
            cv.user.name,
            mpv,
        ));
    }

    // the exclusion parent itself belongs to the target account
    let parent_path = join_path(mount_point, config.subvolumes.exclude.parent.as_str());
    let ghost m3 = step_views(out@);
    out.push(ProvisionStep::Chown { owner: owner.clone(), path: parent_path, recursive: false });
    let ghost m4 = m3 + seq![
        ProvisionStepView::Chown {
            owner: spec_owner(cv.user.name),
            path: mpv + "/"@ + cv.subvolumes.exclude.parent,
            recursive: false,
        },
    ];
    proof {
        assert(step_views(out@) =~= m4);
    }

    // the Transfer class, with ownership where it lives in the home
    let ghost tv = cv.subvolumes.transfer;
    let home = crate::systemd::home_path(config);
    let mut k: usize = 0;
    proof {
        assert(tv.skip(0) =~= tv);
        assert(m4 + spec_transfer_steps(tv, cv.user.name, mpv) =~= step_views(out@)
            + spec_transfer_steps(tv.skip(0), cv.user.name, mpv));
    }
    while k < config.subvolumes.transfer.len()
        invariant
            cv == config@,
            mpv == mount_point@,
            user@ == cv.user.name,
            owner@ == spec_owner(cv.user.name),
            home@ == crate::systemd::spec_home_path(cv.user.name),
            tv == cv.subvolumes.transfer,
            k <= tv.len(),
            config.subvolumes.transfer@.len() == tv.len(),
            m4 + spec_transfer_steps(tv, cv.user.name, mpv) == step_views(out@)
                + spec_transfer_steps(tv.skip(k as int), cv.user.name, mpv),
        decreases tv.len() - k,
    {
        let ghost prev = out@;
        let ghost tail = tv.skip(k as int);
        let entry = &config.subvolumes.transfer[k];
        proof {
            assert(config.subvolumes.transfer@[k as int]@ == tv[k as int]);
            assert(tail[0] == tv[k as int]);
        }
        let s1 = ProvisionStep::EnsureSubvolume { name: entry.name.clone() };
        let ghost s1v = s1@;
        out.push(s1);
        proof {
            lemma_step_views_push(prev, out@[prev.len() as int]);
        }
        let ghost mid = out@;
        proof {
            reveal_strlit("/home/");
        }
        if contains_str(entry.subvol.mount.as_str(), home.as_str()) {
            let subvol_path = join_path(mount_point, entry.name.as_str());
            let s2 = ProvisionStep::Chown { owner: owner.clone(), path: subvol_path, recursive: true };
            let ghost s2v = s2@;
            out.push(s2);
            proof {
                lemma_step_views_push(mid, out@[mid.len() as int]);
                assert(spec_transfer_steps(tail, cv.user.name, mpv) == (seq![s1v] + seq![s2v])
                    + spec_transfer_steps(tv.skip(k + 1), cv.user.name, mpv)) by {
                    assert(tail.skip(1) =~= tv.skip(k + 1));
                    assert(seq![s1v] + seq![s2v] =~= seq![s1v, s2v]);
                }
                assert(step_views(prev) + ((seq![s1v] + seq![s2v]) + spec_transfer_steps(
                    tv.skip(k + 1),
                    cv.user.name,
                    mpv,
                )) =~= step_views(out@) + spec_transfer_steps(tv.skip(k + 1), cv.user.name, mpv));
            }
        } else {
            proof {
                assert(tail.skip(1) =~= tv.skip(k + 1));
                assert(spec_transfer_steps(tail, cv.user.name, mpv) == (seq![s1v] + Seq::<
                    ProvisionStepView,
                >::empty()) + spec_transfer_steps(tv.skip(k + 1), cv.user.name, mpv));
                assert(step_views(prev) + ((seq![s1v] + Seq::<ProvisionStepView>::empty())
                    + spec_transfer_steps(tv.skip(k + 1), cv.user.name, mpv)) =~= step_views(out@)
                    + spec_transfer_steps(tv.skip(k + 1), cv.user.name, mpv));
            }
        }
        k += 1;
    }
    proof {
        assert(tv.skip(tv.len() as int) =~= Seq::<crate::config::TransferEntryView>::empty());
        assert(step_views(out@) + Seq::<ProvisionStepView>::empty() =~= step_views(out@));
        assert(step_views(out@) == m4 + spec_transfer_steps(tv, cv.user.name, mpv));
    }

    // copy-on-write switches
    let ghost m5 = step_views(out@);
    let mut n: usize = 0;
    proof {
        assert(tv.skip(0) =~= tv);
        assert(m5 + spec_nocow_steps(tv, mpv) =~= step_views(out@) + spec_nocow_steps(
            tv.skip(0),
            mpv,
        ));
    }
    while n < config.subvolumes.transfer.len()
        invariant
            cv == config@,
            mpv == mount_point@,
            tv == cv.subvolumes.transfer,
            n <= tv.len(),
            config.subvolumes.transfer@.len() == tv.len(),
            m5 + spec_nocow_steps(tv, mpv) == step_views(out@) + spec_nocow_steps(
                tv.skip(n as int),
                mpv,
            ),
        decreases tv.len() - n,
    {
        let ghost prev = out@;
        let ghost tail = tv.skip(n as int);
        let entry = &config.subvolumes.transfer[n];
        proof {
            assert(config.subvolumes.transfer@[n as int]@ == tv[n as int]);
            assert(tail[0] == tv[n as int]);
            assert(tail.skip(1) =~= tv.skip(n + 1));
        }
        if entry.subvol.nodatacow {
            let path = join_path(mount_point, entry.name.as_str());
            let s = ProvisionStep::SetNoCow { path };
            let ghost sv = s@;
            out.push(s);
            proof {
                lemma_step_views_push(prev, out@[prev.len() as int]);
                assert(spec_nocow_steps(tail, mpv) == seq![sv] + spec_nocow_steps(
                    tv.skip(n + 1),
                    mpv,
                ));
                assert(step_views(prev) + (seq![sv] + spec_nocow_steps(tv.skip(n + 1), mpv))
                    =~= step_views(out@) + spec_nocow_steps(tv.skip(n + 1), mpv));
            }
        } else {
            proof {
                assert(spec_nocow_steps(tail, mpv) == Seq::<ProvisionStepView>::empty()
                    + spec_nocow_steps(tv.skip(n + 1), mpv));
                assert(step_views(prev) + (Seq::<ProvisionStepView>::empty() + spec_nocow_steps(
                    tv.skip(n + 1),
                    mpv,
                )) =~= step_views(out@) + spec_nocow_steps(tv.skip(n + 1), mpv));
            }
        }
        n += 1;
    }
    proof {
        assert(tv.skip(tv.len() as int) =~= Seq::<crate::config::TransferEntryView>::empty());
        assert(step_views(out@) + Seq::<ProvisionStepView>::empty() =~= step_views(out@));
        assert(step_views(out@) == m5 + spec_nocow_steps(tv, mpv));
    }

    // the snapshot directory
    let ghost m6 = step_views(out@);
    out.push(ProvisionStep::EnsureSubvolume { name: config.btrbk.snapshot_dir.clone() });
    proof {
        assert(step_views(out@) =~= m6 + seq![
            ProvisionStepView::EnsureSubvolume { name: cv.btrbk.snapshot_dir },
        ]);
        assert(step_views(out@) =~= spec_provision_plan(cv, mpv));
    }
    out
}

/// The key/value rows of the configuration summary shown before the
/// sequence runs: identity, mount root, account, and the class sizes;
/// the account-creation options only when any are set.
pub open spec fn spec_summary(c: ConfigView) -> Seq<(Seq<char>, Seq<char>)> {
    seq![
        ("VHDX"@, c.vhdx.path),
        ("Label"@, c.vhdx.label),
        ("Mount base"@, c.mount.base),
        ("User"@, c.user.name),
        (
            "Subvolumes"@,
            crate::strkit::spec_decimal(c.subvolumes.backup.len()) + " backup + "@
                + crate::strkit::spec_decimal(c.subvolumes.exclude.paths.len()) + " exclude + "@
                + crate::strkit::spec_decimal(c.subvolumes.transfer.len()) + " transfer"@,
        ),
    ] + (if c.user.options.len() > 0 {
        seq![("User options"@, c.user.options)]
    } else {
        Seq::<(Seq<char>, Seq<char>)>::empty()
    })
}

/// Collect the configuration summary rows.
pub fn show_summary(config: &Config) -> (r: Vec<(String, String)>)
    ensures
        crate::strkit::pair_views(r@) == spec_summary(config@),
{
    broadcast use crate::strkit::lemma_pair_views_push, crate::strkit::lemma_pair_views_empty;

    let mut out: Vec<(String, String)> = Vec::new();
    out.push((String::from_str("VHDX"), config.vhdx.path.clone()));
    out.push((String::from_str("Label"), config.vhdx.label.clone()));
    out.push((String::from_str("Mount base"), config.mount.base.clone()));
    out.push((String::from_str("User"), config.user.name.clone()));

    let mut counts = crate::strkit::decimal_string(config.subvolumes.backup.len() as u64);
    counts.append(" backup + ");
    let exclude_count = crate::strkit::decimal_string(
        config.subvolumes.exclude.paths.len() as u64,
    );
    counts.append(exclude_count.as_str());
    counts.append(" exclude + ");
    let transfer_count = crate::strkit::decimal_string(config.subvolumes.transfer.len() as u64);
    counts.append(transfer_count.as_str());
    counts.append(" transfer");
    out.push((String::from_str("Subvolumes"), counts));

    if !config.user.options.as_str().is_empty() {
        out.push((String::from_str("User options"), config.user.options.clone()));
        proof {
            assert(crate::strkit::pair_views(out@) =~= spec_summary(config@));
        }
    } else {
        proof {
            assert(crate::strkit::pair_views(out@) =~= spec_summary(config@));
        }
    }
    out
}

/// Decision of a bootstrap copy into a freshly created subvolume.
pub enum CopyDecision {
    /// The subvolume does not exist: nothing to copy into.
    SkipMissingTarget,
    /// The subvolume already has content: never copy into a non-empty one.
    SkipNotEmpty,
    /// The live source directory does not exist: nothing to copy from.
    SkipMissingSource,
    /// Copy the live content in, preserving permissions and attributes.
    Copy(Cmd),
}

/// Decide the bootstrap copy from the observed state of target and source:
/// content is copied only into an existing, empty subvolume from an
/// existing source.
pub fn copy_if_empty(
    mount_point: &str,
    subvol: &str,
    source: &str,
    target_exists: bool,
    target_empty: bool,
    source_exists: bool,
) -> (r: CopyDecision)
    ensures
        !target_exists ==> r is SkipMissingTarget,
        target_exists && !target_empty ==> r is SkipNotEmpty,
        target_exists && target_empty && !source_exists ==> r is SkipMissingSource,
        target_exists && target_empty && source_exists ==> (r matches CopyDecision::Copy(cmd)
            && cmd@.program == "rsync"@ && cmd@.args == seq![
            "-aAX"@,
            "--info=progress2"@,
            source@ + "/"@,
            (mount_point@ + "/"@ + subvol@) + "/"@,
        ]),
{
    if !target_exists {
        CopyDecision::SkipMissingTarget
    } else if !target_empty {
        CopyDecision::SkipNotEmpty
    } else if !source_exists {
        CopyDecision::SkipMissingSource
    } else {
        let mut src = String::from_str(source);
        src.append("/");
        let mut dst = join_path(mount_point, subvol);
        dst.append("/");
        let mut args: Vec<String> = Vec::new();
        push_arg(&mut args, "-aAX");
        push_arg(&mut args, "--info=progress2");
        args.push(src);
        args.push(dst);
        proof {
            assert(views_of(args@) =~= seq![
                "-aAX"@,
                "--info=progress2"@,
                source@ + "/"@,
                (mount_point@ + "/"@ + subvol@) + "/"@,
            ]);
        }
        CopyDecision::Copy(Cmd { program: String::from_str("rsync"), args })
    }
}

} // verus!
