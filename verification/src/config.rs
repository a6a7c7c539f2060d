//! The declarative configuration model: volume identity, mount root,
//! the three subvolume classes, snapshot policy and the secondary-root
//! sync point, together with account-name variable expansion.
use vstd::prelude::*;

use crate::strkit::{replace_token, spec_replace};

verus! {

/// Identity of the backing volume: its source path and filesystem label.
#[derive(Clone)]
pub struct VhdxConfig {
    /// Windows path to the VHDX file.
    pub path: String,
    /// Btrfs label.
    pub label: String,
}

/// The target account and the options used to create it.
#[derive(Clone)]
pub struct UserConfig {
    /// Target account name; paths may refer to it through `$USER`.
    pub name: String,
    /// Options handed to `useradd` when the account is created.
    pub options: String,
}

/// Where and how the base volume is mounted.
#[derive(Clone)]
pub struct MountConfig {
    /// Base mount point for the Btrfs volume.
    pub base: String,
    /// Default mount options.
    pub options: String,
}

/// A Backup-class subvolume: either just a mount target, or a mount target
/// with its own mount options.
#[derive(Clone)]
pub enum BackupSubvol {
    /// Simple form: just the mount target.
    Simple(String),
    /// Full form: mount target with options.
    Full { mount: String, options: Option<String> },
}

/// A named Backup-class entry.
#[derive(Clone)]
pub struct BackupEntry {
    pub name: String,
    pub subvol: BackupSubvol,
}

/// Paths carved out of a Backup-class subvolume into nested subvolumes of
/// their own, so that high-churn data stays out of its snapshots.
#[derive(Clone)]
pub struct ExcludeConfig {
    /// Parent subvolume of the nested exclusions.
    pub parent: String,
    /// Paths to exclude, relative to the parent.
    pub paths: Vec<String>,
}

/// A Transfer-class subvolume: outside the snapshot policy, optionally with
/// copy-on-write disabled.
#[derive(Clone)]
pub struct TransferSubvol {
    /// Mount target.
    pub mount: String,
    /// Whether to disable copy-on-write.
    pub nodatacow: bool,
    /// Custom mount options; the mount root's defaults apply when absent.
    pub options: Option<String>,
}

/// A named Transfer-class entry.
#[derive(Clone)]
pub struct TransferEntry {
    pub name: String,
    pub subvol: TransferSubvol,
}

/// The three disjoint subvolume classes.
#[derive(Clone)]
pub struct SubvolumesConfig {
    /// Backup class: independently mounted, independently backed up.
    pub backup: Vec<BackupEntry>,
    /// Exclude class: nested subvolumes under one Backup-class parent.
    pub exclude: ExcludeConfig,
    /// Transfer class: high-churn data outside the snapshot policy.
    pub transfer: Vec<TransferEntry>,
}

/// The snapshot policy: where snapshots live, what is preserved, and when
/// the host's timer runs the policy tool.
#[derive(Clone)]
pub struct BtrbkConfig {
    /// Snapshot directory name.
    pub snapshot_dir: String,
    /// Minimum preserve time.
    pub preserve_min: String,
    /// Preserve policy.
    pub preserve: String,
    /// Timer schedule expression.
    pub timer_schedule: String,
}

/// The secondary root filesystem sync point.
#[derive(Clone)]
pub struct Ext4SyncConfig {
    /// Where the secondary root is mounted for syncing.
    pub mount_point: String,
}

/// The whole declarative configuration; the single source of truth from
/// which every generated artifact is recomputed.
#[derive(Clone)]
pub struct Config {
    pub vhdx: VhdxConfig,
    pub user: UserConfig,
    pub mount: MountConfig,
    pub subvolumes: SubvolumesConfig,
    pub btrbk: BtrbkConfig,
    pub ext4_sync: Ext4SyncConfig,
    /// UUID of the filesystem; absent until the volume is formatted, then
    /// treated as immutable identity.
    pub uuid: Option<String>,
}

// ---------------------------------------------------------------------------
// Mathematical views
// ---------------------------------------------------------------------------

#[verifier::ext_equal]
pub ghost struct VhdxConfigView {
    pub path: Seq<char>,
    pub label: Seq<char>,
}

#[verifier::ext_equal]
pub ghost struct UserConfigView {
    pub name: Seq<char>,
    pub options: Seq<char>,
}

#[verifier::ext_equal]
pub ghost struct MountConfigView {
    pub base: Seq<char>,
    pub options: Seq<char>,
}

#[verifier::ext_equal]
pub ghost enum BackupSubvolView {
    Simple(Seq<char>),
    Full { mount: Seq<char>, options: Option<Seq<char>> },
}

#[verifier::ext_equal]
pub ghost struct BackupEntryView {
    pub name: Seq<char>,
    pub subvol: BackupSubvolView,
}

#[verifier::ext_equal]
pub ghost struct ExcludeConfigView {
    pub parent: Seq<char>,
    pub paths: Seq<Seq<char>>,
}

#[verifier::ext_equal]
pub ghost struct TransferSubvolView {
    pub mount: Seq<char>,
    pub nodatacow: bool,
    pub options: Option<Seq<char>>,
}

#[verifier::ext_equal]
pub ghost struct TransferEntryView {
    pub name: Seq<char>,
    pub subvol: TransferSubvolView,
}

#[verifier::ext_equal]
pub ghost struct SubvolumesConfigView {
    pub backup: Seq<BackupEntryView>,
    pub exclude: ExcludeConfigView,
    pub transfer: Seq<TransferEntryView>,
}

#[verifier::ext_equal]
pub ghost struct BtrbkConfigView {
    pub snapshot_dir: Seq<char>,
    pub preserve_min: Seq<char>,
    pub preserve: Seq<char>,
    pub timer_schedule: Seq<char>,
}

#[verifier::ext_equal]
pub ghost struct Ext4SyncConfigView {
    pub mount_point: Seq<char>,
}

#[verifier::ext_equal]
pub ghost struct ConfigView {
    pub vhdx: VhdxConfigView,
    pub user: UserConfigView,
    pub mount: MountConfigView,
    pub subvolumes: SubvolumesConfigView,
    pub btrbk: BtrbkConfigView,
    pub ext4_sync: Ext4SyncConfigView,
    pub uuid: Option<Seq<char>>,
}

impl View for VhdxConfig {
    type V = VhdxConfigView;

    open spec fn view(&self) -> VhdxConfigView {
        VhdxConfigView { path: self.path@, label: self.label@ }
    }
}

impl View for UserConfig {
    type V = UserConfigView;

    open spec fn view(&self) -> UserConfigView {
        UserConfigView { name: self.name@, options: self.options@ }
    }
}

impl View for MountConfig {
    type V = MountConfigView;

    open spec fn view(&self) -> MountConfigView {
        MountConfigView { base: self.base@, options: self.options@ }
    }
}

impl View for BackupSubvol {
    type V = BackupSubvolView;

    open spec fn view(&self) -> BackupSubvolView {
        match self {
            BackupSubvol::Simple(m) => BackupSubvolView::Simple(m@),
            BackupSubvol::Full { mount, options } => BackupSubvolView::Full {
                mount: mount@,
                options: match options {
                    Some(o) => Some(o@),
                    None => None,
                },
            },
        }
    }
}

impl View for BackupEntry {
    type V = BackupEntryView;

    open spec fn view(&self) -> BackupEntryView {
        BackupEntryView { name: self.name@, subvol: self.subvol@ }
    }
}

impl View for ExcludeConfig {
    type V = ExcludeConfigView;

    open spec fn view(&self) -> ExcludeConfigView {
        ExcludeConfigView {
            parent: self.parent@,
            paths: Seq::new(self.paths@.len(), |i: int| self.paths@[i]@),
        }
    }
}

impl View for TransferSubvol {
    type V = TransferSubvolView;

    open spec fn view(&self) -> TransferSubvolView {
        TransferSubvolView {
            mount: self.mount@,
            nodatacow: self.nodatacow,
            options: match &self.options {
                Some(o) => Some(o@),
                None => None,
            },
        }
    }
}

impl View for TransferEntry {
    type V = TransferEntryView;

    open spec fn view(&self) -> TransferEntryView {
        TransferEntryView { name: self.name@, subvol: self.subvol@ }
    }
}

impl View for SubvolumesConfig {
    type V = SubvolumesConfigView;

    open spec fn view(&self) -> SubvolumesConfigView {
        SubvolumesConfigView {
            backup: Seq::new(self.backup@.len(), |i: int| self.backup@[i]@),
            exclude: self.exclude@,
            transfer: Seq::new(self.transfer@.len(), |i: int| self.transfer@[i]@),
        }
    }
}

impl View for BtrbkConfig {
    type V = BtrbkConfigView;

    open spec fn view(&self) -> BtrbkConfigView {
        BtrbkConfigView {
            snapshot_dir: self.snapshot_dir@,
            preserve_min: self.preserve_min@,
            preserve: self.preserve@,
            timer_schedule: self.timer_schedule@,
        }
    }
}

impl View for Ext4SyncConfig {
    type V = Ext4SyncConfigView;

    open spec fn view(&self) -> Ext4SyncConfigView {
        Ext4SyncConfigView { mount_point: self.mount_point@ }
    }
}

impl View for Config {
    type V = ConfigView;

    open spec fn view(&self) -> ConfigView {
        ConfigView {
            vhdx: self.vhdx@,
            user: self.user@,
            mount: self.mount@,
            subvolumes: self.subvolumes@,
            btrbk: self.btrbk@,
            ext4_sync: self.ext4_sync@,
            uuid: match &self.uuid {
                Some(u) => Some(u@),
                None => None,
            },
        }
    }
}

// ---------------------------------------------------------------------------
// Accessors
// ---------------------------------------------------------------------------

impl BackupSubvolView {
    /// The mount target, whichever form carries it.
    pub open spec fn spec_mount(self) -> Seq<char> {
        match self {
            BackupSubvolView::Simple(m) => m,
            BackupSubvolView::Full { mount, .. } => mount,
        }
    }

    /// The custom mount options, present only in the full form.
    pub open spec fn spec_options(self) -> Option<Seq<char>> {
        match self {
            BackupSubvolView::Simple(_) => None,
            BackupSubvolView::Full { options, .. } => options,
        }
    }
}

impl BackupSubvol {
    /// The mount target, whichever form carries it.
    pub fn mount(&self) -> (r: &str)
        ensures
            r@ == self@.spec_mount(),
    {
        match self {
            BackupSubvol::Simple(m) => m.as_str(),
            BackupSubvol::Full { mount, .. } => mount.as_str(),
        }
    }

    /// The custom mount options, present only in the full form.
    pub fn options(&self) -> (r: Option<&str>)
        ensures
            match r {
                Some(s) => self@.spec_options() == Some(s@),
                None => self@.spec_options() is None,
            },
    {
        match self {
            BackupSubvol::Simple(_) => None,
            BackupSubvol::Full { options, .. } => match options {
                Some(o) => Some(o.as_str()),
                None => None,
            },
        }
    }
}

// ---------------------------------------------------------------------------
// Variable expansion
// ---------------------------------------------------------------------------

/// The placeholder token that expansion substitutes with the account name.
pub open spec fn user_token() -> Seq<char> {
    "$USER"@
}

/// The characters of the placeholder token, spelled out.
pub proof fn lemma_user_token()
    ensures
        user_token().len() == 5,
        user_token()[0] == '$',
        user_token()[1] == 'U',
        user_token()[2] == 'S',
        user_token()[3] == 'E',
        user_token()[4] == 'R',
{
    reveal_strlit("$USER");
}

impl BackupSubvolView {
    /// `self` with the account-name token expanded in its mount target.
    pub open spec fn spec_expand(self, user: Seq<char>) -> BackupSubvolView {
        match self {
            BackupSubvolView::Simple(m) => BackupSubvolView::Simple(
                spec_replace(m, user_token(), user),
            ),
            BackupSubvolView::Full { mount, options } => BackupSubvolView::Full {
                mount: spec_replace(mount, user_token(), user),
                options: options,
            },
        }
    }
}

impl ConfigView {
    /// `self` with the account-name token expanded in every subvolume
    /// mount target.
    pub open spec fn spec_expand(self) -> ConfigView {
        let user = self.user.name;
        ConfigView {
            subvolumes: SubvolumesConfigView {
                backup: Seq::new(
                    self.subvolumes.backup.len(),
                    |i: int|
                        BackupEntryView {
                            name: self.subvolumes.backup[i].name,
                            subvol: self.subvolumes.backup[i].subvol.spec_expand(user),
                        },
                ),
                exclude: self.subvolumes.exclude,
                transfer: Seq::new(
                    self.subvolumes.transfer.len(),
                    |i: int|
                        TransferEntryView {
                            name: self.subvolumes.transfer[i].name,
                            subvol: TransferSubvolView {
                                mount: spec_replace(
                                    self.subvolumes.transfer[i].subvol.mount,
                                    user_token(),
                                    user,
                                ),
                                nodatacow: self.subvolumes.transfer[i].subvol.nodatacow,
                                options: self.subvolumes.transfer[i].subvol.options,
                            },
                        },
                ),
            },
            ..self
        }
    }

    /// `self` with the account name set and expansion re-run.
    pub open spec fn spec_set_user(self, user: Seq<char>) -> ConfigView {
        (ConfigView { user: UserConfigView { name: user, ..self.user }, ..self }).spec_expand()
    }
}

impl Config {
    /// The target account name.
    pub fn get_user(&self) -> (r: String)
        ensures
            r@ == self@.user.name,
    {
        self.user.name.clone()
    }

    /// Expand the account-name token in every subvolume mount target.
    pub fn expand_variables(&mut self)
        ensures
            final(self)@ == old(self)@.spec_expand(),
    {
        let ghost prior: ConfigView = self@;
        let user = self.user.name.clone();

        let mut new_backup: Vec<BackupEntry> = Vec::new();
        let mut i: usize = 0;
        let backup_len = self.subvolumes.backup.len();
        while i < backup_len
            invariant
                backup_len == self.subvolumes.backup@.len(),
                self@ == prior,
                user@ == prior.user.name,
                i <= backup_len,
                new_backup@.len() == i,
                forall|k: int|
                    0 <= k < i ==> #[trigger] new_backup@[k]@ == (BackupEntryView {
                        name: prior.subvolumes.backup[k].name,
                        subvol: prior.subvolumes.backup[k].subvol.spec_expand(prior.user.name),
                    }),
            decreases backup_len - i,
        {
            proof {
                lemma_user_token();
            }
            let entry = &self.subvolumes.backup[i];
            let new_subvol = match &entry.subvol {
                BackupSubvol::Simple(m) => BackupSubvol::Simple(replace_token(m, "$USER", &user)),
                BackupSubvol::Full { mount, options } => BackupSubvol::Full {
                    mount: replace_token(mount, "$USER", &user),
                    options: match options {
                        Some(o) => Some(o.clone()),
                        None => None,
                    },
                },
            };
            new_backup.push(BackupEntry { name: entry.name.clone(), subvol: new_subvol });
            i += 1;
        }

        let mut new_transfer: Vec<TransferEntry> = Vec::new();
        let mut j: usize = 0;
        let transfer_len = self.subvolumes.transfer.len();
        while j < transfer_len
            invariant
                transfer_len == self.subvolumes.transfer@.len(),
                self@ == prior,
                user@ == prior.user.name,
                j <= transfer_len,
                new_transfer@.len() == j,
                forall|k: int|
                    0 <= k < j ==> #[trigger] new_transfer@[k]@ == (TransferEntryView {
                        name: prior.subvolumes.transfer[k].name,
                        subvol: TransferSubvolView {
                            mount: spec_replace(
                                prior.subvolumes.transfer[k].subvol.mount,
                                user_token(),
                                prior.user.name,
                            ),
                            nodatacow: prior.subvolumes.transfer[k].subvol.nodatacow,
                            options: prior.subvolumes.transfer[k].subvol.options,
                        },
                    }),
            decreases transfer_len - j,
        {
            proof {
                lemma_user_token();
            }
            let entry = &self.subvolumes.transfer[j];
            let new_subvol = TransferSubvol {
                mount: replace_token(&entry.subvol.mount, "$USER", &user),
                nodatacow: entry.subvol.nodatacow,
                options: match &entry.subvol.options {
                    Some(o) => Some(o.clone()),
                    None => None,
                },
            };
            new_transfer.push(TransferEntry { name: entry.name.clone(), subvol: new_subvol });
            j += 1;
        }

        self.subvolumes.backup = new_backup;
        self.subvolumes.transfer = new_transfer;
        proof {
            assert(self@.subvolumes.backup =~= prior.spec_expand().subvolumes.backup);
            assert(self@.subvolumes.transfer =~= prior.spec_expand().subvolumes.transfer);
            assert(self@ =~= prior.spec_expand());
        }
    }

    /// Set the target account name and re-run variable expansion.
    pub fn set_user(&mut self, user: &str)
        ensures
            final(self)@ == old(self)@.spec_set_user(user@),
    {
        self.user.name = String::from_str(user);
        self.expand_variables();
    }
}

// ---------------------------------------------------------------------------
// Invariants of the subvolume classes
// ---------------------------------------------------------------------------

/// The name of the snapshot-only subvolume that is implicitly present
/// alongside the backup class: it holds point-in-time history of the root
/// configuration tree and is never mounted into the live namespace.
pub open spec fn snapshot_only_name() -> Seq<char> {
    "@etc"@
}

impl ConfigView {
    /// The invariants of the three subvolume classes: no name claimed twice,
    /// no mount target claimed twice, subvolume names free of the path
    /// separator, nested exclusions resolving under a Backup-class parent,
    /// and the snapshot-only name left to its implicit owner.
    pub open spec fn wf_subvolumes(self) -> bool {
        let b = self.subvolumes.backup;
        let t = self.subvolumes.transfer;
        let x = self.subvolumes.exclude;
        &&& forall|i: int, j: int|
            0 <= i < j < b.len() ==> #[trigger] b[i].name != #[trigger] b[j].name
        &&& forall|i: int, j: int|
            0 <= i < j < t.len() ==> #[trigger] t[i].name != #[trigger] t[j].name
        &&& forall|i: int, j: int|
            0 <= i < b.len() && 0 <= j < t.len() ==> #[trigger] b[i].name != #[trigger] t[j].name
        &&& forall|i: int| 0 <= i < b.len() ==> #[trigger] b[i].name != snapshot_only_name()
        &&& forall|i: int| 0 <= i < t.len() ==> #[trigger] t[i].name != snapshot_only_name()
        &&& forall|i: int| 0 <= i < b.len() ==> !(#[trigger] b[i].name).contains('/')
        &&& forall|i: int| 0 <= i < t.len() ==> !(#[trigger] t[i].name).contains('/')
        &&& forall|i: int, j: int|
            0 <= i < j < x.paths.len() ==> #[trigger] x.paths[i] != #[trigger] x.paths[j]
        &&& exists|i: int| 0 <= i < b.len() && #[trigger] b[i].name == x.parent
        &&& forall|i: int, j: int|
            0 <= i < j < b.len() ==> #[trigger] b[i].subvol.spec_mount()
                != #[trigger] b[j].subvol.spec_mount()
        &&& forall|i: int, j: int|
            0 <= i < j < t.len() ==> #[trigger] t[i].subvol.mount != #[trigger] t[j].subvol.mount
        &&& forall|i: int, j: int|
            0 <= i < b.len() && 0 <= j < t.len() ==> #[trigger] b[i].subvol.spec_mount()
                != #[trigger] t[j].subvol.mount
    }
}

// ---------------------------------------------------------------------------
// Expansion laws
// ---------------------------------------------------------------------------

impl ConfigView {
    /// No subvolume mount target still carries the account-name token.
    pub open spec fn is_expanded(self) -> bool {
        &&& forall|i: int|
            0 <= i < self.subvolumes.backup.len() ==> !crate::strkit::has_occurrence(
                #[trigger] self.subvolumes.backup[i].subvol.spec_mount(),
                user_token(),
            )
        &&& forall|i: int|
            0 <= i < self.subvolumes.transfer.len() ==> !crate::strkit::has_occurrence(
                #[trigger] self.subvolumes.transfer[i].subvol.mount,
                user_token(),
            )
    }
}

/// Law: expanding an already-expanded configuration is a no-op.
pub proof fn lemma_expand_noop(c: ConfigView)
    requires
        c.is_expanded(),
    ensures
        c.spec_expand() == c,
{
    lemma_user_token();
    let e = c.spec_expand();
    assert forall|i: int| 0 <= i < e.subvolumes.backup.len() implies e.subvolumes.backup[i]
        == c.subvolumes.backup[i] by {
        let sv = c.subvolumes.backup[i].subvol;
        crate::strkit::lemma_replace_absent(sv.spec_mount(), user_token(), c.user.name);
        assert(sv.spec_expand(c.user.name) =~= sv);
    }
    assert(e.subvolumes.backup =~= c.subvolumes.backup);
    assert forall|i: int| 0 <= i < e.subvolumes.transfer.len() implies e.subvolumes.transfer[i]
        == c.subvolumes.transfer[i] by {
        let sv = c.subvolumes.transfer[i].subvol;
        crate::strkit::lemma_replace_absent(sv.mount, user_token(), c.user.name);
        assert(e.subvolumes.transfer[i] =~= c.subvolumes.transfer[i]);
    }
    assert(e.subvolumes.transfer =~= c.subvolumes.transfer);
    assert(e =~= c);
}

/// An account name that token expansion cannot recreate the token around:
/// nonempty, free of the token's lead character, and not opening with a
/// character of the token.
pub open spec fn benign_user_name(u: Seq<char>) -> bool {
    &&& u.len() > 0
    &&& forall|k: int| 0 <= k < u.len() ==> u[k] != '$'
    &&& u[0] != 'U'
    &&& u[0] != 'S'
    &&& u[0] != 'E'
    &&& u[0] != 'R'
}

/// Law: expansion completes in one pass.
///
/// After expanding with an account name that cannot recreate the token,
/// no mount target still carries it — so the result is an
/// already-expanded configuration in the sense of [`lemma_expand_noop`].
pub proof fn lemma_expand_completes(c: ConfigView)
    requires
        benign_user_name(c.user.name),
    ensures
        c.spec_expand().is_expanded(),
{
    lemma_user_token();
    let u = c.user.name;
    assert forall|k: int| 0 <= k < user_token().len() implies u[0] != user_token()[k] by {
        lemma_user_token();
    }
    let e = c.spec_expand();
    assert forall|i: int| 0 <= i < e.subvolumes.backup.len() implies !crate::strkit::has_occurrence(
        #[trigger] e.subvolumes.backup[i].subvol.spec_mount(),
        user_token(),
    ) by {
        match c.subvolumes.backup[i].subvol {
            BackupSubvolView::Simple(m) => {
                crate::strkit::lemma_replace_leaves_no_token(m, user_token(), u);
            },
            BackupSubvolView::Full { mount, options } => {
                crate::strkit::lemma_replace_leaves_no_token(mount, user_token(), u);
            },
        }
    }
    assert forall|i: int|
        0 <= i < e.subvolumes.transfer.len() implies !crate::strkit::has_occurrence(
        #[trigger] e.subvolumes.transfer[i].subvol.mount,
        user_token(),
    ) by {
        crate::strkit::lemma_replace_leaves_no_token(
            c.subvolumes.transfer[i].subvol.mount,
            user_token(),
            u,
        );
    }
}

/// Law: variable expansion is idempotent.
///
/// Expanding twice equals expanding once, for every configuration whose
/// account name cannot splice a new token out of the replaced text.
pub proof fn lemma_expand_idempotent(c: ConfigView)
    requires
        benign_user_name(c.user.name),
    ensures
        c.spec_expand().spec_expand() == c.spec_expand(),
{
    lemma_user_token();
    let u = c.user.name;
    assert forall|k: int| 0 <= k < user_token().len() implies u[0] != user_token()[k] by {
        lemma_user_token();
    }
    let e = c.spec_expand();
    assert(e.user.name == u);
    let ee = e.spec_expand();
    assert forall|i: int| 0 <= i < ee.subvolumes.backup.len() implies ee.subvolumes.backup[i]
        == e.subvolumes.backup[i] by {
        let sv = c.subvolumes.backup[i].subvol;
        match sv {
            BackupSubvolView::Simple(m) => {
                crate::strkit::lemma_replace_idempotent(m, user_token(), u);
            },
            BackupSubvolView::Full { mount, options } => {
                crate::strkit::lemma_replace_idempotent(mount, user_token(), u);
            },
        }
        assert(ee.subvolumes.backup[i] =~= e.subvolumes.backup[i]);
    }
    assert(ee.subvolumes.backup =~= e.subvolumes.backup);
    assert forall|i: int| 0 <= i < ee.subvolumes.transfer.len() implies ee.subvolumes.transfer[i]
        == e.subvolumes.transfer[i] by {
        crate::strkit::lemma_replace_idempotent(
            c.subvolumes.transfer[i].subvol.mount,
            user_token(),
            u,
        );
        assert(ee.subvolumes.transfer[i] =~= e.subvolumes.transfer[i]);
    }
    assert(ee.subvolumes.transfer =~= e.subvolumes.transfer);
    assert(ee =~= e);
}

// ---------------------------------------------------------------------------
// Validation
// ---------------------------------------------------------------------------

impl Config {
    /// Check the fields that the provisioning workflow requires: a volume
    /// source path and a target account name. Absent fields are legitimate
    /// at rest and rejected only here, at the point of use.
    pub fn validate(&self) -> (r: Result<(), crate::Error>)
        ensures
            self@.vhdx.path.len() == 0 ==> r == Result::<(), crate::Error>::Err(
                crate::Error::MissingVhdxPath,
            ),
            self@.vhdx.path.len() > 0 && self@.user.name.len() == 0 ==> r == Result::<
                (),
                crate::Error,
            >::Err(crate::Error::MissingUser),
            self@.vhdx.path.len() > 0 && self@.user.name.len() > 0 ==> r == Result::<
                (),
                crate::Error,
            >::Ok(()),
    {
        if self.vhdx.path.as_str().is_empty() {
            Err(crate::Error::MissingVhdxPath)
        } else if self.user.name.as_str().is_empty() {
            Err(crate::Error::MissingUser)
        } else {
            Ok(())
        }
    }

    /// Check the field that the mount workflow requires: the filesystem
    /// UUID, which exists only once the volume has been formatted.
    pub fn validate_for_mount(&self) -> (r: Result<(), crate::Error>)
        ensures
            self@.uuid is None ==> r == Result::<(), crate::Error>::Err(crate::Error::MissingUuid),
            self@.uuid is Some ==> r == Result::<(), crate::Error>::Ok(()),
    {
        match &self.uuid {
            None => Err(crate::Error::MissingUuid),
            Some(_) => Ok(()),
        }
    }
}

// ---------------------------------------------------------------------------
// Defaults
// ---------------------------------------------------------------------------

/// Default mount point of the secondary root filesystem.
pub fn default_ext4_mount() -> (r: String)
    ensures
        r@ == "/mnt/ext4-root"@,
{
    String::from_str("/mnt/ext4-root")
}

/// Default options for creating the target account.
pub fn default_useradd_options() -> (r: String)
    ensures
        r@ == "-M -G wheel"@,
{
    String::from_str("-M -G wheel")
}

/// Default mount options of the base volume.
pub fn default_base_options() -> (r: String)
    ensures
        r@ == "compress=zstd:3,noatime,nofail"@,
{
    String::from_str("compress=zstd:3,noatime,nofail")
}

/// Default custom options of a subvolume: none, the base options apply.
pub fn default_subvol_options() -> (r: Option<String>)
    ensures
        r is None,
{
    None
}

impl Default for Ext4SyncConfig {
    /// The secondary-root sync point at its default location.
    fn default() -> (r: Self)
        ensures
            r@.mount_point == "/mnt/ext4-root"@,
    {
        Ext4SyncConfig { mount_point: default_ext4_mount() }
    }
}

/// The default configuration, in full.
pub open spec fn spec_default_config() -> ConfigView {
    ConfigView {
        vhdx: VhdxConfigView { path: Seq::<char>::empty(), label: "ArchBtrfs"@ },
        user: UserConfigView { name: Seq::<char>::empty(), options: "-M -G wheel"@ },
        mount: MountConfigView { base: "/mnt/btrfs"@, options: "compress=zstd:3,noatime,nofail"@ },
        subvolumes: SubvolumesConfigView {
            backup: seq![
                BackupEntryView { name: "@home"@, subvol: BackupSubvolView::Simple("/home/$USER"@) },
                BackupEntryView { name: "@opt"@, subvol: BackupSubvolView::Simple("/opt"@) },
                BackupEntryView { name: "@usr"@, subvol: BackupSubvolView::Simple("/usr"@) },
                BackupEntryView {
                    name: "@var_lib_pacman"@,
                    subvol: BackupSubvolView::Simple("/var/lib/pacman"@),
                },
            ],
            exclude: ExcludeConfigView {
                parent: "@home"@,
                paths: seq![".cache"@, ".local"@, ".npm"@, ".bun"@, ".vscode-server-insiders"@],
            },
            transfer: seq![
                TransferEntryView {
                    name: "@containers"@,
                    subvol: TransferSubvolView {
                        mount: "/var/lib/containers"@,
                        nodatacow: true,
                        options: None,
                    },
                },
                TransferEntryView {
                    name: "@var_cache"@,
                    subvol: TransferSubvolView {
                        mount: "/var/cache"@,
                        nodatacow: true,
                        options: None,
                    },
                },
                TransferEntryView {
                    name: "@var_log"@,
                    subvol: TransferSubvolView {
                        mount: "/var/log"@,
                        nodatacow: false,
                        options: None,
                    },
                },
                TransferEntryView {
                    name: "@var_tmp"@,
                    subvol: TransferSubvolView {
                        mount: "/var/tmp"@,
                        nodatacow: true,
                        options: None,
                    },
                },
            ],
        },
        btrbk: BtrbkConfigView {
            snapshot_dir: ".snapshots"@,
            preserve_min: "2d"@,
            preserve: "14d 4w 2m"@,
            timer_schedule: "*-*-* 03:00:00"@,
        },
        ext4_sync: Ext4SyncConfigView { mount_point: "/mnt/ext4-root"@ },
        uuid: None,
    }
}

/// The default configuration satisfies the invariants of the subvolume
/// classes: no name or mount target claimed twice, names free of the path
/// separator, and the nested exclusions under a Backup-class parent.
pub proof fn lemma_default_config_well_formed()
    ensures
        spec_default_config().wf_subvolumes(),
{
    reveal_strlit("@home");
    reveal_strlit("@opt");
    reveal_strlit("@usr");
    reveal_strlit("@var_lib_pacman");
    reveal_strlit("@containers");
    reveal_strlit("@var_cache");
    reveal_strlit("@var_log");
    reveal_strlit("@var_tmp");
    reveal_strlit("@etc");
    reveal_strlit("/home/$USER");
    reveal_strlit("/opt");
    reveal_strlit("/usr");
    reveal_strlit("/var/lib/pacman");
    reveal_strlit("/var/lib/containers");
    reveal_strlit("/var/cache");
    reveal_strlit("/var/log");
    reveal_strlit("/var/tmp");
    reveal_strlit(".cache");
    reveal_strlit(".local");
    reveal_strlit(".npm");
    reveal_strlit(".bun");
    reveal_strlit(".vscode-server-insiders");
    let c = spec_default_config();
    let b = c.subvolumes.backup;
    let t = c.subvolumes.transfer;
    assert(b[0].name == "@home"@);
    assert(c.subvolumes.exclude.parent == "@home"@);
    assert forall|i: int| 0 <= i < b.len() implies !(#[trigger] b[i].name).contains('/') by {
        if b[i].name.contains('/') {
            let k = choose|k: int| 0 <= k < b[i].name.len() && b[i].name[k] == '/';
        }
    }
    assert forall|i: int| 0 <= i < t.len() implies !(#[trigger] t[i].name).contains('/') by {
        if t[i].name.contains('/') {
            let k = choose|k: int| 0 <= k < t[i].name.len() && t[i].name[k] == '/';
        }
    }
    let x = c.subvolumes.exclude;
    assert(exists|i: int| 0 <= i < b.len() && #[trigger] b[i].name == x.parent) by {
        assert(b[0].name == x.parent);
    }
    assert forall|i: int, j: int|
        0 <= i < j < b.len() implies (#[trigger] b[i]).name != (#[trigger] b[j]).name by {
        assert(b[0].name == "@home"@);
        assert(b[1].name == "@opt"@);
        assert(b[2].name == "@usr"@);
        assert(b[3].name == "@var_lib_pacman"@);
        assert("@opt"@[1] == 'o');
        assert("@usr"@[1] == 'u');
    }
    assert forall|i: int, j: int|
        0 <= i < j < t.len() implies (#[trigger] t[i]).name != (#[trigger] t[j]).name by {
        assert(t[0].name == "@containers"@);
        assert(t[1].name == "@var_cache"@);
        assert(t[2].name == "@var_log"@);
        assert(t[3].name == "@var_tmp"@);
        assert("@var_log"@[5] == 'l');
        assert("@var_tmp"@[5] == 't');
    }
    assert forall|i: int, j: int|
        0 <= i < b.len() && 0 <= j < t.len() implies (#[trigger] b[i]).name != (
        #[trigger] t[j]).name by {
        assert(b[0].name == "@home"@);
        assert(b[1].name == "@opt"@);
        assert(b[2].name == "@usr"@);
        assert(b[3].name == "@var_lib_pacman"@);
        assert(t[0].name == "@containers"@);
        assert(t[1].name == "@var_cache"@);
        assert(t[2].name == "@var_log"@);
        assert(t[3].name == "@var_tmp"@);
    }
    assert forall|i: int, j: int|
        0 <= i < j < x.paths.len() implies #[trigger] x.paths[i] != #[trigger] x.paths[j] by {
        assert(x.paths[0] == ".cache"@);
        assert(x.paths[1] == ".local"@);
        assert(x.paths[2] == ".npm"@);
        assert(x.paths[3] == ".bun"@);
        assert(x.paths[4] == ".vscode-server-insiders"@);
        assert(".cache"@[1] == 'c');
        assert(".local"@[1] == 'l');
        assert(".npm"@[1] == 'n');
        assert(".bun"@[1] == 'b');
    }
    assert forall|i: int, j: int|
        0 <= i < j < b.len() implies (#[trigger] b[i]).subvol.spec_mount() != (
        #[trigger] b[j]).subvol.spec_mount() by {
        assert(b[0].subvol.spec_mount() == "/home/$USER"@);
        assert(b[1].subvol.spec_mount() == "/opt"@);
        assert(b[2].subvol.spec_mount() == "/usr"@);
        assert(b[3].subvol.spec_mount() == "/var/lib/pacman"@);
        assert("/opt"@[1] == 'o');
        assert("/usr"@[1] == 'u');
    }
    assert forall|i: int, j: int|
        0 <= i < j < t.len() implies (#[trigger] t[i]).subvol.mount != (
        #[trigger] t[j]).subvol.mount by {
        assert(t[0].subvol.mount == "/var/lib/containers"@);
        assert(t[1].subvol.mount == "/var/cache"@);
        assert(t[2].subvol.mount == "/var/log"@);
        assert(t[3].subvol.mount == "/var/tmp"@);
        assert("/var/log"@[5] == 'l');
        assert("/var/tmp"@[5] == 't');
    }
    assert forall|i: int, j: int|
        0 <= i < b.len() && 0 <= j < t.len() implies (#[trigger] b[i]).subvol.spec_mount() != (
        #[trigger] t[j]).subvol.mount by {
        assert(b[0].subvol.spec_mount() == "/home/$USER"@);
        assert(b[1].subvol.spec_mount() == "/opt"@);
        assert(b[2].subvol.spec_mount() == "/usr"@);
        assert(b[3].subvol.spec_mount() == "/var/lib/pacman"@);
        assert(t[0].subvol.mount == "/var/lib/containers"@);
        assert(t[1].subvol.mount == "/var/cache"@);
        assert(t[2].subvol.mount == "/var/log"@);
        assert(t[3].subvol.mount == "/var/tmp"@);
        assert("/home/$USER"@.len() == 11);
        assert("/opt"@.len() == 4);
        assert("/usr"@.len() == 4);
        assert("/var/lib/pacman"@.len() == 15);
        assert("/var/lib/containers"@.len() == 19);
        assert("/var/cache"@.len() == 10);
        assert("/var/log"@.len() == 8);
        assert("/var/tmp"@.len() == 8);
    }
    assert forall|i: int| 0 <= i < b.len() implies (#[trigger] b[i]).name
        != snapshot_only_name() by {
        assert(b[0].name == "@home"@);
        assert(b[1].name == "@opt"@);
        assert(b[2].name == "@usr"@);
        assert(b[3].name == "@var_lib_pacman"@);
        assert("@home"@.len() == 5);
        assert("@opt"@.len() == 4);
        assert("@usr"@.len() == 4);
        assert("@var_lib_pacman"@.len() == 15);
        assert("@etc"@.len() == 4);
        assert("@etc"@[1] == 'e');
        assert("@opt"@[1] == 'o');
        assert("@usr"@[1] == 'u');
    }
    assert forall|i: int| 0 <= i < t.len() implies (#[trigger] t[i]).name
        != snapshot_only_name() by {
        assert(t[0].name == "@containers"@);
        assert(t[1].name == "@var_cache"@);
        assert(t[2].name == "@var_log"@);
        assert(t[3].name == "@var_tmp"@);
        assert("@containers"@.len() == 11);
        assert("@var_cache"@.len() == 10);
        assert("@var_log"@.len() == 8);
        assert("@var_tmp"@.len() == 8);
        assert("@etc"@.len() == 4);
    }
}

impl Default for Config {
    /// The default configuration: volume path and account name left for the
    /// operator to fill in, everything else at its documented default.
    fn default() -> (r: Self)
        ensures
            r@ == spec_default_config(),
    {
        let mut backup: Vec<BackupEntry> = Vec::new();
        backup.push(
            BackupEntry {
                name: String::from_str("@home"),
                subvol: BackupSubvol::Simple(String::from_str("/home/$USER")),
            },
        );
        backup.push(
            BackupEntry {
                name: String::from_str("@opt"),
                subvol: BackupSubvol::Simple(String::from_str("/opt")),
            },
        );
        backup.push(
            BackupEntry {
                name: String::from_str("@usr"),
                subvol: BackupSubvol::Simple(String::from_str("/usr")),
            },
        );
        backup.push(
            BackupEntry {
                name: String::from_str("@var_lib_pacman"),
                subvol: BackupSubvol::Simple(String::from_str("/var/lib/pacman")),
            },
        );

        let mut paths: Vec<String> = Vec::new();
        paths.push(String::from_str(".cache"));
        paths.push(String::from_str(".local"));
        paths.push(String::from_str(".npm"));
        paths.push(String::from_str(".bun"));
        paths.push(String::from_str(".vscode-server-insiders"));

        let mut transfer: Vec<TransferEntry> = Vec::new();
        transfer.push(
            TransferEntry {
                name: String::from_str("@containers"),
                subvol: TransferSubvol {
                    mount: String::from_str("/var/lib/containers"),
                    nodatacow: true,
                    options: None,
                },
            },
        );
        transfer.push(
            TransferEntry {
                name: String::from_str("@var_cache"),
                subvol: TransferSubvol {
                    mount: String::from_str("/var/cache"),
                    nodatacow: true,
                    options: None,
                },
            },
        );
        transfer.push(
            TransferEntry {
                name: String::from_str("@var_log"),
                subvol: TransferSubvol {
                    mount: String::from_str("/var/log"),
                    nodatacow: false,
                    options: None,
                },
            },
        );
        transfer.push(
            TransferEntry {
                name: String::from_str("@var_tmp"),
                subvol: TransferSubvol {
                    mount: String::from_str("/var/tmp"),
                    nodatacow: true,
                    options: None,
                },
            },
        );

        let r = Config {
            vhdx: VhdxConfig { path: String::new(), label: String::from_str("ArchBtrfs") },
            user: UserConfig { name: String::new(), options: default_useradd_options() },
            mount: MountConfig {
                base: String::from_str("/mnt/btrfs"),
                options: default_base_options(),
            },
            subvolumes: SubvolumesConfig {
                backup,
                exclude: ExcludeConfig { parent: String::from_str("@home"), paths },
                transfer,
            },
            btrbk: BtrbkConfig {
                snapshot_dir: String::from_str(".snapshots"),
                preserve_min: String::from_str("2d"),
                preserve: String::from_str("14d 4w 2m"),
                timer_schedule: String::from_str("*-*-* 03:00:00"),
            },
            ext4_sync: Ext4SyncConfig { mount_point: default_ext4_mount() },
            uuid: None,
        };
        proof {
            assert(r@.subvolumes.backup =~= spec_default_config().subvolumes.backup);
            assert(r@.subvolumes.exclude.paths =~= spec_default_config().subvolumes.exclude.paths);
            assert(r@.subvolumes.transfer =~= spec_default_config().subvolumes.transfer);
            assert(r@ =~= spec_default_config());
        }
        r
    }
}

} // verus!
