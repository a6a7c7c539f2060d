//! The subvolume classifier: derives from a configuration the canonical
//! ordered list of subvolume descriptors that drives unit generation and
//! human-facing summaries.
//!
//! Ordering rule: Backup-class entries first, alphabetical by name, then the
//! implicit snapshot-only subvolume, then the Exclude-class nested entries,
//! then the Transfer-class entries. The order is a pure function of the
//! configuration, so it is stable across runs.
use vstd::prelude::*;

use crate::config::{
    snapshot_only_name, BackupEntry, BackupEntryView, BackupSubvol, BackupSubvolView, Config,
    ConfigView,
};
use crate::strkit::lex_lt;
use crate::strkit::str_lt;

verus! {

/// One classified subvolume: its name, where it is mounted (absent for the
/// snapshot-only subvolume and for nested exclusions), its custom mount
/// options, and, for a nested exclusion, the mount target of its parent.
pub struct SubvolDescriptor {
    pub name: String,
    pub mount_target: Option<String>,
    pub options: Option<String>,
    pub nested_under: Option<String>,
}

#[verifier::ext_equal]
pub ghost struct SubvolDescriptorView {
    pub name: Seq<char>,
    pub mount_target: Option<Seq<char>>,
    pub options: Option<Seq<char>>,
    pub nested_under: Option<Seq<char>>,
}

impl View for SubvolDescriptor {
    type V = SubvolDescriptorView;

    open spec fn view(&self) -> SubvolDescriptorView {
        SubvolDescriptorView {
            name: self.name@,
            mount_target: match &self.mount_target {
                Some(m) => Some(m@),
                None => None,
            },
            options: match &self.options {
                Some(o) => Some(o@),
                None => None,
            },
            nested_under: match &self.nested_under {
                Some(n) => Some(n@),
                None => None,
            },
        }
    }
}

// ---------------------------------------------------------------------------
// Sorting the backup class by name
// ---------------------------------------------------------------------------

/// Insert `e` into `s` before the first entry whose name orders after it.
pub open spec fn spec_insert_backup(s: Seq<BackupEntryView>, e: BackupEntryView) -> Seq<
    BackupEntryView,
>
    decreases s.len(),
{
    if s.len() == 0 {
        seq![e]
    } else if lex_lt(e.name, s[0].name) {
        seq![e] + s
    } else {
        seq![s[0]] + spec_insert_backup(s.skip(1), e)
    }
}

/// Insertion sort of the backup class by name.
pub open spec fn spec_sort_backup(s: Seq<BackupEntryView>) -> Seq<BackupEntryView>
    decreases s.len(),
{
    if s.len() == 0 {
        Seq::<BackupEntryView>::empty()
    } else {
        spec_insert_backup(spec_sort_backup(s.drop_last()), s.last())
    }
}

/// Neighbouring entries are in weakly ascending name order.
pub open spec fn sorted_by_name(s: Seq<BackupEntryView>) -> bool {
    forall|i: int, j: int|
        #![trigger s[i], s[j]]
        0 <= i && j == i + 1 && j < s.len() ==> !lex_lt(s[j].name, s[i].name)
}

pub proof fn lemma_insert_backup_len(s: Seq<BackupEntryView>, e: BackupEntryView)
    ensures
        spec_insert_backup(s, e).len() == s.len() + 1,
    decreases s.len(),
{
    if s.len() == 0 {
    } else if lex_lt(e.name, s[0].name) {
    } else {
        lemma_insert_backup_len(s.skip(1), e);
    }
}

/// Insertion neither loses nor invents entries.
pub proof fn lemma_insert_backup_membership(
    s: Seq<BackupEntryView>,
    e: BackupEntryView,
    x: BackupEntryView,
)
    ensures
        spec_insert_backup(s, e).contains(x) <==> (s.contains(x) || x == e),
    decreases s.len(),
{
    let r = spec_insert_backup(s, e);
    if s.len() == 0 {
        if x == e {
            assert(r[0] == e);
        }
        if r.contains(x) {
            let i = choose|i: int| 0 <= i < r.len() && r[i] == x;
            assert(i == 0);
        }
    } else if lex_lt(e.name, s[0].name) {
        if x == e {
            assert(r[0] == e);
        }
        if s.contains(x) {
            let i = choose|i: int| 0 <= i < s.len() && s[i] == x;
            assert(r[i + 1] == x);
        }
        if r.contains(x) {
            let i = choose|i: int| 0 <= i < r.len() && r[i] == x;
            if i > 0 {
                assert(s[i - 1] == x);
            }
        }
    } else {
        lemma_insert_backup_membership(s.skip(1), e, x);
        let r1 = spec_insert_backup(s.skip(1), e);
        if r.contains(x) {
            let i = choose|i: int| 0 <= i < r.len() && r[i] == x;
            if i == 0 {
                assert(s[0] == x);
            } else {
                assert(r1[i - 1] == x);
                assert(r1.contains(x));
                if s.skip(1).contains(x) {
                    let j = choose|j: int| 0 <= j < s.skip(1).len() && s.skip(1)[j] == x;
                    assert(s[j + 1] == x);
                }
            }
        }
        if s.contains(x) {
            let i = choose|i: int| 0 <= i < s.len() && s[i] == x;
            if i == 0 {
                assert(r[0] == x);
            } else {
                assert(s.skip(1)[i - 1] == x);
                assert(s.skip(1).contains(x));
                assert(r1.contains(x));
                let j = choose|j: int| 0 <= j < r1.len() && r1[j] == x;
                assert(r[j + 1] == x);
            }
        }
        if x == e {
            assert(r1.contains(x));
            let j = choose|j: int| 0 <= j < r1.len() && r1[j] == x;
            assert(r[j + 1] == x);
        }
    }
}

/// Inserting into a sorted sequence keeps it sorted.
pub proof fn lemma_insert_backup_sorted(s: Seq<BackupEntryView>, e: BackupEntryView)
    requires
        sorted_by_name(s),
    ensures
        sorted_by_name(spec_insert_backup(s, e)),
    decreases s.len(),
{
    let r = spec_insert_backup(s, e);
    if s.len() == 0 {
    } else if lex_lt(e.name, s[0].name) {
        assert forall|i: int, j: int|
            0 <= i && j == i + 1 && j < r.len() implies !lex_lt(
            #[trigger] r[j].name,
            #[trigger] r[i].name,
        ) by {
            if i == 0 {
                crate::strkit::lemma_lex_asymmetric(e.name, s[0].name);
                assert(r[0] == e);
                assert(r[1] == s[0]);
            } else {
                assert(r[i] == s[i - 1]);
                assert(r[j] == s[i]);
                assert(s[i - 1] == s[i - 1]);
            }
        }
    } else {
        lemma_insert_backup_sorted(s.skip(1), e);
        let r1 = spec_insert_backup(s.skip(1), e);
        lemma_insert_backup_len(s.skip(1), e);
        assert forall|i: int, j: int|
            0 <= i && j == i + 1 && j < r.len() implies !lex_lt(
            #[trigger] r[j].name,
            #[trigger] r[i].name,
        ) by {
            if i == 0 {
                // the head keeps its place: the new head of the tail is either
                // `e`, which does not order before it, or the old second entry
                assert(r[0] == s[0]);
                if s.skip(1).len() == 0 {
                    assert(r1[0] == e);
                } else if lex_lt(e.name, s.skip(1)[0].name) {
                    assert(r1[0] == e);
                } else {
                    assert(r1[0] == s.skip(1)[0]);
                    assert(s[1] == s.skip(1)[0]);
                    assert(s[0] == s[0]);
                }
                assert(r[1] == r1[0]);
            } else {
                assert(r[i] == r1[i - 1]);
                assert(r[j] == r1[i]);
            }
        }
    }
}

/// Sorting neither loses nor invents entries.
pub proof fn lemma_sort_backup_membership(s: Seq<BackupEntryView>, x: BackupEntryView)
    ensures
        spec_sort_backup(s).len() == s.len(),
        spec_sort_backup(s).contains(x) <==> s.contains(x),
    decreases s.len(),
{
    lemma_sort_backup_len(s);
    if s.len() == 0 {
    } else {
        lemma_sort_backup_membership(s.drop_last(), x);
        lemma_insert_backup_membership(spec_sort_backup(s.drop_last()), s.last(), x);
        if s.contains(x) {
            let i = choose|i: int| 0 <= i < s.len() && s[i] == x;
            if i < s.len() - 1 {
                assert(s.drop_last()[i] == x);
                assert(s.drop_last().contains(x));
            } else {
                assert(x == s.last());
            }
        }
        if s.drop_last().contains(x) {
            let i = choose|i: int| 0 <= i < s.drop_last().len() && s.drop_last()[i] == x;
            assert(s[i] == x);
        }
        if x == s.last() {
            assert(s[s.len() - 1] == x);
        }
    }
}

/// Sorting keeps the length.
pub proof fn lemma_sort_backup_len(s: Seq<BackupEntryView>)
    ensures
        spec_sort_backup(s).len() == s.len(),
    decreases s.len(),
{
    if s.len() == 0 {
    } else {
        lemma_sort_backup_len(s.drop_last());
        lemma_insert_backup_len(spec_sort_backup(s.drop_last()), s.last());
    }
}

/// The sorted backup class is in weakly ascending name order.
pub proof fn lemma_sort_backup_sorted(s: Seq<BackupEntryView>)
    ensures
        sorted_by_name(spec_sort_backup(s)),
    decreases s.len(),
{
    if s.len() == 0 {
    } else {
        lemma_sort_backup_sorted(s.drop_last());
        lemma_insert_backup_sorted(spec_sort_backup(s.drop_last()), s.last());
    }
}

/// Copy a backup entry, preserving its view.
fn copy_backup_entry(e: &BackupEntry) -> (r: BackupEntry)
    ensures
        r@ == e@,
{
    BackupEntry {
        name: e.name.clone(),
        subvol: match &e.subvol {
            BackupSubvol::Simple(m) => BackupSubvol::Simple(m.clone()),
            BackupSubvol::Full { mount, options } => BackupSubvol::Full {
                mount: mount.clone(),
                options: match options {
                    Some(o) => Some(o.clone()),
                    None => None,
                },
            },
        },
    }
}

/// The view of a vector of backup entries.
pub open spec fn backup_views(v: Seq<BackupEntry>) -> Seq<BackupEntryView> {
    Seq::new(v.len(), |i: int| v[i]@)
}

proof fn lemma_insert_backup_split(s: Seq<BackupEntryView>, e: BackupEntryView, pos: int)
    requires
        0 <= pos <= s.len(),
        forall|k: int| 0 <= k < pos ==> !lex_lt(e.name, s[k].name),
        pos < s.len() ==> lex_lt(e.name, s[pos].name),
    ensures
        spec_insert_backup(s, e) == s.take(pos) + seq![e] + s.skip(pos),
    decreases pos,
{
    if s.len() == 0 {
        assert(s.take(0) + seq![e] + s.skip(0) =~= seq![e]);
    } else if pos == 0 {
        assert(s.take(0) + seq![e] + s.skip(0) =~= seq![e] + s);
    } else {
        lemma_insert_backup_split(s.skip(1), e, pos - 1);
        assert(s.skip(1).take(pos - 1) =~= s.subrange(1, pos));
        assert(s.skip(1).skip(pos - 1) =~= s.skip(pos));
        assert(seq![s[0]] + (s.subrange(1, pos) + seq![e] + s.skip(pos)) =~= s.take(pos) + seq![e]
            + s.skip(pos));
    }
}

/// Sort the backup class by name, alphabetically.
pub fn sort_backup(entries: &Vec<BackupEntry>) -> (r: Vec<BackupEntry>)
    ensures
        backup_views(r@) == spec_sort_backup(backup_views(entries@)),
{
    let ghost all = backup_views(entries@);
    let mut out: Vec<BackupEntry> = Vec::new();
    let mut i: usize = 0;
    proof {
        assert(all.take(0) =~= Seq::<BackupEntryView>::empty());
        assert(backup_views(out@) =~= spec_sort_backup(all.take(0)));
    }
    while i < entries.len()
        invariant
            all == backup_views(entries@),
            entries@.len() == all.len(),
            i <= all.len(),
            backup_views(out@) == spec_sort_backup(all.take(i as int)),
        decreases entries@.len() - i,
    {
        let e = copy_backup_entry(&entries[i]);
        let ghost sorted = backup_views(out@);
        let mut pos: usize = 0;
        while pos < out.len() && !str_lt(e.name.as_str(), out[pos].name.as_str())
            invariant
                sorted == backup_views(out@),
                out@.len() == sorted.len(),
                pos <= sorted.len(),
                e@.name == all[i as int].name,
                forall|k: int| 0 <= k < pos ==> !lex_lt(e@.name, sorted[k].name),
            decreases out@.len() - pos,
        {
            pos += 1;
        }
        proof {
            lemma_insert_backup_split(sorted, e@, pos as int);
        }
        out.insert(pos, e);
        proof {
            assert(backup_views(out@) =~= sorted.take(pos as int) + seq![all[i as int]]
                + sorted.skip(pos as int));
            assert(all.take(i + 1).drop_last() =~= all.take(i as int));
            assert(all.take(i + 1).last() == all[i as int]);
            assert(backup_views(out@) =~= spec_sort_backup(all.take(i + 1)));
        }
        i += 1;
    }
    proof {
        assert(all.take(all.len() as int) =~= all);
    }
    out
}

// ---------------------------------------------------------------------------
// Classification
// ---------------------------------------------------------------------------

/// The descriptor of one Backup-class entry.
pub open spec fn spec_backup_desc(e: BackupEntryView) -> SubvolDescriptorView {
    SubvolDescriptorView {
        name: e.name,
        mount_target: Some(e.subvol.spec_mount()),
        options: e.subvol.spec_options(),
        nested_under: None,
    }
}

/// The name of the nested subvolume carved out of `parent` at `path`.
pub open spec fn spec_exclude_name(parent: Seq<char>, path: Seq<char>) -> Seq<char> {
    parent + "/"@ + path
}

/// The first Backup-class entry named `name`, if any.
pub open spec fn spec_lookup_backup(s: Seq<BackupEntryView>, name: Seq<char>) -> Option<
    BackupSubvolView,
>
    decreases s.len(),
{
    if s.len() == 0 {
        None
    } else if s[0].name == name {
        Some(s[0].subvol)
    } else {
        spec_lookup_backup(s.skip(1), name)
    }
}

/// The views of a vector of descriptors.
pub open spec fn descriptor_views(v: Seq<SubvolDescriptor>) -> Seq<SubvolDescriptorView> {
    Seq::new(v.len(), |i: int| v[i]@)
}

/// The names of a sequence of descriptors, in order.
pub open spec fn descriptor_names(ds: Seq<SubvolDescriptorView>) -> Seq<Seq<char>> {
    Seq::new(ds.len(), |i: int| ds[i].name)
}

impl ConfigView {
    /// The mount target of the Exclude class's parent subvolume, if the
    /// parent names a Backup-class entry.
    pub open spec fn spec_parent_target(self) -> Option<Seq<char>> {
        match spec_lookup_backup(self.subvolumes.backup, self.subvolumes.exclude.parent) {
            Some(sv) => Some(sv.spec_mount()),
            None => None,
        }
    }

    /// The canonical ordered descriptor list: the Backup class alphabetical
    /// by name, then the snapshot-only subvolume, then the nested Exclude
    /// entries, then the Transfer class.
    pub open spec fn spec_classify(self) -> Seq<SubvolDescriptorView> {
        let sorted = spec_sort_backup(self.subvolumes.backup);
        Seq::new(sorted.len(), |i: int| spec_backup_desc(sorted[i])) + seq![
            SubvolDescriptorView {
                name: snapshot_only_name(),
                mount_target: None,
                options: None,
                nested_under: None,
            },
        ] + Seq::new(
            self.subvolumes.exclude.paths.len(),
            |i: int|
                SubvolDescriptorView {
                    name: spec_exclude_name(
                        self.subvolumes.exclude.parent,
                        self.subvolumes.exclude.paths[i],
                    ),
                    mount_target: None,
                    options: None,
                    nested_under: self.spec_parent_target(),
                },
        ) + Seq::new(
            self.subvolumes.transfer.len(),
            |i: int|
                SubvolDescriptorView {
                    name: self.subvolumes.transfer[i].name,
                    mount_target: Some(self.subvolumes.transfer[i].subvol.mount),
                    options: self.subvolumes.transfer[i].subvol.options,
                    nested_under: None,
                },
        )
    }
}

pub proof fn lemma_lookup_backup_skip(s: Seq<BackupEntryView>, name: Seq<char>, i: int)
    requires
        0 <= i <= s.len(),
        forall|k: int| 0 <= k < i ==> #[trigger] s[k].name != name,
    ensures
        spec_lookup_backup(s, name) == spec_lookup_backup(s.skip(i), name),
    decreases i,
{
    if i == 0 {
        assert(s.skip(0) =~= s);
    } else {
        assert(s[0].name != name);
        assert forall|k: int| 0 <= k < i - 1 implies #[trigger] s.skip(1)[k].name != name by {
            assert(s.skip(1)[k] == s[k + 1]);
        }
        lemma_lookup_backup_skip(s.skip(1), name, i - 1);
        assert(s.skip(1).skip(i - 1) =~= s.skip(i));
    }
}

/// The mount target of the Backup-class entry named `name`, if any.
pub fn backup_target_of(entries: &Vec<BackupEntry>, name: &str) -> (r: Option<String>)
    ensures
        match r {
            Some(m) => spec_lookup_backup(backup_views(entries@), name@) matches Some(sv)
                && sv.spec_mount() == m@,
            None => spec_lookup_backup(backup_views(entries@), name@) is None,
        },
{
    let ghost all = backup_views(entries@);
    let mut i: usize = 0;
    while i < entries.len()
        invariant
            all == backup_views(entries@),
            entries@.len() == all.len(),
            i <= all.len(),
            forall|k: int| 0 <= k < i ==> #[trigger] all[k].name != name@,
        decreases entries@.len() - i,
    {
        if crate::strkit::str_eq(entries[i].name.as_str(), name) {
            proof {
                lemma_lookup_backup_skip(all, name@, i as int);
                assert(all.skip(i as int)[0] == all[i as int]);
            }
            let m = match &entries[i].subvol {
                BackupSubvol::Simple(m) => m.clone(),
                BackupSubvol::Full { mount, .. } => mount.clone(),
            };
            return Some(m);
        }
        i += 1;
    }
    proof {
        lemma_lookup_backup_skip(all, name@, all.len() as int);
        assert(all.skip(all.len() as int) =~= Seq::<BackupEntryView>::empty());
    }
    None
}

proof fn lemma_descriptor_views_push(v: Seq<SubvolDescriptor>, d: SubvolDescriptor)
    ensures
        descriptor_views(v.push(d)) == descriptor_views(v).push(d@),
{
    assert forall|idx: int| 0 <= idx < v.push(d).len() implies descriptor_views(v.push(d))[idx]
        == descriptor_views(v).push(d@)[idx] by {
        if idx < v.len() {
            assert(v.push(d)[idx] == v[idx]);
        } else {
            assert(v.push(d)[idx] == d);
        }
    }
    assert(descriptor_views(v.push(d)) =~= descriptor_views(v).push(d@));
}

/// The mount target of a Backup-class subvolume, as an owned string.
fn backup_mount_string(sv: &BackupSubvol) -> (r: String)
    ensures
        r@ == sv@.spec_mount(),
{
    match sv {
        BackupSubvol::Simple(m) => m.clone(),
        BackupSubvol::Full { mount, .. } => mount.clone(),
    }
}

/// The custom options of a Backup-class subvolume, as an owned string.
fn backup_options_opt(sv: &BackupSubvol) -> (r: Option<String>)
    ensures
        match r {
            Some(o) => sv@.spec_options() == Some(o@),
            None => sv@.spec_options() is None,
        },
{
    match sv {
        BackupSubvol::Simple(_) => None,
        BackupSubvol::Full { options, .. } => match options {
            Some(o) => Some(o.clone()),
            None => None,
        },
    }
}

/// Derive the canonical ordered list of subvolume descriptors.
///
/// The order — Backup class alphabetical by name, the snapshot-only
/// subvolume, nested Exclude entries, Transfer class — is a pure function
/// of the configuration, so regeneration is stable across runs.
pub fn classify(config: &Config) -> (r: Vec<SubvolDescriptor>)
    ensures
        descriptor_views(r@) == config@.spec_classify(),
{
    let ghost cv = config@;
    let mut out: Vec<SubvolDescriptor> = Vec::new();

    // Backup class, alphabetical by name
    let sorted = sort_backup(&config.subvolumes.backup);
    let ghost sorted_v = spec_sort_backup(cv.subvolumes.backup);
    let ghost group1 = Seq::new(sorted_v.len(), |i: int| spec_backup_desc(sorted_v[i]));
    let mut i: usize = 0;
    while i < sorted.len()
        invariant
            backup_views(sorted@) == sorted_v,
            sorted@.len() == sorted_v.len(),
            group1 == Seq::new(sorted_v.len(), |k: int| spec_backup_desc(sorted_v[k])),
            i <= sorted_v.len(),
            descriptor_views(out@) == group1.take(i as int),
        decreases sorted@.len() - i,
    {
        let e = &sorted[i];
        proof {
            assert(sorted@[i as int]@ == sorted_v[i as int]);
        }
        let mount = backup_mount_string(&e.subvol);
        let options = backup_options_opt(&e.subvol);
        let d = SubvolDescriptor {
            name: e.name.clone(),
            mount_target: Some(mount),
            options,
            nested_under: None,
        };
        proof {
            assert(d@ == spec_backup_desc(sorted_v[i as int]));
            assert(group1[i as int] == spec_backup_desc(sorted_v[i as int]));
        }
        let ghost prev_out = out@;
        out.push(d);
        proof {
            lemma_descriptor_views_push(prev_out, d);
            assert(descriptor_views(out@) == group1.take(i as int).push(d@));
            assert(group1.take(i as int).push(group1[i as int]) =~= group1.take(i + 1));
        }
        i += 1;
    }
    proof {
        assert(group1.take(group1.len() as int) =~= group1);
    }

    // The implicit snapshot-only subvolume
    out.push(
        SubvolDescriptor {
            name: String::from_str("@etc"),
            mount_target: None,
            options: None,
            nested_under: None,
        },
    );
    let ghost group2 = group1 + seq![
        SubvolDescriptorView {
            name: snapshot_only_name(),
            mount_target: None,
            options: None,
            nested_under: None,
        },
    ];
    proof {
        assert(descriptor_views(out@) =~= group2);
    }

    // Nested Exclude-class entries, tagged with their parent's mount target
    let parent_target = backup_target_of(
        &config.subvolumes.backup,
        config.subvolumes.exclude.parent.as_str(),
    );
    let ghost group3 = group2 + Seq::new(
        cv.subvolumes.exclude.paths.len(),
        |i: int|
            SubvolDescriptorView {
                name: spec_exclude_name(
                    cv.subvolumes.exclude.parent,
                    cv.subvolumes.exclude.paths[i],
                ),
                mount_target: None,
                options: None,
                nested_under: cv.spec_parent_target(),
            },
    );
    let mut j: usize = 0;
    while j < config.subvolumes.exclude.paths.len()
        invariant
            cv == config@,
            parent_target matches Some(m) ==> cv.spec_parent_target() == Some(m@),
            parent_target is None ==> cv.spec_parent_target() is None,
            j <= cv.subvolumes.exclude.paths.len(),
            group3 == group2 + Seq::new(
                cv.subvolumes.exclude.paths.len(),
                |i: int|
                    SubvolDescriptorView {
                        name: spec_exclude_name(
                            cv.subvolumes.exclude.parent,
                            cv.subvolumes.exclude.paths[i],
                        ),
                        mount_target: None,
                        options: None,
                        nested_under: cv.spec_parent_target(),
                    },
            ),
            descriptor_views(out@) == group3.take(group2.len() + j),
            group2.len() + cv.subvolumes.exclude.paths.len() == group3.len(),
        decreases cv.subvolumes.exclude.paths.len() - j,
    {
        let mut name = config.subvolumes.exclude.parent.clone();
        name.append("/");
        name.append(config.subvolumes.exclude.paths[j].as_str());
        let nested = match &parent_target {
            Some(m) => Some(m.clone()),
            None => None,
        };
        let d = SubvolDescriptor { name, mount_target: None, options: None, nested_under: nested };
        proof {
            assert(d@.name == spec_exclude_name(
                cv.subvolumes.exclude.parent,
                cv.subvolumes.exclude.paths[j as int],
            ));
            assert(d@ == group3[group2.len() + j]);
        }
        let ghost prev_out = out@;
        out.push(d);
        proof {
            lemma_descriptor_views_push(prev_out, d);
            assert(descriptor_views(out@) == group3.take(group2.len() + j).push(d@));
            assert(group3.take(group2.len() + j).push(group3[group2.len() + j]) =~= group3.take(
                group2.len() + j + 1,
            ));
        }
        j += 1;
    }
    proof {
        assert(group3.take(group3.len() as int) =~= group3);
    }

    // Transfer class
    let ghost whole = cv.spec_classify();
    let mut k: usize = 0;
    while k < config.subvolumes.transfer.len()
        invariant
            cv == config@,
            k <= cv.subvolumes.transfer.len(),
            group3 == whole.take(whole.len() - cv.subvolumes.transfer.len()),
            whole == cv.spec_classify(),
            whole.len() == group3.len() + cv.subvolumes.transfer.len(),
            descriptor_views(out@) == whole.take(group3.len() + k),
        decreases cv.subvolumes.transfer.len() - k,
    {
        let e = &config.subvolumes.transfer[k];
        let options = match &e.subvol.options {
            Some(o) => Some(o.clone()),
            None => None,
        };
        let d = SubvolDescriptor {
            name: e.name.clone(),
            mount_target: Some(e.subvol.mount.clone()),
            options,
            nested_under: None,
        };
        proof {
            assert(cv.subvolumes.transfer[k as int] == config.subvolumes.transfer@[k as int]@);
            assert(whole[group3.len() + k] == (SubvolDescriptorView {
                name: cv.subvolumes.transfer[k as int].name,
                mount_target: Some(cv.subvolumes.transfer[k as int].subvol.mount),
                options: cv.subvolumes.transfer[k as int].subvol.options,
                nested_under: None,
            }));
            assert(d@ == whole[group3.len() + k]);
        }
        let ghost prev_out = out@;
        out.push(d);
        proof {
            lemma_descriptor_views_push(prev_out, d);
            assert(descriptor_views(out@) == whole.take(group3.len() + k).push(d@));
            assert(whole.take(group3.len() + k).push(whole[group3.len() + k]) =~= whole.take(
                group3.len() + k + 1,
            ));
        }
        k += 1;
    }
    proof {
        assert(whole.take(whole.len() as int) =~= whole);
    }
    out
}

/// Law: the classifier lists the Backup class first, in weakly ascending
/// alphabetical name order, so generation order and human-facing summaries
/// are stable across runs for identical input.
pub proof fn lemma_classify_backup_alphabetical(c: ConfigView)
    ensures
        forall|i: int, j: int|
            #![trigger c.spec_classify()[i], c.spec_classify()[j]]
            0 <= i && j == i + 1 && j < c.subvolumes.backup.len() ==> !lex_lt(
                c.spec_classify()[j].name,
                c.spec_classify()[i].name,
            ),
{
    let sorted = spec_sort_backup(c.subvolumes.backup);
    lemma_sort_backup_len(c.subvolumes.backup);
    lemma_sort_backup_sorted(c.subvolumes.backup);
    let ds = c.spec_classify();
    assert forall|i: int, j: int|
        0 <= i && j == i + 1 && j < c.subvolumes.backup.len() implies !lex_lt(
        (#[trigger] ds[j]).name,
        (#[trigger] ds[i]).name,
    ) by {
        assert(ds[i] == spec_backup_desc(sorted[i]));
        assert(ds[j] == spec_backup_desc(sorted[j]));
        assert(sorted[i] == sorted[i]);
        assert(sorted[j] == sorted[j]);
    }
}

// ---------------------------------------------------------------------------
// The partition law
// ---------------------------------------------------------------------------

/// Some entry of `s` is named `n`.
pub open spec fn name_in(s: Seq<BackupEntryView>, n: Seq<char>) -> bool {
    exists|i: int| 0 <= i < s.len() && #[trigger] s[i].name == n
}

/// Some transfer entry of `t` is named `n`.
pub open spec fn transfer_name_in(t: Seq<crate::config::TransferEntryView>, n: Seq<char>) -> bool {
    exists|i: int| 0 <= i < t.len() && #[trigger] t[i].name == n
}

/// No two entries of `s` share a name.
pub open spec fn distinct_entry_names(s: Seq<BackupEntryView>) -> bool {
    forall|i: int, j: int| 0 <= i < j < s.len() ==> #[trigger] s[i].name != #[trigger] s[j].name
}

proof fn lemma_insert_name_in(s: Seq<BackupEntryView>, e: BackupEntryView, n: Seq<char>)
    ensures
        name_in(spec_insert_backup(s, e), n) <==> (name_in(s, n) || n == e.name),
{
    let r = spec_insert_backup(s, e);
    if name_in(r, n) {
        let i = choose|i: int| 0 <= i < r.len() && r[i].name == n;
        let x = r[i];
        assert(r.contains(x));
        lemma_insert_backup_membership(s, e, x);
        if s.contains(x) {
            let j = choose|j: int| 0 <= j < s.len() && s[j] == x;
            assert(s[j].name == n);
        }
    }
    if name_in(s, n) {
        let j = choose|j: int| 0 <= j < s.len() && s[j].name == n;
        let x = s[j];
        assert(s.contains(x));
        lemma_insert_backup_membership(s, e, x);
        let i = choose|i: int| 0 <= i < r.len() && r[i] == x;
        assert(r[i].name == n);
    }
    if n == e.name {
        lemma_insert_backup_membership(s, e, e);
        assert(r.contains(e));
        let i = choose|i: int| 0 <= i < r.len() && r[i] == e;
        assert(r[i].name == n);
    }
}

proof fn lemma_sort_name_in(s: Seq<BackupEntryView>, n: Seq<char>)
    ensures
        name_in(spec_sort_backup(s), n) <==> name_in(s, n),
    decreases s.len(),
{
    if s.len() == 0 {
    } else {
        lemma_sort_name_in(s.drop_last(), n);
        lemma_insert_name_in(spec_sort_backup(s.drop_last()), s.last(), n);
        if name_in(s, n) {
            let i = choose|i: int| 0 <= i < s.len() && s[i].name == n;
            if i < s.len() - 1 {
                assert(s.drop_last()[i].name == n);
            } else {
                assert(s.last().name == n);
            }
        }
        if name_in(s.drop_last(), n) {
            let i = choose|i: int| 0 <= i < s.drop_last().len() && s.drop_last()[i].name == n;
            assert(s[i].name == n);
        }
        if n == s.last().name {
            assert(s[s.len() - 1].name == n);
        }
    }
}

proof fn lemma_insert_distinct(s: Seq<BackupEntryView>, e: BackupEntryView)
    requires
        distinct_entry_names(s),
        !name_in(s, e.name),
    ensures
        distinct_entry_names(spec_insert_backup(s, e)),
    decreases s.len(),
{
    let r = spec_insert_backup(s, e);
    if s.len() == 0 {
    } else if lex_lt(e.name, s[0].name) {
        assert forall|i: int, j: int| 0 <= i < j < r.len() implies (#[trigger] r[i]).name != (
        #[trigger] r[j]).name by {
            if i == 0 {
                assert(r[j] == s[j - 1]);
                if e.name == s[j - 1].name {
                    assert(s[j - 1].name == e.name);
                    assert(name_in(s, e.name));
                }
            } else {
                assert(r[i] == s[i - 1]);
                assert(r[j] == s[j - 1]);
            }
        }
    } else {
        let s1 = s.skip(1);
        let r1 = spec_insert_backup(s1, e);
        assert forall|i: int, j: int| 0 <= i < j < s1.len() implies (#[trigger] s1[i]).name != (
        #[trigger] s1[j]).name by {
            assert(s1[i] == s[i + 1]);
            assert(s1[j] == s[j + 1]);
        }
        assert(!name_in(s1, e.name)) by {
            if name_in(s1, e.name) {
                let k = choose|k: int| 0 <= k < s1.len() && s1[k].name == e.name;
                assert(s[k + 1].name == e.name);
            }
        }
        lemma_insert_distinct(s1, e);
        lemma_insert_backup_len(s1, e);
        assert forall|i: int, j: int| 0 <= i < j < r.len() implies (#[trigger] r[i]).name != (
        #[trigger] r[j]).name by {
            if i == 0 {
                assert(r[j] == r1[j - 1]);
                let x = r1[j - 1];
                assert(r1.contains(x));
                lemma_insert_backup_membership(s1, e, x);
                if s1.contains(x) {
                    let k = choose|k: int| 0 <= k < s1.len() && s1[k] == x;
                    assert(s[k + 1] == x);
                    assert(s[0].name != s[k + 1].name);
                } else {
                    assert(x == e);
                    if s[0].name == e.name {
                        assert(name_in(s, e.name));
                    }
                }
            } else {
                assert(r[i] == r1[i - 1]);
                assert(r[j] == r1[j - 1]);
            }
        }
    }
}

proof fn lemma_sort_distinct(s: Seq<BackupEntryView>)
    requires
        distinct_entry_names(s),
    ensures
        distinct_entry_names(spec_sort_backup(s)),
    decreases s.len(),
{
    if s.len() == 0 {
    } else {
        let d = s.drop_last();
        assert forall|i: int, j: int| 0 <= i < j < d.len() implies (#[trigger] d[i]).name != (
        #[trigger] d[j]).name by {
            assert(d[i] == s[i]);
            assert(d[j] == s[j]);
        }
        lemma_sort_distinct(d);
        lemma_sort_name_in(d, s.last().name);
        assert(!name_in(d, s.last().name)) by {
            if name_in(d, s.last().name) {
                let k = choose|k: int| 0 <= k < d.len() && d[k].name == s.last().name;
                assert(s[k].name == s[s.len() - 1].name);
            }
        }
        lemma_insert_distinct(spec_sort_backup(d), s.last());
    }
}

/// A nested exclusion's name carries the path separator at the parent's
/// length, so it can never equal a separator-free subvolume name.
proof fn lemma_exclude_name_separator(parent: Seq<char>, path: Seq<char>)
    ensures
        spec_exclude_name(parent, path).len() == parent.len() + 1 + path.len(),
        spec_exclude_name(parent, path)[parent.len() as int] == '/',
        spec_exclude_name(parent, path).skip(parent.len() as int + 1) == path,
        spec_exclude_name(parent, path).take(parent.len() as int) == parent,
{
    reveal_strlit("/");
    assert("/"@.len() == 1);
    let n = spec_exclude_name(parent, path);
    assert(n.skip(parent.len() as int + 1) =~= path);
    assert(n.take(parent.len() as int) =~= parent);
}

/// The snapshot-only name is free of the path separator.
proof fn lemma_snapshot_only_name_chars()
    ensures
        !snapshot_only_name().contains('/'),
        snapshot_only_name().len() == 4,
{
    reveal_strlit("@etc");
    reveal_strlit("/");
    assert forall|i: int| 0 <= i < snapshot_only_name().len() implies snapshot_only_name()[i]
        != '/' by {
        assert(snapshot_only_name()[0] == '@');
        assert(snapshot_only_name()[1] == 'e');
        assert(snapshot_only_name()[2] == 't');
        assert(snapshot_only_name()[3] == 'c');
    }
    if snapshot_only_name().contains('/') {
        let i = choose|i: int|
            0 <= i < snapshot_only_name().len() && snapshot_only_name()[i] == '/';
    }
}

/// Law: classification partitions the subvolume names into exactly the
/// three classes and the implicit snapshot-only subvolume.
///
/// For every well-formed configuration, the classifier's descriptor list
/// has one entry per Backup-class name, the snapshot-only name, one entry
/// per nested exclusion, and one entry per Transfer-class name; no name is
/// repeated, and no mount target is claimed by two descriptors.
pub proof fn lemma_classify_partitions(c: ConfigView)
    requires
        c.wf_subvolumes(),
    ensures
        c.spec_classify().len() == c.subvolumes.backup.len() + 1 + c.subvolumes.exclude.paths.len()
            + c.subvolumes.transfer.len(),
        forall|i: int, j: int|
            0 <= i < j < c.spec_classify().len() ==> (#[trigger] c.spec_classify()[i]).name != (
            #[trigger] c.spec_classify()[j]).name,
        forall|n: Seq<char>|
            #[trigger] descriptor_names(c.spec_classify()).contains(n) <==> (name_in(
                c.subvolumes.backup,
                n,
            ) || n == snapshot_only_name() || (exists|k: int|
                0 <= k < c.subvolumes.exclude.paths.len() && n == spec_exclude_name(
                    c.subvolumes.exclude.parent,
                    #[trigger] c.subvolumes.exclude.paths[k],
                )) || transfer_name_in(c.subvolumes.transfer, n)),
        forall|i: int, j: int|
            0 <= i < j < c.spec_classify().len() && (#[trigger] c.spec_classify()[i]).mount_target
                is Some && (#[trigger] c.spec_classify()[j]).mount_target is Some
                ==> c.spec_classify()[i].mount_target != c.spec_classify()[j].mount_target,
{
    let b = c.subvolumes.backup;
    let t = c.subvolumes.transfer;
    let x = c.subvolumes.exclude;
    let sorted = spec_sort_backup(b);
    let ds = c.spec_classify();
    lemma_sort_backup_len(b);
    lemma_sort_distinct(b);
    assert(distinct_entry_names(sorted));
    lemma_snapshot_only_name_chars();

    let nb = sorted.len() as int;
    let ne = x.paths.len() as int;
    let nt = t.len() as int;
    assert(ds.len() == nb + 1 + ne + nt);

    // where each descriptor comes from
    assert forall|i: int| 0 <= i < nb implies ds[i] == spec_backup_desc(sorted[i]) by {}
    assert(ds[nb].name == snapshot_only_name());
    assert(ds[nb].mount_target is None);
    assert forall|i: int| nb + 1 <= i < nb + 1 + ne implies ds[i].name == spec_exclude_name(
        x.parent,
        x.paths[i - nb - 1],
    ) && ds[i].mount_target is None by {}
    assert forall|i: int| nb + 1 + ne <= i < ds.len() implies ds[i].name == t[i - nb - 1
        - ne].name && ds[i].mount_target == Some(t[i - nb - 1 - ne].subvol.mount) by {}

    // every sorted entry is an entry of the backup class
    assert forall|i: int| 0 <= i < nb implies b.contains(#[trigger] sorted[i]) by {
        lemma_sort_backup_membership(b, sorted[i]);
        assert(sorted.contains(sorted[i]));
    }

    // names are pairwise distinct
    assert forall|i: int, j: int| 0 <= i < j < ds.len() implies (#[trigger] ds[i]).name != (
    #[trigger] ds[j]).name by {
        if i < nb {
            let ki = choose|k: int| 0 <= k < b.len() && b[k] == sorted[i];
            if j < nb {
                // two backup names: sorted names are distinct
            } else if j == nb {
                // a backup name is never the snapshot-only name
                assert(b[ki].name != snapshot_only_name());
            } else if j < nb + 1 + ne {
                // a backup name has no separator; an exclusion name has one
                lemma_exclude_name_separator(x.parent, x.paths[j - nb - 1]);
                if ds[i].name == ds[j].name {
                    assert(b[ki].name[x.parent.len() as int] == '/');
                    assert(b[ki].name.contains('/'));
                }
            } else {
                // a backup name never equals a transfer name
                assert(b[ki].name != t[j - nb - 1 - ne].name);
            }
        } else if i == nb {
            if j < nb + 1 + ne {
                lemma_exclude_name_separator(x.parent, x.paths[j - nb - 1]);
                if ds[i].name == ds[j].name {
                    assert(snapshot_only_name()[x.parent.len() as int] == '/');
                    assert(snapshot_only_name().contains('/'));
                }
            } else {
                assert(t[j - nb - 1 - ne].name != snapshot_only_name());
            }
        } else if i < nb + 1 + ne {
            if j < nb + 1 + ne {
                // two exclusion names with distinct relative paths
                lemma_exclude_name_separator(x.parent, x.paths[i - nb - 1]);
                lemma_exclude_name_separator(x.parent, x.paths[j - nb - 1]);
                if ds[i].name == ds[j].name {
                    assert(ds[i].name.skip(x.parent.len() as int + 1) == ds[j].name.skip(
                        x.parent.len() as int + 1,
                    ));
                    assert(x.paths[i - nb - 1] == x.paths[j - nb - 1]);
                }
            } else {
                // an exclusion name has a separator; a transfer name has none
                lemma_exclude_name_separator(x.parent, x.paths[i - nb - 1]);
                if ds[i].name == ds[j].name {
                    assert(t[j - nb - 1 - ne].name[x.parent.len() as int] == '/');
                    assert(t[j - nb - 1 - ne].name.contains('/'));
                }
            }
        } else {
            // two transfer names
            assert(t[i - nb - 1 - ne].name != t[j - nb - 1 - ne].name);
        }
    }

    // the names are exactly those of the three classes and the
    // snapshot-only subvolume
    assert forall|n: Seq<char>| #[trigger]
        descriptor_names(ds).contains(n) <==> (name_in(b, n) || n == snapshot_only_name() || (
        exists|k: int|
            0 <= k < x.paths.len() && n == spec_exclude_name(
                x.parent,
                #[trigger] x.paths[k],
            )) || transfer_name_in(t, n)) by {
        if descriptor_names(ds).contains(n) {
            let i = choose|i: int| 0 <= i < ds.len() && descriptor_names(ds)[i] == n;
            if i < nb {
                lemma_sort_name_in(b, n);
                assert(sorted[i].name == n);
                assert(name_in(sorted, n));
            } else if i == nb {
            } else if i < nb + 1 + ne {
                assert(n == spec_exclude_name(x.parent, x.paths[i - nb - 1]));
            } else {
                assert(t[i - nb - 1 - ne].name == n);
            }
        }
        if name_in(b, n) {
            lemma_sort_name_in(b, n);
            let i = choose|i: int| 0 <= i < sorted.len() && sorted[i].name == n;
            assert(descriptor_names(ds)[i] == n);
            assert(descriptor_names(ds).contains(n));
        }
        if n == snapshot_only_name() {
            assert(descriptor_names(ds)[nb] == n);
            assert(descriptor_names(ds).contains(n));
        }
        if exists|k: int|
            0 <= k < x.paths.len() && n == spec_exclude_name(
                x.parent,
                #[trigger] x.paths[k],
            ) {
            let k = choose|k: int|
                0 <= k < x.paths.len() && n == spec_exclude_name(x.parent, x.paths[k]);
            assert(descriptor_names(ds)[nb + 1 + k] == n);
            assert(descriptor_names(ds).contains(n));
        }
        if transfer_name_in(t, n) {
            let k = choose|k: int| 0 <= k < t.len() && t[k].name == n;
            assert(descriptor_names(ds)[nb + 1 + ne + k] == n);
            assert(descriptor_names(ds).contains(n));
        }
    }

    // no mount target is claimed twice
    assert forall|i: int, j: int|
        0 <= i < j < ds.len() && (#[trigger] ds[i]).mount_target is Some && (
        #[trigger] ds[j]).mount_target is Some implies ds[i].mount_target
        != ds[j].mount_target by {
        if i < nb {
            let ki = choose|k: int| 0 <= k < b.len() && b[k] == sorted[i];
            if j < nb {
                let kj = choose|k: int| 0 <= k < b.len() && b[k] == sorted[j];
                assert(sorted[i].name != sorted[j].name);
                assert(ki != kj);
                if ki < kj {
                    assert(b[ki].subvol.spec_mount() != b[kj].subvol.spec_mount());
                } else {
                    assert(b[kj].subvol.spec_mount() != b[ki].subvol.spec_mount());
                }
            } else if j >= nb + 1 + ne {
                assert(b[ki].subvol.spec_mount() != t[j - nb - 1 - ne].subvol.mount);
            }
        } else if i >= nb + 1 + ne && j >= nb + 1 + ne {
            assert(t[i - nb - 1 - ne].subvol.mount != t[j - nb - 1 - ne].subvol.mount);
        }
    }
}

} // verus!
