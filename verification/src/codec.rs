//! Reading and writing the configuration file: structured text of
//! key/value lines and nested tables.
//!
//! Writing is specified exactly: the emitted text is a spec function of
//! the configuration's view, with every string in literal quotes, so a
//! configuration free of quotes and line breaks survives unchanged.
//! Reading accepts that text and the common variants of the format: keys
//! and values in literal or basic quotes (with backslash escapes), the
//! bare-string shorthand for Backup-class entries beside the structured
//! table form, omitted optional fields defaulting per field, and unknown
//! sections ignored. A missing required field or a malformed line is a
//! parse failure, never a panic.
use vstd::prelude::*;

use crate::config::{
    BackupEntry, BackupEntryView, BackupSubvol, BackupSubvolView, BtrbkConfig, Config, ConfigView,
    ExcludeConfig, Ext4SyncConfig, MountConfig, SubvolumesConfig, TransferEntry, TransferSubvol,
    TransferEntryView, TransferSubvolView, UserConfig, VhdxConfig,
};
use crate::config::{
    BtrbkConfigView, ExcludeConfigView, Ext4SyncConfigView, MountConfigView, SubvolumesConfigView,
    UserConfigView, VhdxConfigView,
};
use crate::strkit::{spec_trim, split_lines, str_eq, starts_with, trim};

verus! {

// ---------------------------------------------------------------------------
// Writing
// ---------------------------------------------------------------------------

/// A value in literal quotes.
pub open spec fn spec_quoted(v: Seq<char>) -> Seq<char> {
    "'"@ + v + "'"@
}

/// The lines of the simple-form Backup-class entries, in order.
pub open spec fn spec_simple_backup_lines(s: Seq<BackupEntryView>) -> Seq<char>
    decreases s.len(),
{
    if s.len() == 0 {
        Seq::<char>::empty()
    } else {
        (match s[0].subvol {
            BackupSubvolView::Simple(m) => "'"@ + s[0].name + "' = '"@ + m + "'\n"@,
            BackupSubvolView::Full { .. } => Seq::<char>::empty(),
        }) + spec_simple_backup_lines(s.skip(1))
    }
}

/// The sections of the full-form Backup-class entries, in order.
pub open spec fn spec_full_backup_sections(s: Seq<BackupEntryView>) -> Seq<char>
    decreases s.len(),
{
    if s.len() == 0 {
        Seq::<char>::empty()
    } else {
        (match s[0].subvol {
            BackupSubvolView::Simple(_) => Seq::<char>::empty(),
            BackupSubvolView::Full { mount, options } => "[subvolumes.backup."@ + "'"@ + s[0].name
                + "']\nmount = '"@ + mount + "'\n"@ + (match options {
                Some(o) => "options = '"@ + o + "'\n"@,
                None => Seq::<char>::empty(),
            }) + "\n"@,
        }) + spec_full_backup_sections(s.skip(1))
    }
}

/// The exclusion paths as a quoted array body.
pub open spec fn spec_paths_array(paths: Seq<Seq<char>>) -> Seq<char>
    decreases paths.len(),
{
    if paths.len() == 0 {
        Seq::<char>::empty()
    } else {
        spec_quoted(paths[0]) + spec_paths_tail(paths.skip(1))
    }
}

/// The exclusion paths after the first, each preceded by the separator.
pub open spec fn spec_paths_tail(paths: Seq<Seq<char>>) -> Seq<char>
    decreases paths.len(),
{
    if paths.len() == 0 {
        Seq::<char>::empty()
    } else {
        ", "@ + spec_quoted(paths[0]) + spec_paths_tail(paths.skip(1))
    }
}

/// The sections of the Transfer-class entries, in order.
pub open spec fn spec_transfer_sections(s: Seq<TransferEntryView>) -> Seq<char>
    decreases s.len(),
{
    if s.len() == 0 {
        Seq::<char>::empty()
    } else {
        "[subvolumes.transfer."@ + "'"@ + s[0].name + "']\nmount = '"@ + s[0].subvol.mount
            + "'\nnodatacow = "@ + (if s[0].subvol.nodatacow {
            "true"@
        } else {
            "false"@
        }) + "\n"@ + (match s[0].subvol.options {
            Some(o) => "options = '"@ + o + "'\n"@,
            None => Seq::<char>::empty(),
        }) + "\n"@ + spec_transfer_sections(s.skip(1))
    }
}

/// The whole configuration file.
pub open spec fn spec_config_text(c: ConfigView) -> Seq<char> {
    (match c.uuid {
        Some(u) => "uuid = '"@ + u + "'\n\n"@,
        None => Seq::<char>::empty(),
    }) + "[vhdx]\npath = '"@ + c.vhdx.path + "'\nlabel = '"@ + c.vhdx.label + "'\n\n[user]\nname = '"@
        + c.user.name + "'\noptions = '"@ + c.user.options + "'\n\n[mount]\nbase = '"@
        + c.mount.base + "'\noptions = '"@ + c.mount.options + "'\n\n[subvolumes.backup]\n"@
        + spec_simple_backup_lines(c.subvolumes.backup) + "\n"@ + spec_full_backup_sections(
        c.subvolumes.backup,
    ) + "[subvolumes.exclude]\nparent = '"@ + c.subvolumes.exclude.parent + "'\npaths = ["@
        + spec_paths_array(c.subvolumes.exclude.paths) + "]\n\n"@ + spec_transfer_sections(
        c.subvolumes.transfer,
    ) + "[btrbk]\nsnapshot_dir = '"@ + c.btrbk.snapshot_dir + "'\npreserve_min = '"@
        + c.btrbk.preserve_min + "'\npreserve = '"@ + c.btrbk.preserve + "'\ntimer_schedule = '"@
        + c.btrbk.timer_schedule + "'\n\n[ext4_sync]\nmount_point = '"@
        + c.ext4_sync.mount_point + "'\n"@
}

impl Config {
    /// Render the configuration as its file text.
    #[verifier::rlimit(100)]
    pub fn to_text(&self) -> (r: String)
        ensures
            r@ == spec_config_text(self@),
    {
        let ghost cv = self@;
        let mut out = String::new();
        match &self.uuid {
            Some(u) => {
                out.append("uuid = '");
                out.append(u.as_str());
                out.append("'\n\n");
            },
            None => {
                proof {
                    assert(out@ =~= Seq::<char>::empty());
                }
            },
        }
        proof {
            assert(out@ == (match cv.uuid {
                Some(u) => "uuid = '"@ + u + "'\n\n"@,
                None => Seq::<char>::empty(),
            }));
        }
        out.append("[vhdx]\npath = '");
        out.append(self.vhdx.path.as_str());
        out.append("'\nlabel = '");
        out.append(self.vhdx.label.as_str());
        out.append("'\n\n[user]\nname = '");
        out.append(self.user.name.as_str());
        out.append("'\noptions = '");
        out.append(self.user.options.as_str());
        out.append("'\n\n[mount]\nbase = '");
        out.append(self.mount.base.as_str());
        out.append("'\noptions = '");
        out.append(self.mount.options.as_str());
        out.append("'\n\n[subvolumes.backup]\n");

        // simple-form entries under the class table
        let ghost bv = cv.subvolumes.backup;
        let ghost m1 = out@;
        let mut i: usize = 0;
        proof {
            assert(bv.skip(0) =~= bv);
        }
        while i < self.subvolumes.backup.len()
            invariant
                self@ == cv,
                bv == cv.subvolumes.backup,
                self.subvolumes.backup@.len() == bv.len(),
                i <= bv.len(),
                m1 + spec_simple_backup_lines(bv) == out@ + spec_simple_backup_lines(
                    bv.skip(i as int),
                ),
            decreases bv.len() - i,
        {
            let ghost prev = out@;
            let ghost tail = bv.skip(i as int);
            proof {
                assert(self.subvolumes.backup@[i as int]@ == bv[i as int]);
                assert(tail[0] == bv[i as int]);
                assert(tail.skip(1) =~= bv.skip(i + 1));
            }
            let entry = &self.subvolumes.backup[i];
            match &entry.subvol {
                BackupSubvol::Simple(m) => {
                    out.append("'");
                    out.append(entry.name.as_str());
                    out.append("' = '");
                    out.append(m.as_str());
                    out.append("'\n");
                },
                BackupSubvol::Full { .. } => {},
            }
            proof {
                assert(prev + spec_simple_backup_lines(tail) =~= out@ + spec_simple_backup_lines(
                    bv.skip(i + 1),
                ));
            }
            i += 1;
        }
        proof {
            assert(bv.skip(bv.len() as int) =~= Seq::<BackupEntryView>::empty());
            assert(out@ + Seq::<char>::empty() =~= out@);
            assert(out@ == m1 + spec_simple_backup_lines(bv));
        }
        out.append("\n");

        // full-form entries as their own sections
        let ghost m2 = out@;
        let mut j: usize = 0;
        proof {
            assert(bv.skip(0) =~= bv);
        }
        while j < self.subvolumes.backup.len()
            invariant
                self@ == cv,
                bv == cv.subvolumes.backup,
                self.subvolumes.backup@.len() == bv.len(),
                j <= bv.len(),
                m2 + spec_full_backup_sections(bv) == out@ + spec_full_backup_sections(
                    bv.skip(j as int),
                ),
            decreases bv.len() - j,
        {
            let ghost prev = out@;
            let ghost tail = bv.skip(j as int);
            proof {
                assert(self.subvolumes.backup@[j as int]@ == bv[j as int]);
                assert(tail[0] == bv[j as int]);
                assert(tail.skip(1) =~= bv.skip(j + 1));
            }
            let entry = &self.subvolumes.backup[j];
            match &entry.subvol {
                BackupSubvol::Simple(_) => {},
                BackupSubvol::Full { mount, options } => {
                    out.append("[subvolumes.backup.");
                    out.append("'");
                    out.append(entry.name.as_str());
                    out.append("']\nmount = '");
                    out.append(mount.as_str());
                    out.append("'\n");
                    match options {
                        Some(o) => {
                            out.append("options = '");
                            out.append(o.as_str());
                            out.append("'\n");
                        },
                        None => {},
                    }
                    out.append("\n");
                },
            }
            proof {
                assert(prev + spec_full_backup_sections(tail) =~= out@
                    + spec_full_backup_sections(bv.skip(j + 1)));
            }
            j += 1;
        }
        proof {
            assert(bv.skip(bv.len() as int) =~= Seq::<BackupEntryView>::empty());
            assert(out@ + Seq::<char>::empty() =~= out@);
            assert(out@ == m2 + spec_full_backup_sections(bv));
        }

        out.append("[subvolumes.exclude]\nparent = '");
        out.append(self.subvolumes.exclude.parent.as_str());
        out.append("'\npaths = [");

        // the exclusion paths, quoted and separated
        let ghost pv = cv.subvolumes.exclude.paths;
        let n = self.subvolumes.exclude.paths.len();
        if n > 0 {
            out.append("'");
            out.append(self.subvolumes.exclude.paths[0].as_str());
            out.append("'");
            proof {
                assert(self.subvolumes.exclude.paths@[0]@ == pv[0]);
            }
        }
        let ghost m3 = out@;
        let mut k: usize = 1;
        proof {
            if pv.len() > 0 {
                assert(pv.skip(1) =~= pv.skip(1));
            }
        }
        while k < n
            invariant
                self@ == cv,
                pv == cv.subvolumes.exclude.paths,
                self.subvolumes.exclude.paths@.len() == pv.len(),
                n == pv.len(),
                1 <= k <= pv.len() || (pv.len() == 0 && k == 1),
                pv.len() > 0 ==> m3 + spec_paths_tail(pv.skip(1)) == out@ + spec_paths_tail(
                    pv.skip(k as int),
                ),
                pv.len() == 0 ==> out@ == m3,
            decreases pv.len() - k,
        {
            let ghost prev = out@;
            let ghost tail = pv.skip(k as int);
            proof {
                assert(self.subvolumes.exclude.paths@[k as int]@ == pv[k as int]);
                assert(tail[0] == pv[k as int]);
                assert(tail.skip(1) =~= pv.skip(k + 1));
            }
            out.append(", '");
            out.append(self.subvolumes.exclude.paths[k].as_str());
            out.append("'");
            proof {
                reveal_strlit(", '");
                reveal_strlit(", ");
                reveal_strlit("'");
                assert(", '"@ =~= ", "@ + "'"@);
                assert(prev + spec_paths_tail(tail) =~= out@ + spec_paths_tail(pv.skip(k + 1)));
            }
            k += 1;
        }
        proof {
            if pv.len() > 0 {
                assert(pv.skip(pv.len() as int) =~= Seq::<Seq<char>>::empty());
                assert(out@ + Seq::<char>::empty() =~= out@);
                assert(out@ == m3 + spec_paths_tail(pv.skip(1)));
            }
            assert(out@ == (m3 + spec_paths_tail(if pv.len() > 0 {
                pv.skip(1)
            } else {
                pv
            })));
        }
        out.append("]\n\n");

        // the Transfer class as its own sections
        let ghost tv = cv.subvolumes.transfer;
        let ghost m4 = out@;
        let mut t: usize = 0;
        proof {
            assert(tv.skip(0) =~= tv);
        }
        while t < self.subvolumes.transfer.len()
            invariant
                self@ == cv,
                tv == cv.subvolumes.transfer,
                self.subvolumes.transfer@.len() == tv.len(),
                t <= tv.len(),
                m4 + spec_transfer_sections(tv) == out@ + spec_transfer_sections(tv.skip(t as int)),
            decreases tv.len() - t,
        {
            let ghost prev = out@;
            let ghost tail = tv.skip(t as int);
            proof {
                assert(self.subvolumes.transfer@[t as int]@ == tv[t as int]);
                assert(tail[0] == tv[t as int]);
                assert(tail.skip(1) =~= tv.skip(t + 1));
            }
            let entry = &self.subvolumes.transfer[t];
            out.append("[subvolumes.transfer.");
            out.append("'");
            out.append(entry.name.as_str());
            out.append("']\nmount = '");
            out.append(entry.subvol.mount.as_str());
            out.append("'\nnodatacow = ");
            if entry.subvol.nodatacow {
                out.append("true");
            } else {
                out.append("false");
            }
            out.append("\n");
            match &entry.subvol.options {
                Some(o) => {
                    out.append("options = '");
                    out.append(o.as_str());
                    out.append("'\n");
                },
                None => {},
            }
            out.append("\n");
            proof {
                assert(prev + spec_transfer_sections(tail) =~= out@ + spec_transfer_sections(
                    tv.skip(t + 1),
                ));
            }
            t += 1;
        }
        proof {
            assert(tv.skip(tv.len() as int) =~= Seq::<TransferEntryView>::empty());
            assert(out@ + Seq::<char>::empty() =~= out@);
            assert(out@ == m4 + spec_transfer_sections(tv));
        }

        out.append("[btrbk]\nsnapshot_dir = '");
        out.append(self.btrbk.snapshot_dir.as_str());
        out.append("'\npreserve_min = '");
        out.append(self.btrbk.preserve_min.as_str());
        out.append("'\npreserve = '");
        out.append(self.btrbk.preserve.as_str());
        out.append("'\ntimer_schedule = '");
        out.append(self.btrbk.timer_schedule.as_str());
        out.append("'\n\n[ext4_sync]\nmount_point = '");
        out.append(self.ext4_sync.mount_point.as_str());
        out.append("'\n");
        proof {
            assert(out@ =~= spec_config_text(cv));
        }
        out
    }
}

// ---------------------------------------------------------------------------
// Reading: the grammar, in spec
// ---------------------------------------------------------------------------

/// One level of backslash escaping removed: a backslash makes the next
/// character literal.
pub open spec fn spec_unescape(s: Seq<char>) -> Seq<char>
    decreases s.len(),
{
    if s.len() == 0 {
        Seq::<char>::empty()
    } else if s[0] == '\\' && s.len() >= 2 {
        seq![s[1]] + spec_unescape(s.skip(2))
    } else {
        seq![s[0]] + spec_unescape(s.skip(1))
    }
}

/// A quoted string value: literal quotes keep the text as it stands,
/// basic quotes honour backslash escapes.
pub open spec fn spec_string_token(t: Seq<char>) -> Option<Seq<char>> {
    if t.len() < 2 {
        None
    } else if t[0] == '\'' && t[t.len() - 1] == '\'' {
        Some(t.subrange(1, t.len() - 1))
    } else if t[0] == '"' && t[t.len() - 1] == '"' {
        Some(spec_unescape(t.subrange(1, t.len() - 1)))
    } else {
        None
    }
}

/// A key: its quoted form unwrapped, a bare key as it stands.
pub open spec fn spec_key(t: Seq<char>) -> Seq<char> {
    match spec_string_token(t) {
        Some(k) => k,
        None => t,
    }
}

/// A boolean value.
pub open spec fn spec_bool(t: Seq<char>) -> Option<bool> {
    if t == "true"@ {
        Some(true)
    } else if t == "false"@ {
        Some(false)
    } else {
        None
    }
}

/// The position of the closing quote at or after `i`, honouring backslash
/// escapes inside basic quotes; negative when none closes.
pub open spec fn spec_find_close(body: Seq<char>, i: int, quote: char) -> int
    decreases body.len() - i,
{
    if i < 0 || i >= body.len() {
        -1
    } else if body[i] == quote {
        i
    } else if quote == '"' && body[i] == '\\' && i + 1 < body.len() {
        spec_find_close(body, i + 2, quote)
    } else {
        spec_find_close(body, i + 1, quote)
    }
}

/// The quoted items of an array body, from position `i` on; separators
/// between them are skipped.
pub open spec fn spec_items(body: Seq<char>, i: int) -> Option<Seq<Seq<char>>>
    decreases body.len() - i,
{
    if i < 0 {
        None
    } else if i >= body.len() {
        Some(Seq::<Seq<char>>::empty())
    } else if body[i] == ' ' || body[i] == ',' || body[i] == '\t' {
        spec_items(body, i + 1)
    } else if body[i] == '\'' || body[i] == '"' {
        let j = spec_find_close(body, i + 1, body[i]);
        if j < i + 1 || j >= body.len() {
            None
        } else {
            let piece = if body[i] == '"' {
                spec_unescape(body.subrange(i + 1, j))
            } else {
                body.subrange(i + 1, j)
            };
            match spec_items(body, j + 1) {
                Some(rest) => Some(seq![piece] + rest),
                None => None,
            }
        }
    } else {
        None
    }
}

/// An array of quoted strings.
pub open spec fn spec_array(t: Seq<char>) -> Option<Seq<Seq<char>>> {
    if t.len() < 2 || t[0] != '[' || t[t.len() - 1] != ']' {
        None
    } else {
        spec_items(t.subrange(1, t.len() - 1), 0)
    }
}

/// Length of the prefix of `s` before its first `=`, or all of `s`.
pub open spec fn spec_eq_end(s: Seq<char>) -> int
    decreases s.len(),
{
    if s.len() == 0 || s[0] == '=' {
        0
    } else {
        1 + spec_eq_end(s.skip(1))
    }
}

/// A key/value line split at its first `=`, both sides trimmed; a line
/// without `=` does not split.
pub open spec fn spec_split_kv(t: Seq<char>) -> Option<(Seq<char>, Seq<char>)> {
    if spec_eq_end(t) >= t.len() {
        None
    } else {
        Some((spec_trim(t.take(spec_eq_end(t))), spec_trim(t.skip(spec_eq_end(t) + 1))))
    }
}

// ---------------------------------------------------------------------------
// Reading: the executable grammar helpers
// ---------------------------------------------------------------------------

/// Remove one level of backslash escaping.
fn unescape(s: &str) -> (r: String)
    ensures
        r@ == spec_unescape(s@),
{
    let n: usize = s.unicode_len();
    let mut out = String::new();
    let mut i: usize = 0;
    proof {
        assert(s@.skip(0) =~= s@);
        assert(Seq::<char>::empty() + spec_unescape(s@) =~= spec_unescape(s@));
    }
    while i < n
        invariant
            n == s@.len(),
            i <= n,
            spec_unescape(s@) == out@ + spec_unescape(s@.skip(i as int)),
        decreases n - i,
    {
        let ghost prev = out@;
        let ghost tail = s@.skip(i as int);
        let c = s.get_char(i);
        proof {
            assert(tail[0] == s@[i as int]);
        }
        if c == '\\' && i + 1 < n {
            out.append(s.substring_char(i + 1, i + 2));
            proof {
                assert(s@.subrange(i + 1, i + 2) =~= seq![tail[1]]);
                assert(tail.skip(2) =~= s@.skip(i + 2));
                assert(prev + spec_unescape(tail) =~= out@ + spec_unescape(s@.skip(i + 2)));
            }
            i += 2;
        } else {
            out.append(s.substring_char(i, i + 1));
            proof {
                assert(s@.subrange(i as int, i + 1) =~= seq![tail[0]]);
                assert(tail.skip(1) =~= s@.skip(i + 1));
                if tail[0] == '\\' && tail.len() >= 2 {
                    assert(i + 1 < n);
                }
                assert(spec_unescape(tail) == seq![tail[0]] + spec_unescape(tail.skip(1)));
                assert(prev + spec_unescape(tail) =~= out@ + spec_unescape(s@.skip(i + 1)));
            }
            i += 1;
        }
    }
    proof {
        assert(s@.skip(n as int) =~= Seq::<char>::empty());
        assert(out@ + spec_unescape(s@.skip(n as int)) =~= out@);
    }
    out
}

/// A quoted string value, if the token is one.
fn parse_string_token(t: &str) -> (r: Option<String>)
    ensures
        match r {
            Some(v) => spec_string_token(t@) == Some(v@),
            None => spec_string_token(t@) is None,
        },
{
    let n: usize = t.unicode_len();
    if n < 2 {
        return None;
    }
    let c0 = t.get_char(0);
    let cl = t.get_char(n - 1);
    if c0 == '\'' && cl == '\'' {
        Some(String::from_str(t.substring_char(1, n - 1)))
    } else if c0 == '"' && cl == '"' {
        Some(unescape(t.substring_char(1, n - 1)))
    } else {
        None
    }
}

/// A key: its quoted form unwrapped, a bare key as it stands.
fn parse_key(t: &str) -> (r: String)
    ensures
        r@ == spec_key(t@),
{
    match parse_string_token(t) {
        Some(k) => k,
        None => String::from_str(t),
    }
}

/// A boolean value.
fn parse_bool_token(t: &str) -> (r: Option<bool>)
    ensures
        r == spec_bool(t@),
{
    if str_eq(t, "true") {
        Some(true)
    } else if str_eq(t, "false") {
        Some(false)
    } else {
        None
    }
}

/// The position of the closing quote, scanning from `start`.
fn find_close(body: &str, start: usize, quote: char) -> (r: Option<usize>)
    requires
        start <= body@.len(),
    ensures
        match r {
            Some(j) => start <= j < body@.len() && spec_find_close(body@, start as int, quote)
                == j,
            None => spec_find_close(body@, start as int, quote) == -1,
        },
{
    let m: usize = body.unicode_len();
    let mut j: usize = start;
    while j < m
        invariant
            m == body@.len(),
            start <= j <= m,
            spec_find_close(body@, start as int, quote) == spec_find_close(
                body@,
                j as int,
                quote,
            ),
        decreases m - j,
    {
        let cj = body.get_char(j);
        if cj == quote {
            return Some(j);
        } else if quote == '"' && cj == '\\' && j + 1 < m {
            j += 2;
        } else {
            j += 1;
        }
    }
    None
}

/// An array of quoted strings, if the token is one.
fn parse_array(t: &str) -> (r: Option<Vec<String>>)
    ensures
        match r {
            Some(v) => spec_array(t@) == Some(crate::strkit::views_of(v@)),
            None => spec_array(t@) is None,
        },
{
    broadcast use crate::strkit::lemma_views_push, crate::strkit::lemma_views_empty;

    let n: usize = t.unicode_len();
    if n < 2 || t.get_char(0) != '[' || t.get_char(n - 1) != ']' {
        return None;
    }
    let body = t.substring_char(1, n - 1);
    let ghost bv = t@.subrange(1, t@.len() - 1);
    let m: usize = body.unicode_len();
    let mut out: Vec<String> = Vec::new();
    let mut i: usize = 0;
    while i < m
        invariant
            body@ == bv,
            bv == t@.subrange(1, t@.len() - 1),
            m == bv.len(),
            i <= m,
            spec_items(bv, 0) == (match spec_items(bv, i as int) {
                Some(rest) => Some(crate::strkit::views_of(out@) + rest),
                None => None::<Seq<Seq<char>>>,
            }),
        decreases m - i,
    {
        let ghost prev = out@;
        let c = body.get_char(i);
        if c == ' ' || c == ',' || c == '\t' {
            i += 1;
        } else if c == '\'' || c == '"' {
            let j = match find_close(body, i + 1, c) {
                Some(j) => j,
                None => {
                    return None;
                },
            };
            let piece = body.substring_char(i + 1, j);
            if c == '"' {
                out.push(unescape(piece));
            } else {
                out.push(String::from_str(piece));
            }
            proof {
                let rest_opt = spec_items(bv, j + 1);
                if rest_opt is Some {
                    let rest = rest_opt.unwrap();
                    assert(crate::strkit::views_of(prev) + (seq![piece@] + rest)
                        =~= crate::strkit::views_of(prev).push(piece@) + rest);
                    assert(crate::strkit::views_of(prev) + (seq![spec_unescape(piece@)] + rest)
                        =~= crate::strkit::views_of(prev).push(spec_unescape(piece@)) + rest);
                }
            }
            i = j + 1;
        } else {
            return None;
        }
    }
    proof {
        assert(spec_items(bv, m as int) == Some(Seq::<Seq<char>>::empty()));
        if spec_items(bv, 0) matches Some(all) {
            assert(crate::strkit::views_of(out@) + Seq::<Seq<char>>::empty()
                =~= crate::strkit::views_of(out@));
        }
    }
    Some(out)
}

proof fn lemma_eq_end(s: Seq<char>, e: int)
    requires
        0 <= e <= s.len(),
        forall|k: int| 0 <= k < e ==> s[k] != '=',
        e < s.len() ==> s[e] == '=',
    ensures
        spec_eq_end(s) == e,
    decreases e,
{
    if e == 0 {
    } else {
        lemma_eq_end(s.skip(1), e - 1);
    }
}

/// Split a line at its first `=` into a trimmed key and a trimmed value.
fn split_kv(t: &str) -> (r: Option<(String, String)>)
    ensures
        match r {
            Some(kv) => spec_split_kv(t@) == Some((kv.0@, kv.1@)),
            None => spec_split_kv(t@) is None,
        },
{
    let n: usize = t.unicode_len();
    let mut e: usize = 0;
    while e < n && t.get_char(e) != '='
        invariant
            n == t@.len(),
            e <= n,
            forall|k: int| 0 <= k < e ==> t@[k] != '=',
        decreases n - e,
    {
        e += 1;
    }
    proof {
        lemma_eq_end(t@, e as int);
    }
    if e == n {
        return None;
    }
    let key = trim(t.substring_char(0, e));
    let val = trim(t.substring_char(e + 1, n));
    proof {
        assert(t@.subrange(0, e as int) =~= t@.take(e as int));
        assert(t@.subrange(e + 1, n as int) =~= t@.skip(e + 1));
    }
    Some((key, val))
}

// ---------------------------------------------------------------------------
// Reading: the parse state machine
// ---------------------------------------------------------------------------

/// Where a key/value line lands.
pub enum Sect {
    Top,
    Vhdx,
    User,
    Mount,
    Backup,
    Exclude,
    Btrbk,
    Ext4,
    Entry,
    Other,
}

/// A class entry whose keys are still being collected.
pub enum Pending {
    Nothing,
    Backup { name: String, mount: Option<String>, options: Option<String> },
    Transfer { name: String, mount: Option<String>, nodatacow: bool, options: Option<String> },
}

#[verifier::ext_equal]
pub ghost enum PendingView {
    Nothing,
    Backup { name: Seq<char>, mount: Option<Seq<char>>, options: Option<Seq<char>> },
    Transfer {
        name: Seq<char>,
        mount: Option<Seq<char>>,
        nodatacow: bool,
        options: Option<Seq<char>>,
    },
}

impl View for Pending {
    type V = PendingView;

    open spec fn view(&self) -> PendingView {
        match self {
            Pending::Nothing => PendingView::Nothing,
            Pending::Backup { name, mount, options } => PendingView::Backup {
                name: name@,
                mount: match mount {
                    Some(m) => Some(m@),
                    None => None,
                },
                options: match options {
                    Some(o) => Some(o@),
                    None => None,
                },
            },
            Pending::Transfer { name, mount, nodatacow, options } => PendingView::Transfer {
                name: name@,
                mount: match mount {
                    Some(m) => Some(m@),
                    None => None,
                },
                nodatacow: *nodatacow,
                options: match options {
                    Some(o) => Some(o@),
                    None => None,
                },
            },
        }
    }
}

/// The fields collected so far, the section the cursor stands in, and the
/// class entry being assembled.
pub struct ParseState {
    pub uuid: Option<String>,
    pub vhdx_path: Option<String>,
    pub vhdx_label: Option<String>,
    pub user_name: Option<String>,
    pub user_options: Option<String>,
    pub mount_base: Option<String>,
    pub mount_options: Option<String>,
    pub backup: Vec<BackupEntry>,
    pub parent: Option<String>,
    pub paths: Option<Vec<String>>,
    pub transfer: Vec<TransferEntry>,
    pub snapshot_dir: Option<String>,
    pub preserve_min: Option<String>,
    pub preserve: Option<String>,
    pub timer_schedule: Option<String>,
    pub ext4_mount: Option<String>,
    pub sect: Sect,
    pub pending: Pending,
}

#[verifier::ext_equal]
pub ghost struct ParseStateView {
    pub uuid: Option<Seq<char>>,
    pub vhdx_path: Option<Seq<char>>,
    pub vhdx_label: Option<Seq<char>>,
    pub user_name: Option<Seq<char>>,
    pub user_options: Option<Seq<char>>,
    pub mount_base: Option<Seq<char>>,
    pub mount_options: Option<Seq<char>>,
    pub backup: Seq<BackupEntryView>,
    pub parent: Option<Seq<char>>,
    pub paths: Option<Seq<Seq<char>>>,
    pub transfer: Seq<TransferEntryView>,
    pub snapshot_dir: Option<Seq<char>>,
    pub preserve_min: Option<Seq<char>>,
    pub preserve: Option<Seq<char>>,
    pub timer_schedule: Option<Seq<char>>,
    pub ext4_mount: Option<Seq<char>>,
    pub sect: Sect,
    pub pending: PendingView,
}

pub open spec fn opt_view(o: Option<String>) -> Option<Seq<char>> {
    match o {
        Some(s) => Some(s@),
        None => None,
    }
}

pub open spec fn transfer_entry_views(v: Seq<TransferEntry>) -> Seq<TransferEntryView> {
    Seq::new(v.len(), |i: int| v[i]@)
}

impl View for ParseState {
    type V = ParseStateView;

    open spec fn view(&self) -> ParseStateView {
        ParseStateView {
            uuid: opt_view(self.uuid),
            vhdx_path: opt_view(self.vhdx_path),
            vhdx_label: opt_view(self.vhdx_label),
            user_name: opt_view(self.user_name),
            user_options: opt_view(self.user_options),
            mount_base: opt_view(self.mount_base),
            mount_options: opt_view(self.mount_options),
            backup: crate::classify::backup_views(self.backup@),
            parent: opt_view(self.parent),
            paths: match &self.paths {
                Some(v) => Some(crate::strkit::views_of(v@)),
                None => None,
            },
            transfer: transfer_entry_views(self.transfer@),
            snapshot_dir: opt_view(self.snapshot_dir),
            preserve_min: opt_view(self.preserve_min),
            preserve: opt_view(self.preserve),
            timer_schedule: opt_view(self.timer_schedule),
            ext4_mount: opt_view(self.ext4_mount),
            sect: self.sect,
            pending: self.pending@,
        }
    }
}

/// Before the first line: nothing collected, the cursor at the top level.
pub open spec fn spec_initial_state() -> ParseStateView {
    ParseStateView {
        uuid: None,
        vhdx_path: None,
        vhdx_label: None,
        user_name: None,
        user_options: None,
        mount_base: None,
        mount_options: None,
        backup: Seq::<BackupEntryView>::empty(),
        parent: None,
        paths: None,
        transfer: Seq::<TransferEntryView>::empty(),
        snapshot_dir: None,
        preserve_min: None,
        preserve: None,
        timer_schedule: None,
        ext4_mount: None,
        sect: Sect::Top,
        pending: PendingView::Nothing,
    }
}

fn initial_state() -> (r: ParseState)
    ensures
        r@ == spec_initial_state(),
{
    let r = ParseState {
        uuid: None,
        vhdx_path: None,
        vhdx_label: None,
        user_name: None,
        user_options: None,
        mount_base: None,
        mount_options: None,
        backup: Vec::new(),
        parent: None,
        paths: None,
        transfer: Vec::new(),
        snapshot_dir: None,
        preserve_min: None,
        preserve: None,
        timer_schedule: None,
        ext4_mount: None,
        sect: Sect::Top,
        pending: Pending::Nothing,
    };
    proof {
        assert(crate::classify::backup_views(r.backup@) =~= Seq::<BackupEntryView>::empty());
        assert(transfer_entry_views(r.transfer@) =~= Seq::<TransferEntryView>::empty());
        assert(r@ =~= spec_initial_state());
    }
    r
}

/// Close a pending class entry, requiring its mount target.
pub open spec fn spec_flush(st: ParseStateView) -> Option<ParseStateView> {
    match st.pending {
        PendingView::Nothing => Some(st),
        PendingView::Backup { name, mount, options } => match mount {
            Some(m) => Some(
                ParseStateView {
                    backup: st.backup.push(
                        BackupEntryView { name, subvol: BackupSubvolView::Full { mount: m, options } },
                    ),
                    pending: PendingView::Nothing,
                    ..st
                },
            ),
            None => None,
        },
        PendingView::Transfer { name, mount, nodatacow, options } => match mount {
            Some(m) => Some(
                ParseStateView {
                    transfer: st.transfer.push(
                        TransferEntryView {
                            name,
                            subvol: TransferSubvolView { mount: m, nodatacow, options },
                        },
                    ),
                    pending: PendingView::Nothing,
                    ..st
                },
            ),
            None => None,
        },
    }
}

proof fn lemma_backup_views_push(v: Seq<BackupEntry>, e: BackupEntry)
    ensures
        crate::classify::backup_views(v.push(e)) == crate::classify::backup_views(v).push(e@),
{
    assert forall|idx: int| 0 <= idx < v.push(e).len() implies crate::classify::backup_views(
        v.push(e),
    )[idx] == crate::classify::backup_views(v).push(e@)[idx] by {
        if idx < v.len() {
            assert(v.push(e)[idx] == v[idx]);
        } else {
            assert(v.push(e)[idx] == e);
        }
    }
    assert(crate::classify::backup_views(v.push(e)) =~= crate::classify::backup_views(v).push(
        e@,
    ));
}

proof fn lemma_transfer_views_push(v: Seq<TransferEntry>, e: TransferEntry)
    ensures
        transfer_entry_views(v.push(e)) == transfer_entry_views(v).push(e@),
{
    assert forall|idx: int| 0 <= idx < v.push(e).len() implies transfer_entry_views(
        v.push(e),
    )[idx] == transfer_entry_views(v).push(e@)[idx] by {
        if idx < v.len() {
            assert(v.push(e)[idx] == v[idx]);
        } else {
            assert(v.push(e)[idx] == e);
        }
    }
    assert(transfer_entry_views(v.push(e)) =~= transfer_entry_views(v).push(e@));
}

fn clone_opt(o: &Option<String>) -> (r: Option<String>)
    ensures
        r == *o,
{
    match o {
        Some(s) => Some(s.clone()),
        None => None,
    }
}

/// Close a pending class entry, requiring its mount target.
fn flush_state(st: &mut ParseState) -> (r: Result<(), crate::Error>)
    ensures
        r is Ok ==> spec_flush(old(st)@) == Some(final(st)@),
        r is Err ==> spec_flush(old(st)@) is None,
        r matches Err(e) ==> e is ParseFailure,
{
    let ghost sv = st@;
    let closed: Result<(), crate::Error> = match &st.pending {
        Pending::Nothing => Ok(()),
        Pending::Backup { name, mount, options } => match mount {
            Some(m) => {
                let ghost prev = st.backup@;
                st.backup.push(
                    BackupEntry {
                        name: name.clone(),
                        subvol: BackupSubvol::Full { mount: m.clone(), options: clone_opt(options) },
                    },
                );
                proof {
                    lemma_backup_views_push(prev, st.backup@[prev.len() as int]);
                }
                Ok(())
            },
            None => Err(crate::Error::ParseFailure),
        },
        Pending::Transfer { name, mount, nodatacow, options } => match mount {
            Some(m) => {
                let ghost prev = st.transfer@;
                st.transfer.push(
                    TransferEntry {
                        name: name.clone(),
                        subvol: TransferSubvol {
                            mount: m.clone(),
                            nodatacow: *nodatacow,
                            options: clone_opt(options),
                        },
                    },
                );
                proof {
                    lemma_transfer_views_push(prev, st.transfer@[prev.len() as int]);
                }
                Ok(())
            },
            None => Err(crate::Error::ParseFailure),
        },
    };
    match closed {
        Ok(()) => {
            st.pending = Pending::Nothing;
            proof {
                assert(st@ =~= spec_flush(sv).unwrap());
            }
            Ok(())
        },
        Err(e) => Err(e),
    }
}

/// The section a header line switches to; a header naming a class entry
/// also opens that entry.
pub open spec fn spec_section_switch(st: ParseStateView, inner: Seq<char>) -> ParseStateView {
    if inner == "vhdx"@ {
        ParseStateView { sect: Sect::Vhdx, ..st }
    } else if inner == "user"@ {
        ParseStateView { sect: Sect::User, ..st }
    } else if inner == "mount"@ {
        ParseStateView { sect: Sect::Mount, ..st }
    } else if inner == "subvolumes.backup"@ {
        ParseStateView { sect: Sect::Backup, ..st }
    } else if inner == "subvolumes.exclude"@ {
        ParseStateView { sect: Sect::Exclude, ..st }
    } else if inner == "subvolumes.transfer"@ {
        ParseStateView { sect: Sect::Other, ..st }
    } else if inner == "btrbk"@ {
        ParseStateView { sect: Sect::Btrbk, ..st }
    } else if inner == "ext4_sync"@ {
        ParseStateView { sect: Sect::Ext4, ..st }
    } else if crate::strkit::is_prefix_of("subvolumes.backup."@, inner) {
        ParseStateView {
            sect: Sect::Entry,
            pending: PendingView::Backup {
                name: spec_key(inner.skip("subvolumes.backup."@.len() as int)),
                mount: None,
                options: None,
            },
            ..st
        }
    } else if crate::strkit::is_prefix_of("subvolumes.transfer."@, inner) {
        ParseStateView {
            sect: Sect::Entry,
            pending: PendingView::Transfer {
                name: spec_key(inner.skip("subvolumes.transfer."@.len() as int)),
                mount: None,
                nodatacow: false,
                options: None,
            },
            ..st
        }
    } else {
        ParseStateView { sect: Sect::Other, ..st }
    }
}

/// Apply one key/value line to the state, in the section the cursor
/// stands in: a recognized key with an ill-formed value fails, an
/// unrecognized key is ignored.
pub open spec fn spec_apply_kv(st: ParseStateView, k: Seq<char>, v: Seq<char>) -> Option<
    ParseStateView,
> {
    match st.sect {
        Sect::Top => {
            if k == "uuid"@ {
                match spec_string_token(v) {
                    Some(val) => Some(ParseStateView { uuid: Some(val), ..st }),
                    None => None,
                }
            } else {
                Some(st)
            }
        },
        Sect::Vhdx => {
            if k == "path"@ {
                match spec_string_token(v) {
                    Some(val) => Some(ParseStateView { vhdx_path: Some(val), ..st }),
                    None => None,
                }
            } else if k == "label"@ {
                match spec_string_token(v) {
                    Some(val) => Some(ParseStateView { vhdx_label: Some(val), ..st }),
                    None => None,
                }
            } else {
                Some(st)
            }
        },
        Sect::User => {
            if k == "name"@ {
                match spec_string_token(v) {
                    Some(val) => Some(ParseStateView { user_name: Some(val), ..st }),
                    None => None,
                }
            } else if k == "options"@ {
                match spec_string_token(v) {
                    Some(val) => Some(ParseStateView { user_options: Some(val), ..st }),
                    None => None,
                }
            } else {
                Some(st)
            }
        },
        Sect::Mount => {
            if k == "base"@ {
                match spec_string_token(v) {
                    Some(val) => Some(ParseStateView { mount_base: Some(val), ..st }),
                    None => None,
                }
            } else if k == "options"@ {
                match spec_string_token(v) {
                    Some(val) => Some(ParseStateView { mount_options: Some(val), ..st }),
                    None => None,
                }
            } else {
                Some(st)
            }
        },
        Sect::Backup => {
            // the bare-string shorthand: the key names the subvolume, the
            // value is its mount target
            match spec_string_token(v) {
                Some(val) => Some(
                    ParseStateView {
                        backup: st.backup.push(
                            BackupEntryView { name: k, subvol: BackupSubvolView::Simple(val) },
                        ),
                        ..st
                    },
                ),
                None => None,
            }
        },
        Sect::Exclude => {
            if k == "parent"@ {
                match spec_string_token(v) {
                    Some(val) => Some(ParseStateView { parent: Some(val), ..st }),
                    None => None,
                }
            } else if k == "paths"@ {
                match spec_array(v) {
                    Some(val) => Some(ParseStateView { paths: Some(val), ..st }),
                    None => None,
                }
            } else {
                Some(st)
            }
        },
        Sect::Btrbk => {
            if k == "snapshot_dir"@ {
                match spec_string_token(v) {
                    Some(val) => Some(ParseStateView { snapshot_dir: Some(val), ..st }),
                    None => None,
                }
            } else if k == "preserve_min"@ {
                match spec_string_token(v) {
                    Some(val) => Some(ParseStateView { preserve_min: Some(val), ..st }),
                    None => None,
                }
            } else if k == "preserve"@ {
                match spec_string_token(v) {
                    Some(val) => Some(ParseStateView { preserve: Some(val), ..st }),
                    None => None,
                }
            } else if k == "timer_schedule"@ {
                match spec_string_token(v) {
                    Some(val) => Some(ParseStateView { timer_schedule: Some(val), ..st }),
                    None => None,
                }
            } else {
                Some(st)
            }
        },
        Sect::Ext4 => {
            if k == "mount_point"@ {
                match spec_string_token(v) {
                    Some(val) => Some(ParseStateView { ext4_mount: Some(val), ..st }),
                    None => None,
                }
            } else {
                Some(st)
            }
        },
        Sect::Entry => {
            if k == "nodatacow"@ {
                match st.pending {
                    PendingView::Transfer { name, mount, nodatacow, options } => match spec_bool(
                        v,
                    ) {
                        Some(b) => Some(
                            ParseStateView {
                                pending: PendingView::Transfer {
                                    name,
                                    mount,
                                    nodatacow: b,
                                    options,
                                },
                                ..st
                            },
                        ),
                        None => None,
                    },
                    _ => Some(st),
                }
            } else {
                match spec_string_token(v) {
                    None => None,
                    Some(val) => match st.pending {
                        PendingView::Backup { name, mount, options } => {
                            if k == "mount"@ {
                                Some(
                                    ParseStateView {
                                        pending: PendingView::Backup {
                                            name,
                                            mount: Some(val),
                                            options,
                                        },
                                        ..st
                                    },
                                )
                            } else if k == "options"@ {
                                Some(
                                    ParseStateView {
                                        pending: PendingView::Backup {
                                            name,
                                            mount,
                                            options: Some(val),
                                        },
                                        ..st
                                    },
                                )
                            } else {
                                Some(st)
                            }
                        },
                        PendingView::Transfer { name, mount, nodatacow, options } => {
                            if k == "mount"@ {
                                Some(
                                    ParseStateView {
                                        pending: PendingView::Transfer {
                                            name,
                                            mount: Some(val),
                                            nodatacow,
                                            options,
                                        },
                                        ..st
                                    },
                                )
                            } else if k == "options"@ {
                                Some(
                                    ParseStateView {
                                        pending: PendingView::Transfer {
                                            name,
                                            mount,
                                            nodatacow,
                                            options: Some(val),
                                        },
                                        ..st
                                    },
                                )
                            } else {
                                Some(st)
                            }
                        },
                        PendingView::Nothing => Some(st),
                    },
                }
            }
        },
        Sect::Other => Some(st),
    }
}

/// Apply one line to the state: blank lines and comments change nothing,
/// a section header closes the pending entry and switches the section,
/// any other line is a key/value assignment.
pub open spec fn spec_line_step(st: ParseStateView, line: Seq<char>) -> Option<ParseStateView> {
    let t = spec_trim(line);
    if t.len() == 0 {
        Some(st)
    } else if t[0] == '#' {
        Some(st)
    } else if t[0] == '[' {
        if t[t.len() - 1] != ']' {
            None
        } else {
            match spec_flush(st) {
                None => None,
                Some(st1) => Some(spec_section_switch(st1, t.subrange(1, t.len() - 1))),
            }
        }
    } else {
        match spec_split_kv(t) {
            None => None,
            Some(kv) => spec_apply_kv(st, spec_key(kv.0), kv.1),
        }
    }
}

/// Apply one line to the state, as [`spec_line_step`] describes.
fn line_step(st: &mut ParseState, line: &str) -> (r: Result<(), crate::Error>)
    ensures
        r is Ok ==> spec_line_step(old(st)@, line@) == Some(final(st)@),
        r is Err ==> spec_line_step(old(st)@, line@) is None,
        r matches Err(e) ==> e is ParseFailure,
{
    let ghost sv = st@;
    let t = trim(line);
    let n: usize = t.as_str().unicode_len();
    if n == 0 {
        return Ok(());
    }
    let c0 = t.as_str().get_char(0);
    if c0 == '#' {
        return Ok(());
    }
    if c0 == '[' {
        if t.as_str().get_char(n - 1) != ']' {
            return Err(crate::Error::ParseFailure);
        }
        proof {
            assert(n >= 2) by {
                if n == 1 {
                    assert(t@[0] == '[' && t@[n - 1] == ']');
                }
            }
        }
        match flush_state(st) {
            Ok(()) => {},
            Err(e) => {
                return Err(e);
            },
        }
        let ghost flushed = st@;
        let inner_str = t.as_str().substring_char(1, n - 1);
        let ghost inner = spec_trim(line@).subrange(1, spec_trim(line@).len() - 1);
        proof {
            assert(inner_str@ == inner);
        }
        if str_eq(inner_str, "vhdx") {
            st.sect = Sect::Vhdx;
        } else if str_eq(inner_str, "user") {
            st.sect = Sect::User;
        } else if str_eq(inner_str, "mount") {
            st.sect = Sect::Mount;
        } else if str_eq(inner_str, "subvolumes.backup") {
            st.sect = Sect::Backup;
        } else if str_eq(inner_str, "subvolumes.exclude") {
            st.sect = Sect::Exclude;
        } else if str_eq(inner_str, "subvolumes.transfer") {
            st.sect = Sect::Other;
        } else if str_eq(inner_str, "btrbk") {
            st.sect = Sect::Btrbk;
        } else if str_eq(inner_str, "ext4_sync") {
            st.sect = Sect::Ext4;
        } else if starts_with(inner_str, "subvolumes.backup.") {
            let plen = "subvolumes.backup.".unicode_len();
            let inner_len = inner_str.unicode_len();
            let name = parse_key(inner_str.substring_char(plen, inner_len));
            proof {
                assert(inner.subrange(plen as int, inner_len as int) =~= inner.skip(
                    "subvolumes.backup."@.len() as int,
                ));
            }
            st.pending = Pending::Backup { name, mount: None, options: None };
            st.sect = Sect::Entry;
        } else if starts_with(inner_str, "subvolumes.transfer.") {
            let plen = "subvolumes.transfer.".unicode_len();
            let inner_len = inner_str.unicode_len();
            let name = parse_key(inner_str.substring_char(plen, inner_len));
            proof {
                assert(inner.subrange(plen as int, inner_len as int) =~= inner.skip(
                    "subvolumes.transfer."@.len() as int,
                ));
            }
            st.pending = Pending::Transfer {
                name,
                mount: None,
                nodatacow: false,
                options: None,
            };
            st.sect = Sect::Entry;
        } else {
            st.sect = Sect::Other;
        }
        proof {
            assert(st@ =~= spec_section_switch(flushed, inner));
        }
        return Ok(());
    }
    let (key0, val) = match split_kv(t.as_str()) {
        Some(kv) => kv,
        None => {
            return Err(crate::Error::ParseFailure);
        },
    };
    let key = parse_key(key0.as_str());
    let ghost kk = spec_key(spec_split_kv(spec_trim(line@)).unwrap().0);
    let ghost vv = spec_split_kv(spec_trim(line@)).unwrap().1;
    proof {
        assert(key@ == kk);
        assert(val@ == vv);
    }
    match &st.sect {
        Sect::Top => {
            if str_eq(key.as_str(), "uuid") {
                match parse_string_token(val.as_str()) {
                    Some(v) => {
                        st.uuid = Some(v);
                    },
                    None => {
                        return Err(crate::Error::ParseFailure);
                    },
                }
            }
        },
        Sect::Vhdx => {
            if str_eq(key.as_str(), "path") {
                match parse_string_token(val.as_str()) {
                    Some(v) => {
                        st.vhdx_path = Some(v);
                    },
                    None => {
                        return Err(crate::Error::ParseFailure);
                    },
                }
            } else if str_eq(key.as_str(), "label") {
                match parse_string_token(val.as_str()) {
                    Some(v) => {
                        st.vhdx_label = Some(v);
                    },
                    None => {
                        return Err(crate::Error::ParseFailure);
                    },
                }
            }
        },
        Sect::User => {
            if str_eq(key.as_str(), "name") {
                match parse_string_token(val.as_str()) {
                    Some(v) => {
                        st.user_name = Some(v);
                    },
                    None => {
                        return Err(crate::Error::ParseFailure);
                    },
                }
            } else if str_eq(key.as_str(), "options") {
                match parse_string_token(val.as_str()) {
                    Some(v) => {
                        st.user_options = Some(v);
                    },
                    None => {
                        return Err(crate::Error::ParseFailure);
                    },
                }
            }
        },
        Sect::Mount => {
            if str_eq(key.as_str(), "base") {
                match parse_string_token(val.as_str()) {
                    Some(v) => {
                        st.mount_base = Some(v);
                    },
                    None => {
                        return Err(crate::Error::ParseFailure);
                    },
                }
            } else if str_eq(key.as_str(), "options") {
                match parse_string_token(val.as_str()) {
                    Some(v) => {
                        st.mount_options = Some(v);
                    },
                    None => {
                        return Err(crate::Error::ParseFailure);
                    },
                }
            }
        },
        Sect::Backup => {
            match parse_string_token(val.as_str()) {
                Some(v) => {
                    let ghost prev = st.backup@;
                    st.backup.push(BackupEntry { name: key, subvol: BackupSubvol::Simple(v) });
                    proof {
                        lemma_backup_views_push(prev, st.backup@[prev.len() as int]);
                    }
                },
                None => {
                    return Err(crate::Error::ParseFailure);
                },
            }
        },
        Sect::Exclude => {
            if str_eq(key.as_str(), "parent") {
                match parse_string_token(val.as_str()) {
                    Some(v) => {
                        st.parent = Some(v);
                    },
                    None => {
                        return Err(crate::Error::ParseFailure);
                    },
                }
            } else if str_eq(key.as_str(), "paths") {
                match parse_array(val.as_str()) {
                    Some(v) => {
                        st.paths = Some(v);
                    },
                    None => {
                        return Err(crate::Error::ParseFailure);
                    },
                }
            }
        },
        Sect::Btrbk => {
            if str_eq(key.as_str(), "snapshot_dir") {
                match parse_string_token(val.as_str()) {
                    Some(v) => {
                        st.snapshot_dir = Some(v);
                    },
                    None => {
                        return Err(crate::Error::ParseFailure);
                    },
                }
            } else if str_eq(key.as_str(), "preserve_min") {
                match parse_string_token(val.as_str()) {
                    Some(v) => {
                        st.preserve_min = Some(v);
                    },
                    None => {
                        return Err(crate::Error::ParseFailure);
                    },
                }
            } else if str_eq(key.as_str(), "preserve") {
                match parse_string_token(val.as_str()) {
                    Some(v) => {
                        st.preserve = Some(v);
                    },
                    None => {
                        return Err(crate::Error::ParseFailure);
                    },
                }
            } else if str_eq(key.as_str(), "timer_schedule") {
                match parse_string_token(val.as_str()) {
                    Some(v) => {
                        st.timer_schedule = Some(v);
                    },
                    None => {
                        return Err(crate::Error::ParseFailure);
                    },
                }
            }
        },
        Sect::Ext4 => {
            if str_eq(key.as_str(), "mount_point") {
                match parse_string_token(val.as_str()) {
                    Some(v) => {
                        st.ext4_mount = Some(v);
                    },
                    None => {
                        return Err(crate::Error::ParseFailure);
                    },
                }
            }
        },
        Sect::Entry => {
            if str_eq(key.as_str(), "nodatacow") {
                let updated = match &st.pending {
                    Pending::Transfer { name, mount, nodatacow, options } => {
                        match parse_bool_token(val.as_str()) {
                            Some(b) => Some(
                                Pending::Transfer {
                                    name: name.clone(),
                                    mount: clone_opt(mount),
                                    nodatacow: b,
                                    options: clone_opt(options),
                                },
                            ),
                            None => {
                                return Err(crate::Error::ParseFailure);
                            },
                        }
                    },
                    _ => None,
                };
                match updated {
                    Some(p) => {
                        st.pending = p;
                    },
                    None => {},
                }
            } else {
                let value = match parse_string_token(val.as_str()) {
                    Some(v) => v,
                    None => {
                        return Err(crate::Error::ParseFailure);
                    },
                };
                let updated = match &st.pending {
                    Pending::Backup { name, mount, options } => {
                        if str_eq(key.as_str(), "mount") {
                            Some(
                                Pending::Backup {
                                    name: name.clone(),
                                    mount: Some(value),
                                    options: clone_opt(options),
                                },
                            )
                        } else if str_eq(key.as_str(), "options") {
                            Some(
                                Pending::Backup {
                                    name: name.clone(),
                                    mount: clone_opt(mount),
                                    options: Some(value),
                                },
                            )
                        } else {
                            None
                        }
                    },
                    Pending::Transfer { name, mount, nodatacow, options } => {
                        if str_eq(key.as_str(), "mount") {
                            Some(
                                Pending::Transfer {
                                    name: name.clone(),
                                    mount: Some(value),
                                    nodatacow: *nodatacow,
                                    options: clone_opt(options),
                                },
                            )
                        } else if str_eq(key.as_str(), "options") {
                            Some(
                                Pending::Transfer {
                                    name: name.clone(),
                                    mount: clone_opt(mount),
                                    nodatacow: *nodatacow,
                                    options: Some(value),
                                },
                            )
                        } else {
                            None
                        }
                    },
                    Pending::Nothing => None,
                };
                match updated {
                    Some(p) => {
                        st.pending = p;
                    },
                    None => {},
                }
            }
        },
        Sect::Other => {},
    }
    proof {
        assert(spec_line_step(sv, line@) == Some(st@)) by {
            assert(spec_apply_kv(sv, kk, vv) matches Some(s2) && s2 =~= st@);
        }
    }
    Ok(())
}

/// Apply the lines to the state, first to last; any failing line fails
/// the whole read.
pub open spec fn spec_fold(lines: Seq<Seq<char>>, st: ParseStateView) -> Option<ParseStateView>
    decreases lines.len(),
{
    if lines.len() == 0 {
        Some(st)
    } else {
        match spec_line_step(st, lines[0]) {
            Some(st2) => spec_fold(lines.skip(1), st2),
            None => None,
        }
    }
}

/// Assemble the configuration from the collected fields: the required
/// ones must all be present, the optional ones default per field.
pub open spec fn spec_finish(st: ParseStateView) -> Option<ConfigView> {
    if st.vhdx_path is None || st.vhdx_label is None || st.user_name is None || st.mount_base
        is None || st.parent is None || st.paths is None || st.snapshot_dir is None
        || st.preserve_min is None || st.preserve is None || st.timer_schedule is None {
        None
    } else {
        Some(
            ConfigView {
                vhdx: VhdxConfigView {
                    path: st.vhdx_path.unwrap(),
                    label: st.vhdx_label.unwrap(),
                },
                user: UserConfigView {
                    name: st.user_name.unwrap(),
                    options: match st.user_options {
                        Some(o) => o,
                        None => "-M -G wheel"@,
                    },
                },
                mount: MountConfigView {
                    base: st.mount_base.unwrap(),
                    options: match st.mount_options {
                        Some(o) => o,
                        None => "compress=zstd:3,noatime,nofail"@,
                    },
                },
                subvolumes: SubvolumesConfigView {
                    backup: st.backup,
                    exclude: ExcludeConfigView {
                        parent: st.parent.unwrap(),
                        paths: st.paths.unwrap(),
                    },
                    transfer: st.transfer,
                },
                btrbk: BtrbkConfigView {
                    snapshot_dir: st.snapshot_dir.unwrap(),
                    preserve_min: st.preserve_min.unwrap(),
                    preserve: st.preserve.unwrap(),
                    timer_schedule: st.timer_schedule.unwrap(),
                },
                ext4_sync: Ext4SyncConfigView {
                    mount_point: match st.ext4_mount {
                        Some(m) => m,
                        None => "/mnt/ext4-root"@,
                    },
                },
                uuid: st.uuid,
            },
        )
    }
}

/// The whole read: split into lines, fold them through the state machine,
/// close the last pending entry, and assemble the configuration.
pub open spec fn spec_parse(text: Seq<char>) -> Option<ConfigView> {
    match spec_fold(crate::strkit::spec_split_lines(text), spec_initial_state()) {
        None => None,
        Some(st) => match spec_flush(st) {
            None => None,
            Some(st2) => spec_finish(st2),
        },
    }
}

/// Assemble the configuration, as [`spec_finish`] describes.
fn finish(st: ParseState) -> (r: Result<Config, crate::Error>)
    ensures
        r matches Ok(c) ==> spec_finish(st@) == Some(c@),
        r is Err ==> spec_finish(st@) is None,
        r matches Err(e) ==> e is ParseFailure,
{
    let ghost sv = st@;
    let ParseState {
        uuid,
        vhdx_path,
        vhdx_label,
        user_name,
        user_options,
        mount_base,
        mount_options,
        backup,
        parent,
        paths,
        transfer,
        snapshot_dir,
        preserve_min,
        preserve,
        timer_schedule,
        ext4_mount,
        sect: _,
        pending: _,
    } = st;
    let vhdx_path = match vhdx_path {
        Some(v) => v,
        None => {
            return Err(crate::Error::ParseFailure);
        },
    };
    let vhdx_label = match vhdx_label {
        Some(v) => v,
        None => {
            return Err(crate::Error::ParseFailure);
        },
    };
    let user_name = match user_name {
        Some(v) => v,
        None => {
            return Err(crate::Error::ParseFailure);
        },
    };
    let mount_base = match mount_base {
        Some(v) => v,
        None => {
            return Err(crate::Error::ParseFailure);
        },
    };
    let parent = match parent {
        Some(v) => v,
        None => {
            return Err(crate::Error::ParseFailure);
        },
    };
    let paths = match paths {
        Some(v) => v,
        None => {
            return Err(crate::Error::ParseFailure);
        },
    };
    let snapshot_dir = match snapshot_dir {
        Some(v) => v,
        None => {
            return Err(crate::Error::ParseFailure);
        },
    };
    let preserve_min = match preserve_min {
        Some(v) => v,
        None => {
            return Err(crate::Error::ParseFailure);
        },
    };
    let preserve = match preserve {
        Some(v) => v,
        None => {
            return Err(crate::Error::ParseFailure);
        },
    };
    let timer_schedule = match timer_schedule {
        Some(v) => v,
        None => {
            return Err(crate::Error::ParseFailure);
        },
    };

    let c = Config {
        vhdx: VhdxConfig { path: vhdx_path, label: vhdx_label },
        user: UserConfig {
            name: user_name,
            options: match user_options {
                Some(o) => o,
                None => crate::config::default_useradd_options(),
            },
        },
        mount: MountConfig {
            base: mount_base,
            options: match mount_options {
                Some(o) => o,
                None => crate::config::default_base_options(),
            },
        },
        subvolumes: SubvolumesConfig {
            backup,
            exclude: ExcludeConfig { parent, paths },
            transfer,
        },
        btrbk: BtrbkConfig { snapshot_dir, preserve_min, preserve, timer_schedule },
        ext4_sync: Ext4SyncConfig {
            mount_point: match ext4_mount {
                Some(m) => m,
                None => crate::config::default_ext4_mount(),
            },
        },
        uuid,
    };
    proof {
        assert(c@.subvolumes.backup =~= sv.backup);
        assert(c@.subvolumes.transfer =~= sv.transfer);
        assert(c@.subvolumes.exclude.paths =~= sv.paths.unwrap());
        assert(c@ =~= spec_finish(sv).unwrap());
    }
    Ok(c)
}

impl Config {
    /// Parse the configuration file text, as [`spec_parse`] describes:
    /// sections in any order, omitted optional fields defaulting per
    /// field, the bare-string shorthand for Backup-class entries beside
    /// the table form, and unknown sections and keys ignored. A malformed
    /// line or a missing required field is rejected with a parse failure.
    pub fn parse_text(text: &str) -> (r: Result<Config, crate::Error>)
        ensures
            r matches Ok(c) ==> spec_parse(text@) == Some(c@),
            r is Err <==> spec_parse(text@) is None,
            r matches Err(e) ==> e is ParseFailure,
    {
        let lines = split_lines(text);
        let ghost lv = crate::strkit::spec_split_lines(text@);
        let mut st = initial_state();
        let mut li: usize = 0;
        proof {
            assert(lv.skip(0) =~= lv);
        }
        while li < lines.len()
            invariant
                lv == crate::strkit::spec_split_lines(text@),
                crate::strkit::views_of(lines@) == lv,
                lines@.len() == lv.len(),
                li <= lv.len(),
                spec_fold(lv, spec_initial_state()) == spec_fold(lv.skip(li as int), st@),
            decreases lines@.len() - li,
        {
            let ghost prev_sv = st@;
            let ghost tail = lv.skip(li as int);
            proof {
                assert(lines@[li as int]@ == lv[li as int]);
                assert(tail[0] == lv[li as int]);
                assert(tail.skip(1) =~= lv.skip(li + 1));
            }
            match line_step(&mut st, lines[li].as_str()) {
                Ok(()) => {},
                Err(e) => {
                    proof {
                        assert(spec_fold(tail, prev_sv) is None);
                        assert(spec_parse(text@) is None);
                    }
                    return Err(e);
                },
            }
            li += 1;
        }
        proof {
            assert(lv.skip(lv.len() as int) =~= Seq::<Seq<char>>::empty());
            assert(spec_fold(lv, spec_initial_state()) == Some(st@));
        }
        match flush_state(&mut st) {
            Ok(()) => {},
            Err(e) => {
                proof {
                    assert(spec_parse(text@) is None);
                }
                return Err(e);
            },
        }
        finish(st)
    }

    /// Parse the configuration file text and expand the account-name
    /// token, as loading always does.
    pub fn from_text(text: &str) -> (r: Result<Config, crate::Error>)
        ensures
            spec_parse(text@) matches Some(p) ==> (r matches Ok(c) && c@ == p.spec_expand()),
            spec_parse(text@) is None ==> r is Err,
            r matches Err(e) ==> e is ParseFailure,
    {
        match Config::parse_text(text) {
            Ok(mut c) => {
                let ghost parsed = c@;
                c.expand_variables();
                proof {
                    assert(c@ == parsed.spec_expand());
                }
                Ok(c)
            },
            Err(e) => Err(e),
        }
    }

    /// The configuration from the file's content, or the default
    /// configuration where no file exists.
    pub fn load_or_default(content: Option<&str>) -> (r: Result<Config, crate::Error>)
        ensures
            content is None ==> (r matches Ok(c) && c@ == crate::config::spec_default_config()),
            content matches Some(t) ==> (match spec_parse(t@) {
                Some(p) => r matches Ok(c) && c@ == p.spec_expand(),
                None => r is Err,
            }),
    {
        match content {
            None => Ok(Config::default()),
            Some(text) => Config::from_text(text),
        }
    }
}

// ---------------------------------------------------------------------------
// Reading inverts writing
// ---------------------------------------------------------------------------

/// Free of line breaks, so the text format can carry it.
pub open spec fn nl_free(v: Seq<char>) -> bool {
    forall|k: int| 0 <= k < v.len() ==> v[k] != '\n'
}

/// A key the format writes bare: nonempty, no assignment or whitespace
/// characters, not opening like a comment, header or quote.
pub open spec fn key_ok(key: Seq<char>) -> bool {
    &&& key.len() > 0
    &&& forall|k: int|
        0 <= k < key.len() ==> key[k] != '=' && !crate::strkit::is_space(#[trigger] key[k])
    &&& key[0] != '['
    &&& key[0] != '#'
    &&& key[0] != '\''
    &&& key[0] != '"'
}

/// Trimming a text that neither opens nor closes with whitespace leaves it.
proof fn lemma_trim_identity(s: Seq<char>)
    requires
        s.len() > 0 ==> !crate::strkit::is_space(s[0]) && !crate::strkit::is_space(
            s[s.len() - 1],
        ),
    ensures
        spec_trim(s) == s,
{
    crate::strkit::lemma_trim_start_skip(s, 0);
    assert(s.skip(0) =~= s);
    crate::strkit::lemma_trim_end_take(s, s.len() as int);
    assert(s.take(s.len() as int) =~= s);
}

/// The first line of a text that opens with a line-break-free line.
proof fn lemma_split_first_line(a: Seq<char>, rest: Seq<char>)
    requires
        nl_free(a),
    ensures
        crate::strkit::spec_split_lines(a + seq!['\n'] + rest) == seq![a]
            + crate::strkit::spec_split_lines(rest),
    decreases 0int,
{
    let s = a + seq!['\n'] + rest;
    crate::strkit::lemma_line_end(s, a.len() as int);
    assert(s.take(a.len() as int) =~= a);
    assert(s.skip(a.len() as int + 1) =~= rest);
}

/// Peel one scalar line off the front of the text.
proof fn lemma_split_scalar_line(key: Seq<char>, v: Seq<char>, rest: Seq<char>)
    requires
        key_ok(key),
        nl_free(v),
    ensures
        crate::strkit::spec_split_lines((key + " = '"@ + v + "'\n"@) + rest) == seq![
            key + " = '"@ + v + "'"@,
        ] + crate::strkit::spec_split_lines(rest),
{
    reveal_strlit(" = '");
    reveal_strlit("'\n");
    reveal_strlit("'");
    let line = key + " = '"@ + v + "'"@;
    assert(nl_free(line)) by {
        assert forall|k: int| 0 <= k < line.len() implies line[k] != '\n' by {
            if k < key.len() {
            } else if k < key.len() + 4 {
                assert(line[k] == " = '"@[k - key.len()]);
            } else if k < key.len() + 4 + v.len() {
                assert(line[k] == v[k - key.len() - 4]);
            } else {
                assert(line[k] == "'"@[0]);
            }
        }
    }
    assert((key + " = '"@ + v + "'\n"@) + rest =~= line + seq!['\n'] + rest);
    lemma_split_first_line(line, rest);
}


/// Peel one section-header line off the front of the text.
proof fn lemma_split_header_line(inner: Seq<char>, rest: Seq<char>)
    requires
        nl_free(inner),
    ensures
        crate::strkit::spec_split_lines(("["@ + inner + "]\n"@) + rest) == seq![
            "["@ + inner + "]"@,
        ] + crate::strkit::spec_split_lines(rest),
{
    reveal_strlit("[");
    reveal_strlit("]\n");
    reveal_strlit("]");
    let line = "["@ + inner + "]"@;
    assert(nl_free(line)) by {
        assert forall|k: int| 0 <= k < line.len() implies line[k] != '\n' by {
            if k == 0 {
                assert(line[k] == "["@[0]);
            } else if k < 1 + inner.len() {
                assert(line[k] == inner[k - 1]);
            } else {
                assert(line[k] == "]"@[0]);
            }
        }
    }
    assert(("["@ + inner + "]\n"@) + rest =~= line + seq!['\n'] + rest);
    lemma_split_first_line(line, rest);
}


/// Peel one blank line off the front of the text.
proof fn lemma_split_blank_line(rest: Seq<char>)
    ensures
        crate::strkit::spec_split_lines("\n"@ + rest) == seq![Seq::<char>::empty()]
            + crate::strkit::spec_split_lines(rest),
{
    reveal_strlit("\n");
    assert("\n"@ + rest =~= Seq::<char>::empty() + seq!['\n'] + rest);
    lemma_split_first_line(Seq::<char>::empty(), rest);
}



/// Every scalar field of the configuration is free of line breaks.
pub open spec fn plain_scalars(c: ConfigView) -> bool {
    &&& (c.uuid matches Some(u) ==> nl_free(u))
    &&& nl_free(c.vhdx.path)
    &&& nl_free(c.vhdx.label)
    &&& nl_free(c.user.name)
    &&& nl_free(c.user.options)
    &&& nl_free(c.mount.base)
    &&& nl_free(c.mount.options)
    &&& nl_free(c.subvolumes.exclude.parent)
    &&& nl_free(c.btrbk.snapshot_dir)
    &&& nl_free(c.btrbk.preserve_min)
    &&& nl_free(c.btrbk.preserve)
    &&& nl_free(c.btrbk.timer_schedule)
    &&& nl_free(c.ext4_sync.mount_point)
}


/// The lines the writer produces for a configuration without class
/// entries, after the optional top-level identity.
pub open spec fn spec_scalar_tail_lines(c: ConfigView) -> Seq<Seq<char>> {
    seq![
        "["@ + "vhdx"@ + "]"@,
        "path"@ + " = '"@ + c.vhdx.path + "'"@,
        "label"@ + " = '"@ + c.vhdx.label + "'"@,
        Seq::<char>::empty(),
    ] + (seq![
        "["@ + "user"@ + "]"@,
        "name"@ + " = '"@ + c.user.name + "'"@,
        "options"@ + " = '"@ + c.user.options + "'"@,
        Seq::<char>::empty(),
    ] + (seq![
        "["@ + "mount"@ + "]"@,
        "base"@ + " = '"@ + c.mount.base + "'"@,
        "options"@ + " = '"@ + c.mount.options + "'"@,
        Seq::<char>::empty(),
    ] + (seq!["["@ + "subvolumes.backup"@ + "]"@, Seq::<char>::empty()] + (seq![
        "["@ + "subvolumes.exclude"@ + "]"@,
        "parent"@ + " = '"@ + c.subvolumes.exclude.parent + "'"@,
        "paths = []"@,
        Seq::<char>::empty(),
    ] + (seq![
        "["@ + "btrbk"@ + "]"@,
        "snapshot_dir"@ + " = '"@ + c.btrbk.snapshot_dir + "'"@,
        "preserve_min"@ + " = '"@ + c.btrbk.preserve_min + "'"@,
        "preserve"@ + " = '"@ + c.btrbk.preserve + "'"@,
        "timer_schedule"@ + " = '"@ + c.btrbk.timer_schedule + "'"@,
        Seq::<char>::empty(),
    ] + seq![
        "["@ + "ext4_sync"@ + "]"@,
        "mount_point"@ + " = '"@ + c.ext4_sync.mount_point + "'"@,
    ])))))
}

/// All of the writer's lines for such a configuration.
pub open spec fn spec_scalar_lines(c: ConfigView) -> Seq<Seq<char>> {
    match c.uuid {
        Some(u) => seq!["uuid"@ + " = '"@ + u + "'"@] + (seq![Seq::<char>::empty()]
            + spec_scalar_tail_lines(c)),
        None => spec_scalar_tail_lines(c),
    }
}


/// The writer's text after the optional identity, as line-sized units.
spec fn spec_scalar_tail_text(c: ConfigView) -> Seq<char> {
    let r26 = "mount_point"@ + " = '"@ + c.ext4_sync.mount_point + "'\n"@;
    let r25 = ("["@ + "ext4_sync"@ + "]\n"@) + r26;
    let r24 = "\n"@ + r25;
    let r23 = ("timer_schedule"@ + " = '"@ + c.btrbk.timer_schedule + "'\n"@) + r24;
    let r22 = ("preserve"@ + " = '"@ + c.btrbk.preserve + "'\n"@) + r23;
    let r21 = ("preserve_min"@ + " = '"@ + c.btrbk.preserve_min + "'\n"@) + r22;
    let r20 = ("snapshot_dir"@ + " = '"@ + c.btrbk.snapshot_dir + "'\n"@) + r21;
    let r19 = ("["@ + "btrbk"@ + "]\n"@) + r20;
    let r18 = "\n"@ + r19;
    let r17 = "paths = []\n"@ + r18;
    let r16 = ("parent"@ + " = '"@ + c.subvolumes.exclude.parent + "'\n"@) + r17;
    let r15 = ("["@ + "subvolumes.exclude"@ + "]\n"@) + r16;
    let r14 = "\n"@ + r15;
    let r13 = ("["@ + "subvolumes.backup"@ + "]\n"@) + r14;
    let r12 = "\n"@ + r13;
    let r11 = ("options"@ + " = '"@ + c.mount.options + "'\n"@) + r12;
    let r10 = ("base"@ + " = '"@ + c.mount.base + "'\n"@) + r11;
    let r9 = ("["@ + "mount"@ + "]\n"@) + r10;
    let r8 = "\n"@ + r9;
    let r7 = ("options"@ + " = '"@ + c.user.options + "'\n"@) + r8;
    let r6 = ("name"@ + " = '"@ + c.user.name + "'\n"@) + r7;
    let r5 = ("["@ + "user"@ + "]\n"@) + r6;
    let r4 = "\n"@ + r5;
    let r3 = ("label"@ + " = '"@ + c.vhdx.label + "'\n"@) + r4;
    let r2 = ("path"@ + " = '"@ + c.vhdx.path + "'\n"@) + r3;
    ("["@ + "vhdx"@ + "]\n"@) + r2
}

broadcast proof fn lemma_seq_assoc<A>(a: Seq<A>, b: Seq<A>, c: Seq<A>)
    ensures
        #[trigger] ((a + b) + c) == a + (b + c),
{
    assert((a + b) + c =~= a + (b + c));
}

broadcast proof fn lemma_seq_empty_right<A>(a: Seq<A>)
    ensures
        #[trigger] (a + Seq::<A>::empty()) == a,
{
    assert(a + Seq::<A>::empty() =~= a);
}

broadcast proof fn lemma_seq_empty_left<A>(a: Seq<A>)
    ensures
        #[trigger] (Seq::<A>::empty() + a) == a,
{
    assert(Seq::<A>::empty() + a =~= a);
}

/// The writer's text, re-grouped into line-sized units.
#[verifier::rlimit(100)]
#[verifier::spinoff_prover]
proof fn lemma_text_chain(c: ConfigView)
    requires
        c.subvolumes.backup.len() == 0,
        c.subvolumes.exclude.paths.len() == 0,
        c.subvolumes.transfer.len() == 0,
    ensures
        spec_config_text(c) == (match c.uuid {
            Some(u) => ("uuid"@ + " = '"@ + u + "'\n"@) + ("\n"@ + spec_scalar_tail_text(c)),
            None => spec_scalar_tail_text(c),
        }),
{
    reveal_strlit("vhdx");
    reveal_strlit("user");
    reveal_strlit("mount");
    reveal_strlit("subvolumes.backup");
    reveal_strlit("subvolumes.exclude");
    reveal_strlit("btrbk");
    reveal_strlit("ext4_sync");
    reveal_strlit("uuid");
    reveal_strlit("path");
    reveal_strlit("label");
    reveal_strlit("name");
    reveal_strlit("options");
    reveal_strlit("base");
    reveal_strlit("parent");
    reveal_strlit("snapshot_dir");
    reveal_strlit("preserve_min");
    reveal_strlit("preserve");
    reveal_strlit("timer_schedule");
    reveal_strlit("mount_point");
    reveal_strlit("paths = []\n");
    reveal_strlit("\n");
    reveal_strlit(" = '");
    reveal_strlit("'\n");
    reveal_strlit("[");
    reveal_strlit("]");
    reveal_strlit("uuid = '");
    reveal_strlit("'\n\n");
    reveal_strlit("[vhdx]\npath = '");
    reveal_strlit("'\nlabel = '");
    reveal_strlit("'\n\n[user]\nname = '");
    reveal_strlit("'\noptions = '");
    reveal_strlit("'\n\n[mount]\nbase = '");
    reveal_strlit("'\n\n[subvolumes.backup]\n");
    reveal_strlit("[subvolumes.exclude]\nparent = '");
    reveal_strlit("'\npaths = [");
    reveal_strlit("]\n\n");
    reveal_strlit("[btrbk]\nsnapshot_dir = '");
    reveal_strlit("'\npreserve_min = '");
    reveal_strlit("'\npreserve = '");
    reveal_strlit("'\ntimer_schedule = '");
    reveal_strlit("'\n\n[ext4_sync]\nmount_point = '");
    reveal_strlit("]\n");
    reveal_strlit("paths = [");
    assert(spec_simple_backup_lines(c.subvolumes.backup) == Seq::<char>::empty());
    assert(spec_full_backup_sections(c.subvolumes.backup) == Seq::<char>::empty());
    assert(spec_paths_array(c.subvolumes.exclude.paths) == Seq::<char>::empty());
    assert(spec_transfer_sections(c.subvolumes.transfer) == Seq::<char>::empty());

    broadcast use lemma_seq_assoc, lemma_seq_empty_right, lemma_seq_empty_left;

    // each merged literal chunk, split at its line boundaries
    assert("uuid = '"@ =~= "uuid"@ + (" = '"@));
    assert("'\n\n"@ =~= "'\n"@ + ("\n"@));
    assert("[vhdx]\npath = '"@ =~= "["@ + ("vhdx"@ + ("]\n"@ + ("path"@ + " = '"@))));
    assert("'\nlabel = '"@ =~= "'\n"@ + ("label"@ + " = '"@));
    assert("'\n\n[user]\nname = '"@ =~= "'\n"@ + ("\n"@ + ("["@ + ("user"@ + ("]\n"@ + ("name"@
        + " = '"@))))));
    assert("'\noptions = '"@ =~= "'\n"@ + ("options"@ + " = '"@));
    assert("'\n\n[mount]\nbase = '"@ =~= "'\n"@ + ("\n"@ + ("["@ + ("mount"@ + ("]\n"@ + ("base"@
        + " = '"@))))));
    assert("'\n\n[subvolumes.backup]\n"@ =~= "'\n"@ + ("\n"@ + ("["@ + ("subvolumes.backup"@
        + "]\n"@))));
    assert("[subvolumes.exclude]\nparent = '"@ =~= "["@ + ("subvolumes.exclude"@ + ("]\n"@ + (
    "parent"@ + " = '"@))));
    assert("'\npaths = ["@ =~= "'\n"@ + ("paths = ["@));
    assert("paths = []\n"@ =~= "paths = ["@ + ("]\n"@));
    assert("]\n\n"@ =~= "]\n"@ + ("\n"@));
    assert("[btrbk]\nsnapshot_dir = '"@ =~= "["@ + ("btrbk"@ + ("]\n"@ + ("snapshot_dir"@
        + " = '"@))));
    assert("'\npreserve_min = '"@ =~= "'\n"@ + ("preserve_min"@ + " = '"@));
    assert("'\npreserve = '"@ =~= "'\n"@ + ("preserve"@ + " = '"@));
    assert("'\ntimer_schedule = '"@ =~= "'\n"@ + ("timer_schedule"@ + " = '"@));
    assert("'\n\n[ext4_sync]\nmount_point = '"@ =~= "'\n"@ + ("\n"@ + ("["@ + ("ext4_sync"@ + (
    "]\n"@ + ("mount_point"@ + " = '"@))))));

    if c.uuid is Some {
        let u = c.uuid.unwrap();
        assert(spec_config_text(c) == ("uuid"@ + " = '"@ + u + "'\n"@) + ("\n"@
            + spec_scalar_tail_text(c)));
    } else {
        assert(spec_config_text(c) == spec_scalar_tail_text(c));
    }
}

/// Law, in part: the writer's text splits into exactly the expected
/// lines, for a configuration without class entries whose fields hold no
/// line break. This is the reading side's first stage; the state-machine
/// stage over these lines is checked by the round-trip tests.
#[verifier::rlimit(100)]
#[verifier::spinoff_prover]
pub proof fn lemma_scalar_lines_split(c: ConfigView)
    requires
        plain_scalars(c),
        c.subvolumes.backup.len() == 0,
        c.subvolumes.exclude.paths.len() == 0,
        c.subvolumes.transfer.len() == 0,
    ensures
        crate::strkit::spec_split_lines(spec_config_text(c)) == spec_scalar_lines(c),
{
    reveal_strlit("vhdx");
    reveal_strlit("user");
    reveal_strlit("mount");
    reveal_strlit("subvolumes.backup");
    reveal_strlit("subvolumes.exclude");
    reveal_strlit("btrbk");
    reveal_strlit("ext4_sync");
    reveal_strlit("uuid");
    reveal_strlit("path");
    reveal_strlit("label");
    reveal_strlit("name");
    reveal_strlit("options");
    reveal_strlit("base");
    reveal_strlit("parent");
    reveal_strlit("snapshot_dir");
    reveal_strlit("preserve_min");
    reveal_strlit("preserve");
    reveal_strlit("timer_schedule");
    reveal_strlit("mount_point");
    reveal_strlit("paths = []\n");
    reveal_strlit("paths = []");
    reveal_strlit("\n");
    reveal_strlit(" = '");
    reveal_strlit("'\n");
    reveal_strlit("'");
    reveal_strlit("[");
    reveal_strlit("]");
    reveal_strlit("uuid = '");
    reveal_strlit("'\n\n");
    reveal_strlit("[vhdx]\npath = '");
    reveal_strlit("'\nlabel = '");
    reveal_strlit("'\n\n[user]\nname = '");
    reveal_strlit("'\noptions = '");
    reveal_strlit("'\n\n[mount]\nbase = '");
    reveal_strlit("'\n\n[subvolumes.backup]\n");
    reveal_strlit("[subvolumes.exclude]\nparent = '");
    reveal_strlit("'\npaths = [");
    reveal_strlit("]\n\n");
    reveal_strlit("[btrbk]\nsnapshot_dir = '");
    reveal_strlit("'\npreserve_min = '");
    reveal_strlit("'\npreserve = '");
    reveal_strlit("'\ntimer_schedule = '");
    reveal_strlit("'\n\n[ext4_sync]\nmount_point = '");

    assert(key_ok("uuid"@));
    assert(key_ok("path"@));
    assert(key_ok("label"@));
    assert(key_ok("name"@));
    assert(key_ok("options"@));
    assert(key_ok("base"@));
    assert(key_ok("parent"@));
    assert(key_ok("snapshot_dir"@));
    assert(key_ok("preserve_min"@));
    assert(key_ok("preserve"@));
    assert(key_ok("timer_schedule"@));
    assert(key_ok("mount_point"@));
    assert(nl_free("vhdx"@) && nl_free("user"@) && nl_free("mount"@) && nl_free(
        "subvolumes.backup"@,
    ) && nl_free("subvolumes.exclude"@) && nl_free("btrbk"@) && nl_free("ext4_sync"@));

    let text = spec_config_text(c);
    assert(spec_simple_backup_lines(c.subvolumes.backup) == Seq::<char>::empty());
    assert(spec_full_backup_sections(c.subvolumes.backup) == Seq::<char>::empty());
    assert(spec_paths_array(c.subvolumes.exclude.paths) == Seq::<char>::empty());
    assert(spec_transfer_sections(c.subvolumes.transfer) == Seq::<char>::empty());

    let r26 = "mount_point"@ + " = '"@ + c.ext4_sync.mount_point + "'\n"@;
    let r25 = ("["@ + "ext4_sync"@ + "]\n"@) + r26;
    let r24 = "\n"@ + r25;
    let r23 = ("timer_schedule"@ + " = '"@ + c.btrbk.timer_schedule + "'\n"@) + r24;
    let r22 = ("preserve"@ + " = '"@ + c.btrbk.preserve + "'\n"@) + r23;
    let r21 = ("preserve_min"@ + " = '"@ + c.btrbk.preserve_min + "'\n"@) + r22;
    let r20 = ("snapshot_dir"@ + " = '"@ + c.btrbk.snapshot_dir + "'\n"@) + r21;
    let r19 = ("["@ + "btrbk"@ + "]\n"@) + r20;
    let r18 = "\n"@ + r19;
    let r17 = "paths = []\n"@ + r18;
    let r16 = ("parent"@ + " = '"@ + c.subvolumes.exclude.parent + "'\n"@) + r17;
    let r15 = ("["@ + "subvolumes.exclude"@ + "]\n"@) + r16;
    let r14 = "\n"@ + r15;
    let r13 = ("["@ + "subvolumes.backup"@ + "]\n"@) + r14;
    let r12 = "\n"@ + r13;
    let r11 = ("options"@ + " = '"@ + c.mount.options + "'\n"@) + r12;
    let r10 = ("base"@ + " = '"@ + c.mount.base + "'\n"@) + r11;
    let r9 = ("["@ + "mount"@ + "]\n"@) + r10;
    let r8 = "\n"@ + r9;
    let r7 = ("options"@ + " = '"@ + c.user.options + "'\n"@) + r8;
    let r6 = ("name"@ + " = '"@ + c.user.name + "'\n"@) + r7;
    let r5 = ("["@ + "user"@ + "]\n"@) + r6;
    let r4 = "\n"@ + r5;
    let r3 = ("label"@ + " = '"@ + c.vhdx.label + "'\n"@) + r4;
    let r2 = ("path"@ + " = '"@ + c.vhdx.path + "'\n"@) + r3;
    let r1 = ("["@ + "vhdx"@ + "]\n"@) + r2;

    lemma_split_header_line("vhdx"@, r2);
    lemma_split_scalar_line("path"@, c.vhdx.path, r3);
    lemma_split_scalar_line("label"@, c.vhdx.label, r4);
    lemma_split_blank_line(r5);
    lemma_split_header_line("user"@, r6);
    lemma_split_scalar_line("name"@, c.user.name, r7);
    lemma_split_scalar_line("options"@, c.user.options, r8);
    lemma_split_blank_line(r9);
    lemma_split_header_line("mount"@, r10);
    lemma_split_scalar_line("base"@, c.mount.base, r11);
    lemma_split_scalar_line("options"@, c.mount.options, r12);
    lemma_split_blank_line(r13);
    lemma_split_header_line("subvolumes.backup"@, r14);
    lemma_split_blank_line(r15);
    lemma_split_header_line("subvolumes.exclude"@, r16);
    lemma_split_scalar_line("parent"@, c.subvolumes.exclude.parent, r17);
    assert(nl_free("paths = []"@));
    assert(r17 =~= "paths = []"@ + seq!['\n'] + r18);
    lemma_split_first_line("paths = []"@, r18);
    lemma_split_blank_line(r19);
    lemma_split_header_line("btrbk"@, r20);
    lemma_split_scalar_line("snapshot_dir"@, c.btrbk.snapshot_dir, r21);
    lemma_split_scalar_line("preserve_min"@, c.btrbk.preserve_min, r22);
    lemma_split_scalar_line("preserve"@, c.btrbk.preserve, r23);
    lemma_split_scalar_line("timer_schedule"@, c.btrbk.timer_schedule, r24);
    lemma_split_blank_line(r25);
    lemma_split_header_line("ext4_sync"@, r26);
    lemma_split_scalar_line(
        "mount_point"@,
        c.ext4_sync.mount_point,
        Seq::<char>::empty(),
    );
    assert(r26 =~= ("mount_point"@ + " = '"@ + c.ext4_sync.mount_point + "'\n"@) + Seq::<
        char,
    >::empty());
    assert(crate::strkit::spec_split_lines(Seq::<char>::empty()) == Seq::<Seq<char>>::empty());
    assert(crate::strkit::spec_split_lines(r26) == seq![
        "mount_point"@ + " = '"@ + c.ext4_sync.mount_point + "'"@,
    ] + Seq::<Seq<char>>::empty());

    assert(crate::strkit::spec_split_lines(r1) == spec_scalar_tail_lines(c));

    lemma_text_chain(c);
    assert(r1 == spec_scalar_tail_text(c));
    if c.uuid is Some {
        let u = c.uuid.unwrap();
        assert(text == ("uuid"@ + " = '"@ + u + "'\n"@) + ("\n"@ + r1));
        lemma_split_scalar_line("uuid"@, u, "\n"@ + r1);
        lemma_split_blank_line(r1);
    } else {
        assert(text == r1);
    }
}

} // verus!
