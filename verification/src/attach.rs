//! The decision core of the boot-time attach action: whether a filesystem
//! with the configured label is already visible, and the attach command to
//! run when it is not. The driver probes the block devices and performs
//! the command.
use vstd::prelude::*;

use crate::command::{push_arg, Cmd};
use crate::config::Config;
use crate::strkit::{contains_str, has_occurrence, spec_split_lines, split_lines, views_of};

verus! {

broadcast use crate::strkit::lemma_views_push, crate::strkit::lemma_views_empty;

/// A line of the filesystem listing shows the filesystem type and the
/// label (an empty label is shown by every line).
pub open spec fn spec_line_shows(line: Seq<char>, label: Seq<char>) -> bool {
    has_occurrence(line, "btrfs"@) && (label.len() == 0 || has_occurrence(line, label))
}

/// Some line of the filesystem listing shows a Btrfs filesystem under the
/// label.
pub open spec fn spec_btrfs_available(lines: Seq<Seq<char>>, label: Seq<char>) -> bool {
    exists|i: int| 0 <= i < lines.len() && spec_line_shows(#[trigger] lines[i], label)
}

/// Check the filesystem listing for a Btrfs filesystem with the label.
pub fn is_btrfs_available(lsblk_output: &str, label: &str) -> (r: bool)
    ensures
        r == spec_btrfs_available(spec_split_lines(lsblk_output@), label@),
{
    proof {
        reveal_strlit("btrfs");
    }
    let lines = split_lines(lsblk_output);
    let ghost lv = spec_split_lines(lsblk_output@);
    let mut i: usize = 0;
    while i < lines.len()
        invariant
            lv == spec_split_lines(lsblk_output@),
            views_of(lines@) == lv,
            lines@.len() == lv.len(),
            i <= lv.len(),
            forall|k: int| 0 <= k < i ==> !spec_line_shows(#[trigger] lv[k], label@),
        decreases lines@.len() - i,
    {
        proof {
            assert(lines@[i as int]@ == lv[i as int]);
            reveal_strlit("btrfs");
        }
        let has_fs = contains_str(lines[i].as_str(), "btrfs");
        let has_label = if label.is_empty() {
            true
        } else {
            contains_str(lines[i].as_str(), label)
        };
        if has_fs && has_label {
            return true;
        }
        i += 1;
    }
    proof {
        if spec_btrfs_available(lv, label@) {
            let k = choose|k: int| 0 <= k < lv.len() && spec_line_shows(lv[k], label@);
            assert(!spec_line_shows(lv[k], label@));
        }
    }
    false
}

/// Decide the attach action: nothing when a Btrfs filesystem with the
/// configured label is already visible, else attach the volume by its
/// normalized source path.
pub fn run(config: &Config, lsblk_output: &str) -> (r: Option<Cmd>)
    ensures
        spec_btrfs_available(spec_split_lines(lsblk_output@), config@.vhdx.label) ==> r is None,
        !spec_btrfs_available(spec_split_lines(lsblk_output@), config@.vhdx.label) ==> (
        r matches Some(cmd) && cmd@.program == "/mnt/c/Windows/System32/wsl.exe"@ && cmd@.args
            == seq![
            "--mount"@,
            "--vhd"@,
            crate::strkit::spec_replace(config@.vhdx.path, "/"@, "\\"@),
            "--bare"@,
        ]),
{
    if is_btrfs_available(lsblk_output, config.vhdx.label.as_str()) {
        None
    } else {
        let windows_path = crate::init::normalize_vhdx_path(config.vhdx.path.as_str());
        let mut args: Vec<String> = Vec::new();
        push_arg(&mut args, "--mount");
        push_arg(&mut args, "--vhd");
        args.push(windows_path);
        push_arg(&mut args, "--bare");
        proof {
            assert(views_of(args@) =~= seq![
                "--mount"@,
                "--vhd"@,
                crate::strkit::spec_replace(config@.vhdx.path, "/"@, "\\"@),
                "--bare"@,
            ]);
        }
        Some(Cmd { program: String::from_str("/mnt/c/Windows/System32/wsl.exe"), args })
    }
}

} // verus!
