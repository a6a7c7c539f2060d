//! Generators for the secondary-root sync path: the mount unit for the
//! ext4 root, and the package-manager hook that triggers a sync after the
//! init-system packages are upgraded.
use vstd::prelude::*;

use crate::config::{Config, ConfigView};

verus! {

/// The body of the mount unit for the secondary root filesystem.
pub open spec fn spec_ext4_mount(c: ConfigView, uuid: Seq<char>) -> Seq<char> {
    "[Unit]\nDescription=Mount ext4 root for sync\n\n[Mount]\nWhat=UUID="@ + uuid + "\nWhere="@
        + c.ext4_sync.mount_point + "\nType=ext4\nOptions=defaults\n\n[Install]\nWantedBy=multi-user.target\n"@
}

/// Generate the mount unit for the secondary root filesystem.
pub fn generate_ext4_mount(config: &Config, uuid: &str) -> (r: String)
    ensures
        r@ == spec_ext4_mount(config@, uuid@),
{
    let mut out = String::from_str(
        "[Unit]\nDescription=Mount ext4 root for sync\n\n[Mount]\nWhat=UUID=",
    );
    out.append(uuid);
    out.append("\nWhere=");
    out.append(config.ext4_sync.mount_point.as_str());
    out.append("\nType=ext4\nOptions=defaults\n\n[Install]\nWantedBy=multi-user.target\n");
    out
}

/// The package-manager hook that triggers the sync after the init-system
/// packages are upgraded.
pub open spec fn spec_pacman_hook() -> Seq<char> {
    "[Trigger]\nOperation = Upgrade\nType = Package\nTarget = systemd\nTarget = systemd-libs\nTarget = systemd-sysvcompat\n\n[Action]\nDescription = Syncing systemd to ext4...\nWhen = PostTransaction\nExec = /usr/local/bin/wslarc hook-sync-systemd\n"@
}

/// Generate the package-manager hook.
pub fn generate_pacman_hook() -> (r: String)
    ensures
        r@ == spec_pacman_hook(),
{
    String::from_str(
        "[Trigger]\nOperation = Upgrade\nType = Package\nTarget = systemd\nTarget = systemd-libs\nTarget = systemd-sysvcompat\n\n[Action]\nDescription = Syncing systemd to ext4...\nWhen = PostTransaction\nExec = /usr/local/bin/wslarc hook-sync-systemd\n",
    )
}

/// The filename of the secondary root's mount unit, derived from its mount
/// point by the same local escaping as the other units.
pub open spec fn spec_ext4_mount_unit_filename(c: ConfigView) -> Seq<char> {
    crate::systemd::spec_mount_unit_filename(c.ext4_sync.mount_point)
}

/// The mount-unit filename of the secondary root filesystem.
pub fn ext4_mount_unit_filename(config: &Config) -> (r: String)
    ensures
        r@ == spec_ext4_mount_unit_filename(config@),
{
    crate::systemd::mount_unit_filename(config.ext4_sync.mount_point.as_str())
}

} // verus!
