//! The mount-unit dependency generator: pure functions from the
//! configuration to generated unit text, with the ordering directives that
//! sequence nested mounts after their parents.
//!
//! Every generator's result equals a spec function of the configuration's
//! view alone, so regenerating from the same configuration is byte-identical
//! and regenerate-and-diff is a valid change-detection strategy for callers.
use vstd::prelude::*;

use crate::config::{Config, ConfigView};
use crate::strkit::{
    is_prefix_of, replace_token, spec_join, spec_replace, spec_trim_leading, starts_with, str_eq,
    trim_leading, views_of,
};

verus! {

/// The unit identifier of a mount path: leading separators dropped, the
/// escape lead and the delimiter escaped as the init system's convention
/// escapes them, then the remaining separators replaced by the delimiter.
///
/// This is the deterministic local form of the init system's path escaping,
/// computed here so that generation stays a pure function of the path.
/// Escaping `\` and `-` before the separators keeps distinct paths on
/// distinct identifiers: a delimiter in the result stands for a separator
/// and nothing else. The identifier can still differ lexically from the
/// external escaper's on other special characters, but is valid and stable
/// across runs.
pub open spec fn spec_unit_name(path: Seq<char>) -> Seq<char> {
    spec_replace(
        spec_replace(
            spec_replace(spec_trim_leading(path, '/'), "\\"@, "\\x5c"@),
            "-"@,
            "\\x2d"@,
        ),
        "/"@,
        "-"@,
    )
}

/// Map a mount path to its unit identifier.
pub fn path_to_unit_name(path: &str) -> (r: String)
    ensures
        r@ == spec_unit_name(path@),
{
    proof {
        reveal_strlit("\\");
        reveal_strlit("-");
        reveal_strlit("/");
    }
    let t = trim_leading(path, '/');
    let escaped_lead = replace_token(t.as_str(), "\\", "\\x5c");
    let escaped_delim = replace_token(escaped_lead.as_str(), "-", "\\x2d");
    replace_token(escaped_delim.as_str(), "/", "-")
}

/// The filename of the mount unit for a mount path.
pub open spec fn spec_mount_unit_filename(path: Seq<char>) -> Seq<char> {
    spec_unit_name(path) + ".mount"@
}

/// The mount-unit filename for a mount point.
pub fn mount_unit_filename(mount_point: &str) -> (r: String)
    ensures
        r@ == spec_mount_unit_filename(mount_point@),
{
    let mut r = path_to_unit_name(mount_point);
    r.append(".mount");
    r
}

/// The volume identity written into a unit: the filesystem UUID, or the
/// placeholder sentinel while the volume is not yet formatted. Units may
/// legitimately be generated before formatting, for preview.
pub open spec fn spec_uuid_or_placeholder(c: ConfigView) -> Seq<char> {
    match c.uuid {
        Some(u) => u,
        None => "REPLACE_WITH_UUID"@,
    }
}

fn uuid_or_placeholder(config: &Config) -> (r: &str)
    ensures
        r@ == spec_uuid_or_placeholder(config@),
{
    match &config.uuid {
        Some(u) => u.as_str(),
        None => "REPLACE_WITH_UUID",
    }
}

/// The body of the base-volume mount unit.
pub open spec fn spec_base_mount(c: ConfigView) -> Seq<char> {
    "[Unit]\nDescription=Mount Btrfs Volume\n\n[Mount]\nWhat=UUID="@ + spec_uuid_or_placeholder(c)
        + "\nWhere="@ + c.mount.base + "\nType=btrfs\nOptions="@ + c.mount.options
        + "\n\n[Install]\nWantedBy=multi-user.target\n"@
}

/// Generate the base-volume mount unit.
pub fn generate_base_mount(config: &Config) -> (r: String)
    ensures
        r@ == spec_base_mount(config@),
{
    let mut out = String::from_str("[Unit]\nDescription=Mount Btrfs Volume\n\n[Mount]\nWhat=UUID=");
    out.append(uuid_or_placeholder(config));
    out.append("\nWhere=");
    out.append(config.mount.base.as_str());
    out.append("\nType=btrfs\nOptions=");
    out.append(config.mount.options.as_str());
    out.append("\n\n[Install]\nWantedBy=multi-user.target\n");
    out
}

/// The options string of a subvolume mount: the subvolume selector first,
/// then the custom options if any, else the mount root's defaults.
pub open spec fn spec_subvol_options(
    c: ConfigView,
    subvol: Seq<char>,
    custom: Option<Seq<char>>,
) -> Seq<char> {
    "subvol="@ + subvol + ","@ + (match custom {
        Some(o) => o,
        None => c.mount.options,
    })
}

/// The target account's home directory path.
pub open spec fn spec_home_path(user: Seq<char>) -> Seq<char> {
    "/home/"@ + user
}

/// A mount target strictly nested under the home directory: textually under
/// it, and not the home directory itself.
pub open spec fn spec_nested_under_home(c: ConfigView, mount_point: Seq<char>) -> bool {
    is_prefix_of(spec_home_path(c.user.name), mount_point) && mount_point != spec_home_path(
        c.user.name,
    )
}

/// The unit filenames a subvolume mount depends on: always the base-volume
/// unit; for a target nested under the home directory, the home unit too,
/// in that order.
pub open spec fn spec_subvol_dependencies(c: ConfigView, mount_point: Seq<char>) -> Seq<
    Seq<char>,
> {
    if spec_nested_under_home(c, mount_point) {
        seq![
            spec_mount_unit_filename(c.mount.base),
            spec_mount_unit_filename(spec_home_path(c.user.name)),
        ]
    } else {
        seq![spec_mount_unit_filename(c.mount.base)]
    }
}

/// The dependency directive: the depended-on units, space-separated.
pub open spec fn spec_requires_directive(c: ConfigView, mount_point: Seq<char>) -> Seq<char> {
    spec_join(spec_subvol_dependencies(c, mount_point), " "@)
}

/// The ordering directive of the home directory's own unit: it completes
/// before the user-session service starts, since user-owned state lives
/// there. Every other unit carries no such directive.
pub open spec fn spec_before_directive(c: ConfigView, mount_point: Seq<char>) -> Seq<char> {
    if mount_point == spec_home_path(c.user.name) {
        "Before=user@.service"@
    } else {
        Seq::<char>::empty()
    }
}

/// The body of a subvolume mount unit.
pub open spec fn spec_subvol_mount(
    c: ConfigView,
    subvol: Seq<char>,
    mount_point: Seq<char>,
    custom: Option<Seq<char>>,
) -> Seq<char> {
    "[Unit]\nDescription=Mount "@ + subvol + " subvolume\nRequires="@ + spec_requires_directive(
        c,
        mount_point,
    ) + "\nAfter="@ + spec_requires_directive(c, mount_point) + "\n"@ + spec_before_directive(
        c,
        mount_point,
    ) + "\n\n[Mount]\nWhat=UUID="@ + spec_uuid_or_placeholder(c) + "\nWhere="@ + mount_point
        + "\nType=btrfs\nOptions="@ + spec_subvol_options(c, subvol, custom)
        + "\n\n[Install]\nWantedBy=multi-user.target\n"@
}

/// The home directory path of the configured account.
pub fn home_path(config: &Config) -> (r: String)
    ensures
        r@ == spec_home_path(config@.user.name),
{
    let mut r = String::from_str("/home/");
    r.append(config.user.name.as_str());
    r
}

/// The unit filenames this subvolume mount must be sequenced after: the
/// base-volume unit, and the home-directory unit when the target is nested
/// under the home directory.
pub fn subvol_unit_dependencies(config: &Config, mount_point: &str) -> (r: Vec<String>)
    ensures
        views_of(r@) == spec_subvol_dependencies(config@, mount_point@),
{
    let mut deps: Vec<String> = Vec::new();
    deps.push(mount_unit_filename(config.mount.base.as_str()));
    let home = home_path(config);
    if starts_with(mount_point, home.as_str()) && !str_eq(mount_point, home.as_str()) {
        deps.push(mount_unit_filename(home.as_str()));
        proof {
            assert(views_of(deps@) =~= spec_subvol_dependencies(config@, mount_point@));
        }
    } else {
        proof {
            assert(views_of(deps@) =~= spec_subvol_dependencies(config@, mount_point@));
        }
    }
    deps
}

/// Generate a subvolume mount unit: identity, dependency directives, mount
/// specification, and activation directive.
pub fn generate_subvol_mount(
    config: &Config,
    subvol: &str,
    mount_point: &str,
    custom_options: Option<&str>,
) -> (r: String)
    ensures
        r@ == spec_subvol_mount(
            config@,
            subvol@,
            mount_point@,
            match custom_options {
                Some(o) => Some(o@),
                None => None,
            },
        ),
{
    let deps = subvol_unit_dependencies(config, mount_point);
    let depends_line = crate::strkit::join(&deps, " ");

    let home = home_path(config);
    let is_home_mount = str_eq(mount_point, home.as_str());
    let before_str: &str = if is_home_mount {
        "Before=user@.service"
    } else {
        ""
    };
    proof {
        reveal_strlit("");
        assert(""@ =~= Seq::<char>::empty());
        assert(before_str@ == spec_before_directive(config@, mount_point@));
    }

    let mut out = String::from_str("[Unit]\nDescription=Mount ");
    out.append(subvol);
    out.append(" subvolume\nRequires=");
    out.append(depends_line.as_str());
    out.append("\nAfter=");
    out.append(depends_line.as_str());
    out.append("\n");
    out.append(before_str);
    out.append("\n\n[Mount]\nWhat=UUID=");
    out.append(uuid_or_placeholder(config));
    out.append("\nWhere=");
    out.append(mount_point);
    out.append("\nType=btrfs\nOptions=");
    out.append("subvol=");
    out.append(subvol);
    out.append(",");
    match custom_options {
        Some(o) => out.append(o),
        None => out.append(config.mount.options.as_str()),
    }
    out.append("\n\n[Install]\nWantedBy=multi-user.target\n");
    proof {
        assert(out@ =~= spec_subvol_mount(
            config@,
            subvol@,
            mount_point@,
            match custom_options {
                Some(o) => Some(o@),
                None => None,
            },
        ));
    }
    out
}

// ---------------------------------------------------------------------------
// Laws
// ---------------------------------------------------------------------------

/// Law: unit generation is a pure function of the configuration.
///
/// The generators' results equal spec functions of the configuration's view
/// alone, so two configurations with the same contents yield byte-identical
/// unit text, whatever their provenance.
pub proof fn lemma_unit_generation_pure(
    c1: ConfigView,
    c2: ConfigView,
    subvol: Seq<char>,
    mount_point: Seq<char>,
    custom: Option<Seq<char>>,
)
    requires
        c1 == c2,
    ensures
        spec_base_mount(c1) == spec_base_mount(c2),
        spec_subvol_mount(c1, subvol, mount_point, custom) == spec_subvol_mount(
            c2,
            subvol,
            mount_point,
            custom,
        ),
{
}

/// Law: a mount target strictly nested under the home directory depends on
/// the base-volume unit and then the home-directory unit, in that order,
/// while the home directory's own unit instead carries the pre-session
/// ordering directive and depends on the base-volume unit alone.
pub proof fn lemma_home_nesting_dependencies(c: ConfigView, mount_point: Seq<char>)
    ensures
        spec_nested_under_home(c, mount_point) ==> spec_subvol_dependencies(c, mount_point)
            == seq![
            spec_mount_unit_filename(c.mount.base),
            spec_mount_unit_filename(spec_home_path(c.user.name)),
        ] && spec_before_directive(c, mount_point) == Seq::<char>::empty(),
        mount_point == spec_home_path(c.user.name) ==> spec_subvol_dependencies(c, mount_point)
            == seq![spec_mount_unit_filename(c.mount.base)] && spec_before_directive(
            c,
            mount_point,
        ) == "Before=user@.service"@,
{
}

} // verus!
