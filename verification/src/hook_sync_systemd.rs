//! The decision core of the secondary-root sync hook: which packages'
//! archives are copied into the secondary root's cache and the command
//! that installs them there. The driver probes the mount state, queries
//! the package manager, and performs the copies and the install.
use vstd::prelude::*;

use crate::command::{push_arg, Cmd};
use crate::config::Config;
use crate::strkit::{pair_views, spec_split_ws, split_whitespace, views_of};

verus! {

broadcast use
    crate::strkit::lemma_views_push,
    crate::strkit::lemma_views_empty,
    crate::strkit::lemma_pair_views_push,
    crate::strkit::lemma_pair_views_empty,
;

/// Decision of the mount step: nothing when the sync point is already
/// mounted; else mount the secondary root by its UUID, which the driver
/// must have probed.
pub fn ensure_mounted(mount_point: &str, is_mounted: bool, ext4_uuid: Option<&str>) -> (r: Result<
    Option<Cmd>,
    crate::Error,
>)
    ensures
        is_mounted ==> (r matches Ok(c) && c is None),
        !is_mounted && ext4_uuid is None ==> r == Result::<Option<Cmd>, crate::Error>::Err(
            crate::Error::UuidNotFound,
        ),
        !is_mounted && ext4_uuid is Some ==> (r matches Ok(c) && c matches Some(cmd)
            && cmd@.program == "mount"@ && cmd@.args == seq![
            "UUID="@ + ext4_uuid.unwrap()@,
            mount_point@,
        ]),
{
    if is_mounted {
        Ok(None)
    } else {
        match ext4_uuid {
            None => Err(crate::Error::UuidNotFound),
            Some(u) => {
                let mut what = String::from_str("UUID=");
                what.append(u);
                let mut args: Vec<String> = Vec::new();
                args.push(what);
                push_arg(&mut args, mount_point);
                proof {
                    assert(views_of(args@) =~= seq!["UUID="@ + u@, mount_point@]);
                }
                Ok(Some(Cmd { program: String::from_str("mount"), args }))
            },
        }
    }
}

/// Parse one line of the package manager's query output into the package
/// name and its version: the line's first two words.
pub fn parse_package_line(line: &str) -> (r: Option<(String, String)>)
    ensures
        spec_split_ws(line@).len() >= 2 ==> (r matches Some(p) && p.0@ == spec_split_ws(line@)[0]
            && p.1@ == spec_split_ws(line@)[1]),
        spec_split_ws(line@).len() < 2 ==> r is None,
{
    let parts = split_whitespace(line);
    if parts.len() >= 2 {
        proof {
            assert(parts@[0]@ == spec_split_ws(line@)[0]);
            assert(parts@[1]@ == spec_split_ws(line@)[1]);
        }
        Some((parts[0].clone(), parts[1].clone()))
    } else {
        None
    }
}

/// The archive filename of one package version on one architecture.
pub open spec fn spec_pkg_file(pkg: Seq<char>, ver: Seq<char>, arch: Seq<char>) -> Seq<char> {
    pkg + "-"@ + ver + "-"@ + arch + ".pkg.tar.zst"@
}

fn pkg_file(pkg: &str, ver: &str, arch: &str) -> (r: String)
    ensures
        r@ == spec_pkg_file(pkg@, ver@, arch@),
{
    let mut r = String::from_str(pkg);
    r.append("-");
    r.append(ver);
    r.append("-");
    r.append(arch);
    r.append(".pkg.tar.zst");
    r
}

/// The copies that bring each package archive from the live cache to the
/// secondary root's cache: one source/destination pair per version.
pub open spec fn spec_copy_pairs(
    versions: Seq<(Seq<char>, Seq<char>)>,
    mp: Seq<char>,
    arch: Seq<char>,
) -> Seq<(Seq<char>, Seq<char>)>
    decreases versions.len(),
{
    if versions.len() == 0 {
        Seq::<(Seq<char>, Seq<char>)>::empty()
    } else {
        seq![
            (
                "/var/cache/pacman/pkg/"@ + spec_pkg_file(versions[0].0, versions[0].1, arch),
                (mp + "/var/cache/pacman/pkg"@) + "/"@ + spec_pkg_file(
                    versions[0].0,
                    versions[0].1,
                    arch,
                ),
            ),
        ] + spec_copy_pairs(versions.skip(1), mp, arch)
    }
}

/// Compute the source/destination pairs of the cache sync.
pub fn sync_cache(mount_point: &str, versions: &Vec<(String, String)>, arch: &str) -> (r: Vec<
    (String, String),
>)
    ensures
        pair_views(r@) == spec_copy_pairs(pair_views(versions@), mount_point@, arch@),
{
    let ghost vv = pair_views(versions@);
    let ghost mpv = mount_point@;
    let mut out: Vec<(String, String)> = Vec::new();
    let mut dest_cache = String::from_str(mount_point);
    dest_cache.append("/var/cache/pacman/pkg");
    let mut i: usize = 0;
    proof {
        assert(vv.skip(0) =~= vv);
        assert(pair_views(out@) + spec_copy_pairs(vv, mpv, arch@) =~= Seq::<
            (Seq<char>, Seq<char>),
        >::empty() + spec_copy_pairs(vv.skip(0), mpv, arch@));
        assert(Seq::<(Seq<char>, Seq<char>)>::empty() + spec_copy_pairs(vv, mpv, arch@)
            =~= spec_copy_pairs(vv, mpv, arch@));
    }
    while i < versions.len()
        invariant
            vv == pair_views(versions@),
            mpv == mount_point@,
            dest_cache@ == mpv + "/var/cache/pacman/pkg"@,
            versions@.len() == vv.len(),
            i <= vv.len(),
            spec_copy_pairs(vv, mpv, arch@) == pair_views(out@) + spec_copy_pairs(
                vv.skip(i as int),
                mpv,
                arch@,
            ),
        decreases versions@.len() - i,
    {
        let ghost prev = out@;
        let ghost tail = vv.skip(i as int);
        proof {
            assert((versions@[i as int].0@, versions@[i as int].1@) == vv[i as int]);
            assert(tail[0] == vv[i as int]);
            assert(tail.skip(1) =~= vv.skip(i + 1));
        }
        let file = pkg_file(versions[i].0.as_str(), versions[i].1.as_str(), arch);
        let mut src = String::from_str("/var/cache/pacman/pkg/");
        src.append(file.as_str());
        let dst = crate::init::join_path(dest_cache.as_str(), file.as_str());
        out.push((src, dst));
        proof {
            assert(pair_views(prev) + (seq![tail[0]].map_values(
                |p: (Seq<char>, Seq<char>)| p,
            ).take(0) + spec_copy_pairs(tail, mpv, arch@)) =~= pair_views(prev) + spec_copy_pairs(
                tail,
                mpv,
                arch@,
            ));
            assert(spec_copy_pairs(tail, mpv, arch@) == seq![
                (
                    "/var/cache/pacman/pkg/"@ + spec_pkg_file(tail[0].0, tail[0].1, arch@),
                    (mpv + "/var/cache/pacman/pkg"@) + "/"@ + spec_pkg_file(
                        tail[0].0,
                        tail[0].1,
                        arch@,
                    ),
                ),
            ] + spec_copy_pairs(vv.skip(i + 1), mpv, arch@));
            assert(pair_views(prev) + spec_copy_pairs(tail, mpv, arch@) =~= pair_views(out@)
                + spec_copy_pairs(vv.skip(i + 1), mpv, arch@));
        }
        i += 1;
    }
    proof {
        assert(vv.skip(vv.len() as int) =~= Seq::<(Seq<char>, Seq<char>)>::empty());
        assert(pair_views(out@) + Seq::<(Seq<char>, Seq<char>)>::empty() =~= pair_views(out@));
    }
    out
}

/// The archive paths, under the secondary root, of each package version.
pub open spec fn spec_install_paths(
    versions: Seq<(Seq<char>, Seq<char>)>,
    mp: Seq<char>,
    arch: Seq<char>,
) -> Seq<Seq<char>>
    decreases versions.len(),
{
    if versions.len() == 0 {
        Seq::<Seq<char>>::empty()
    } else {
        seq![
            (mp + "/var/cache/pacman/pkg"@) + "/"@ + spec_pkg_file(
                versions[0].0,
                versions[0].1,
                arch,
            ),
        ] + spec_install_paths(versions.skip(1), mp, arch)
    }
}

/// The command that installs the synced archives into the secondary root.
pub fn install_packages(mount_point: &str, versions: &Vec<(String, String)>, arch: &str) -> (r:
    Cmd)
    ensures
        r@.program == "pacman"@,
        r@.args == seq!["--sysroot"@, mount_point@, "-U"@, "--noconfirm"@] + spec_install_paths(
            pair_views(versions@),
            mount_point@,
            arch@,
        ),
{
    let ghost vv = pair_views(versions@);
    let ghost mpv = mount_point@;
    let ghost head = seq!["--sysroot"@, mpv, "-U"@, "--noconfirm"@];
    let mut dest_cache = String::from_str(mount_point);
    dest_cache.append("/var/cache/pacman/pkg");
    let mut args: Vec<String> = Vec::new();
    push_arg(&mut args, "--sysroot");
    push_arg(&mut args, mount_point);
    push_arg(&mut args, "-U");
    push_arg(&mut args, "--noconfirm");
    let mut i: usize = 0;
    proof {
        assert(vv.skip(0) =~= vv);
        assert(views_of(args@) =~= head);
        assert(head + spec_install_paths(vv, mpv, arch@) =~= views_of(args@)
            + spec_install_paths(vv.skip(0), mpv, arch@));
    }
    while i < versions.len()
        invariant
            vv == pair_views(versions@),
            mpv == mount_point@,
            dest_cache@ == mpv + "/var/cache/pacman/pkg"@,
            versions@.len() == vv.len(),
            i <= vv.len(),
            head == seq!["--sysroot"@, mpv, "-U"@, "--noconfirm"@],
            head + spec_install_paths(vv, mpv, arch@) == views_of(args@) + spec_install_paths(
                vv.skip(i as int),
                mpv,
                arch@,
            ),
        decreases versions@.len() - i,
    {
        let ghost prev = args@;
        let ghost tail = vv.skip(i as int);
        proof {
            assert((versions@[i as int].0@, versions@[i as int].1@) == vv[i as int]);
            assert(tail[0] == vv[i as int]);
            assert(tail.skip(1) =~= vv.skip(i + 1));
        }
        let file = pkg_file(versions[i].0.as_str(), versions[i].1.as_str(), arch);
        let path = crate::init::join_path(dest_cache.as_str(), file.as_str());
        args.push(path);
        proof {
            assert(spec_install_paths(tail, mpv, arch@) == seq![
                (mpv + "/var/cache/pacman/pkg"@) + "/"@ + spec_pkg_file(
                    tail[0].0,
                    tail[0].1,
                    arch@,
                ),
            ] + spec_install_paths(vv.skip(i + 1), mpv, arch@));
            assert(views_of(prev) + spec_install_paths(tail, mpv, arch@) =~= views_of(args@)
                + spec_install_paths(vv.skip(i + 1), mpv, arch@));
        }
        i += 1;
    }
    proof {
        assert(vv.skip(vv.len() as int) =~= Seq::<(Seq<char>, Seq<char>)>::empty());
        assert(views_of(args@) + Seq::<Seq<char>>::empty() =~= views_of(args@));
    }
    Cmd { program: String::from_str("pacman"), args }
}

/// The whole sync plan: the mount decision, the cache copies, and the
/// install command, from the probed state and package versions.
pub struct HookSyncPlan {
    /// Mount the secondary root first, when it is not mounted yet.
    pub mount_cmd: Option<Cmd>,
    /// The source/destination pairs of the cache sync.
    pub copies: Vec<(String, String)>,
    /// The install into the secondary root.
    pub install: Cmd,
}

/// Compute the whole sync plan.
pub fn run(
    config: &Config,
    is_mounted: bool,
    ext4_uuid: Option<&str>,
    versions: &Vec<(String, String)>,
    arch: &str,
) -> (r: Result<HookSyncPlan, crate::Error>)
    ensures
        !is_mounted && ext4_uuid is None ==> r is Err,
        (is_mounted || ext4_uuid is Some) ==> (r matches Ok(plan) && (is_mounted
            ==> plan.mount_cmd is None) && (!is_mounted && ext4_uuid is Some ==> (
        plan.mount_cmd matches Some(cmd) && cmd@.args == seq![
            "UUID="@ + ext4_uuid.unwrap()@,
            config@.ext4_sync.mount_point,
        ])) && pair_views(plan.copies@) == spec_copy_pairs(
            pair_views(versions@),
            config@.ext4_sync.mount_point,
            arch@,
        ) && plan.install@.args == seq![
            "--sysroot"@,
            config@.ext4_sync.mount_point,
            "-U"@,
            "--noconfirm"@,
        ] + spec_install_paths(pair_views(versions@), config@.ext4_sync.mount_point, arch@)),
{
    let mount_cmd = match ensure_mounted(config.ext4_sync.mount_point.as_str(), is_mounted, ext4_uuid) {
        Ok(c) => c,
        Err(e) => {
            return Err(e);
        },
    };
    let copies = sync_cache(config.ext4_sync.mount_point.as_str(), versions, arch);
    let install = install_packages(config.ext4_sync.mount_point.as_str(), versions, arch);
    Ok(HookSyncPlan { mount_cmd, copies, install })
}

} // verus!
