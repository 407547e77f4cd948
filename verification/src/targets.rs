//! Which targets have the cold tier, and what the build scripts print for it.
//!
//! The two packages of the monitor gate their cold snapshot code by one list of
//! targets, so that what libkrun offers is what the vmm implements.

use crate::text::same_text;
use vstd::prelude::*;

verus! {

/// Whether a target implements cold snapshot and restore.
pub open spec fn cold_target(os: Seq<char>, arch: Seq<char>) -> bool {
    ||| os == "macos"@ && arch == "aarch64"@
    ||| os == "linux"@ && arch == "x86_64"@
}

/// The texts of a list of lines.
pub open spec fn texts(lines: Seq<String>) -> Seq<Seq<char>> {
    lines.map_values(|line: String| line@)
}

/// The lines that give a target the `cold_tier` cfg, or only declare it.
pub open spec fn cold_tier_texts(cold: bool) -> Seq<Seq<char>> {
    if cold {
        seq!["cargo:rustc-check-cfg=cfg(cold_tier)"@, "cargo:rustc-cfg=cold_tier"@]
    } else {
        seq!["cargo:rustc-check-cfg=cfg(cold_tier)"@]
    }
}

/// Whether a target has the cold tier.
pub fn cold_tier(os: &str, arch: &str) -> (cold: bool)
    ensures
        cold == cold_target(os@, arch@),
        cold == ((os@ == "macos"@ && arch@ == "aarch64"@) || (os@ == "linux"@ && arch@ == "x86_64"@)),
{
    same_text(os, "macos") && same_text(arch, "aarch64") || same_text(os, "linux") && same_text(
        arch,
        "x86_64",
    )
}

/// Appends the lines that emit the `cold_tier` cfg of a target.
pub fn emit_cold_tier_cfg(lines: &mut Vec<String>, os: &str, arch: &str)
    ensures
        texts(final(lines)@) == texts(old(lines)@) + cold_tier_texts(cold_target(os@, arch@)),
        ({
            let n = old(lines)@.len() as int;
            let cold = (os@ == "macos"@ && arch@ == "aarch64"@) || (os@ == "linux"@ && arch@ == "x86_64"@);
            &&& final(lines)@.len() == n + if cold {
                2int
            } else {
                1
            }
            &&& final(lines)@.take(n) == old(lines)@
            &&& final(lines)@[n]@ == "cargo:rustc-check-cfg=cfg(cold_tier)"@
            &&& cold ==> final(lines)@[n + 1]@ == "cargo:rustc-cfg=cold_tier"@
        }),
{
    let cold: bool = cold_tier(os, arch);
    lines.push("cargo:rustc-check-cfg=cfg(cold_tier)".to_owned());
    if cold {
        lines.push("cargo:rustc-cfg=cold_tier".to_owned());
    }
    assert(texts(lines@) =~= texts(old(lines)@) + cold_tier_texts(cold));
    assert(lines@.take(old(lines)@.len() as int) =~= old(lines)@);
}

/// The linker line of the libkrun package, on a host that has one.
pub open spec fn link_arg_text(host_os: Seq<char>, major: Seq<char>, minor: Seq<char>) -> Option<
    Seq<char>,
> {
    if host_os == "linux"@ {
        Some("cargo:rustc-cdylib-link-arg=-Wl,-soname,libkrun.so."@ + major)
    } else if host_os == "macos"@ {
        Some(
            "cargo:rustc-cdylib-link-arg=-Wl,-install_name,libkrun."@ + major
                + ".dylib,-compatibility_version,"@ + major + ".0.0,-current_version,"@ + major
                + "."@ + minor + ".0"@,
        )
    } else {
        None
    }
}

/// The linker line of the libkrun package: the name and version of the shared
/// library, on a host that has one.
pub fn link_arg(host_os: &str, major: &str, minor: &str) -> (line: Option<String>)
    ensures
        match line {
            Some(text) => link_arg_text(host_os@, major@, minor@) == Some(text@),
            None => link_arg_text(host_os@, major@, minor@) is None,
        },
        host_os@ == "linux"@ ==> (line matches Some(text) && text@
            == "cargo:rustc-cdylib-link-arg=-Wl,-soname,libkrun.so."@ + major@),
        host_os@ == "macos"@ && host_os@ != "linux"@ ==> (line matches Some(text) && text@
            == "cargo:rustc-cdylib-link-arg=-Wl,-install_name,libkrun."@ + major@
            + ".dylib,-compatibility_version,"@ + major@ + ".0.0,-current_version,"@ + major@ + "."@
            + minor@ + ".0"@),
        host_os@ != "linux"@ && host_os@ != "macos"@ ==> line is None,
{
    if same_text(host_os, "linux") {
        let mut line: String = "cargo:rustc-cdylib-link-arg=-Wl,-soname,libkrun.so.".to_owned();
        line.append(major);
        Some(line)
    } else if same_text(host_os, "macos") {
        let mut line: String = "cargo:rustc-cdylib-link-arg=-Wl,-install_name,libkrun.".to_owned();
        line.append(major);
        line.append(".dylib,-compatibility_version,");
        line.append(major);
        line.append(".0.0,-current_version,");
        line.append(major);
        line.append(".");
        line.append(minor);
        line.append(".0");
        Some(line)
    } else {
        None
    }
}

/// What the build script of the libkrun package prints: the linker line of the
/// host, then the cfg lines of the target.
pub open spec fn libkrun_texts(
    host_os: Seq<char>,
    target_os: Seq<char>,
    target_arch: Seq<char>,
    major: Seq<char>,
    minor: Seq<char>,
) -> Seq<Seq<char>> {
    (match link_arg_text(host_os, major, minor) {
        Some(line) => seq![line],
        None => seq![],
    }) + cold_tier_texts(cold_target(target_os, target_arch))
}

/// What the build script of the vmm package prints: the framework that it links
/// on macos, then the cfg lines of the target.
pub open spec fn vmm_texts(target_os: Seq<char>, target_arch: Seq<char>) -> Seq<Seq<char>> {
    (if target_os == "macos"@ {
        seq!["cargo:rustc-link-lib=framework=Hypervisor"@]
    } else {
        seq![]
    }) + cold_tier_texts(cold_target(target_os, target_arch))
}

/// The lines that the build script of the libkrun package prints.
pub fn libkrun_build_lines(
    host_os: &str,
    target_os: &str,
    target_arch: &str,
    major: &str,
    minor: &str,
) -> (lines: Vec<String>)
    ensures
        texts(lines@) == libkrun_texts(host_os@, target_os@, target_arch@, major@, minor@),
        ({
            let linked = host_os@ == "linux"@ || host_os@ == "macos"@;
            let n = if linked {
                1int
            } else {
                0
            };
            let cold = (target_os@ == "macos"@ && target_arch@ == "aarch64"@) || (target_os@ == "linux"@
                && target_arch@ == "x86_64"@);
            &&& lines@.len() == n + if cold {
                2int
            } else {
                1
            }
            &&& host_os@ == "linux"@ ==> lines@[0]@
                == "cargo:rustc-cdylib-link-arg=-Wl,-soname,libkrun.so."@ + major@
            &&& linked && host_os@ != "linux"@ ==> lines@[0]@
                == "cargo:rustc-cdylib-link-arg=-Wl,-install_name,libkrun."@ + major@
                + ".dylib,-compatibility_version,"@ + major@ + ".0.0,-current_version,"@ + major@
                + "."@ + minor@ + ".0"@
            &&& lines@[n]@ == "cargo:rustc-check-cfg=cfg(cold_tier)"@
            &&& cold ==> lines@[n + 1]@ == "cargo:rustc-cfg=cold_tier"@
        }),
{
    let mut lines: Vec<String> = Vec::new();
    match link_arg(host_os, major, minor) {
        Some(line) => {
            lines.push(line);
            assert(texts(lines@) =~= seq![line@]);
        },
        None => {
            assert(texts(lines@) =~= seq![]);
        },
    }
    let ghost linked = lines@;
    emit_cold_tier_cfg(&mut lines, target_os, target_arch);
    assert(lines@.take(linked.len() as int) == linked);
    assert(forall|i: int| 0 <= i < linked.len() ==> lines@.take(linked.len() as int)[i] == lines@[i]);
    lines
}

/// The lines that the build script of the vmm package prints.
pub fn vmm_build_lines(target_os: &str, target_arch: &str) -> (lines: Vec<String>)
    ensures
        texts(lines@) == vmm_texts(target_os@, target_arch@),
        ({
            let n = if target_os@ == "macos"@ {
                1int
            } else {
                0
            };
            let cold = (target_os@ == "macos"@ && target_arch@ == "aarch64"@) || (target_os@ == "linux"@
                && target_arch@ == "x86_64"@);
            &&& lines@.len() == n + if cold {
                2int
            } else {
                1
            }
            &&& target_os@ == "macos"@ ==> lines@[0]@
                == "cargo:rustc-link-lib=framework=Hypervisor"@
            &&& lines@[n]@ == "cargo:rustc-check-cfg=cfg(cold_tier)"@
            &&& cold ==> lines@[n + 1]@ == "cargo:rustc-cfg=cold_tier"@
        }),
{
    let mut lines: Vec<String> = Vec::new();
    if same_text(target_os, "macos") {
        lines.push("cargo:rustc-link-lib=framework=Hypervisor".to_owned());
        assert(texts(lines@) =~= seq!["cargo:rustc-link-lib=framework=Hypervisor"@]);
    } else {
        assert(texts(lines@) =~= seq![]);
    }
    let ghost linked = lines@;
    emit_cold_tier_cfg(&mut lines, target_os, target_arch);
    assert(lines@.take(linked.len() as int) == linked);
    assert(forall|i: int| 0 <= i < linked.len() ==> lines@.take(linked.len() as int)[i] == lines@[i]);
    lines
}

/// A line with another character than the cfg line's is another line.
proof fn lemma_not_the_cfg_line(line: Seq<char>)
    requires
        line.len() > 13,
        line[12] != 'c' || line[13] != 'f',
    ensures
        line != "cargo:rustc-cfg=cold_tier"@,
{
    reveal_strlit("cargo:rustc-cfg=cold_tier");
}

/// The gates of the two packages match: on every target, the build script of
/// libkrun sets the `cold_tier` cfg exactly where that of the vmm does, and
/// both exactly on the targets of the list.
pub proof fn law_target_lists_match(
    host_os: Seq<char>,
    os: Seq<char>,
    arch: Seq<char>,
    major: Seq<char>,
    minor: Seq<char>,
)
    ensures
        libkrun_texts(host_os, os, arch, major, minor).contains("cargo:rustc-cfg=cold_tier"@)
            <==> cold_target(os, arch),
        vmm_texts(os, arch).contains("cargo:rustc-cfg=cold_tier"@) <==> cold_target(os, arch),
{
    let cfg = "cargo:rustc-cfg=cold_tier"@;
    let libkrun = libkrun_texts(host_os, os, arch, major, minor);
    let vmm = vmm_texts(os, arch);
    reveal_strlit("cargo:rustc-check-cfg=cfg(cold_tier)");
    reveal_strlit("cargo:rustc-link-lib=framework=Hypervisor");
    reveal_strlit("cargo:rustc-cdylib-link-arg=-Wl,-soname,libkrun.so.");
    reveal_strlit("cargo:rustc-cdylib-link-arg=-Wl,-install_name,libkrun.");
    lemma_not_the_cfg_line("cargo:rustc-check-cfg=cfg(cold_tier)"@);
    lemma_not_the_cfg_line("cargo:rustc-link-lib=framework=Hypervisor"@);
    match link_arg_text(host_os, major, minor) {
        Some(line) => {
            assert(line[12] == 'c' && line[13] == 'd');
            lemma_not_the_cfg_line(line);
        },
        None => {},
    }
    if cold_target(os, arch) {
        assert(libkrun[libkrun.len() - 1] == cfg);
        assert(vmm[vmm.len() - 1] == cfg);
    }
}

/// What the build script of the vmm package prints, line by line, and nothing
/// else: on macos, and only there, the framework to link; then the declaration
/// of the cfg; then, on 64-bit ARM macos and 64-bit x86 linux, and only there,
/// the cfg itself.
pub proof fn law_vmm_lines(os: Seq<char>, arch: Seq<char>)
    ensures
        ({
            let lines = vmm_texts(os, arch);
            let n = if os == "macos"@ {
                1int
            } else {
                0
            };
            let cold = (os == "macos"@ && arch == "aarch64"@) || (os == "linux"@ && arch
                == "x86_64"@);
            &&& lines.len() == n + if cold {
                2int
            } else {
                1
            }
            &&& os == "macos"@ ==> lines[0] == "cargo:rustc-link-lib=framework=Hypervisor"@
            &&& lines[n] == "cargo:rustc-check-cfg=cfg(cold_tier)"@
            &&& cold ==> lines[n + 1] == "cargo:rustc-cfg=cold_tier"@
        }),
        vmm_texts(os, arch).contains("cargo:rustc-link-lib=framework=Hypervisor"@) <==> os
            == "macos"@,
        vmm_texts(os, arch).contains("cargo:rustc-cfg=cold_tier"@) <==> ((os == "macos"@ && arch
            == "aarch64"@) || (os == "linux"@ && arch == "x86_64"@)),
{
    let lines = vmm_texts(os, arch);
    let framework = "cargo:rustc-link-lib=framework=Hypervisor"@;
    reveal_strlit("cargo:rustc-link-lib=framework=Hypervisor");
    reveal_strlit("cargo:rustc-check-cfg=cfg(cold_tier)");
    reveal_strlit("cargo:rustc-cfg=cold_tier");
    law_target_lists_match(os, os, arch, os, os);
    assert(framework[12] == 'l');
    assert("cargo:rustc-check-cfg=cfg(cold_tier)"@[12] == 'c');
    assert("cargo:rustc-cfg=cold_tier"@[12] == 'c');
    if os == "macos"@ {
        assert(lines[0] == framework);
    }
}

/// What the build script of the libkrun package prints, line by line, and
/// nothing else: on a linux or macos host the name and version of the shared
/// library; then the declaration of the cfg; then the cfg on the targets that
/// have it, whatever the host and the version.
pub proof fn law_libkrun_lines(
    host_os: Seq<char>,
    os: Seq<char>,
    arch: Seq<char>,
    major: Seq<char>,
    minor: Seq<char>,
)
    ensures
        ({
            let lines = libkrun_texts(host_os, os, arch, major, minor);
            let linked = host_os == "linux"@ || host_os == "macos"@;
            let n = if linked {
                1int
            } else {
                0
            };
            let cold = (os == "macos"@ && arch == "aarch64"@) || (os == "linux"@ && arch
                == "x86_64"@);
            &&& lines.len() == n + if cold {
                2int
            } else {
                1
            }
            &&& host_os == "linux"@ ==> lines[0]
                == "cargo:rustc-cdylib-link-arg=-Wl,-soname,libkrun.so."@ + major
            &&& host_os == "macos"@ ==> lines[0]
                == "cargo:rustc-cdylib-link-arg=-Wl,-install_name,libkrun."@ + major
                + ".dylib,-compatibility_version,"@ + major + ".0.0,-current_version,"@ + major
                + "."@ + minor + ".0"@
            &&& lines[n] == "cargo:rustc-check-cfg=cfg(cold_tier)"@
            &&& cold ==> lines[n + 1] == "cargo:rustc-cfg=cold_tier"@
        }),
{
    reveal_strlit("linux");
    reveal_strlit("macos");
    assert("linux"@[0] != "macos"@[0]);
}

/// The texts of a list of lines are those of its lines, one for one.
pub proof fn law_texts_of_lines(lines: Seq<String>, i: int)
    ensures
        texts(lines).len() == lines.len(),
        0 <= i < lines.len() ==> texts(lines)[i] == lines[i]@,
{
}

} // verus!
