use cold_tier::targets::{cold_tier, libkrun_build_lines, link_arg, vmm_build_lines};
use cold_tier::text::{append_decimal, append_hex, same_text};

#[test]
fn cold_targets() {
    for (os, arch, cold) in [
        ("macos", "aarch64", true),
        ("linux", "x86_64", true),
        ("linux", "aarch64", false),
        ("macos", "x86_64", false),
        ("linux", "riscv64", false),
        ("windows", "x86_64", false),
        ("", "", false),
    ] {
        assert_eq!(cold_tier(os, arch), cold);
        let line = "cargo:rustc-cfg=cold_tier".to_string();
        assert_eq!(libkrun_build_lines("linux", os, arch, "1", "16").contains(&line), cold);
        assert_eq!(vmm_build_lines(os, arch).contains(&line), cold);
    }
}

#[test]
fn linker_lines() {
    assert_eq!(
        link_arg("linux", "1", "16"),
        Some("cargo:rustc-cdylib-link-arg=-Wl,-soname,libkrun.so.1".to_string())
    );
    assert_eq!(
        link_arg("macos", "1", "16"),
        Some(
            "cargo:rustc-cdylib-link-arg=-Wl,-install_name,libkrun.1.dylib,\
             -compatibility_version,1.0.0,-current_version,1.16.0"
                .to_string()
        )
    );
    assert_eq!(link_arg("windows", "1", "16"), None);
}

#[test]
fn lines_of_the_build_scripts() {
    assert_eq!(
        libkrun_build_lines("linux", "linux", "x86_64", "1", "16"),
        vec![
            "cargo:rustc-cdylib-link-arg=-Wl,-soname,libkrun.so.1",
            "cargo:rustc-check-cfg=cfg(cold_tier)",
            "cargo:rustc-cfg=cold_tier",
        ]
    );
    assert_eq!(
        libkrun_build_lines("freebsd", "freebsd", "x86_64", "1", "16"),
        vec!["cargo:rustc-check-cfg=cfg(cold_tier)"]
    );
    assert_eq!(
        vmm_build_lines("macos", "aarch64"),
        vec![
            "cargo:rustc-link-lib=framework=Hypervisor",
            "cargo:rustc-check-cfg=cfg(cold_tier)",
            "cargo:rustc-cfg=cold_tier",
        ]
    );
    assert_eq!(
        vmm_build_lines("linux", "aarch64"),
        vec!["cargo:rustc-check-cfg=cfg(cold_tier)"]
    );
}

#[test]
fn numbers_as_text() {
    for n in [0u64, 9, 10, 15, 16, 255, 20480, u64::MAX] {
        let mut text = String::from("n=");
        append_decimal(&mut text, n);
        assert_eq!(text, format!("n={n}"));
        let mut text = String::from("n=");
        append_hex(&mut text, n);
        assert_eq!(text, format!("n={n:#x}"));
    }
}

#[test]
fn equal_texts() {
    assert!(same_text("", ""));
    assert!(same_text("über", "über"));
    assert!(!same_text("linux", "linu"));
    assert!(!same_text("linux", "linuy"));
}
