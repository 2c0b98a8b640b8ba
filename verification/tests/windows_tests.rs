use dpi_core::windows::{
    build_number_to_os, lcid_to_string, os_to_string, Build, OperatingSystem, Suffix,
};

#[test]
fn test_lcid_string_en() {
    let default = "default-lcid-name";
    assert_eq!("en-US", lcid_to_string(0x409, default));
}

#[test]
fn test_lcid_string_default() {
    let default = "default-lcid-name";
    assert_eq!(default, lcid_to_string(0xffff, default));
}

#[test]
fn test_build_os_win10() {
    let w10_rs5 = OperatingSystem {
        build: Build::Win10_17763,
        suffix: Suffix::Rs5,
    };
    assert_eq!(w10_rs5, build_number_to_os(17763));
}

#[test]
fn test_build_os_other() {
    let other = OperatingSystem {
        build: Build::Other,
        suffix: Suffix::Empty,
    };
    assert_eq!(other, build_number_to_os(1));
}

#[test]
fn test_os_string_win7_sp1() {
    let w7_sp1 = "Windows 7 SP1";
    let default = "default-os-name";
    let w7_os = OperatingSystem {
        build: Build::Win7_7601,
        suffix: Suffix::Sp1,
    };
    assert_eq!(w7_sp1, os_to_string(&w7_os, default));
}

#[test]
fn test_os_string_win81() {
    let w81 = "Windows 8.1";
    let default = "default-os-name";
    let w81_os = OperatingSystem {
        build: Build::Win81,
        suffix: Suffix::Empty,
    };
    assert_eq!(w81, os_to_string(&w81_os, default));
}

#[test]
fn test_os_string_default() {
    let default = "default-os-name";
    let other_os = OperatingSystem {
        build: Build::Other,
        suffix: Suffix::Empty,
    };
    assert_eq!(default, os_to_string(&other_os, default));
}

#[test]
fn test_lcid_more_entries() {
    let default = "unknown";
    assert_eq!("ar", lcid_to_string(0x0001, default));
    assert_eq!("ku-Arab", lcid_to_string(0x7C92, default));
    assert_eq!("de-DE", lcid_to_string(0x0407, default));
}

#[test]
fn test_build_os_server2003() {
    let os = build_number_to_os(3790);
    assert_eq!(
        OperatingSystem {
            build: Build::Server2003,
            suffix: Suffix::Empty,
        },
        os
    );
    assert_eq!("Windows Server 2003", os_to_string(&os, "x"));
}
