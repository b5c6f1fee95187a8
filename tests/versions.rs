use crabfetch::versions::{find_version, match_checksum, parse_command, use_package_manager, version_flag, VersionLookup};

#[test]
fn lookup_runs_the_program() {
    match find_version("/usr/bin/bash", None) {
        VersionLookup::Run(q) => {
            assert_eq!(q.path, "/usr/bin/bash");
            assert_eq!(q.name, "bash");
            assert_eq!(q.flag, "--version");
        },
        VersionLookup::Known(_) => panic!("no version is known without running"),
    }
    match find_version("/opt/x/xterm-wrapper", Some("xterm")) {
        VersionLookup::Run(q) => {
            assert_eq!(q.name, "xterm");
            assert_eq!(q.flag, "-version");
        },
        VersionLookup::Known(_) => panic!("no version is known without running"),
    }
    assert_eq!(use_package_manager("bash"), None);
    assert_eq!(match_checksum("/usr/bin/bash"), None);
    assert_eq!(version_flag("elvish"), "-version");
}

#[test]
fn version_outputs() {
    assert_eq!(parse_command("bash", "GNU bash, version 5.2.26(1)-release (x86_64-pc-linux-gnu)\n"), Some("5.2.26".to_string()));
    assert_eq!(parse_command("xterm", "XTerm(390)\n"), Some("390".to_string()));
    assert_eq!(parse_command("foot", "foot version: 1.17.2 -pgo +ime\n"), Some("1.17.2".to_string()));
    assert_eq!(parse_command("fish", "fish, version 3.7.1\n"), Some("3.7.1".to_string()));
    assert_eq!(parse_command("elvish", "0.20.1+official\n"), Some("0.20.1".to_string()));
    assert_eq!(parse_command("nvim", "NVIM v0.9.5\nBuild type: Release\n"), Some("0.9.5".to_string()));
    assert_eq!(parse_command("kitty", "kitty 0.35.2 created by Kovid Goyal\n"), Some("0.35.2".to_string()));
    assert_eq!(parse_command("kitty", "kitty\n"), None);
}
