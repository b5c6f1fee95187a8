use crabfetch::cpu::parse_cpuinfo;

const CPUINFO: &str = "processor\t: 0\n\
vendor_id\t: AuthenticAMD\n\
model name\t: AMD Ryzen 7 7800X3D 8-Core Processor\n\
cpu MHz\t\t: 3593.246\n\
siblings\t: 16\n\
cpu cores\t: 8\n\
\n\
processor\t: 1\n\
model name\t: Other CPU\n\
cpu cores\t: 99\n";

#[test]
fn first_entry_only() {
    let c = parse_cpuinfo(CPUINFO);
    assert_eq!(c.name, "AMD Ryzen 7 7800X3D 8-Core Processor");
    assert_eq!(c.cores, 8);
    assert_eq!(c.threads, 16);
    assert_eq!(c.current_clock, Some("3593.246".to_string()));
}

#[test]
fn unparsable_counts_are_zero() {
    let c = parse_cpuinfo("cpu cores\t: many\nsiblings\t: 70000\n");
    assert_eq!(c.cores, 0);
    assert_eq!(c.threads, 0);
    assert_eq!(c.name, "");
    assert_eq!(c.current_clock, None);
}
