//! The CPU's name, core and thread counts and current clock, read from the
//! first processor entry of `/proc/cpuinfo`.
use vstd::prelude::*;
use crate::text;

verus! {

broadcast use vstd::string::group_string_axioms;

/// What the first processor entry of `/proc/cpuinfo` says.
pub struct CpuBasics {
    pub name: String,
    pub cores: u16,
    pub threads: u16,
    /// The text of the `cpu MHz` value, if the entry has one.
    pub current_clock: Option<String>,
}

/// The mathematical model of `CpuBasics`.
pub struct CpuFields {
    pub name: Seq<char>,
    pub cores: u16,
    pub threads: u16,
    pub current_clock: Option<Seq<char>>,
}

/// The view of `CpuBasics`.
pub open spec fn cpu_fields(c: CpuBasics) -> CpuFields {
    CpuFields {
        name: c.name@,
        cores: c.cores,
        threads: c.threads,
        current_clock: text::opt_view(c.current_clock),
    }
}

/// The value of a `key: value` line: the text between the first `": "` and
/// the next one, or the end of the line.
pub open spec fn value_of(line: Seq<char>) -> Option<Seq<char>> {
    let i = text::find_pat(line, ": "@);
    if i < 0 {
        None
    } else {
        let rest = line.skip(i + 2);
        let j = text::find_pat(rest, ": "@);
        Some(
            if j < 0 {
                rest
            } else {
                rest.take(j)
            },
        )
    }
}

/// A count as `str::parse::<u16>` reads it, or 0 where it does not parse.
pub open spec fn count_of(v: Seq<char>) -> u16 {
    match text::parse_u64_spec(v) {
        Some(n) => if n <= u16::MAX {
            n as u16
        } else {
            0
        },
        None => 0,
    }
}

/// One line of a processor entry applied to the fields read so far.
pub open spec fn cpu_step(f: CpuFields, line: Seq<char>) -> CpuFields {
    match value_of(line) {
        None => f,
        Some(v) => if text::has_prefix(line, "model name"@) {
            CpuFields { name: v, ..f }
        } else if text::has_prefix(line, "cpu cores"@) {
            CpuFields { cores: count_of(v), ..f }
        } else if text::has_prefix(line, "siblings"@) {
            CpuFields { threads: count_of(v), ..f }
        } else if text::has_prefix(line, "cpu MHz"@) {
            CpuFields { current_clock: Some(v), ..f }
        } else {
            f
        },
    }
}

/// The fields read from `lines`, and whether the first entry has ended: it
/// ends at the first empty line after the first line.
pub open spec fn cpu_scan(lines: Seq<Seq<char>>) -> (CpuFields, bool)
    decreases lines.len(),
{
    if lines.len() == 0 {
        (CpuFields { name: Seq::empty(), cores: 0, threads: 0, current_clock: None }, false)
    } else {
        let (f, ended) = cpu_scan(lines.drop_last());
        if ended || (lines.len() >= 2 && lines.last().len() == 0) {
            (f, true)
        } else {
            (cpu_step(f, lines.last()), false)
        }
    }
}

/// The value of a `key: value` line.
fn line_value(line: &Vec<char>) -> (r: Option<Vec<char>>)
    ensures
        text::opt_chars(r) == value_of(line@),
{
    let sep = text::chars_of(": ");
    proof {
        reveal_strlit(": ");
    }
    assert(sep@.len() == 2);
    match text::find_chars(line, &sep) {
        None => None,
        Some(i) => {
            let n = line.len();
            assert(i + 2 <= n);
            let rest = text::slice_chars(line, i + 2, n);
            assert(rest@ =~= line@.skip(i + 2));
            match text::find_chars(&rest, &sep) {
                None => Some(rest),
                Some(j) => {
                    let v = text::slice_chars(&rest, 0, j);
                    assert(v@ =~= rest@.take(j as int));
                    Some(v)
                },
            }
        },
    }
}

/// A count, or 0 where it does not parse.
fn parse_count(v: &Vec<char>) -> (r: u16)
    ensures
        r == count_of(v@),
{
    match text::parse_u64(v) {
        Some(n) => if n <= u16::MAX as u64 {
            n as u16
        } else {
            0
        },
        None => 0,
    }
}

/// Reads the first processor entry of the text of `/proc/cpuinfo`.
pub fn parse_cpuinfo(contents: &str) -> (r: CpuBasics)
    ensures
        cpu_fields(r) == cpu_scan(text::split_on(contents@, '\n')).0,
{
    let lines = text::split_chars(&text::chars_of(contents), '\n');
    let ghost ls = text::views(lines@);
    let model_name = text::chars_of("model name");
    let cpu_cores = text::chars_of("cpu cores");
    let siblings = text::chars_of("siblings");
    let cpu_mhz = text::chars_of("cpu MHz");
    let mut cpu = CpuBasics { name: String::new(), cores: 0, threads: 0, current_clock: None };
    let mut i: usize = 0;
    let mut ended = false;
    assert(ls.take(0) =~= Seq::<Seq<char>>::empty());
    while i < lines.len() && !ended
        invariant
            i <= lines@.len(),
            ls == text::views(lines@),
            model_name@ == "model name"@,
            cpu_cores@ == "cpu cores"@,
            siblings@ == "siblings"@,
            cpu_mhz@ == "cpu MHz"@,
            cpu_scan(ls.take(i as int)) == (cpu_fields(cpu), ended),
        decreases lines@.len() - i,
    {
        assert(ls.take(i + 1).drop_last() =~= ls.take(i as int));
        let line = &lines[i];
        assert(ls[i as int] == line@);
        if i >= 1 && line.len() == 0 {
            ended = true;
        } else {
            match line_value(line) {
                None => {},
                Some(v) => {
                    if text::starts_with(line, &model_name) {
                        cpu.name = text::string_of(&v);
                    } else if text::starts_with(line, &cpu_cores) {
                        cpu.cores = parse_count(&v);
                    } else if text::starts_with(line, &siblings) {
                        cpu.threads = parse_count(&v);
                    } else if text::starts_with(line, &cpu_mhz) {
                        cpu.current_clock = Some(text::string_of(&v));
                    }
                },
            }
        }
        i = i + 1;
    }
    proof {
        if ended {
            lemma_cpu_scan_ended(ls, i as int);
        } else {
            assert(ls.take(i as int) =~= ls);
        }
    }
    cpu
}

/// Once the entry has ended, later lines change nothing.
proof fn lemma_cpu_scan_ended(lines: Seq<Seq<char>>, k: int)
    requires
        0 <= k <= lines.len(),
        cpu_scan(lines.take(k)).1,
    ensures
        cpu_scan(lines) == cpu_scan(lines.take(k)),
    decreases lines.len() - k,
{
    if k < lines.len() {
        assert(lines.take(k + 1).drop_last() =~= lines.take(k));
        lemma_cpu_scan_ended(lines, k + 1);
    } else {
        assert(lines.take(k) =~= lines);
    }
}

} // verus!
