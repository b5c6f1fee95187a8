//! Version detection for executables: the order of the sources consulted,
//! and the reading of `--version` output per program.
use vstd::prelude::*;
use crate::text;

verus! {

broadcast use vstd::string::group_string_axioms;

/// The version of a package that the package manager knows by `name`.
/// No package manager is consulted yet.
#[allow(unused_variables)]
pub fn use_package_manager(name: &str) -> (r: Option<String>)
    ensures
        r is None,
{
    None
}

/// The version of the executable at `path` known from its checksum. No
/// checksums are known yet.
#[allow(unused_variables)]
pub fn match_checksum(path: &str) -> (r: Option<String>)
    ensures
        r is None,
{
    None
}

/// A program to run with a version flag, to read its version from what it
/// prints.
pub struct VersionQuery {
    pub path: String,
    pub name: String,
    pub flag: String,
}

/// Where a version comes from.
pub enum VersionLookup {
    /// Known without running the program.
    Known(String),
    /// Run `path flag` and read the output with `parse_command`.
    Run(VersionQuery),
}

/// The last piece of a path.
pub open spec fn base_name(path: Seq<char>) -> Seq<char> {
    text::split_on(path, '/').last()
}

/// The flag that makes a program print its version.
pub open spec fn version_flag_of(name: Seq<char>) -> Seq<char> {
    if name == "xterm"@ || name == "elvish"@ {
        "-version"@
    } else {
        "--version"@
    }
}

/// The program's name: the one given, else the last piece of its path.
pub open spec fn program_name(exe_path: Seq<char>, name: Option<Seq<char>>) -> Seq<char> {
    match name {
        Some(n) => n,
        None => base_name(exe_path),
    }
}

/// The flag that makes `name` print its version.
pub fn version_flag(name: &str) -> (r: String)
    ensures
        r@ == version_flag_of(name@),
{
    let n = text::chars_of(name);
    if text::same_chars(&n, &text::chars_of("xterm")) || text::same_chars(
        &n,
        &text::chars_of("elvish"),
    ) {
        "-version".to_string()
    } else {
        "--version".to_string()
    }
}

/// Finds where the version of the executable at `exe_path` comes from: for
/// programs under /usr/bin the package manager first, then the checksum,
/// and failing those the program's own version output.
pub fn find_version(exe_path: &str, name: Option<&str>) -> (r: VersionLookup)
    ensures
        match r {
            VersionLookup::Known(_) => false,
            VersionLookup::Run(q) => q.path@ == exe_path@ && q.name@ == program_name(
                exe_path@,
                text::opt_str(name),
            ) && q.flag@ == version_flag_of(q.name@),
        },
{
    let name: String = match name {
        Some(n) => n.to_string(),
        None => {
            let pieces = text::split_chars(&text::chars_of(exe_path), '/');
            proof {
                text::lemma_split_nonempty(exe_path@, '/');
            }
            assert(text::views(pieces@).last() == pieces@[pieces@.len() - 1]@);
            text::string_of(&pieces[pieces.len() - 1])
        },
    };
    let usr_bin = text::chars_of("/usr/bin");
    if text::starts_with(&text::chars_of(exe_path), &usr_bin) {
        if let Some(v) = use_package_manager(name.as_str()) {
            return VersionLookup::Known(v);
        }
    }
    if let Some(v) = match_checksum(exe_path) {
        return VersionLookup::Known(v);
    }
    let flag = version_flag(name.as_str());
    VersionLookup::Run(VersionQuery { path: exe_path.to_string(), name, flag })
}

/// The `k`-th piece of `s` split at `sep`, if there is one.
pub open spec fn piece(s: Seq<char>, sep: char, k: int) -> Option<Seq<char>> {
    if k < text::split_on(s, sep).len() {
        Some(text::split_on(s, sep)[k])
    } else {
        None
    }
}

/// The version in a program's trimmed version output, read the way that
/// program prints it; absent where the output is too short.
pub open spec fn version_of(name: Seq<char>, raw: Seq<char>) -> Option<Seq<char>> {
    if name == "xterm"@ {
        match piece(raw, '(', 1) {
            Some(p) => Some(text::split_on(p, ')')[0]),
            None => None,
        }
    } else if name == "foot"@ || name == "fish"@ {
        match piece(raw, ' ', 2) {
            Some(p) => Some(text::trim(p)),
            None => None,
        }
    } else if name == "bash"@ {
        match piece(raw, ' ', 3) {
            Some(p) => Some(text::trim(text::split_on(p, '(')[0])),
            None => None,
        }
    } else if name == "elvish"@ {
        Some(text::trim(text::split_on(raw, '+')[0]))
    } else if name == "nvim"@ {
        match piece(raw, ' ', 1) {
            Some(p) => {
                let first = text::split_on(p, '\n')[0];
                if first.len() > 0 {
                    Some(first.skip(1))
                } else {
                    None
                }
            },
            None => None,
        }
    } else {
        piece(raw, ' ', 1)
    }
}

/// The `k`-th piece of `v` split at `sep`.
fn nth_piece(v: &Vec<char>, sep: char, k: usize) -> (r: Option<Vec<char>>)
    ensures
        text::opt_chars(r) == piece(v@, sep, k as int),
{
    let pieces = text::split_chars(v, sep);
    if k < pieces.len() {
        assert(text::views(pieces@)[k as int] == pieces@[k as int]@);
        Some(text::slice_chars(&pieces[k], 0, pieces[k].len()))
    } else {
        None
    }
}

/// The first piece of `v` split at `sep`.
fn first_piece(v: &Vec<char>, sep: char) -> (r: Vec<char>)
    ensures
        r@ == text::split_on(v@, sep)[0],
{
    proof {
        text::lemma_split_nonempty(v@, sep);
    }
    match nth_piece(v, sep, 0) {
        Some(p) => p,
        None => Vec::new(),
    }
}

/// Reads the version from what the program `name` printed for its version
/// flag.
pub fn parse_command(name: &str, output: &str) -> (r: Option<String>)
    ensures
        text::opt_view(r) == version_of(name@, text::trim(output@)),
{
    let raw = text::trim_chars(&text::chars_of(output));
    let n = text::chars_of(name);
    let found: Option<Vec<char>> = if text::same_chars(&n, &text::chars_of("xterm")) {
        match nth_piece(&raw, '(', 1) {
            Some(p) => Some(first_piece(&p, ')')),
            None => None,
        }
    } else if text::same_chars(&n, &text::chars_of("foot")) || text::same_chars(
        &n,
        &text::chars_of("fish"),
    ) {
        match nth_piece(&raw, ' ', 2) {
            Some(p) => Some(text::trim_chars(&p)),
            None => None,
        }
    } else if text::same_chars(&n, &text::chars_of("bash")) {
        match nth_piece(&raw, ' ', 3) {
            Some(p) => Some(text::trim_chars(&first_piece(&p, '('))),
            None => None,
        }
    } else if text::same_chars(&n, &text::chars_of("elvish")) {
        Some(text::trim_chars(&first_piece(&raw, '+')))
    } else if text::same_chars(&n, &text::chars_of("nvim")) {
        match nth_piece(&raw, ' ', 1) {
            Some(p) => {
                let first = first_piece(&p, '\n');
                if first.len() > 0 {
                    assert(first@.subrange(1, first@.len() as int) =~= first@.skip(1));
                    Some(text::slice_chars(&first, 1, first.len()))
                } else {
                    None
                }
            },
            None => None,
        }
    } else {
        nth_piece(&raw, ' ', 1)
    };
    match found {
        Some(v) => Some(text::string_of(&v)),
        None => None,
    }
}

} // verus!
