//! The vendor/device id databases: the PCI id list, whose device entries
//! are tab-indented under their vendor's header, and the AMD GPU-id list,
//! keyed by device and revision.
use vstd::prelude::*;
use crate::text;

verus! {

broadcast use vstd::string::group_string_axioms;

/// The state of a scan of the PCI id database.
pub struct PciScan {
    pub vendor: Seq<char>,
    pub device: Seq<char>,
    pub in_vendor: bool,
    pub done: bool,
}

/// Whether a database line is a comment: its first visible character is `#`.
pub open spec fn is_comment(line: Seq<char>) -> bool {
    text::has_prefix(text::trim(line), seq!['#'])
}

/// One line of the PCI id scan. The first vendor header that starts with
/// `vterm` names the vendor and opens its block; inside the block the first
/// line that starts with `dterm` names the device and ends the scan; a line
/// that starts with a visible character closes the block and ends it too.
pub open spec fn pci_step(st: PciScan, line: Seq<char>, vterm: Seq<char>, dterm: Seq<char>) -> PciScan {
    if st.done || is_comment(line) {
        st
    } else if st.in_vendor && line.len() > 0 && !text::is_space(line[0]) {
        PciScan { in_vendor: false, done: true, ..st }
    } else if text::has_prefix(line, vterm) && st.vendor.len() == 0 {
        PciScan { vendor: text::trim(line.skip(vterm.len() as int)), in_vendor: true, ..st }
    } else if text::has_prefix(line, dterm) && st.in_vendor {
        PciScan { device: text::trim(line.skip(dterm.len() as int)), done: true, ..st }
    } else {
        st
    }
}

/// The state after scanning `lines` in order.
pub open spec fn pci_scan(lines: Seq<Seq<char>>, vterm: Seq<char>, dterm: Seq<char>) -> PciScan
    decreases lines.len(),
{
    if lines.len() == 0 {
        PciScan { vendor: Seq::empty(), device: Seq::empty(), in_vendor: false, done: false }
    } else {
        pci_step(pci_scan(lines.drop_last(), vterm, dterm), lines.last(), vterm, dterm)
    }
}

/// Vendor and device name that the PCI id database `db` gives for the ids
/// `vendor` and `device`; the device name falls back to the raw id.
pub open spec fn pci_lookup(db: Seq<char>, vendor: Seq<char>, device: Seq<char>) -> (Seq<char>, Seq<char>) {
    let st = pci_scan(text::split_on(db, '\n'), vendor, seq!['\t'] + device);
    (st.vendor, if st.device.len() == 0 {
        device
    } else {
        st.device
    })
}

/// Whether a line is a comment.
fn comment_line(line: &Vec<char>) -> (r: bool)
    ensures
        r == is_comment(line@),
{
    let t = text::trim_chars(line);
    let hash: Vec<char> = vec!['#'];
    assert(hash@ =~= seq!['#']);
    text::starts_with(&t, &hash)
}

/// Looks up vendor and device name for the hex ids `vendor` and `device` in
/// the text of a PCI id database.
pub fn search_pci_ids(db: &str, vendor: &str, device: &str) -> (r: (String, String))
    ensures
        (r.0@, r.1@) == pci_lookup(db@, vendor@, device@),
{
    let lines = text::split_chars(&text::chars_of(db), '\n');
    let vterm = text::chars_of(vendor);
    let tab: Vec<char> = vec!['\t'];
    let dterm = text::concat(&tab, &text::chars_of(device));
    assert(tab@ =~= seq!['\t']);
    let ghost ls = text::views(lines@);
    let mut vendor_result: Vec<char> = Vec::new();
    let mut device_result: Vec<char> = Vec::new();
    let mut in_vendor = false;
    let mut done = false;
    let mut i: usize = 0;
    assert(ls.take(0) =~= Seq::<Seq<char>>::empty());
    while i < lines.len() && !done
        invariant
            i <= lines@.len(),
            ls == text::views(lines@),
            ls == text::split_on(db@, '\n'),
            vterm@ == vendor@,
            dterm@ == seq!['\t'] + device@,
            pci_scan(ls.take(i as int), vterm@, dterm@) == (PciScan {
                vendor: vendor_result@,
                device: device_result@,
                in_vendor,
                done,
            }),
        decreases lines@.len() - i,
    {
        let line = &lines[i];
        assert(ls.take(i + 1).drop_last() =~= ls.take(i as int));
        assert(ls[i as int] == line@);
        if !comment_line(line) {
            if in_vendor && line.len() > 0 && !text::is_whitespace(line[0]) {
                in_vendor = false;
                done = true;
            } else if text::starts_with(line, &vterm) && vendor_result.len() == 0 {
                let rest = text::slice_chars(line, vterm.len(), line.len());
                vendor_result = text::trim_chars(&rest);
                in_vendor = true;
            } else if text::starts_with(line, &dterm) && in_vendor {
                let rest = text::slice_chars(line, dterm.len(), line.len());
                device_result = text::trim_chars(&rest);
                done = true;
            }
        }
        i = i + 1;
    }
    proof {
        lemma_pci_scan_done(ls, i as int, vterm@, dterm@);
    }
    if device_result.len() == 0 {
        device_result = text::chars_of(device);
    }
    (text::string_of(&vendor_result), text::string_of(&device_result))
}

/// Once the scan has ended, later lines change nothing.
proof fn lemma_pci_scan_done(lines: Seq<Seq<char>>, i: int, vterm: Seq<char>, dterm: Seq<char>)
    requires
        0 <= i <= lines.len(),
        i < lines.len() ==> pci_scan(lines.take(i), vterm, dterm).done,
    ensures
        pci_scan(lines, vterm, dterm) == pci_scan(lines.take(i), vterm, dterm),
    decreases lines.len() - i,
{
    if i < lines.len() {
        assert(lines.take(i + 1).drop_last() =~= lines.take(i));
        lemma_pci_scan_done(lines, i + 1, vterm, dterm);
    } else {
        assert(lines.take(i) =~= lines);
    }
}

/// A scan over lines none of which starts with `vterm` names no vendor and
/// no device.
proof fn lemma_pci_scan_absent(lines: Seq<Seq<char>>, vterm: Seq<char>, dterm: Seq<char>)
    requires
        forall|i: int| 0 <= i < lines.len() ==> !text::has_prefix(#[trigger] lines[i], vterm),
    ensures
        pci_scan(lines, vterm, dterm).vendor.len() == 0,
        pci_scan(lines, vterm, dterm).device.len() == 0,
        !pci_scan(lines, vterm, dterm).in_vendor,
    decreases lines.len(),
{
    if lines.len() > 0 {
        lemma_pci_scan_absent(lines.drop_last(), vterm, dterm);
        assert(!text::has_prefix(lines[lines.len() - 1], vterm));
    }
}

/// A database in which no line starts with the queried vendor id yields an
/// empty vendor name and the raw device id as model.
pub proof fn lemma_missing_vendor(db: Seq<char>, vendor: Seq<char>, device: Seq<char>)
    requires
        forall|i: int|
            0 <= i < text::split_on(db, '\n').len() ==> !text::has_prefix(
                #[trigger] text::split_on(db, '\n')[i],
                vendor,
            ),
    ensures
        pci_lookup(db, vendor, device) == (Seq::<char>::empty(), device),
{
    lemma_pci_scan_absent(text::split_on(db, '\n'), vendor, seq!['\t'] + device);
    assert(pci_scan(text::split_on(db, '\n'), vendor, seq!['\t'] + device).vendor =~= Seq::<
        char,
    >::empty());
}

/// `c` with an ASCII capital letter made small.
pub open spec fn ascii_lower(c: char) -> char {
    if 'A' <= c && c <= 'Z' {
        (((c as u32) + 32) as u8) as char
    } else {
        c
    }
}

/// Whether `line` begins with `term`, ignoring the case of ASCII letters.
pub open spec fn has_prefix_ci(line: Seq<char>, term: Seq<char>) -> bool {
    term.len() <= line.len() && forall|i: int|
        0 <= i < term.len() ==> ascii_lower(#[trigger] line[i]) == ascii_lower(term[i])
}

/// The rest of the first non-comment line that begins with `term`, if any
/// line does.
pub open spec fn amd_scan(lines: Seq<Seq<char>>, term: Seq<char>) -> Option<Seq<char>>
    decreases lines.len(),
{
    if lines.len() == 0 {
        None
    } else {
        let prev = amd_scan(lines.drop_last(), term);
        let line = lines.last();
        if prev is Some {
            prev
        } else if !is_comment(line) && has_prefix_ci(line, term) {
            Some(line.skip(term.len() as int))
        } else {
            None
        }
    }
}

/// The key of an AMD GPU-id database line: device id and revision id, each
/// followed by a comma and a tab.
pub open spec fn amd_term(device: Seq<char>, revision: Seq<char>) -> Seq<char> {
    device + seq![',', '\t'] + revision + seq![',', '\t']
}

/// The model name that the AMD GPU-id database `db` gives for a device and
/// revision: the rest of the first line keyed by them, unless that is empty.
pub open spec fn amd_lookup(db: Seq<char>, device: Seq<char>, revision: Seq<char>) -> Option<Seq<char>> {
    match amd_scan(text::split_on(db, '\n'), amd_term(device, revision)) {
        Some(name) => if name.len() > 0 {
            Some(name)
        } else {
            None
        },
        None => None,
    }
}

/// `c` with an ASCII capital letter made small.
fn lower_char(c: char) -> (r: char)
    ensures
        r == ascii_lower(c),
{
    if 'A' <= c && c <= 'Z' {
        ((c as u32 + 32) as u8) as char
    } else {
        c
    }
}

/// Whether `line` begins with `term`, ignoring the case of ASCII letters.
fn starts_with_ci(line: &Vec<char>, term: &Vec<char>) -> (r: bool)
    ensures
        r == has_prefix_ci(line@, term@),
{
    if term.len() > line.len() {
        return false;
    }
    let mut i: usize = 0;
    while i < term.len()
        invariant
            i <= term@.len() <= line@.len(),
            forall|j: int| 0 <= j < i ==> ascii_lower(#[trigger] line@[j]) == ascii_lower(term@[j]),
        decreases term@.len() - i,
    {
        if lower_char(line[i]) != lower_char(term[i]) {
            return false;
        }
        i = i + 1;
    }
    true
}

/// Looks up the model name for an AMD device and revision in the text of the
/// AMD GPU-id database.
pub fn search_amd_model(db: &str, device: &str, revision: &str) -> (r: Option<String>)
    ensures
        text::opt_view(r) == amd_lookup(db@, device@, revision@),
{
    let lines = text::split_chars(&text::chars_of(db), '\n');
    let sep: Vec<char> = vec![',', '\t'];
    let term = text::concat(
        &text::concat(&text::concat(&text::chars_of(device), &sep), &text::chars_of(revision)),
        &sep,
    );
    assert(sep@ =~= seq![',', '\t']);
    let ghost ls = text::views(lines@);
    let mut found: Option<Vec<char>> = None;
    let mut i: usize = 0;
    assert(ls.take(0) =~= Seq::<Seq<char>>::empty());
    while i < lines.len() && found.is_none()
        invariant
            i <= lines@.len(),
            ls == text::views(lines@),
            ls == text::split_on(db@, '\n'),
            term@ == amd_term(device@, revision@),
            amd_scan(ls.take(i as int), term@) == text::opt_chars(found),
        decreases lines@.len() - i,
    {
        let line = &lines[i];
        assert(ls.take(i + 1).drop_last() =~= ls.take(i as int));
        assert(ls[i as int] == line@);
        if !comment_line(line) && starts_with_ci(line, &term) {
            found = Some(text::slice_chars(line, term.len(), line.len()));
        }
        i = i + 1;
    }
    proof {
        lemma_amd_scan_found(ls, i as int, term@);
    }
    match found {
        Some(v) => if v.len() > 0 {
            Some(text::string_of(&v))
        } else {
            None
        },
        None => None,
    }
}

/// Once a line has matched, later lines change nothing.
proof fn lemma_amd_scan_found(lines: Seq<Seq<char>>, i: int, term: Seq<char>)
    requires
        0 <= i <= lines.len(),
        i < lines.len() ==> amd_scan(lines.take(i), term) is Some,
    ensures
        amd_scan(lines, term) == amd_scan(lines.take(i), term),
    decreases lines.len() - i,
{
    if i < lines.len() {
        assert(lines.take(i + 1).drop_last() =~= lines.take(i));
        lemma_amd_scan_found(lines, i + 1, term);
    } else {
        assert(lines.take(i) =~= lines);
    }
}

} // verus!
