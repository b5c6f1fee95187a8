//! Displays: the record, and the parsers of the outputs of the display
//! tools (xrandr's text, wlr-randr's and kscreen-doctor's JSON).
use vstd::prelude::*;
use crate::json::{self, JsonValue};
use crate::text;

verus! {

broadcast use vstd::string::group_string_axioms;

/// One display.
pub struct DisplayInfo {
    name: String,
    width: u64,
    height: u64,
    refresh_rate: u32,
}

/// The mathematical model of a `DisplayInfo`.
pub struct DisplayRecord {
    pub name: Seq<char>,
    pub width: u64,
    pub height: u64,
    pub refresh_rate: u32,
}

impl View for DisplayInfo {
    type V = DisplayRecord;

    closed spec fn view(&self) -> DisplayRecord {
        DisplayRecord {
            name: self.name@,
            width: self.width,
            height: self.height,
            refresh_rate: self.refresh_rate,
        }
    }
}

/// A display with an empty name and zero sizes.
pub open spec fn empty_display() -> DisplayRecord {
    DisplayRecord { name: Seq::empty(), width: 0, height: 0, refresh_rate: 0 }
}

impl DisplayInfo {
    /// A display with an empty name and zero sizes.
    pub fn new() -> (r: DisplayInfo)
        ensures
            r@ == empty_display(),
    {
        DisplayInfo { name: String::new(), width: 0, height: 0, refresh_rate: 0 }
    }

    /// The output's name.
    pub fn name(&self) -> (r: &String)
        ensures
            r@ == self@.name,
    {
        &self.name
    }

    /// Width in pixels.
    pub fn width(&self) -> (r: u64)
        ensures
            r == self@.width,
    {
        self.width
    }

    /// Height in pixels.
    pub fn height(&self) -> (r: u64)
        ensures
            r == self@.height,
    {
        self.height
    }

    /// Refresh rate in whole Hz.
    pub fn refresh_rate(&self) -> (r: u32)
        ensures
            r == self@.refresh_rate,
    {
        self.refresh_rate
    }
}

/// The views of a sequence of displays.
pub open spec fn display_records(v: Seq<DisplayInfo>) -> Seq<DisplayRecord> {
    v.map_values(|d: DisplayInfo| d@)
}

/// The view of an optional list of displays.
pub open spec fn displays_view(r: Option<Vec<DisplayInfo>>) -> Option<Seq<DisplayRecord>> {
    match r {
        Some(v) => Some(display_records(v@)),
        None => None,
    }
}

/// A refresh rate written as a decimal number (`60`, `59.95`, `-1`),
/// rounded to the nearest whole Hz, halves upwards; negative rates count as
/// 0 and rates beyond 32 bits as `u32::MAX`. Absent where the text is no
/// such number.
pub open spec fn rate_of(s: Seq<char>) -> Option<u32> {
    let neg = s.len() > 0 && s[0] == '-';
    let body = if neg {
        s.drop_first()
    } else {
        s
    };
    let k = text::index_of(body, '.');
    let ip = if k < 0 {
        body
    } else {
        body.take(k)
    };
    let fp = if k < 0 {
        Seq::<char>::empty()
    } else {
        body.skip(k + 1)
    };
    if (ip.len() == 0 && fp.len() == 0) || !text::digits_only(ip) || !text::digits_only(fp) {
        None
    } else if neg {
        Some(0)
    } else {
        let v = text::digits_value(ip) + if fp.len() > 0 && text::digit_value(fp[0]) >= 5 {
            1nat
        } else {
            0nat
        };
        Some(
            if v > u32::MAX {
                u32::MAX
            } else {
                v as u32
            },
        )
    }
}

/// Whether every character of `v` is a decimal digit.
fn all_digit_chars(v: &Vec<char>) -> (r: bool)
    ensures
        r == text::digits_only(v@),
{
    let mut i: usize = 0;
    while i < v.len()
        invariant
            i <= v@.len(),
            forall|j: int| 0 <= j < i ==> text::is_digit(#[trigger] v@[j]),
        decreases v@.len() - i,
    {
        if !('0' <= v[i] && v[i] <= '9') {
            return false;
        }
        i = i + 1;
    }
    true
}

/// Reads a refresh rate and rounds it to whole Hz.
pub fn parse_rate(s: &Vec<char>) -> (r: Option<u32>)
    ensures
        r == rate_of(s@),
{
    let neg = s.len() > 0 && s[0] == '-';
    let body = if neg {
        text::slice_chars(s, 1, s.len())
    } else {
        text::slice_chars(s, 0, s.len())
    };
    assert(body@ == (if neg {
        s@.drop_first()
    } else {
        s@
    }));
    let (ip, fp) = match text::find_char(&body, '.') {
        None => (text::slice_chars(&body, 0, body.len()), Vec::new()),
        Some(k) => (text::slice_chars(&body, 0, k), text::slice_chars(&body, k + 1, body.len())),
    };
    assert(body@.subrange(0, body@.len() as int) =~= body@);
    proof {
        let k = text::index_of(body@, '.');
        if k >= 0 {
            assert(body@.take(k) =~= body@.subrange(0, k));
            assert(body@.skip(k + 1) =~= body@.subrange(k + 1, body@.len() as int));
        } else {
            assert(fp@ =~= Seq::<char>::empty());
        }
    }
    if (ip.len() == 0 && fp.len() == 0) || !all_digit_chars(&ip) || !all_digit_chars(&fp) {
        return None;
    }
    if neg {
        return Some(0);
    }
    let whole = text::capped_value(&ip);
    let up: u64 = if fp.len() > 0 && fp[0] >= '5' {
        1
    } else {
        0
    };
    proof {
        if fp@.len() > 0 {
            assert(text::is_digit(fp@[0]));
        }
    }
    let v = whole + up;
    if v > u32::MAX as u64 {
        Some(u32::MAX)
    } else {
        Some(v as u32)
    }
}

/// `v` without the characters `*` and `+` that mark the current and the
/// preferred mode.
pub open spec fn strip_marks(s: Seq<char>) -> Seq<char> {
    text::replace_all(text::replace_all(s, seq!['*'], Seq::empty()), seq!['+'], Seq::empty())
}

/// The pieces of a split line that hold more than whitespace.
pub open spec fn nonblank(toks: Seq<Seq<char>>) -> Seq<Seq<char>>
    decreases toks.len(),
{
    if toks.len() == 0 {
        Seq::empty()
    } else if text::trim(toks.last()).len() > 0 {
        nonblank(toks.drop_last()).push(toks.last())
    } else {
        nonblank(toks.drop_last())
    }
}

/// The width and height of a geometry token `WxH+X+Y`: the text before
/// its first `+` is two digit runs joined by one `x`.
pub open spec fn geometry_of(t: Seq<char>) -> Option<(u64, u64)> {
    let k = text::index_of(t, '+');
    if k < 0 {
        None
    } else {
        let res = text::split_on(t.take(k), 'x');
        if res.len() != 2 {
            None
        } else {
            match (text::parse_u64_spec(res[0]), text::parse_u64_spec(res[1])) {
                (Some(w), Some(h)) => Some((w, h)),
                _ => None,
            }
        }
    }
}

/// The geometry of the first token that is a geometry token.
pub open spec fn first_geometry(toks: Seq<Seq<char>>) -> Option<(u64, u64)>
    decreases toks.len(),
{
    if toks.len() == 0 {
        None
    } else {
        match geometry_of(toks[0]) {
            Some(g) => Some(g),
            None => first_geometry(toks.drop_first()),
        }
    }
}

/// The state of an `xrandr` scan: the displays read so far, and whether the
/// last of them is still open to take a mode line.
pub struct XrandrScan {
    pub displays: Seq<DisplayRecord>,
    pub open: bool,
}

/// One line of `xrandr` output applied to the scan. A line that contains
/// "connected" opens a display, named by its first word and sized by its
/// first geometry token; a header without one (a disconnected output)
/// opens nothing and closes the previous display. Else a line holding `*`
/// gives the open display the refresh rate of its second non-blank word,
/// without marks; a mode line that does not read as such is passed over.
pub open spec fn xrandr_step(st: XrandrScan, line: Seq<char>) -> XrandrScan {
    if text::has_infix(line, "connected"@) {
        let words = text::split_on(line, ' ');
        match first_geometry(words) {
            Some(g) => XrandrScan {
                displays: st.displays.push(
                    DisplayRecord { name: words[0], width: g.0, height: g.1, refresh_rate: 0 },
                ),
                open: true,
            },
            None => XrandrScan { displays: st.displays, open: false },
        }
    } else if !line.contains('*') || !st.open || st.displays.len() == 0 {
        st
    } else {
        let toks = nonblank(text::split_on(line, ' '));
        if toks.len() < 2 {
            st
        } else {
            match rate_of(strip_marks(toks[1])) {
                None => st,
                Some(r) => XrandrScan {
                    displays: st.displays.update(
                        st.displays.len() - 1,
                        DisplayRecord { refresh_rate: r, ..st.displays.last() },
                    ),
                    open: true,
                },
            }
        }
    }
}

/// The scan after `lines` in order.
pub open spec fn xrandr_scan(lines: Seq<Seq<char>>) -> XrandrScan
    decreases lines.len(),
{
    if lines.len() == 0 {
        XrandrScan { displays: Seq::empty(), open: false }
    } else {
        xrandr_step(xrandr_scan(lines.drop_last()), lines.last())
    }
}

/// The displays that `xrandr` output describes, line by line.
pub open spec fn xrandr_displays(contents: Seq<char>) -> Seq<DisplayRecord> {
    xrandr_scan(text::split_on(contents, '\n')).displays
}

/// The non-blank pieces of a line split at spaces.
fn nonblank_words(line: &Vec<char>) -> (r: Vec<Vec<char>>)
    ensures
        text::views(r@) == nonblank(text::split_on(line@, ' ')),
{
    let toks = text::split_chars(line, ' ');
    let ghost ts = text::views(toks@);
    let mut out: Vec<Vec<char>> = Vec::new();
    let mut i: usize = 0;
    assert(ts.take(0) =~= Seq::<Seq<char>>::empty());
    assert(text::views(out@) =~= Seq::<Seq<char>>::empty());
    while i < toks.len()
        invariant
            i <= toks@.len(),
            ts == text::views(toks@),
            text::views(out@) == nonblank(ts.take(i as int)),
        decreases toks@.len() - i,
    {
        assert(ts.take(i + 1).drop_last() =~= ts.take(i as int));
        assert(ts[i as int] == toks@[i as int]@);
        let t = text::trim_chars(&toks[i]);
        if t.len() > 0 {
            let ghost before = text::views(out@);
            out.push(text::slice_chars(&toks[i], 0, toks[i].len()));
            assert(toks@[i as int]@.subrange(0, toks@[i as int]@.len() as int) =~= toks@[i as int]@);
            assert(text::views(out@) =~= before.push(ts[i as int]));
        }
        i = i + 1;
    }
    assert(ts.take(i as int) =~= ts);
    out
}

/// The width and height of a geometry token.
fn geometry(t: &Vec<char>) -> (r: Option<(u64, u64)>)
    ensures
        r == geometry_of(t@),
{
    match text::find_char(t, '+') {
        None => None,
        Some(k) => {
            let size = text::slice_chars(t, 0, k);
            assert(size@ =~= t@.take(k as int));
            let res = text::split_chars(&size, 'x');
            if res.len() != 2 {
                return None;
            }
            assert(text::views(res@)[0] == res@[0]@ && text::views(res@)[1] == res@[1]@);
            match (text::parse_u64(&res[0]), text::parse_u64(&res[1])) {
                (Some(w), Some(h)) => Some((w, h)),
                _ => None,
            }
        },
    }
}

/// The geometry of the first geometry token among `words`.
fn find_geometry(words: &Vec<Vec<char>>) -> (r: Option<(u64, u64)>)
    ensures
        r == first_geometry(text::views(words@)),
{
    let ghost ws = text::views(words@);
    let mut i: usize = 0;
    assert(ws.skip(0) =~= ws);
    while i < words.len()
        invariant
            i <= words@.len(),
            ws == text::views(words@),
            first_geometry(ws) == first_geometry(ws.skip(i as int)),
        decreases words@.len() - i,
    {
        assert(ws.skip(i as int)[0] == words@[i as int]@);
        assert(ws.skip(i as int).drop_first() =~= ws.skip(i + 1));
        let g = geometry(&words[i]);
        if g.is_some() {
            return g;
        }
        i = i + 1;
    }
    assert(ws.skip(i as int) =~= Seq::<Seq<char>>::empty());
    None
}

/// Applies one line of `xrandr` output.
fn xrandr_line(acc: &mut Vec<DisplayInfo>, open: &mut bool, line: &Vec<char>)
    ensures
        xrandr_step(XrandrScan { displays: display_records(old(acc)@), open: *old(open) }, line@)
            == (XrandrScan { displays: display_records(final(acc)@), open: *final(open) }),
{
    if text::contains(line, &text::chars_of("connected")) {
        let words = text::split_chars(line, ' ');
        proof {
            text::lemma_split_nonempty(line@, ' ');
        }
        assert(text::views(words@)[0] == words@[0]@);
        match find_geometry(&words) {
            Some((w, h)) => {
                let ghost before = display_records(acc@);
                let d = DisplayInfo {
                    name: text::string_of(&words[0]),
                    width: w,
                    height: h,
                    refresh_rate: 0,
                };
                acc.push(d);
                assert(display_records(acc@) =~= before.push(d@));
                *open = true;
            },
            None => {
                *open = false;
            },
        }
        return;
    }
    if !text::contains_char(line, '*') || !*open || acc.len() == 0 {
        return;
    }
    let toks = nonblank_words(line);
    if toks.len() < 2 {
        return;
    }
    let ghost t1 = toks@[1]@;
    assert(text::views(toks@)[1] == t1);
    let empty: Vec<char> = Vec::new();
    let star: Vec<char> = vec!['*'];
    let plus: Vec<char> = vec!['+'];
    assert(star@ =~= seq!['*']);
    assert(plus@ =~= seq!['+']);
    assert(empty@ =~= Seq::<char>::empty());
    let stripped = text::replace_chars(&text::replace_chars(&toks[1], &star, &empty), &plus, &empty);
    if let Some(r) = parse_rate(&stripped) {
        let ghost before = display_records(acc@);
        let mut d = acc.pop().unwrap();
        d.refresh_rate = r;
        acc.push(d);
        assert(display_records(acc@) =~= before.update(
            before.len() - 1,
            DisplayRecord { refresh_rate: r, ..before.last() },
        ));
    }
}

/// Reads the displays from the text that `xrandr` prints.
pub fn parse_xrandr(contents: &str) -> (r: Vec<DisplayInfo>)
    ensures
        display_records(r@) == xrandr_displays(contents@),
{
    let lines = text::split_chars(&text::chars_of(contents), '\n');
    let ghost ls = text::views(lines@);
    let mut result: Vec<DisplayInfo> = Vec::new();
    let mut open = false;
    let mut i: usize = 0;
    assert(ls.take(0) =~= Seq::<Seq<char>>::empty());
    assert(display_records(result@) =~= Seq::<DisplayRecord>::empty());
    while i < lines.len()
        invariant
            i <= lines@.len(),
            ls == text::views(lines@),
            ls == text::split_on(contents@, '\n'),
            xrandr_scan(ls.take(i as int)) == (XrandrScan {
                displays: display_records(result@),
                open,
            }),
        decreases lines@.len() - i,
    {
        assert(ls.take(i + 1).drop_last() =~= ls.take(i as int));
        assert(ls[i as int] == lines@[i as int]@);
        xrandr_line(&mut result, &mut open, &lines[i]);
        i = i + 1;
    }
    assert(ls.take(i as int) =~= ls);
    result
}

/// The rate of a JSON number, rounded to whole Hz.
pub open spec fn json_rate(v: JsonValue) -> Option<u32> {
    match json::number_text(v) {
        Some(t) => rate_of(t),
        None => None,
    }
}

/// One wlr-randr mode applied to the size and rate found so far: a mode
/// flagged current gives its width, height and refresh rate. Absent where
/// the flag or a value of a current mode is missing.
pub open spec fn wlr_mode_step(acc: (u64, u64, u32), m: JsonValue) -> Option<(u64, u64, u32)> {
    match json::as_bool(json::get(m, "current"@)) {
        None => None,
        Some(false) => Some(acc),
        Some(true) => match (
            json::as_u64(json::get(m, "width"@)),
            json::as_u64(json::get(m, "height"@)),
            json_rate(json::get(m, "refresh"@)),
        ) {
            (Some(w), Some(h), Some(r)) => Some((w, h, r)),
            _ => None,
        },
    }
}

/// `wlr_mode_step` as a function value.
pub open spec fn wlr_mode_step_fn() -> spec_fn((u64, u64, u32), JsonValue) -> Option<(u64, u64, u32)> {
    |acc: (u64, u64, u32), m: JsonValue| wlr_mode_step(acc, m)
}

/// The display that one wlr-randr output describes.
pub open spec fn wlr_output(e: JsonValue) -> Option<DisplayRecord> {
    match json::as_array(json::get(e, "modes"@)) {
        None => None,
        Some(modes) => match text::fold_opt(modes, (0u64, 0u64, 0u32), wlr_mode_step_fn()) {
            None => None,
            Some(size) => match json::as_str(json::get(e, "name"@)) {
                None => None,
                Some(name) => Some(
                    DisplayRecord { name, width: size.0, height: size.1, refresh_rate: size.2 },
                ),
            },
        },
    }
}

/// `wlr_output` as a fold step.
pub open spec fn wlr_output_fn() -> spec_fn(Seq<DisplayRecord>, JsonValue) -> Option<Seq<DisplayRecord>> {
    |acc: Seq<DisplayRecord>, e: JsonValue|
        match wlr_output(e) {
            Some(d) => Some(acc.push(d)),
            None => None,
        }
}

/// The displays of a wlr-randr document: an array of outputs, each with
/// its name and modes.
pub open spec fn wlr_displays(doc: JsonValue) -> Option<Seq<DisplayRecord>> {
    match json::as_array(doc) {
        None => None,
        Some(entries) => text::fold_opt(entries, Seq::empty(), wlr_output_fn()),
    }
}

/// The current size and rate among wlr-randr modes.
fn wlr_modes(modes: &Vec<JsonValue>) -> (r: Option<(u64, u64, u32)>)
    ensures
        r == text::fold_opt(modes@, (0u64, 0u64, 0u32), wlr_mode_step_fn()),
{
    let mut acc: (u64, u64, u32) = (0, 0, 0);
    let mut i: usize = 0;
    assert(modes@.take(0) =~= Seq::<JsonValue>::empty());
    while i < modes.len()
        invariant
            i <= modes@.len(),
            text::fold_opt(modes@.take(i as int), (0u64, 0u64, 0u32), wlr_mode_step_fn()) == Some(acc),
        decreases modes@.len() - i,
    {
        proof {
            text::lemma_fold_opt_step(modes@, i as int, (0u64, 0u64, 0u32), wlr_mode_step_fn());
        }
        let m = &modes[i];
        let current = match m.field("current") {
            Some(JsonValue::Bool(b)) => *b,
            _ => {
                proof {
                    text::lemma_fold_opt_none(modes@, i + 1, (0u64, 0u64, 0u32), wlr_mode_step_fn());
                }
                return None;
            },
        };
        if current {
            let w = match m.field("width") {
                Some(JsonValue::Number(n)) => n.unsigned,
                _ => None,
            };
            let h = match m.field("height") {
                Some(JsonValue::Number(n)) => n.unsigned,
                _ => None,
            };
            let rate = match m.field("refresh") {
                Some(JsonValue::Number(n)) => parse_rate(&text::chars_of(n.text.as_str())),
                _ => None,
            };
            match (w, h, rate) {
                (Some(w), Some(h), Some(rate)) => {
                    acc = (w, h, rate);
                },
                _ => {
                    proof {
                        text::lemma_fold_opt_none(modes@, i + 1, (0u64, 0u64, 0u32), wlr_mode_step_fn());
                    }
                    return None;
                },
            }
        }
        i = i + 1;
    }
    assert(modes@.take(i as int) =~= modes@);
    Some(acc)
}

/// Reads the displays from a wlr-randr document.
pub fn wlr_randr_displays(doc: &JsonValue) -> (r: Option<Vec<DisplayInfo>>)
    ensures
        displays_view(r) == wlr_displays(*doc),
{
    let entries = match doc {
        JsonValue::Array(a) => a,
        _ => return None,
    };
    let mut result: Vec<DisplayInfo> = Vec::new();
    let mut i: usize = 0;
    assert(entries@.take(0) =~= Seq::<JsonValue>::empty());
    assert(display_records(result@) =~= Seq::<DisplayRecord>::empty());
    while i < entries.len()
        invariant
            i <= entries@.len(),
            *doc == JsonValue::Array(*entries),
            text::fold_opt(entries@.take(i as int), Seq::empty(), wlr_output_fn()) == Some(
                display_records(result@),
            ),
        decreases entries@.len() - i,
    {
        proof {
            text::lemma_fold_opt_step(entries@, i as int, Seq::empty(), wlr_output_fn());
        }
        let e = &entries[i];
        let size = match e.field("modes") {
            Some(JsonValue::Array(modes)) => wlr_modes(modes),
            _ => None,
        };
        let name = match e.field("name") {
            Some(JsonValue::Str(s)) => Some(s.clone()),
            _ => None,
        };
        match (size, name) {
            (Some(size), Some(name)) => {
                let ghost before = display_records(result@);
                let d = DisplayInfo { name, width: size.0, height: size.1, refresh_rate: size.2 };
                result.push(d);
                assert(display_records(result@) =~= before.push(d@));
            },
            _ => {
                proof {
                    text::lemma_fold_opt_none(entries@, i + 1, Seq::empty(), wlr_output_fn());
                }
                return None;
            },
        }
        i = i + 1;
    }
    assert(entries@.take(i as int) =~= entries@);
    Some(result)
}

/// Reads the displays from the JSON that `wlr-randr --json` prints; `None`
/// where it is not JSON or not of the expected shape.
pub fn parse_wlr_randr(contents: &str) -> (r: Option<Vec<DisplayInfo>>)
    ensures
        displays_view(r) == match json::json_document(contents@) {
            Some(doc) => wlr_displays(doc),
            None => None,
        },
{
    match json::parse_json(contents) {
        Some(doc) => wlr_randr_displays(&doc),
        None => None,
    }
}

/// One kscreen-doctor mode applied to the size and rate found so far: the
/// mode whose id is the output's current mode id gives its size and refresh
/// rate. Absent where a value of that mode is missing.
pub open spec fn kscreen_mode_step(cur: Seq<char>, acc: (u64, u64, u32), m: JsonValue) -> Option<(u64, u64, u32)> {
    if json::as_str(json::get(m, "id"@)) == Some(cur) {
        let size = json::get(m, "size"@);
        match (
            json::as_u64(json::get(size, "width"@)),
            json::as_u64(json::get(size, "height"@)),
            json_rate(json::get(m, "refreshRate"@)),
        ) {
            (Some(w), Some(h), Some(r)) => Some((w, h, r)),
            _ => None,
        }
    } else {
        Some(acc)
    }
}

/// `kscreen_mode_step` for a current mode id, as a function value.
pub open spec fn kscreen_mode_step_fn(cur: Seq<char>) -> spec_fn((u64, u64, u32), JsonValue) -> Option<(u64, u64, u32)> {
    |acc: (u64, u64, u32), m: JsonValue| kscreen_mode_step(cur, acc, m)
}

/// What one kscreen-doctor output contributes: nothing where it is
/// disabled, else its display. Absent where a value is missing.
pub open spec fn kscreen_output(o: JsonValue) -> Option<Option<DisplayRecord>> {
    match json::as_bool(json::get(o, "enabled"@)) {
        None => None,
        Some(false) => Some(None),
        Some(true) => match (
            json::as_str(json::get(o, "name"@)),
            json::as_str(json::get(o, "currentModeId"@)),
            json::as_array(json::get(o, "modes"@)),
        ) {
            (Some(name), Some(cur), Some(modes)) => match text::fold_opt(
                modes,
                (0u64, 0u64, 0u32),
                kscreen_mode_step_fn(cur),
            ) {
                Some(size) => Some(
                    Some(DisplayRecord { name, width: size.0, height: size.1, refresh_rate: size.2 }),
                ),
                None => None,
            },
            _ => None,
        },
    }
}

/// `kscreen_output` as a fold step.
pub open spec fn kscreen_output_fn() -> spec_fn(Seq<DisplayRecord>, JsonValue) -> Option<Seq<DisplayRecord>> {
    |acc: Seq<DisplayRecord>, o: JsonValue|
        match kscreen_output(o) {
            Some(Some(d)) => Some(acc.push(d)),
            Some(None) => Some(acc),
            None => None,
        }
}

/// The displays of a kscreen-doctor document: the enabled members of its
/// `outputs` array.
pub open spec fn kscreen_displays(doc: JsonValue) -> Option<Seq<DisplayRecord>> {
    match json::as_array(json::get(doc, "outputs"@)) {
        None => None,
        Some(outputs) => text::fold_opt(outputs, Seq::empty(), kscreen_output_fn()),
    }
}

/// The size and rate of the current mode among kscreen-doctor modes.
fn kscreen_modes(modes: &Vec<JsonValue>, cur: &String) -> (r: Option<(u64, u64, u32)>)
    ensures
        r == text::fold_opt(modes@, (0u64, 0u64, 0u32), kscreen_mode_step_fn(cur@)),
{
    let cur_chars = text::chars_of(cur.as_str());
    let mut acc: (u64, u64, u32) = (0, 0, 0);
    let mut i: usize = 0;
    assert(modes@.take(0) =~= Seq::<JsonValue>::empty());
    while i < modes.len()
        invariant
            i <= modes@.len(),
            cur_chars@ == cur@,
            text::fold_opt(modes@.take(i as int), (0u64, 0u64, 0u32), kscreen_mode_step_fn(cur@))
                == Some(acc),
        decreases modes@.len() - i,
    {
        proof {
            text::lemma_fold_opt_step(modes@, i as int, (0u64, 0u64, 0u32), kscreen_mode_step_fn(cur@));
        }
        let m = &modes[i];
        let is_current = match m.field("id") {
            Some(JsonValue::Str(id)) => text::same_chars(&text::chars_of(id.as_str()), &cur_chars),
            _ => false,
        };
        if is_current {
            let (w, h) = match m.field("size") {
                Some(size) => (
                    match size.field("width") {
                        Some(JsonValue::Number(n)) => n.unsigned,
                        _ => None,
                    },
                    match size.field("height") {
                        Some(JsonValue::Number(n)) => n.unsigned,
                        _ => None,
                    },
                ),
                None => (None, None),
            };
            let rate = match m.field("refreshRate") {
                Some(JsonValue::Number(n)) => parse_rate(&text::chars_of(n.text.as_str())),
                _ => None,
            };
            match (w, h, rate) {
                (Some(w), Some(h), Some(rate)) => {
                    acc = (w, h, rate);
                },
                _ => {
                    proof {
                        text::lemma_fold_opt_none(
                            modes@,
                            i + 1,
                            (0u64, 0u64, 0u32),
                            kscreen_mode_step_fn(cur@),
                        );
                    }
                    return None;
                },
            }
        }
        i = i + 1;
    }
    assert(modes@.take(i as int) =~= modes@);
    Some(acc)
}

/// Reads the displays from a kscreen-doctor document.
pub fn kscreen_doctor_displays(doc: &JsonValue) -> (r: Option<Vec<DisplayInfo>>)
    ensures
        displays_view(r) == kscreen_displays(*doc),
{
    let outputs = match doc.field("outputs") {
        Some(JsonValue::Array(a)) => a,
        _ => return None,
    };
    let mut result: Vec<DisplayInfo> = Vec::new();
    let mut i: usize = 0;
    assert(outputs@.take(0) =~= Seq::<JsonValue>::empty());
    assert(display_records(result@) =~= Seq::<DisplayRecord>::empty());
    while i < outputs.len()
        invariant
            i <= outputs@.len(),
            json::as_array(json::get(*doc, "outputs"@)) == Some(outputs@),
            text::fold_opt(outputs@.take(i as int), Seq::empty(), kscreen_output_fn()) == Some(
                display_records(result@),
            ),
        decreases outputs@.len() - i,
    {
        proof {
            text::lemma_fold_opt_step(outputs@, i as int, Seq::empty(), kscreen_output_fn());
        }
        let o = &outputs[i];
        let enabled = match o.field("enabled") {
            Some(JsonValue::Bool(b)) => *b,
            _ => {
                proof {
                    text::lemma_fold_opt_none(outputs@, i + 1, Seq::empty(), kscreen_output_fn());
                }
                return None;
            },
        };
        if enabled {
            let name = match o.field("name") {
                Some(JsonValue::Str(s)) => Some(s),
                _ => None,
            };
            let cur = match o.field("currentModeId") {
                Some(JsonValue::Str(s)) => Some(s),
                _ => None,
            };
            let modes = match o.field("modes") {
                Some(JsonValue::Array(a)) => Some(a),
                _ => None,
            };
            let found = match (name, cur, modes) {
                (Some(name), Some(cur), Some(modes)) => match kscreen_modes(modes, cur) {
                    Some(size) => Some((name.clone(), size)),
                    None => None,
                },
                _ => None,
            };
            match found {
                Some((name, size)) => {
                    let ghost before = display_records(result@);
                    let d = DisplayInfo { name, width: size.0, height: size.1, refresh_rate: size.2 };
                    result.push(d);
                    assert(display_records(result@) =~= before.push(d@));
                },
                None => {
                    proof {
                        text::lemma_fold_opt_none(outputs@, i + 1, Seq::empty(), kscreen_output_fn());
                    }
                    return None;
                },
            }
        }
        i = i + 1;
    }
    assert(outputs@.take(i as int) =~= outputs@);
    Some(result)
}

/// Reads the displays from the JSON that `kscreen-doctor --json` prints;
/// `None` where it is not JSON or not of the expected shape.
pub fn parse_kscreen_doctor(contents: &str) -> (r: Option<Vec<DisplayInfo>>)
    ensures
        displays_view(r) == match json::json_document(contents@) {
            Some(doc) => kscreen_displays(doc),
            None => None,
        },
{
    match json::parse_json(contents) {
        Some(doc) => kscreen_doctor_displays(&doc),
        None => None,
    }
}

/// A template with the display's fields filled in.
pub open spec fn display_text(d: DisplayRecord, t: Seq<char>) -> Seq<char> {
    let t1 = text::replace_all(t, "{name}"@, d.name);
    let t2 = text::replace_all(t1, "{width}"@, text::decimal(d.width as nat));
    let t3 = text::replace_all(t2, "{height}"@, text::decimal(d.height as nat));
    text::replace_all(t3, "{refresh_rate}"@, text::decimal(d.refresh_rate as nat))
}

/// The one-line description of a display: "DP-1 1920x1080 @ 60hz".
pub open spec fn display_summary(d: DisplayRecord) -> Seq<char> {
    d.name + seq![' '] + text::decimal(d.width as nat) + seq!['x'] + text::decimal(d.height as nat)
        + " @ "@ + text::decimal(d.refresh_rate as nat) + "hz"@
}

/// `a` followed by `b`.
fn join(a: Vec<char>, b: &Vec<char>) -> (r: Vec<char>)
    ensures
        r@ == a@ + b@,
{
    let mut out = a;
    let ghost a0 = out@;
    let mut i: usize = 0;
    while i < b.len()
        invariant
            i <= b@.len(),
            out@ == a0 + b@.take(i as int),
        decreases b@.len() - i,
    {
        out.push(b[i]);
        i = i + 1;
        assert(out@ =~= a0 + b@.take(i as int));
    }
    assert(b@.take(i as int) =~= b@);
    out
}

impl DisplayInfo {
    /// `format` with `{name}`, `{width}`, `{height}` and `{refresh_rate}`
    /// replaced by the display's fields, in that order.
    pub fn format(&self, format: &str) -> (r: String)
        ensures
            r@ == display_text(self@, format@),
    {
        let t = text::chars_of(format);
        let t = text::replace_chars(&t, &text::chars_of("{name}"), &text::chars_of(self.name.as_str()));
        let t = text::replace_chars(&t, &text::chars_of("{width}"), &text::decimal_chars(self.width));
        let t = text::replace_chars(&t, &text::chars_of("{height}"), &text::decimal_chars(self.height));
        let t = text::replace_chars(
            &t,
            &text::chars_of("{refresh_rate}"),
            &text::decimal_chars(self.refresh_rate as u64),
        );
        text::string_of(&t)
    }

    /// The one-line description of the display.
    pub fn to_string(&self) -> (r: String)
        ensures
            r@ == display_summary(self@),
    {
        let space: Vec<char> = vec![' '];
        let x: Vec<char> = vec!['x'];
        assert(space@ =~= seq![' ']);
        assert(x@ =~= seq!['x']);
        let t = join(text::chars_of(self.name.as_str()), &space);
        let t = join(t, &text::decimal_chars(self.width));
        let t = join(t, &x);
        let t = join(t, &text::decimal_chars(self.height));
        let t = join(t, &text::chars_of(" @ "));
        let t = join(t, &text::decimal_chars(self.refresh_rate as u64));
        let t = join(t, &text::chars_of("hz"));
        text::string_of(&t)
    }
}

/// The tool that reports the displays of a session.
#[derive(Clone, Copy, PartialEq, Eq, Structural)]
pub enum DisplayBackend {
    /// `kscreen-doctor --json`, on KDE.
    KScreenDoctor,
    /// `xrandr`, on X11.
    XRandr,
    /// `wlr-randr --json`, on wlroots Wayland compositors.
    WlrRandr,
}

/// The backend for a desktop and session type: KDE first, else by session
/// type; none for an unknown or absent session type.
pub open spec fn backend_of(desktop: Option<Seq<char>>, session: Option<Seq<char>>) -> Option<DisplayBackend> {
    if desktop == Some("KDE"@) {
        Some(DisplayBackend::KScreenDoctor)
    } else if session == Some("x11"@) {
        Some(DisplayBackend::XRandr)
    } else if session == Some("wayland"@) {
        Some(DisplayBackend::WlrRandr)
    } else {
        None
    }
}

/// Whether `o` holds exactly the text `lit`.
fn is_text(o: Option<&str>, lit: &str) -> (r: bool)
    ensures
        r == (text::opt_str(o) == Some(lit@)),
{
    match o {
        Some(s) => text::same_chars(&text::chars_of(s), &text::chars_of(lit)),
        None => false,
    }
}

/// Picks the display backend from the desktop and session identifiers.
pub fn display_backend(desktop: Option<&str>, session: Option<&str>) -> (r: Option<DisplayBackend>)
    ensures
        r == backend_of(text::opt_str(desktop), text::opt_str(session)),
{
    if is_text(desktop, "KDE") {
        Some(DisplayBackend::KScreenDoctor)
    } else if is_text(session, "x11") {
        Some(DisplayBackend::XRandr)
    } else if is_text(session, "wayland") {
        Some(DisplayBackend::WlrRandr)
    } else {
        None
    }
}

/// The displays that a backend's output describes, if it parses.
pub open spec fn backend_displays(backend: DisplayBackend, output: Seq<char>) -> Option<Seq<DisplayRecord>> {
    match backend {
        DisplayBackend::XRandr => Some(xrandr_displays(output)),
        DisplayBackend::WlrRandr => match json::json_document(output) {
            Some(doc) => wlr_displays(doc),
            None => None,
        },
        DisplayBackend::KScreenDoctor => match json::json_document(output) {
            Some(doc) => kscreen_displays(doc),
            None => None,
        },
    }
}

/// The displays that a backend's tool reported in `output`; `None` where
/// the output does not parse, so that the caller can report it.
pub fn get_displays(backend: DisplayBackend, output: &str) -> (r: Option<Vec<DisplayInfo>>)
    ensures
        displays_view(r) == backend_displays(backend, output@),
{
    match backend {
        DisplayBackend::XRandr => Some(parse_xrandr(output)),
        DisplayBackend::WlrRandr => parse_wlr_randr(output),
        DisplayBackend::KScreenDoctor => parse_kscreen_doctor(output),
    }
}

} // verus!
