//! Reading a policy from the lines of its text: scalars under a section,
//! and the lists under `capabilities`.

use crate::schema::{
    Capabilities, DefaultRule, EnvCapabilities, FsCapabilities, GradingCfg, GradingThresholds,
    NetCapabilities, PolicyDoc, PolicyLimits,
};
use crate::text::{
    fields, find, find_from, first_non_ws, from_chars, is_prefix, parse_number, parse_unsigned,
    rows, same_chars, skip_ws, slice_chars, split_fields, starts_with, strip_both,
    strip_both_char, strip_leading, strip_leading_char, texts, to_chars, trim, trimmed,
};
use vstd::prelude::*;

verus! {

/// `s` without one carriage return at its end.
pub open spec fn strip_cr(s: Seq<char>) -> Seq<char> {
    if s.len() > 0 && s[s.len() - 1] == '\r' {
        s.drop_last()
    } else {
        s
    }
}

/// The first `k` pieces, each without the carriage return at its end.
pub open spec fn lines_upto(f: Seq<Seq<char>>, k: int) -> Seq<Seq<char>>
    decreases k,
{
    if k <= 0 {
        Seq::empty()
    } else {
        lines_upto(f, k - 1).push(strip_cr(f[k - 1]))
    }
}

/// The lines of a text. A line ends at a line feed, with or without a
/// carriage return before it; what follows the last line feed is a line
/// of its own unless it is empty.
pub open spec fn lines_of(text: Seq<char>) -> Seq<Seq<char>> {
    let f = fields(text, '\n');
    let body = lines_upto(f, f.len() - 1);
    if f[f.len() - 1].len() == 0 {
        body
    } else {
        body.push(f[f.len() - 1])
    }
}

/// The lines of a text.
pub fn split_lines(text: &[char]) -> (r: Vec<Vec<char>>)
    ensures
        rows(r@) == lines_of(text@),
{
    let mut f = split_fields(text, '\n');
    let ghost pieces = rows(f@);
    let n: usize = f.len();
    let mut r: Vec<Vec<char>> = Vec::new();
    let mut i: usize = 0;
    assert(rows(r@) =~= lines_upto(pieces, 0));
    while i + 1 < n
        invariant
            i + 1 <= n == f@.len(),
            pieces == rows(f@),
            rows(r@) == lines_upto(pieces, i as int),
        decreases n - i,
    {
        let piece = &f[i];
        let m: usize = piece.len();
        assert(pieces[i as int] == piece@);
        let ghost before = rows(r@);
        let line = if m > 0 && piece[m - 1] == '\r' {
            let l = slice_chars(piece.as_slice(), 0, m - 1);
            assert(l@ =~= strip_cr(piece@));
            l
        } else {
            let l = slice_chars(piece.as_slice(), 0, m);
            assert(l@ =~= strip_cr(piece@));
            l
        };
        r.push(line);
        assert(rows(r@) =~= before.push(strip_cr(pieces[i as int])));
        i += 1;
    }
    let last = &f[n - 1];
    assert(pieces[n - 1] == last@);
    if last.len() > 0 {
        let ghost before = rows(r@);
        let l = slice_chars(last.as_slice(), 0, last.len());
        assert(l@ =~= last@);
        r.push(l);
        assert(rows(r@) =~= before.push(pieces[n - 1]));
    }
    r
}

/// The line that opens the section `name`.
pub open spec fn header(name: Seq<char>) -> Seq<char> {
    name.push(':')
}

/// The line is a comment.
pub open spec fn is_comment(line: Seq<char>) -> bool {
    line.len() > 0 && line[0] == '#'
}

/// The value of a line that begins with `key`: what follows the key,
/// without white space, leading colons and quotation marks around it.
pub open spec fn value_after_key(line: Seq<char>, key: Seq<char>) -> Seq<char> {
    strip_both(trim(strip_leading(trim(line.skip(key.len() as int)), ':')), '"')
}

/// Whether a section goes on at a line with this indent: it ends at a
/// line that is not blank and not indented deeper than its header.
pub open spec fn section_after(inside: Option<int>, indent: int, line: Seq<char>) -> Option<int> {
    match inside {
        Some(si) => if indent <= si && line.len() > 0 {
            None
        } else {
            Some(si)
        },
        None => None,
    }
}

/// The value of the first line from `i` on that begins with `key` and
/// stands inside the section `section`; with `numeric`, lines whose value
/// is no number are passed over. `inside` is the indent of the section's
/// header where line `i` may be inside it.
pub open spec fn scan_section(
    lines: Seq<Seq<char>>,
    section: Seq<char>,
    key: Seq<char>,
    numeric: bool,
    i: int,
    inside: Option<int>,
) -> Option<Seq<char>>
    decreases lines.len() - i,
{
    if i < 0 || i >= lines.len() {
        None
    } else {
        let line = trim(lines[i]);
        let indent = skip_ws(lines[i], 0);
        if is_comment(line) {
            scan_section(lines, section, key, numeric, i + 1, inside)
        } else if line == header(section) {
            scan_section(lines, section, key, numeric, i + 1, Some(indent))
        } else {
            let still = section_after(inside, indent, line);
            if still is Some && is_prefix(key, line) && (!numeric || parse_unsigned(
                value_after_key(line, key),
                u64::MAX as int,
            ) is Some) {
                Some(value_after_key(line, key))
            } else {
                scan_section(lines, section, key, numeric, i + 1, still)
            }
        }
    }
}

/// The scalar under `key` in the section `section` of a text.
pub open spec fn scalar_under(content: Seq<char>, section: Seq<char>, key: Seq<char>) -> Option<
    Seq<char>,
> {
    scan_section(lines_of(content), section, key, false, 0, None)
}

/// The number under `key` in the section `section` of a text.
pub open spec fn number_under(content: Seq<char>, section: Seq<char>, key: Seq<char>) -> Option<
    u64,
> {
    match scan_section(lines_of(content), section, key, true, 0, None) {
        Some(v) => match parse_unsigned(v, u64::MAX as int) {
            Some(n) => Some(n as u64),
            None => None,
        },
        None => None,
    }
}

fn read_value_after_key(line: &[char], key_len: usize) -> (r: Vec<char>)
    requires
        key_len <= line@.len(),
    ensures
        r@ == strip_both(trim(strip_leading(trim(line@.skip(key_len as int)), ':')), '"'),
{
    let rest0 = slice_chars(line, key_len, line.len());
    assert(rest0@ =~= line@.skip(key_len as int));
    let rest = trimmed(rest0.as_slice());
    let no_colon = strip_leading_char(rest.as_slice(), ':');
    let val = trimmed(no_colon.as_slice());
    strip_both_char(val.as_slice(), '"')
}

fn scan(lines: &Vec<Vec<char>>, section: &[char], key: &[char], numeric: bool) -> (r: Option<
    Vec<char>,
>)
    ensures
        match r {
            Some(v) => scan_section(rows(lines@), section@, key@, numeric, 0, None) == Some(v@),
            None => scan_section(rows(lines@), section@, key@, numeric, 0, None) is None,
        },
{
    let mut head: Vec<char> = Vec::new();
    crate::text::push_all(&mut head, section);
    head.push(':');
    assert(head@ =~= header(section@));
    let mut inside: Option<usize> = None;
    let mut i: usize = 0;
    let ghost all = rows(lines@);
    while i < lines.len()
        invariant
            i <= lines@.len(),
            all == rows(lines@),
            head@ == header(section@),
            scan_section(all, section@, key@, numeric, 0, None) == scan_section(
                all,
                section@,
                key@,
                numeric,
                i as int,
                match inside {
                    Some(si) => Some(si as int),
                    None => None,
                },
            ),
        decreases lines@.len() - i,
    {
        let raw = &lines[i];
        assert(all[i as int] == raw@);
        let line = trimmed(raw.as_slice());
        let indent: usize = first_non_ws(raw.as_slice(), 0);
        if line.len() > 0 && line[0] == '#' {
            i += 1;
            continue ;
        }
        if same_chars(line.as_slice(), head.as_slice()) {
            inside = Some(indent);
            i += 1;
            continue ;
        }
        match inside {
            Some(si) => {
                if indent <= si && line.len() > 0 {
                    inside = None;
                }
            },
            None => {},
        }
        if inside.is_some() && starts_with(line.as_slice(), key) {
            let val = read_value_after_key(line.as_slice(), key.len());
            if !numeric {
                return Some(val);
            }
            if parse_number(val.as_slice(), u64::MAX).is_some() {
                return Some(val);
            }
        }
        i += 1;
    }
    None
}

/// The scalar under `key` in the section `section` of a text: the value
/// of the first line inside the section that begins with the key.
pub fn extract_yaml_scalar_under(content: &str, section: &str, key: &str) -> (r: Option<String>)
    ensures
        crate::endpoint::opt_string(r) == scalar_under(content@, section@, key@),
{
    let text = to_chars(content);
    let lines = split_lines(text.as_slice());
    let s = to_chars(section);
    let k = to_chars(key);
    match scan(&lines, s.as_slice(), k.as_slice(), false) {
        Some(v) => Some(from_chars(v.as_slice())),
        None => None,
    }
}

/// The number under `key` in the section `section` of a text: the value
/// of the first line inside the section that begins with the key and
/// holds a number.
pub fn extract_yaml_u64_under(content: &str, section: &str, key: &str) -> (r: Option<u64>)
    ensures
        r == number_under(content@, section@, key@),
{
    let text = to_chars(content);
    let lines = split_lines(text.as_slice());
    let s = to_chars(section);
    let k = to_chars(key);
    match scan(&lines, s.as_slice(), k.as_slice(), true) {
        Some(v) => parse_number(v.as_slice(), u64::MAX),
        None => None,
    }
}

/// The first of the two that is there, or else the default.
pub open spec fn first_of(a: Option<Seq<char>>, b: Option<Seq<char>>, default: Seq<char>) -> Seq<
    char,
> {
    match a {
        Some(v) => v,
        None => match b {
            Some(v) => v,
            None => default,
        },
    }
}

/// The threshold of one colour in a text: the scalar under `thresholds`,
/// or else the one under `grading`, or else the default.
pub open spec fn threshold_of(text: Seq<char>, colour: Seq<char>, default: Seq<char>) -> Seq<char> {
    first_of(
        scalar_under(text, "thresholds"@, colour),
        scalar_under(text, "grading"@, colour),
        default,
    )
}

fn load_threshold(text: &str, colour: &str, default: &str) -> (r: String)
    ensures
        r@ == threshold_of(text@, colour@, default@),
{
    match extract_yaml_scalar_under(text, "thresholds", colour) {
        Some(v) => v,
        None => match extract_yaml_scalar_under(text, "grading", colour) {
            Some(v) => v,
            None => default.to_owned(),
        },
    }
}

/// The thresholds that the text of a policy names, each with its
/// standard value where the text names none.
pub fn load_thresholds_from_policy(text: &str) -> (r: GradingThresholds)
    ensures
        r.green@ == threshold_of(text@, "green"@, "<=20"@),
        r.yellow@ == threshold_of(text@, "yellow"@, "21..=60"@),
        r.red@ == threshold_of(text@, "red"@, ">=61"@),
{
    GradingThresholds {
        green: load_threshold(text, "green", "<=20"),
        yellow: load_threshold(text, "yellow", "21..=60"),
        red: load_threshold(text, "red", ">=61"),
    }
}

/// A limit of a text: the number under the key in `limits`, or else the
/// default.
pub open spec fn limit_of(text: Seq<char>, key: Seq<char>, default: u64) -> u64 {
    match number_under(text, "limits"@, key) {
        Some(v) => v,
        None => default,
    }
}

fn load_limit(text: &str, key: &str, default: u64) -> (r: u64)
    ensures
        r == limit_of(text@, key@, default),
{
    match extract_yaml_u64_under(text, "limits", key) {
        Some(v) => v,
        None => default,
    }
}

/// The limits that the text of a policy names: 60 seconds, 5000
/// milliseconds of processor time, 512 megabytes and 256 processes where
/// it names none.
pub fn load_limits_from_policy(text: &str) -> (r: PolicyLimits)
    ensures
        r.wall_sec == limit_of(text@, "wall_sec"@, 60),
        r.cpu_ms == limit_of(text@, "cpu_ms"@, 5000),
        r.memory_mb == limit_of(text@, "memory_mb"@, 512),
        r.pids == limit_of(text@, "pids"@, 256),
{
    PolicyLimits {
        wall_sec: load_limit(text, "wall_sec", 60),
        cpu_ms: load_limit(text, "cpu_ms", 5000),
        memory_mb: load_limit(text, "memory_mb", 512),
        pids: load_limit(text, "pids", 256),
    }
}

/// How the items of a list are written.
#[derive(Debug, Clone, Copy, PartialEq, Eq)]
pub enum ItemForm {
    /// `- key: value` or `- value`: the value counts.
    Keyed,
    /// `- path: value`: only such items count.
    Path,
    /// `- value`.
    Plain,
}

/// `s` without the `- ` marks that it begins with.
pub open spec fn strip_dashes(s: Seq<char>) -> Seq<char>
    decreases s.len(),
{
    if s.len() >= 2 && s[0] == '-' && s[1] == ' ' {
        strip_dashes(s.skip(2))
    } else {
        s
    }
}

/// The characters that part key and value of an item.
pub open spec fn key_sep() -> Seq<char> {
    seq![':', ' ']
}

/// The key of the items of a list of paths.
pub open spec fn path_key() -> Seq<char> {
    seq!['p', 'a', 't', 'h', ':']
}

/// The value of a list item, where the line is one and its value is not
/// empty.
pub open spec fn item_value(line: Seq<char>, form: ItemForm) -> Option<Seq<char>> {
    if !(line.len() >= 2 && line[0] == '-' && line[1] == ' ') {
        None
    } else {
        let body = strip_dashes(line);
        let v: Option<Seq<char>> = match form {
            ItemForm::Keyed => {
                let item = trim(body);
                match find_from(item, key_sep(), 0) {
                    Some(k) => Some(strip_both(trim(item.skip(k + 2)), '"')),
                    None => Some(strip_both(trim(item), '"')),
                }
            },
            ItemForm::Path => if is_prefix(path_key(), body) {
                Some(strip_both(trim(strip_leading(trim(body.skip(5)), ':')), '"'))
            } else {
                None
            },
            ItemForm::Plain => Some(strip_both(trim(body), '"')),
        };
        match v {
            Some(t) => if t.len() > 0 {
                Some(t)
            } else {
                None
            },
            None => None,
        }
    }
}

fn read_strip_dashes(s: &[char]) -> (r: Vec<char>)
    ensures
        r@ == strip_dashes(s@),
{
    let n: usize = s.len();
    let mut i: usize = 0;
    assert(s@.skip(0) =~= s@);
    while n - i >= 2 && s[i] == '-' && s[i + 1] == ' '
        invariant
            i <= n == s@.len(),
            strip_dashes(s@) == strip_dashes(s@.skip(i as int)),
        decreases n - i,
    {
        assert(s@.skip(i as int).skip(2) =~= s@.skip(i + 2));
        assert(s@.skip(i as int)[0] == s@[i as int]);
        assert(s@.skip(i as int)[1] == s@[i + 1]);
        i += 2;
    }
    proof {
        let rest = s@.skip(i as int);
        if rest.len() >= 2 {
            assert(rest[0] == s@[i as int]);
            assert(rest[1] == s@[i + 1]);
        }
    }
    let r = slice_chars(s, i, n);
    assert(r@ =~= s@.skip(i as int));
    r
}

fn read_item_value(line: &[char], form: ItemForm) -> (r: Option<Vec<char>>)
    ensures
        match r {
            Some(v) => item_value(line@, form) == Some(v@),
            None => item_value(line@, form) is None,
        },
{
    if !(line.len() >= 2 && line[0] == '-' && line[1] == ' ') {
        return None;
    }
    let body = read_strip_dashes(line);
    let v: Vec<char> = match form {
        ItemForm::Keyed => {
            let item = trimmed(body.as_slice());
            let sep: Vec<char> = vec![':', ' '];
            assert(sep@ =~= key_sep());
            let m: usize = item.len();
            match find(item.as_slice(), sep.as_slice(), 0) {
                Some(k) => {
                    proof {
                        crate::text::lemma_find_from(item@, key_sep(), 0);
                    }
                    let val = slice_chars(item.as_slice(), k + 2, item.len());
                    assert(val@ =~= item@.skip(k + 2));
                    let t = trimmed(val.as_slice());
                    strip_both_char(t.as_slice(), '"')
                },
                None => {
                    let t = trimmed(item.as_slice());
                    strip_both_char(t.as_slice(), '"')
                },
            }
        },
        ItemForm::Path => {
            let key: Vec<char> = vec!['p', 'a', 't', 'h', ':'];
            assert(key@ =~= path_key());
            if !starts_with(body.as_slice(), key.as_slice()) {
                return None;
            }
            read_value_after_key(body.as_slice(), 5)
        },
        ItemForm::Plain => {
            let t = trimmed(body.as_slice());
            strip_both_char(t.as_slice(), '"')
        },
    };
    if v.len() > 0 {
        Some(v)
    } else {
        None
    }
}

/// Where a walk through the lines of a policy stands: inside
/// `capabilities`, inside one of its sections, inside one or both of the
/// lists of that section, and the indents of their headers.
#[derive(Debug, Clone, Copy)]
pub struct Walk {
    pub in_caps: bool,
    pub in_mid: bool,
    pub in_a: bool,
    pub in_b: bool,
    pub caps_indent: usize,
    pub mid_indent: usize,
    pub a_indent: usize,
    pub b_indent: usize,
}

/// A walk that has not begun.
pub open spec fn walk_start() -> Walk {
    Walk {
        in_caps: false,
        in_mid: false,
        in_a: false,
        in_b: false,
        caps_indent: 0,
        mid_indent: 0,
        a_indent: 0,
        b_indent: 0,
    }
}

/// One line further in a walk: the state after the line, and the items
/// that the line adds to the first and to the second list.
///
/// Blank lines and comments change nothing. A header opens its section
/// or list and records its indent. A line that is not indented deeper
/// than the header of a section or list closes it, but is still read as
/// a header or an item of what it closes.
pub open spec fn walk_step(
    w: Walk,
    raw: Seq<char>,
    mid: Seq<char>,
    a: Seq<char>,
    b: Option<Seq<char>>,
    form: ItemForm,
) -> (Walk, Option<Seq<char>>, Option<Seq<char>>) {
    let indent = skip_ws(raw, 0) as usize;
    let line = trim(raw);
    if is_comment(line) || line.len() == 0 {
        (w, None, None)
    } else if !w.in_caps && line == "capabilities:"@ {
        (
            Walk {
                in_caps: true,
                in_mid: w.in_mid,
                in_a: w.in_a,
                in_b: w.in_b,
                caps_indent: indent,
                mid_indent: w.mid_indent,
                a_indent: w.a_indent,
                b_indent: w.b_indent,
            },
            None,
            None,
        )
    } else if !w.in_caps {
        (w, None, None)
    } else {
        let w1 = if indent <= w.caps_indent {
            Walk {
                in_caps: false,
                in_mid: false,
                in_a: false,
                in_b: false,
                caps_indent: w.caps_indent,
                mid_indent: w.mid_indent,
                a_indent: w.a_indent,
                b_indent: w.b_indent,
            }
        } else {
            w
        };
        if !w1.in_mid && line == header(mid) {
            (
                Walk {
                    in_caps: w1.in_caps,
                    in_mid: true,
                    in_a: w1.in_a,
                    in_b: w1.in_b,
                    caps_indent: w1.caps_indent,
                    mid_indent: indent,
                    a_indent: w1.a_indent,
                    b_indent: w1.b_indent,
                },
                None,
                None,
            )
        } else if !w1.in_mid {
            (w1, None, None)
        } else {
            let w2 = if indent <= w1.mid_indent {
                Walk {
                    in_caps: w1.in_caps,
                    in_mid: false,
                    in_a: false,
                    in_b: false,
                    caps_indent: w1.caps_indent,
                    mid_indent: w1.mid_indent,
                    a_indent: w1.a_indent,
                    b_indent: w1.b_indent,
                }
            } else {
                w1
            };
            if !w2.in_a && line == header(a) {
                (
                    Walk {
                        in_caps: w2.in_caps,
                        in_mid: w2.in_mid,
                        in_a: true,
                        in_b: w2.in_b,
                        caps_indent: w2.caps_indent,
                        mid_indent: w2.mid_indent,
                        a_indent: indent,
                        b_indent: w2.b_indent,
                    },
                    None,
                    None,
                )
            } else if b is Some && !w2.in_b && line == header(b->0) {
                (
                    Walk {
                        in_caps: w2.in_caps,
                        in_mid: w2.in_mid,
                        in_a: w2.in_a,
                        in_b: true,
                        caps_indent: w2.caps_indent,
                        mid_indent: w2.mid_indent,
                        a_indent: w2.a_indent,
                        b_indent: indent,
                    },
                    None,
                    None,
                )
            } else {
                let item = item_value(line, form);
                (
                    Walk {
                        in_caps: w2.in_caps,
                        in_mid: w2.in_mid,
                        in_a: w2.in_a && !(indent <= w2.a_indent),
                        in_b: w2.in_b && !(indent <= w2.b_indent),
                        caps_indent: w2.caps_indent,
                        mid_indent: w2.mid_indent,
                        a_indent: w2.a_indent,
                        b_indent: w2.b_indent,
                    },
                    if w2.in_a {
                        item
                    } else {
                        None
                    },
                    if w2.in_b {
                        item
                    } else {
                        None
                    },
                )
            }
        }
    }
}

/// The one item, or none.
pub open spec fn item_seq(item: Option<Seq<char>>) -> Seq<Seq<char>> {
    match item {
        Some(v) => seq![v],
        None => Seq::empty(),
    }
}

/// The items that the lines from `i` on add to the two lists.
pub open spec fn walk_from(
    lines: Seq<Seq<char>>,
    i: int,
    w: Walk,
    mid: Seq<char>,
    a: Seq<char>,
    b: Option<Seq<char>>,
    form: ItemForm,
) -> (Seq<Seq<char>>, Seq<Seq<char>>)
    decreases lines.len() - i,
{
    if i < 0 || i >= lines.len() {
        (Seq::empty(), Seq::empty())
    } else {
        let step = walk_step(w, lines[i], mid, a, b, form);
        let rest = walk_from(lines, i + 1, step.0, mid, a, b, form);
        (item_seq(step.1) + rest.0, item_seq(step.2) + rest.1)
    }
}

/// The two lists `a` and `b` of the section `mid` of `capabilities` in a
/// text.
pub open spec fn lists_under(
    text: Seq<char>,
    mid: Seq<char>,
    a: Seq<char>,
    b: Option<Seq<char>>,
    form: ItemForm,
) -> (Seq<Seq<char>>, Seq<Seq<char>>) {
    walk_from(lines_of(text), 0, walk_start(), mid, a, b, form)
}

fn with_colon(name: &[char]) -> (r: Vec<char>)
    ensures
        r@ == header(name@),
{
    let mut r: Vec<char> = Vec::new();
    crate::text::push_all(&mut r, name);
    r.push(':');
    assert(r@ =~= header(name@));
    r
}

fn step_walk(
    w: Walk,
    raw: &[char],
    caps: &[char],
    mid_head: &[char],
    a_head: &[char],
    b_head: &Option<Vec<char>>,
    form: ItemForm,
    Ghost(mid): Ghost<Seq<char>>,
    Ghost(a): Ghost<Seq<char>>,
    Ghost(b): Ghost<Option<Seq<char>>>,
) -> (r: (Walk, Option<Vec<char>>, Option<Vec<char>>))
    requires
        caps@ == "capabilities:"@,
        mid_head@ == header(mid),
        a_head@ == header(a),
        match *b_head {
            Some(h) => b is Some && h@ == header(b->0),
            None => b is None,
        },
    ensures
        r.0 == walk_step(w, raw@, mid, a, b, form).0,
        match r.1 {
            Some(v) => walk_step(w, raw@, mid, a, b, form).1 == Some(v@),
            None => walk_step(w, raw@, mid, a, b, form).1 is None,
        },
        match r.2 {
            Some(v) => walk_step(w, raw@, mid, a, b, form).2 == Some(v@),
            None => walk_step(w, raw@, mid, a, b, form).2 is None,
        },
{
    let indent: usize = first_non_ws(raw, 0);
    let line = trimmed(raw);
    if (line.len() > 0 && line[0] == '#') || line.len() == 0 {
        return (w, None, None);
    }
    let mut s = w;
    if !s.in_caps && same_chars(line.as_slice(), caps) {
        s.in_caps = true;
        s.caps_indent = indent;
        return (s, None, None);
    }
    if !s.in_caps {
        return (s, None, None);
    }
    if indent <= s.caps_indent {
        s.in_caps = false;
        s.in_mid = false;
        s.in_a = false;
        s.in_b = false;
    }
    if !s.in_mid && same_chars(line.as_slice(), mid_head) {
        s.in_mid = true;
        s.mid_indent = indent;
        return (s, None, None);
    }
    if !s.in_mid {
        return (s, None, None);
    }
    if indent <= s.mid_indent {
        s.in_mid = false;
        s.in_a = false;
        s.in_b = false;
    }
    if !s.in_a && same_chars(line.as_slice(), a_head) {
        s.in_a = true;
        s.a_indent = indent;
        return (s, None, None);
    }
    match b_head {
        Some(h) => {
            if !s.in_b && same_chars(line.as_slice(), h.as_slice()) {
                s.in_b = true;
                s.b_indent = indent;
                return (s, None, None);
            }
        },
        None => {},
    }
    let for_a: bool = s.in_a;
    let for_b: bool = s.in_b;
    if s.in_a && indent <= s.a_indent {
        s.in_a = false;
    }
    if s.in_b && indent <= s.b_indent {
        s.in_b = false;
    }
    let first: Option<Vec<char>> = if for_a {
        read_item_value(line.as_slice(), form)
    } else {
        None
    };
    let second: Option<Vec<char>> = if for_b {
        read_item_value(line.as_slice(), form)
    } else {
        None
    };
    (s, first, second)
}

/// The two lists `a` and `b` of the section `mid` of `capabilities`.
pub fn read_lists(text: &str, mid: &str, a: &str, b: Option<&str>, form: ItemForm) -> (r: (
    Vec<String>,
    Vec<String>,
))
    ensures
        texts(r.0@) == lists_under(text@, mid@, a@, crate::endpoint::opt_text(b), form).0,
        texts(r.1@) == lists_under(text@, mid@, a@, crate::endpoint::opt_text(b), form).1,
{
    let chars = to_chars(text);
    let lines = split_lines(chars.as_slice());
    let caps = to_chars("capabilities:");
    let mid_c = to_chars(mid);
    let a_c = to_chars(a);
    let mid_head = with_colon(mid_c.as_slice());
    let a_head = with_colon(a_c.as_slice());
    let b_head: Option<Vec<char>> = match b {
        Some(name) => {
            let c = to_chars(name);
            Some(with_colon(c.as_slice()))
        },
        None => None,
    };
    let ghost bs = crate::endpoint::opt_text(b);
    let ghost all = rows(lines@);
    let mut first: Vec<String> = Vec::new();
    let mut second: Vec<String> = Vec::new();
    let mut w = Walk {
        in_caps: false,
        in_mid: false,
        in_a: false,
        in_b: false,
        caps_indent: 0,
        mid_indent: 0,
        a_indent: 0,
        b_indent: 0,
    };
    let mut i: usize = 0;
    assert(texts(first@) =~= Seq::<Seq<char>>::empty());
    assert(texts(second@) =~= Seq::<Seq<char>>::empty());
    assert(texts(first@) + walk_from(all, 0, w, mid@, a@, bs, form).0 =~= walk_from(
        all,
        0,
        walk_start(),
        mid@,
        a@,
        bs,
        form,
    ).0);
    assert(texts(second@) + walk_from(all, 0, w, mid@, a@, bs, form).1 =~= walk_from(
        all,
        0,
        walk_start(),
        mid@,
        a@,
        bs,
        form,
    ).1);
    while i < lines.len()
        invariant
            i <= lines@.len(),
            all == rows(lines@),
            caps@ == "capabilities:"@,
            mid_head@ == header(mid@),
            a_head@ == header(a@),
            match b_head {
                Some(h) => bs is Some && h@ == header(bs->0),
                None => bs is None,
            },
            texts(first@) + walk_from(all, i as int, w, mid@, a@, bs, form).0 == walk_from(
                all,
                0,
                walk_start(),
                mid@,
                a@,
                bs,
                form,
            ).0,
            texts(second@) + walk_from(all, i as int, w, mid@, a@, bs, form).1 == walk_from(
                all,
                0,
                walk_start(),
                mid@,
                a@,
                bs,
                form,
            ).1,
        decreases lines@.len() - i,
    {
        assert(all[i as int] == lines@[i as int]@);
        let ghost f0 = texts(first@);
        let ghost s0 = texts(second@);
        let ghost rest = walk_from(all, i + 1, walk_step(w, all[i as int], mid@, a@, bs, form).0, mid@, a@, bs, form);
        let (next, pa, pb) = step_walk(
            w,
            lines[i].as_slice(),
            caps.as_slice(),
            mid_head.as_slice(),
            a_head.as_slice(),
            &b_head,
            form,
            Ghost(mid@),
            Ghost(a@),
            Ghost(bs),
        );
        match pa {
            Some(v) => {
                first.push(from_chars(v.as_slice()));
                assert(texts(first@) =~= f0 + seq![v@]);
                assert(texts(first@) + rest.0 =~= f0 + (seq![v@] + rest.0));
            },
            None => {
                assert(texts(first@) + rest.0 =~= f0 + (Seq::<Seq<char>>::empty() + rest.0));
            },
        }
        match pb {
            Some(v) => {
                second.push(from_chars(v.as_slice()));
                assert(texts(second@) =~= s0 + seq![v@]);
                assert(texts(second@) + rest.1 =~= s0 + (seq![v@] + rest.1));
            },
            None => {
                assert(texts(second@) + rest.1 =~= s0 + (Seq::<Seq<char>>::empty() + rest.1));
            },
        }
        w = next;
        i += 1;
    }
    assert(texts(first@) + Seq::<Seq<char>>::empty() =~= texts(first@));
    assert(texts(second@) + Seq::<Seq<char>>::empty() =~= texts(second@));
    (first, second)
}

/// The network entries that the text of a policy allows.
pub fn load_net_allow_from_policy(text: &str) -> (r: Vec<String>)
    ensures
        texts(r@) == lists_under(text@, "net"@, "allow"@, None, ItemForm::Keyed).0,
{
    read_lists(text, "net", "allow", None, ItemForm::Keyed).0
}

/// The path patterns that the text of a policy allows.
pub fn load_fs_allow_from_policy(text: &str) -> (r: Vec<String>)
    ensures
        texts(r@) == lists_under(text@, "fs"@, "allow"@, None, ItemForm::Path).0,
{
    read_lists(text, "fs", "allow", None, ItemForm::Path).0
}

/// The path patterns that the text of a policy makes read-only.
pub fn load_fs_readonly_from_policy(text: &str) -> (r: Vec<String>)
    ensures
        texts(r@) == lists_under(text@, "fs"@, "readonly"@, None, ItemForm::Plain).0,
{
    read_lists(text, "fs", "readonly", None, ItemForm::Plain).0
}

/// The names that the text of a policy allows and denies in the
/// environment.
pub fn load_env_policy_from_policy(text: &str) -> (r: (Vec<String>, Vec<String>))
    ensures
        texts(r.0@) == lists_under(text@, "env"@, "allow"@, Some("deny"@), ItemForm::Plain).0,
        texts(r.1@) == lists_under(text@, "env"@, "allow"@, Some("deny"@), ItemForm::Plain).1,
{
    read_lists(text, "env", "allow", Some("deny"), ItemForm::Plain)
}

/// The version that the text of a policy names at its top level; 0
/// where it names none.
pub open spec fn version_of(text: Seq<char>) -> u8 {
    match top_level_number(lines_of(text), "version"@, 0) {
        Some(v) => v,
        None => 0,
    }
}

/// The number up to 255 of the first line from `i` on that is not
/// indented, begins with `key` and holds one.
pub open spec fn top_level_number(lines: Seq<Seq<char>>, key: Seq<char>, i: int) -> Option<u8>
    decreases lines.len() - i,
{
    if i < 0 || i >= lines.len() {
        None
    } else if skip_ws(lines[i], 0) == 0 && is_prefix(key, lines[i]) && parse_unsigned(
        value_after_key(lines[i], key),
        255,
    ) is Some {
        Some(parse_unsigned(value_after_key(lines[i], key), 255)->0 as u8)
    } else {
        top_level_number(lines, key, i + 1)
    }
}

fn load_version(text: &str) -> (r: u8)
    ensures
        r == version_of(text@),
{
    let chars = to_chars(text);
    let lines = split_lines(chars.as_slice());
    let key = to_chars("version");
    let ghost all = rows(lines@);
    let mut i: usize = 0;
    while i < lines.len()
        invariant
            i <= lines@.len(),
            all == rows(lines@),
            all == lines_of(text@),
            key@ == "version"@,
            top_level_number(all, "version"@, 0) == top_level_number(all, "version"@, i as int),
        decreases lines@.len() - i,
    {
        let raw = &lines[i];
        assert(all[i as int] == raw@);
        if first_non_ws(raw.as_slice(), 0) == 0 && starts_with(raw.as_slice(), key.as_slice()) {
            let val = read_value_after_key(raw.as_slice(), key.len());
            match parse_number(val.as_slice(), 255) {
                Some(v) => {
                    return v as u8;
                },
                None => {},
            }
        }
        i += 1;
    }
    0
}

/// The default of a section of capabilities: `allow` where the text sets
/// `default` to that under the section, `deny` in every other case.
pub open spec fn default_rule_of(text: Seq<char>, section: Seq<char>) -> DefaultRule {
    if scalar_under(text, section, "default"@) == Some("allow"@) {
        DefaultRule::Allow
    } else {
        DefaultRule::Deny
    }
}

fn load_default_rule(text: &str, section: &str) -> (r: DefaultRule)
    ensures
        r == default_rule_of(text@, section@),
{
    match extract_yaml_scalar_under(text, section, "default") {
        Some(v) => if crate::dedupe::str_same(v.as_str(), "allow") {
            DefaultRule::Allow
        } else {
            DefaultRule::Deny
        },
        None => DefaultRule::Deny,
    }
}

/// The policy that a text writes: its version, its limits, the lists of
/// its capabilities and its thresholds, each with its default where the
/// text is silent.
pub fn load_policy(text: &str) -> (p: PolicyDoc)
    ensures
        p.version == version_of(text@),
        p.limits.wall_sec == limit_of(text@, "wall_sec"@, 60),
        p.limits.cpu_ms == limit_of(text@, "cpu_ms"@, 5000),
        p.limits.memory_mb == limit_of(text@, "memory_mb"@, 512),
        p.limits.pids == limit_of(text@, "pids"@, 256),
        p.capabilities.net.default_rule == default_rule_of(text@, "net"@),
        p.capabilities.fs.default_rule == default_rule_of(text@, "fs"@),
        p@.net_allow == lists_under(text@, "net"@, "allow"@, None, ItemForm::Keyed).0,
        p@.fs_allow == lists_under(text@, "fs"@, "allow"@, None, ItemForm::Path).0,
        p@.fs_readonly == lists_under(text@, "fs"@, "readonly"@, None, ItemForm::Plain).0,
        p@.env_allow == lists_under(text@, "env"@, "allow"@, Some("deny"@), ItemForm::Plain).0,
        p@.env_deny == lists_under(text@, "env"@, "allow"@, Some("deny"@), ItemForm::Plain).1,
        p@.thresholds == Some(
            (
                threshold_of(text@, "green"@, "<=20"@),
                threshold_of(text@, "yellow"@, "21..=60"@),
                threshold_of(text@, "red"@, ">=61"@),
            ),
        ),
{
    let (env_allow, env_deny) = load_env_policy_from_policy(text);
    PolicyDoc {
        version: load_version(text),
        limits: load_limits_from_policy(text),
        capabilities: Capabilities {
            net: NetCapabilities {
                default_rule: load_default_rule(text, "net"),
                allow: load_net_allow_from_policy(text),
            },
            fs: FsCapabilities {
                default_rule: load_default_rule(text, "fs"),
                allow: load_fs_allow_from_policy(text),
                readonly: load_fs_readonly_from_policy(text),
            },
            env: EnvCapabilities { allow: env_allow, deny: env_deny },
        },
        grading: Some(GradingCfg { thresholds: load_thresholds_from_policy(text) }),
    }
}

} // verus!
