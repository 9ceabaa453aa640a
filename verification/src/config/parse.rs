//! The KDL-style configuration reader.
//!
//! Supports:
//!   - `bar { position "top" height 32 ... }`
//!   - `modules-left { workspaces { format "{name}" ... } }`
//!   - `modules-center { ... }`
//!   - `modules-right { ... }`
//!   - `style { background "#1e1e1e" ... }`
//!   - top-level `log-level "debug"`
//!
//! Lines that start with `//` are skipped; an inline `//` outside a quoted
//! string ends the line.
use vstd::prelude::*;

use super::types::{
    default_config, default_entry, BarConfig, BarView, Config, ConfigView, EntryView, ModuleEntry,
    ModulesView, StyleConfig, StyleView,
};
use crate::text::{
    chars_eq_str, chars_of, has_prefix, is_whitespace, is_ws, lowercase_of, parse_unsigned,
    parse_unsigned_spec, skip_ws, skip_ws_back, starts_with_str, string_of, sub_chars,
    to_lowercase, trim, trim_chars, trim_end, trim_start, lemma_skip_ws_bounds,
    lemma_skip_ws_back_bounds, lemma_trim_exact, lemma_trim_padding,
};

verus! {

// ---------------------------------------------------------------------------
// Lexical layer: specifications
// ---------------------------------------------------------------------------

/// Scans `s` from `i` on for the first `//` outside a quoted string.  A
/// backslash makes the next character ordinary, in or out of a string.
pub open spec fn comment_cut(s: Seq<char>, i: int, in_string: bool, escaped: bool) -> Option<int>
    decreases s.len() - i,
{
    if i < 0 || i >= s.len() {
        None
    } else if escaped {
        comment_cut(s, i + 1, in_string, false)
    } else if s[i] == '\\' {
        comment_cut(s, i + 1, in_string, true)
    } else if s[i] == '"' {
        comment_cut(s, i + 1, !in_string, false)
    } else if !in_string && s[i] == '/' && i + 1 < s.len() && s[i + 1] == '/' {
        Some(i)
    } else {
        comment_cut(s, i + 1, in_string, false)
    }
}

/// The line without its inline comment (and the whitespace before it).
pub open spec fn strip_comment(s: Seq<char>) -> Seq<char> {
    match comment_cut(s, 0, false, false) {
        Some(i) => trim_end(s.take(i)),
        None => s,
    }
}

/// Index of the first whitespace character at or after `i`, or the length.
pub open spec fn token_end(s: Seq<char>, i: int) -> int
    decreases s.len() - i,
{
    if i >= s.len() {
        s.len() as int
    } else if is_ws(s[i]) {
        i
    } else {
        token_end(s, i + 1)
    }
}

/// The first whitespace-separated word of a trimmed text.
pub open spec fn first_token(s: Seq<char>) -> Seq<char> {
    s.take(token_end(s, 0))
}

/// `name {` or `name "arg" {` opens the section `name`.
pub open spec fn section_open(line: Seq<char>) -> Option<Seq<char>> {
    let t = trim(line);
    if t.len() == 0 || t.last() != '{' {
        None
    } else {
        let inner = trim(t.drop_last());
        if inner.len() == 0 || first_token(inner).len() == 0 {
            None
        } else {
            Some(first_token(inner))
        }
    }
}

/// Index of the first `c` at or after `i`.
pub open spec fn find_from(s: Seq<char>, c: char, i: int) -> Option<int>
    decreases s.len() - i,
{
    if i < 0 || i >= s.len() {
        None
    } else if s[i] == c {
        Some(i)
    } else {
        find_from(s, c, i + 1)
    }
}

/// Index of the first `=` at or after `i` that stands outside double
/// quotes, `quoted` telling whether position `i` is inside quotes.  A quote
/// opens a quoted stretch only when a later quote closes it; a stray quote
/// is an ordinary character.
pub open spec fn find_unquoted_eq(s: Seq<char>, i: int, quoted: bool) -> Option<int>
    decreases s.len() - i,
{
    if i < 0 || i >= s.len() {
        None
    } else if s[i] == '"' && (quoted || find_from(s, '"', i + 1) is Some) {
        find_unquoted_eq(s, i + 1, !quoted)
    } else if s[i] == '=' && !quoted {
        Some(i)
    } else {
        find_unquoted_eq(s, i + 1, quoted)
    }
}

/// Index of the first whitespace character at or after `i`.
pub open spec fn find_ws_from(s: Seq<char>, i: int) -> Option<int>
    decreases s.len() - i,
{
    if i < 0 || i >= s.len() {
        None
    } else if is_ws(s[i]) {
        Some(i)
    } else {
        find_ws_from(s, i + 1)
    }
}

pub open spec fn skip_quotes(s: Seq<char>, i: int) -> int
    decreases s.len() - i,
{
    if i >= s.len() {
        s.len() as int
    } else if s[i] == '"' {
        skip_quotes(s, i + 1)
    } else {
        i
    }
}

pub open spec fn skip_quotes_back(s: Seq<char>, j: int) -> int
    decreases j,
{
    if j <= 0 {
        0
    } else if s[j - 1] == '"' {
        skip_quotes_back(s, j - 1)
    } else {
        j
    }
}

/// What `str::trim_matches('"')` gives.
pub open spec fn trim_quotes(s: Seq<char>) -> Seq<char> {
    let t = s.subrange(skip_quotes(s, 0), s.len() as int);
    t.subrange(0, skip_quotes_back(t, t.len() as int))
}

pub open spec fn valid_key(k: Seq<char>) -> bool {
    k.len() > 0 && !k.contains('{') && !k.contains('}')
}

/// The key and value of `key=value` when `line` has a `=` outside quotes.
pub open spec fn property_equals(t: Seq<char>) -> Option<(Seq<char>, Seq<char>)> {
    match find_unquoted_eq(t, 0, false) {
        Some(p) => {
            let key = trim(t.take(p));
            let value = trim_quotes(trim(t.skip(p + 1)));
            if valid_key(key) {
                Some((key, value))
            } else {
                None
            }
        },
        None => None,
    }
}

/// The key and value of `key value`, split at the first whitespace.
pub open spec fn property_spaced(t: Seq<char>) -> Option<(Seq<char>, Seq<char>)> {
    match find_ws_from(t, 0) {
        Some(p) => {
            let key = trim(t.take(p));
            let value = trim_quotes(trim(t.skip(p + 1)));
            if valid_key(key) {
                Some((key, value))
            } else {
                None
            }
        },
        None => None,
    }
}

/// A property line: `key "value"`, `key value`, `key=value` or
/// `key="value"`.
pub open spec fn property(line: Seq<char>) -> Option<(Seq<char>, Seq<char>)> {
    let t = trim(line);
    if t.len() == 0 {
        None
    } else if property_equals(t) is Some {
        property_equals(t)
    } else {
        property_spaced(t)
    }
}

/// The lowercase words that mean true: `true`, `1`, `yes` and `on`.
pub open spec fn true_word(l: Seq<char>) -> bool {
    l == "true"@ || l == "1"@ || l == "yes"@ || l == "on"@
}

/// `true`, `1`, `yes` and `on`, in any case, mean true.
pub open spec fn bool_text(v: Seq<char>) -> bool {
    true_word(lowercase_of(trim(v)))
}

pub open spec fn is_module_section_spec(s: Seq<char>) -> bool {
    has_prefix(s, "modules-left."@) || has_prefix(s, "modules-center."@) || has_prefix(
        s,
        "modules-right."@,
    )
}

// ---------------------------------------------------------------------------
// Property applicators: specifications
// ---------------------------------------------------------------------------

pub open spec fn bar_prop(bar: BarView, key: Seq<char>, value: Seq<char>) -> BarView {
    if key == "position"@ {
        BarView { position: value, ..bar }
    } else if key == "height"@ {
        match parse_unsigned_spec(value, u32::MAX as nat) {
            Some(n) => BarView { height: n as u32, ..bar },
            None => bar,
        }
    } else if key == "multi-monitor"@ || key == "multi_monitor"@ {
        BarView { multi_monitor: bool_text(value), ..bar }
    } else if key == "click-through"@ || key == "click_through"@ {
        BarView { click_through: bool_text(value), ..bar }
    } else {
        bar
    }
}

pub open spec fn style_prop(style: StyleView, key: Seq<char>, value: Seq<char>) -> StyleView {
    if key == "background"@ {
        StyleView { background: value, ..style }
    } else if key == "foreground"@ {
        StyleView { foreground: value, ..style }
    } else if key == "accent"@ {
        StyleView { accent: value, ..style }
    } else if key == "font-family"@ || key == "font_family"@ {
        StyleView { font_family: value, ..style }
    } else if key == "font-size-pt"@ || key == "font_size_pt"@ {
        StyleView { font_size_pt_texts: style.font_size_pt_texts.push(value), ..style }
    } else if key == "padding-px"@ || key == "padding_px"@ {
        match parse_unsigned_spec(value, u32::MAX as nat) {
            Some(n) => StyleView { padding_px: n as u32, ..style },
            None => style,
        }
    } else if key == "module-spacing-px"@ || key == "module_spacing_px"@ {
        match parse_unsigned_spec(value, u32::MAX as nat) {
            Some(n) => StyleView { module_spacing_px: n as u32, ..style },
            None => style,
        }
    } else {
        style
    }
}

pub open spec fn module_prop(m: EntryView, key: Seq<char>, value: Seq<char>) -> EntryView {
    if key == "format"@ {
        EntryView { format: value, ..m }
    } else if key == "interval-ms"@ || key == "interval_ms"@ {
        match parse_unsigned_spec(value, u64::MAX as nat) {
            Some(n) => EntryView { interval_ms: n as u64, ..m },
            None => m,
        }
    } else if key == "on-click"@ || key == "on_click"@ {
        EntryView { on_click: Some(value), ..m }
    } else if key == "on-scroll-up"@ || key == "on_scroll_up"@ {
        EntryView { on_scroll_up: Some(value), ..m }
    } else if key == "on-scroll-down"@ || key == "on_scroll_down"@ {
        EntryView { on_scroll_down: Some(value), ..m }
    } else {
        EntryView { extra: m.extra.insert(key, value), ..m }
    }
}

// ---------------------------------------------------------------------------
// The reader as a function of the text
// ---------------------------------------------------------------------------

/// What the reader knows between two lines: the configuration so far, the
/// open sections (outermost first) and the module block being read.
pub struct ParseState {
    pub cfg: ConfigView,
    pub stack: Seq<Seq<char>>,
    pub current: Option<EntryView>,
}

pub open spec fn initial_state() -> ParseState {
    ParseState { cfg: default_config(), stack: Seq::empty(), current: None }
}

pub open spec fn is_modules_list(s: Seq<char>) -> bool {
    s == "modules-left"@ || s == "modules-center"@ || s == "modules-right"@
}

pub open spec fn parent_of(stack: Seq<Seq<char>>) -> Seq<char> {
    if stack.len() > 0 {
        stack.last()
    } else {
        Seq::empty()
    }
}

/// The open sections joined with dots, e.g. `modules-left.workspaces`.
pub open spec fn join_dot(stack: Seq<Seq<char>>) -> Seq<char>
    decreases stack.len(),
{
    if stack.len() == 0 {
        Seq::empty()
    } else if stack.len() == 1 {
        stack[0]
    } else {
        join_dot(stack.drop_last()) + seq!['.'] + stack.last()
    }
}

pub open spec fn open_section(st: ParseState, name: Seq<char>) -> ParseState {
    if st.stack.len() == 1 && is_modules_list(parent_of(st.stack)) {
        ParseState {
            cfg: st.cfg,
            stack: st.stack.push(name),
            current: Some(EntryView { kind: name, ..default_entry() }),
        }
    } else {
        ParseState { cfg: st.cfg, stack: st.stack.push(name), current: st.current }
    }
}

pub open spec fn add_module(cfg: ConfigView, list: Seq<char>, m: EntryView) -> ConfigView {
    if list == "modules-left"@ {
        ConfigView { modules: ModulesView { left: cfg.modules.left.push(m), ..cfg.modules }, ..cfg }
    } else if list == "modules-center"@ {
        ConfigView {
            modules: ModulesView { center: cfg.modules.center.push(m), ..cfg.modules },
            ..cfg
        }
    } else if list == "modules-right"@ {
        ConfigView {
            modules: ModulesView { right: cfg.modules.right.push(m), ..cfg.modules },
            ..cfg
        }
    } else {
        cfg
    }
}

pub open spec fn close_section(st: ParseState) -> ParseState {
    if st.stack.len() == 0 {
        st
    } else {
        let stack = st.stack.drop_last();
        let parent = parent_of(stack);
        if stack.len() == 1 && is_modules_list(parent) && st.current is Some {
            ParseState { cfg: add_module(st.cfg, parent, st.current->0), stack, current: None }
        } else {
            ParseState { cfg: st.cfg, stack, current: st.current }
        }
    }
}

pub open spec fn apply_property(st: ParseState, key: Seq<char>, value: Seq<char>) -> ParseState {
    let section = join_dot(st.stack);
    if section.len() == 0 {
        if key == "log-level"@ || key == "log_level"@ {
            ParseState { cfg: ConfigView { log_level: value, ..st.cfg }, ..st }
        } else {
            st
        }
    } else if section == "bar"@ {
        ParseState { cfg: ConfigView { bar: bar_prop(st.cfg.bar, key, value), ..st.cfg }, ..st }
    } else if section == "style"@ {
        ParseState {
            cfg: ConfigView { style: style_prop(st.cfg.style, key, value), ..st.cfg },
            ..st
        }
    } else if is_module_section_spec(section) && st.current is Some {
        ParseState { current: Some(module_prop(st.current->0, key, value)), ..st }
    } else {
        st
    }
}

/// One line of input.
pub open spec fn step(st: ParseState, raw: Seq<char>) -> ParseState {
    let line0 = trim(raw);
    if line0.len() == 0 || has_prefix(line0, "//"@) {
        st
    } else {
        let line = strip_comment(line0);
        match section_open(line) {
            Some(name) => open_section(st, name),
            None => if line.len() > 0 && line[0] == '}' {
                close_section(st)
            } else {
                match property(line) {
                    Some(kv) => apply_property(st, kv.0, kv.1),
                    None => st,
                }
            },
        }
    }
}

/// The lines of `s`, separated by `\n`, read one after another from `st`.
pub open spec fn run(st: ParseState, s: Seq<char>) -> ParseState
    decreases s.len(),
{
    match find_from(s, '\n', 0) {
        Some(i) => if 0 <= i < s.len() {
            run(step(st, s.take(i)), s.skip(i + 1))
        } else {
            st
        },
        None => step(st, s),
    }
}

/// The configuration that the text `s` describes.
pub open spec fn parse_spec(s: Seq<char>) -> ConfigView {
    run(initial_state(), s).cfg
}

// ---------------------------------------------------------------------------
// Lexical layer: code
// ---------------------------------------------------------------------------

pub proof fn lemma_find_from(s: Seq<char>, c: char, i: int)
    requires
        0 <= i <= s.len(),
    ensures
        match find_from(s, c, i) {
            Some(j) => i <= j < s.len() && s[j] == c && forall|k: int| i <= k < j ==> s[k] != c,
            None => forall|k: int| i <= k < s.len() ==> s[k] != c,
        },
    decreases s.len() - i,
{
    if i < s.len() && s[i] != c {
        lemma_find_from(s, c, i + 1);
    }
}

pub proof fn lemma_find_unquoted_eq(s: Seq<char>, i: int, quoted: bool)
    requires
        0 <= i <= s.len(),
    ensures
        find_unquoted_eq(s, i, quoted) matches Some(j) ==> i <= j < s.len() && s[j] == '=',
    decreases s.len() - i,
{
    if i < s.len() {
        if s[i] == '"' && (quoted || find_from(s, '"', i + 1) is Some) {
            lemma_find_unquoted_eq(s, i + 1, !quoted);
        } else if !(s[i] == '=' && !quoted) {
            lemma_find_unquoted_eq(s, i + 1, quoted);
        }
    }
}

/// Text without quotes, and without `=` where it is outside quotes, is
/// passed over.
proof fn lemma_unquoted_skip(s: Seq<char>, i: int, j: int, quoted: bool)
    requires
        0 <= i <= j <= s.len(),
        forall|k: int| i <= k < j ==> s[k] != '"',
        !quoted ==> forall|k: int| i <= k < j ==> s[k] != '=',
    ensures
        find_unquoted_eq(s, i, quoted) == find_unquoted_eq(s, j, quoted),
    decreases j - i,
{
    if i < j {
        lemma_unquoted_skip(s, i + 1, j, quoted);
    }
}

/// Text without any `=` has none outside quotes.
proof fn lemma_unquoted_none(s: Seq<char>, i: int, quoted: bool)
    requires
        0 <= i <= s.len(),
        forall|k: int| i <= k < s.len() ==> s[k] != '=',
    ensures
        find_unquoted_eq(s, i, quoted) is None,
    decreases s.len() - i,
{
    if i < s.len() {
        if s[i] == '"' && (quoted || find_from(s, '"', i + 1) is Some) {
            lemma_unquoted_none(s, i + 1, !quoted);
        } else {
            lemma_unquoted_none(s, i + 1, quoted);
        }
    }
}

/// Index of the first `=` of `v` outside double quotes.
fn find_unquoted_eq_chars(v: &Vec<char>) -> (r: Option<usize>)
    ensures
        match find_unquoted_eq(v@, 0, false) {
            Some(j) => r == Some(j as usize),
            None => r is None,
        },
{
    let mut quoted = false;
    let mut i: usize = 0;
    while i < v.len()
        invariant
            i <= v.len(),
            find_unquoted_eq(v@, 0, false) == find_unquoted_eq(v@, i as int, quoted),
        decreases v.len() - i,
    {
        if v[i] == '"' && (quoted || find_char(v, '"', i + 1).is_some()) {
            quoted = !quoted;
        } else if v[i] == '=' && !quoted {
            return Some(i);
        }
        i = i + 1;
    }
    None
}

fn find_char(v: &Vec<char>, c: char, from: usize) -> (r: Option<usize>)
    requires
        from <= v.len(),
    ensures
        match r {
            Some(j) => find_from(v@, c, from as int) == Some(j as int),
            None => find_from(v@, c, from as int) is None,
        },
{
    let mut i = from;
    while i < v.len()
        invariant
            from <= i <= v.len(),
            find_from(v@, c, from as int) == find_from(v@, c, i as int),
        decreases v.len() - i,
    {
        if v[i] == c {
            return Some(i);
        }
        i = i + 1;
    }
    None
}

fn find_whitespace(v: &Vec<char>) -> (r: Option<usize>)
    ensures
        match r {
            Some(j) => find_ws_from(v@, 0) == Some(j as int),
            None => find_ws_from(v@, 0) is None,
        },
{
    let mut i: usize = 0;
    while i < v.len()
        invariant
            i <= v.len(),
            find_ws_from(v@, 0) == find_ws_from(v@, i as int),
        decreases v.len() - i,
    {
        if is_whitespace(v[i]) {
            return Some(i);
        }
        i = i + 1;
    }
    None
}

fn strip_comment_chars(line: &Vec<char>) -> (r: Vec<char>)
    ensures
        r@ == strip_comment(line@),
{
    let mut in_string = false;
    let mut escaped = false;
    let mut i: usize = 0;
    while i < line.len()
        invariant
            i <= line.len(),
            comment_cut(line@, 0, false, false) == comment_cut(
                line@,
                i as int,
                in_string,
                escaped,
            ),
        decreases line.len() - i,
    {
        let ch = line[i];
        if escaped {
            escaped = false;
        } else if ch == '\\' {
            escaped = true;
        } else if ch == '"' {
            in_string = !in_string;
        } else if !in_string && ch == '/' && i + 1 < line.len() && line[i + 1] == '/' {
            let prefix = sub_chars(line, 0, i);
            assert(prefix@ == line@.take(i as int));
            return trim_end_chars(&prefix);
        }
        i = i + 1;
    }
    sub_chars(line, 0, line.len())
}

fn trim_end_chars(v: &Vec<char>) -> (r: Vec<char>)
    ensures
        r@ == trim_end(v@),
{
    let mut hi: usize = v.len();
    while hi > 0 && is_whitespace(v[hi - 1])
        invariant
            hi <= v.len(),
            skip_ws_back(v@, v@.len() as int) == skip_ws_back(v@, hi as int),
        decreases hi,
    {
        hi = hi - 1;
    }
    sub_chars(v, 0, hi)
}

/// Strips an inline `//` comment that stands outside a quoted string,
/// together with the whitespace before it.
pub fn strip_inline_comment(line: &str) -> (r: String)
    ensures
        r@ == strip_comment(line@),
{
    let v = chars_of(line);
    let r = strip_comment_chars(&v);
    string_of(&r)
}

fn trim_quote_chars(v: &Vec<char>) -> (r: Vec<char>)
    ensures
        r@ == trim_quotes(v@),
{
    let mut lo: usize = 0;
    while lo < v.len() && v[lo] == '"'
        invariant
            lo <= v.len(),
            skip_quotes(v@, 0) == skip_quotes(v@, lo as int),
        decreases v.len() - lo,
    {
        lo = lo + 1;
    }
    let t = sub_chars(v, lo, v.len());
    let mut hi: usize = t.len();
    while hi > 0 && t[hi - 1] == '"'
        invariant
            hi <= t.len(),
            skip_quotes_back(t@, t@.len() as int) == skip_quotes_back(t@, hi as int),
        decreases hi,
    {
        hi = hi - 1;
    }
    sub_chars(&t, 0, hi)
}

fn contains_char(v: &Vec<char>, c: char) -> (r: bool)
    ensures
        r == v@.contains(c),
{
    let mut i: usize = 0;
    while i < v.len()
        invariant
            i <= v.len(),
            forall|k: int| 0 <= k < i ==> v@[k] != c,
        decreases v.len() - i,
    {
        if v[i] == c {
            assert(v@[i as int] == c);
            return true;
        }
        i = i + 1;
    }
    false
}

fn valid_key_chars(k: &Vec<char>) -> (r: bool)
    ensures
        r == valid_key(k@),
{
    k.len() > 0 && !contains_char(k, '{') && !contains_char(k, '}')
}

/// Splits the trimmed line `t` at `p` into a key and a value.
fn split_property(t: &Vec<char>, p: usize) -> (r: (Vec<char>, Vec<char>))
    requires
        p < t.len(),
    ensures
        r.0@ == trim(t@.take(p as int)),
        r.1@ == trim_quotes(trim(t@.skip(p + 1))),
{
    let k = sub_chars(t, 0, p);
    let key = trim_chars(&k);
    let v = sub_chars(t, p + 1, t.len());
    assert(v@ == t@.skip(p + 1));
    let vt = trim_chars(&v);
    let value = trim_quote_chars(&vt);
    (key, value)
}

fn property_chars(line: &Vec<char>) -> (r: Option<(Vec<char>, Vec<char>)>)
    ensures
        match property(line@) {
            Some(kv) => r matches Some(p) && p.0@ == kv.0 && p.1@ == kv.1,
            None => r is None,
        },
{
    let t = trim_chars(line);
    if t.len() == 0 {
        return None;
    }
    proof {
        lemma_find_unquoted_eq(t@, 0, false);
    }
    match find_unquoted_eq_chars(&t) {
        Some(p) => {
            let (key, value) = split_property(&t, p);
            if valid_key_chars(&key) {
                return Some((key, value));
            }
        },
        None => {},
    }
    proof {
        lemma_find_ws_from(t@, 0);
    }
    match find_whitespace(&t) {
        Some(p) => {
            let (key, value) = split_property(&t, p);
            if valid_key_chars(&key) {
                return Some((key, value));
            }
            None
        },
        None => None,
    }
}

pub proof fn lemma_find_ws_from(s: Seq<char>, i: int)
    requires
        0 <= i <= s.len(),
    ensures
        match find_ws_from(s, i) {
            Some(j) => i <= j < s.len() && is_ws(s[j]) && forall|k: int| i <= k < j ==> !is_ws(s[k]),
            None => forall|k: int| i <= k < s.len() ==> !is_ws(s[k]),
        },
    decreases s.len() - i,
{
    if i < s.len() && !is_ws(s[i]) {
        lemma_find_ws_from(s, i + 1);
    }
}

/// Reads a property line: `key "value"`, `key value`, `key=value` or
/// `key="value"`.
pub fn parse_property(line: &str) -> (r: Option<(String, String)>)
    ensures
        match property(line@) {
            Some(kv) => r matches Some(p) && p.0@ == kv.0 && p.1@ == kv.1,
            None => r is None,
        },
{
    let v = chars_of(line);
    match property_chars(&v) {
        Some((k, val)) => Some((string_of(&k), string_of(&val))),
        None => None,
    }
}

fn section_open_chars(line: &Vec<char>) -> (r: Option<Vec<char>>)
    ensures
        match section_open(line@) {
            Some(name) => r matches Some(n) && n@ == name,
            None => r is None,
        },
{
    let t = trim_chars(line);
    if t.len() == 0 || t[t.len() - 1] != '{' {
        return None;
    }
    let body = sub_chars(&t, 0, t.len() - 1);
    assert(body@ == t@.drop_last());
    let inner = trim_chars(&body);
    if inner.len() == 0 {
        return None;
    }
    let mut e: usize = 0;
    while e < inner.len() && !is_whitespace(inner[e])
        invariant
            e <= inner.len(),
            token_end(inner@, 0) == token_end(inner@, e as int),
        decreases inner.len() - e,
    {
        e = e + 1;
    }
    if e == 0 {
        return None;
    }
    let name = sub_chars(&inner, 0, e);
    Some(name)
}

/// Detects a section-open line, `name {` or `name "arg" {`, and returns the
/// section name.
pub fn try_parse_section_open(line: &str) -> (r: Option<String>)
    ensures
        match section_open(line@) {
            Some(name) => r matches Some(n) && n@ == name,
            None => r is None,
        },
{
    let v = chars_of(line);
    match section_open_chars(&v) {
        Some(n) => Some(string_of(&n)),
        None => None,
    }
}

/// `true`, `1`, `yes` and `on`, in any case and with whitespace around, mean
/// true; anything else means false.
pub fn parse_bool(value: &str) -> (r: bool)
    ensures
        r == bool_text(value@),
{
    let t = trim_str_string(value);
    let l = to_lowercase(t.as_str());
    is_true_word(l.as_str())
}

/// Whether a lowercase word means true.
pub fn is_true_word(l: &str) -> (r: bool)
    ensures
        r == true_word(l@),
{
    let lc = chars_of(l);
    chars_eq_str(&lc, "true") || chars_eq_str(&lc, "1") || chars_eq_str(&lc, "yes")
        || chars_eq_str(&lc, "on")
}

fn trim_str_string(s: &str) -> (r: String)
    ensures
        r@ == trim(s@),
{
    let v = chars_of(s);
    let t = trim_chars(&v);
    string_of(&t)
}

/// Whether a dotted section path names a module block, such as
/// `modules-left.workspaces` or `modules-right.clock`.
pub fn is_module_section(section: &str) -> (r: bool)
    ensures
        r == is_module_section_spec(section@),
{
    let v = chars_of(section);
    starts_with_str(&v, "modules-left.") || starts_with_str(&v, "modules-center.")
        || starts_with_str(&v, "modules-right.")
}

// ---------------------------------------------------------------------------
// Property applicators: code
// ---------------------------------------------------------------------------

fn parse_u32_chars(v: &Vec<char>) -> (r: Option<u32>)
    ensures
        match parse_unsigned_spec(v@, u32::MAX as nat) {
            Some(n) => r == Some(n as u32),
            None => r is None,
        },
{
    match parse_unsigned(v, 0xffff_ffffu64) {
        Some(n) => Some(n as u32),
        None => None,
    }
}

fn bar_prop_chars(key: &Vec<char>, value: &Vec<char>, bar: &mut BarConfig)
    ensures
        final(bar)@ == bar_prop(old(bar)@, key@, value@),
{
    if chars_eq_str(key, "position") {
        bar.position = string_of(value);
    } else if chars_eq_str(key, "height") {
        match parse_u32_chars(value) {
            Some(n) => {
                bar.height = n;
            },
            None => {},
        }
    } else if chars_eq_str(key, "multi-monitor") || chars_eq_str(key, "multi_monitor") {
        let s = string_of(value);
        bar.multi_monitor = parse_bool(s.as_str());
    } else if chars_eq_str(key, "click-through") || chars_eq_str(key, "click_through") {
        let s = string_of(value);
        bar.click_through = parse_bool(s.as_str());
    }
}

fn style_prop_chars(key: &Vec<char>, value: &Vec<char>, style: &mut StyleConfig)
    ensures
        final(style)@ == style_prop(old(style)@, key@, value@),
{
    if chars_eq_str(key, "background") {
        style.background = string_of(value);
    } else if chars_eq_str(key, "foreground") {
        style.foreground = string_of(value);
    } else if chars_eq_str(key, "accent") {
        style.accent = string_of(value);
    } else if chars_eq_str(key, "font-family") || chars_eq_str(key, "font_family") {
        style.font_family = string_of(value);
    } else if chars_eq_str(key, "font-size-pt") || chars_eq_str(key, "font_size_pt") {
        let s = string_of(value);
        style.font_size_pt_texts.push(s);
        assert(style@.font_size_pt_texts =~= old(style)@.font_size_pt_texts.push(value@));
    } else if chars_eq_str(key, "padding-px") || chars_eq_str(key, "padding_px") {
        match parse_u32_chars(value) {
            Some(n) => {
                style.padding_px = n;
            },
            None => {},
        }
    } else if chars_eq_str(key, "module-spacing-px") || chars_eq_str(key, "module_spacing_px") {
        match parse_u32_chars(value) {
            Some(n) => {
                style.module_spacing_px = n;
            },
            None => {},
        }
    }
}

fn module_prop_chars(key: &Vec<char>, value: &Vec<char>, module: &mut ModuleEntry)
    ensures
        final(module)@ == module_prop(old(module)@, key@, value@),
{
    if chars_eq_str(key, "format") {
        module.format = string_of(value);
    } else if chars_eq_str(key, "interval-ms") || chars_eq_str(key, "interval_ms") {
        match parse_unsigned(value, 0xffff_ffff_ffff_ffffu64) {
            Some(n) => {
                module.interval_ms = n;
            },
            None => {},
        }
    } else if chars_eq_str(key, "on-click") || chars_eq_str(key, "on_click") {
        module.on_click = Some(string_of(value));
    } else if chars_eq_str(key, "on-scroll-up") || chars_eq_str(key, "on_scroll_up") {
        module.on_scroll_up = Some(string_of(value));
    } else if chars_eq_str(key, "on-scroll-down") || chars_eq_str(key, "on_scroll_down") {
        module.on_scroll_down = Some(string_of(value));
    } else {
        module.extra.insert(string_of(key), string_of(value));
    }
}

/// Applies a property of the `bar { ... }` block.
pub fn apply_bar_property(key: &str, value: &str, bar: &mut BarConfig)
    ensures
        final(bar)@ == bar_prop(old(bar)@, key@, value@),
{
    let k = chars_of(key);
    let v = chars_of(value);
    bar_prop_chars(&k, &v, bar);
}

/// Applies a property of the `style { ... }` block.
pub fn apply_style_property(key: &str, value: &str, style: &mut StyleConfig)
    ensures
        final(style)@ == style_prop(old(style)@, key@, value@),
{
    let k = chars_of(key);
    let v = chars_of(value);
    style_prop_chars(&k, &v, style);
}

/// Applies a property of a module block; unknown keys go to `extra`.
pub fn apply_module_property(key: &str, value: &str, module: &mut ModuleEntry)
    ensures
        final(module)@ == module_prop(old(module)@, key@, value@),
{
    let k = chars_of(key);
    let v = chars_of(value);
    module_prop_chars(&k, &v, module);
}

// ---------------------------------------------------------------------------
// The reader: code
// ---------------------------------------------------------------------------

struct Reader {
    config: Config,
    stack: Vec<Vec<char>>,
    current: Option<ModuleEntry>,
}

spec fn stack_view(stack: Seq<Vec<char>>) -> Seq<Seq<char>> {
    stack.map_values(|v: Vec<char>| v@)
}

spec fn current_view(c: Option<ModuleEntry>) -> Option<EntryView> {
    match c {
        Some(m) => Some(m@),
        None => None,
    }
}

impl Reader {
    spec fn view(&self) -> ParseState {
        ParseState {
            cfg: self.config@,
            stack: stack_view(self.stack@),
            current: current_view(self.current),
        }
    }

    fn is_modules_list_chars(v: &Vec<char>) -> (r: bool)
        ensures
            r == is_modules_list(v@),
    {
        chars_eq_str(v, "modules-left") || chars_eq_str(v, "modules-center") || chars_eq_str(
            v,
            "modules-right",
        )
    }

    fn open_section(&mut self, name: Vec<char>)
        ensures
            final(self).view() == open_section(old(self).view(), name@),
    {
        let ghost st = self.view();
        if self.stack.len() == 1 && Self::is_modules_list_chars(&self.stack[0]) {
            let mut e = ModuleEntry::default();
            e.kind = string_of(&name);
            self.current = Some(e);
        }
        self.stack.push(name);
        assert(stack_view(self.stack@) =~= st.stack.push(name@));
    }

    fn add_module(&mut self, list: &Vec<char>, m: ModuleEntry)
        ensures
            final(self).config@ == add_module(old(self).config@, list@, m@),
            final(self).stack == old(self).stack,
            final(self).current == old(self).current,
    {
        let ghost c = self.config@;
        if chars_eq_str(list, "modules-left") {
            self.config.modules.left.push(m);
            assert(self.config@.modules.left =~= c.modules.left.push(m@));
        } else if chars_eq_str(list, "modules-center") {
            self.config.modules.center.push(m);
            assert(self.config@.modules.center =~= c.modules.center.push(m@));
        } else if chars_eq_str(list, "modules-right") {
            self.config.modules.right.push(m);
            assert(self.config@.modules.right =~= c.modules.right.push(m@));
        }
    }

    fn close_section(&mut self)
        ensures
            final(self).view() == close_section(old(self).view()),
    {
        let ghost st = self.view();
        if self.stack.len() == 0 {
            return;
        }
        let _closed = self.stack.pop();
        assert(stack_view(self.stack@) =~= st.stack.drop_last());
        if self.stack.len() == 1 && Self::is_modules_list_chars(&self.stack[0]) {
            let taken = self.current.take();
            match taken {
                Some(m) => {
                    let parent = self.stack[0].clone();
                    assert(parent@ == stack_view(self.stack@).last());
                    self.add_module(&parent, m);
                },
                None => {},
            }
        }
    }

    fn section_path(&self) -> (r: Vec<char>)
        ensures
            r@ == join_dot(stack_view(self.stack@)),
    {
        let ghost sv = stack_view(self.stack@);
        let mut r: Vec<char> = Vec::new();
        let mut i: usize = 0;
        assert(sv.take(0) =~= Seq::<Seq<char>>::empty());
        while i < self.stack.len()
            invariant
                i <= self.stack.len(),
                sv == stack_view(self.stack@),
                r@ == join_dot(sv.take(i as int)),
            decreases self.stack.len() - i,
        {
            assert(sv.take(i + 1).drop_last() =~= sv.take(i as int));
            assert(sv.take(i + 1).last() == self.stack@[i as int]@);
            if i > 0 {
                r.push('.');
            }
            let ghost before = r@;
            let part = &self.stack[i];
            let mut j: usize = 0;
            while j < part.len()
                invariant
                    j <= part.len(),
                    r@ == before + part@.take(j as int),
                decreases part.len() - j,
            {
                r.push(part[j]);
                assert(part@.take(j + 1) =~= part@.take(j as int).push(part@[j as int]));
                j = j + 1;
            }
            assert(part@.take(part.len() as int) =~= part@);
            if i == 0 {
                assert(sv.take(1) =~= seq![sv[0]]);
                assert(r@ =~= join_dot(sv.take(1)));
            } else {
                assert(r@ =~= join_dot(sv.take(i + 1)));
            }
            i = i + 1;
        }
        assert(sv.take(self.stack.len() as int) =~= sv);
        r
    }

    fn apply_property(&mut self, key: &Vec<char>, value: &Vec<char>)
        ensures
            final(self).view() == apply_property(old(self).view(), key@, value@),
    {
        let section = self.section_path();
        if section.len() == 0 {
            if chars_eq_str(key, "log-level") || chars_eq_str(key, "log_level") {
                self.config.log_level = string_of(value);
            }
        } else if chars_eq_str(&section, "bar") {
            bar_prop_chars(key, value, &mut self.config.bar);
        } else if chars_eq_str(&section, "style") {
            style_prop_chars(key, value, &mut self.config.style);
        } else if is_module_section_chars(&section) {
            let taken = self.current.take();
            match taken {
                Some(m) => {
                    let mut m = m;
                    module_prop_chars(key, value, &mut m);
                    self.current = Some(m);
                },
                None => {},
            }
        }
    }

    fn step(&mut self, raw: &Vec<char>)
        ensures
            final(self).view() == step(old(self).view(), raw@),
    {
        let line0 = trim_chars(raw);
        if line0.len() == 0 || starts_with_str(&line0, "//") {
            return;
        }
        let line = strip_comment_chars(&line0);
        match section_open_chars(&line) {
            Some(name) => {
                self.open_section(name);
            },
            None => {
                if line.len() > 0 && line[0] == '}' {
                    self.close_section();
                } else {
                    match property_chars(&line) {
                        Some((k, v)) => {
                            self.apply_property(&k, &v);
                        },
                        None => {},
                    }
                }
            },
        }
    }
}

fn is_module_section_chars(v: &Vec<char>) -> (r: bool)
    ensures
        r == is_module_section_spec(v@),
{
    starts_with_str(v, "modules-left.") || starts_with_str(v, "modules-center.")
        || starts_with_str(v, "modules-right.")
}

proof fn lemma_find_from_skip(s: Seq<char>, c: char, p: int, i: int)
    requires
        0 <= p <= s.len(),
        0 <= i <= s.len() - p,
    ensures
        find_from(s.skip(p), c, i) == match find_from(s, c, p + i) {
            Some(j) => Some(j - p),
            None => None::<int>,
        },
    decreases s.len() - p - i,
{
    if i < s.len() - p && s.skip(p)[i] != c {
        lemma_find_from_skip(s, c, p, i + 1);
    }
}

/// The configuration written on first run.
pub const DEFAULT_CONFIG_KDL: &'static str = r##"// crest configuration
bar {
    position "top"
    height 32
    multi-monitor false
}

style {
    background "#1e1e1eee"
    foreground "#ffffff"
    accent "#7fc8ff"
    font-family "Segoe UI"
    font-size-pt 10
    padding-px 8
    module-spacing-px 12
}

modules-left {
    workspaces {
    }
}

modules-center {
    focused-window {
    }
}

modules-right {
    clock {
        format "%H:%M"
    }
    battery {
    }
}
"##;

/// Never fails: lines that are not understood are passed over.
pub enum ConfigError {
    /// Kept for callers that match on the error; the reader does not
    /// produce it.
    Unreadable,
}

/// Reads a KDL configuration text into a `Config`.
pub fn parse_kdl_config(input: &str) -> (r: Result<Config, ConfigError>)
    ensures
        r matches Ok(c) && c@ == parse_spec(input@),
{
    let chars = chars_of(input);
    let mut reader = Reader {
        config: Config::default(),
        stack: Vec::new(),
        current: None,
    };
    assert(reader.view() == initial_state()) by {
        assert(stack_view(reader.stack@) =~= Seq::<Seq<char>>::empty());
    }
    let mut pos: usize = 0;
    assert(chars@.skip(0) =~= chars@);
    loop
        invariant
            pos <= chars.len(),
            chars@ == input@,
            run(initial_state(), chars@) == run(reader.view(), chars@.skip(pos as int)),
        decreases chars.len() - pos,
    {
        let ghost rest = chars@.skip(pos as int);
        proof {
            lemma_find_from_skip(chars@, '\n', pos as int, 0);
            lemma_find_from(chars@, '\n', pos as int);
        }
        match find_char(&chars, '\n', pos) {
            Some(j) => {
                let line = sub_chars(&chars, pos, j);
                assert(line@ == rest.take(j - pos));
                assert(rest.skip(j - pos + 1) =~= chars@.skip(j + 1));
                reader.step(&line);
                pos = j + 1;
            },
            None => {
                let line = sub_chars(&chars, pos, chars.len());
                assert(line@ == rest);
                reader.step(&line);
                return Ok(reader.config);
            },
        }
    }
}

// ---------------------------------------------------------------------------
// Laws
// ---------------------------------------------------------------------------

proof fn lemma_run_append(st: ParseState, s: Seq<char>, c: Seq<char>)
    requires
        !c.contains('\n'),
    ensures
        run(st, s + seq!['\n'] + c) == step(run(st, s), c),
    decreases s.len(),
{
    let t = s + seq!['\n'] + c;
    lemma_find_from(t, '\n', 0);
    lemma_find_from(s, '\n', 0);
    match find_from(s, '\n', 0) {
        Some(i) => {
            assert(t[i] == '\n');
            assert(find_from(t, '\n', 0) == Some(i)) by {
                lemma_find_from(t, '\n', 0);
                let j = find_from(t, '\n', 0)->0;
                if j < i {
                    assert(t[j] == s[j]);
                }
                if j > i {
                    assert(t[i] == s[i]);
                }
            }
            assert(t.take(i) =~= s.take(i));
            assert(t.skip(i + 1) =~= s.skip(i + 1) + seq!['\n'] + c);
            lemma_run_append(step(st, s.take(i)), s.skip(i + 1), c);
            assert(run(st, s) == run(step(st, s.take(i)), s.skip(i + 1)));
            assert(run(st, t) == run(step(st, t.take(i)), t.skip(i + 1)));
        },
        None => {
            assert(t[s.len() as int] == '\n');
            assert(find_from(t, '\n', 0) == Some(s.len() as int)) by {
                let j = find_from(t, '\n', 0)->0;
                if j < s.len() {
                    assert(t[j] == s[j]);
                }
            }
            assert(t.take(s.len() as int) =~= s);
            assert(t.skip(s.len() as int + 1) =~= c);
            lemma_find_from(c, '\n', 0);
            assert(find_from(c, '\n', 0) is None) by {
                if find_from(c, '\n', 0) is Some {
                    let j = find_from(c, '\n', 0)->0;
                    assert(c.contains('\n')) by {
                        assert(c[j] == '\n');
                    }
                }
            }
            assert(run(st, s) == step(st, s));
            assert(run(step(st, s), c) == step(step(st, s), c));
            assert(run(st, t) == run(step(st, t.take(s.len() as int)), t.skip(s.len() as int + 1)));
        },
    }
}

proof fn lemma_run_concat(st: ParseState, s: Seq<char>, b: Seq<char>)
    ensures
        run(st, s + seq!['\n'] + b) == run(run(st, s), b),
    decreases s.len(),
{
    let t = s + seq!['\n'] + b;
    lemma_find_from(t, '\n', 0);
    lemma_find_from(s, '\n', 0);
    match find_from(s, '\n', 0) {
        Some(i) => {
            assert(t[i] == '\n');
            assert(find_from(t, '\n', 0) == Some(i)) by {
                let j = find_from(t, '\n', 0)->0;
                if j < i {
                    assert(t[j] == s[j]);
                }
                if j > i {
                    assert(t[i] == s[i]);
                }
            }
            assert(t.take(i) =~= s.take(i));
            assert(t.skip(i + 1) =~= s.skip(i + 1) + seq!['\n'] + b);
            lemma_run_concat(step(st, s.take(i)), s.skip(i + 1), b);
            assert(run(st, s) == run(step(st, s.take(i)), s.skip(i + 1)));
            assert(run(st, t) == run(step(st, t.take(i)), t.skip(i + 1)));
        },
        None => {
            assert(t[s.len() as int] == '\n');
            assert(find_from(t, '\n', 0) == Some(s.len() as int)) by {
                let j = find_from(t, '\n', 0)->0;
                if j < s.len() {
                    assert(t[j] == s[j]);
                }
            }
            assert(t.take(s.len() as int) =~= s);
            assert(t.skip(s.len() as int + 1) =~= b);
            assert(run(st, s) == step(st, s));
            assert(run(st, t) == run(step(st, t.take(s.len() as int)), t.skip(s.len() as int + 1)));
        },
    }
}

/// A reader state with the same open sections and module block, and the
/// default configuration.
pub open spec fn reset(st: ParseState) -> ParseState {
    ParseState { cfg: default_config(), stack: st.stack, current: st.current }
}

proof fn lemma_step_zones(st: ParseState, line: Seq<char>)
    ensures
        step(st, line).stack == step(reset(st), line).stack,
        step(st, line).current == step(reset(st), line).current,
        step(st, line).cfg.modules.left == st.cfg.modules.left + step(reset(st), line).cfg.modules.left,
        step(st, line).cfg.modules.center == st.cfg.modules.center + step(reset(st), line).cfg.modules.center,
        step(st, line).cfg.modules.right == st.cfg.modules.right + step(reset(st), line).cfg.modules.right,
{
    let e = Seq::<EntryView>::empty();
    assert(st.cfg.modules.left + e =~= st.cfg.modules.left);
    assert(st.cfg.modules.center + e =~= st.cfg.modules.center);
    assert(st.cfg.modules.right + e =~= st.cfg.modules.right);
    if st.current is Some {
        let m = st.current->0;
        assert(st.cfg.modules.left.push(m) =~= st.cfg.modules.left + e.push(m));
        assert(st.cfg.modules.center.push(m) =~= st.cfg.modules.center + e.push(m));
        assert(st.cfg.modules.right.push(m) =~= st.cfg.modules.right + e.push(m));
    }
}

proof fn lemma_run_zones(st: ParseState, b: Seq<char>)
    ensures
        run(st, b).stack == run(reset(st), b).stack,
        run(st, b).current == run(reset(st), b).current,
        run(st, b).cfg.modules.left == st.cfg.modules.left + run(reset(st), b).cfg.modules.left,
        run(st, b).cfg.modules.center == st.cfg.modules.center + run(reset(st), b).cfg.modules.center,
        run(st, b).cfg.modules.right == st.cfg.modules.right + run(reset(st), b).cfg.modules.right,
    decreases b.len(),
{
    lemma_find_from(b, '\n', 0);
    match find_from(b, '\n', 0) {
        Some(i) => {
            let l = b.take(i);
            let rest = b.skip(i + 1);
            let s1 = step(st, l);
            let r1 = step(reset(st), l);
            lemma_step_zones(st, l);
            lemma_run_zones(s1, rest);
            lemma_run_zones(r1, rest);
            assert(reset(s1) == reset(r1));
            assert(reset(reset(r1)) == reset(r1));
            assert(run(st, b) == run(s1, rest));
            assert(run(reset(st), b) == run(r1, rest));
            assert(reset(r1).cfg.modules.left.len() == 0);
            assert(reset(r1).cfg.modules.center.len() == 0);
            assert(reset(r1).cfg.modules.right.len() == 0);
            assert(run(r1, rest).cfg.modules.left =~= r1.cfg.modules.left + run(reset(r1), rest).cfg.modules.left);
            assert(run(st, b).cfg.modules.left =~= st.cfg.modules.left + run(reset(st), b).cfg.modules.left);
            assert(run(st, b).cfg.modules.center =~= st.cfg.modules.center + run(reset(st), b).cfg.modules.center);
            assert(run(st, b).cfg.modules.right =~= st.cfg.modules.right + run(reset(st), b).cfg.modules.right);
        },
        None => {
            lemma_step_zones(st, b);
        },
    }
}

/// The module zones of two texts joined by a line break are the zones of
/// the first followed by those of the second, when the first text closes
/// every section it opens and leaves no module block open.
pub proof fn law_zones_concatenate(a: Seq<char>, b: Seq<char>)
    requires
        run(initial_state(), a).stack.len() == 0,
        run(initial_state(), a).current is None,
    ensures
        parse_spec(a + seq!['\n'] + b).modules.left == parse_spec(a).modules.left + parse_spec(b).modules.left,
        parse_spec(a + seq!['\n'] + b).modules.center == parse_spec(a).modules.center + parse_spec(b).modules.center,
        parse_spec(a + seq!['\n'] + b).modules.right == parse_spec(a).modules.right + parse_spec(b).modules.right,
{
    let sa = run(initial_state(), a);
    lemma_run_concat(initial_state(), a, b);
    assert(reset(sa) == initial_state()) by {
        assert(sa.stack =~= Seq::<Seq<char>>::empty());
    }
    lemma_run_zones(sa, b);
}

/// Reading a text and then one more line reads that line last: appending
/// a line to a configuration text applies that line to what the text
/// described.
pub proof fn law_line_appended(s: Seq<char>, line: Seq<char>)
    requires
        !line.contains('\n'),
    ensures
        run(initial_state(), s + seq!['\n'] + line) == step(run(initial_state(), s), line),
{
    lemma_run_append(initial_state(), s, line);
}

/// A blank line or a line starting with `//` changes nothing: appending
/// one to a configuration text leaves the configuration as it was.
pub proof fn law_comment_line_ignored(s: Seq<char>, line: Seq<char>)
    requires
        !line.contains('\n'),
        trim(line).len() == 0 || has_prefix(trim(line), "//"@),
    ensures
        parse_spec(s + seq!['\n'] + line) == parse_spec(s),
{
    lemma_run_append(initial_state(), s, line);
}

proof fn lemma_cut_plain_prefix(s: Seq<char>, l: Seq<char>, i: int)
    requires
        0 <= i <= l.len(),
        l.len() + 2 <= s.len(),
        s.take(l.len() as int) == l,
        s[l.len() as int] == '/',
        s[l.len() as int + 1] == '/',
        !l.contains('"'),
        !l.contains('\\'),
        !l.contains('/'),
    ensures
        comment_cut(s, i, false, false) == Some(l.len() as int),
    decreases l.len() - i,
{
    if i < l.len() {
        assert(s[i] == l[i]);
        assert(l[i] != '"' && l[i] != '\\' && l[i] != '/');
        lemma_cut_plain_prefix(s, l, i + 1);
    }
}

/// An inline `//` comment after plain text (no quote, no backslash, no
/// slash) ends the line: what remains is the text before it without its
/// trailing whitespace.
pub proof fn law_inline_comment_stripped(l: Seq<char>, comment: Seq<char>)
    requires
        !l.contains('"'),
        !l.contains('\\'),
        !l.contains('/'),
    ensures
        strip_comment(l + "//"@ + comment) == trim_end(l),
{
    let s = l + "//"@ + comment;
    reveal_strlit("//");
    assert(s.take(l.len() as int) =~= l);
    assert(s[l.len() as int] == '/');
    assert(s[l.len() as int + 1] == '/');
    lemma_cut_plain_prefix(s, l, 0);
}

proof fn lemma_trim_unchanged(s: Seq<char>)
    requires
        s.len() > 0,
        !is_ws(s[0]),
        !is_ws(s.last()),
    ensures
        trim(s) == s,
{
    assert(skip_ws(s, 0) == 0);
    assert(trim_start(s) =~= s);
    assert(skip_ws_back(s, s.len() as int) == s.len());
    assert(trim_end(s) =~= s);
}

proof fn lemma_trim_no_ws(s: Seq<char>)
    requires
        forall|i: int| 0 <= i < s.len() ==> !is_ws(#[trigger] s[i]),
    ensures
        trim(s) == s,
{
    if s.len() > 0 {
        lemma_trim_unchanged(s);
    } else {
        assert(trim_start(s) =~= s);
        assert(trim_end(s) =~= s);
    }
}

proof fn lemma_trim_quotes_inner(v: Seq<char>)
    requires
        v.len() > 0 ==> v[0] != '"' && v.last() != '"',
    ensures
        trim_quotes(seq!['"'] + v + seq!['"']) == v,
{
    let q = seq!['"'] + v + seq!['"'];
    if v.len() == 0 {
        assert(q =~= seq!['"', '"']);
        assert(skip_quotes(q, 2) == 2);
        assert(skip_quotes(q, 1) == 2);
        assert(skip_quotes(q, 0) == 2);
        let t = q.subrange(2, 2);
        assert(skip_quotes_back(t, 0) == 0);
        assert(t =~= v);
    } else {
        assert(q[1] == v[0]);
        assert(skip_quotes(q, 1) == 1);
        assert(skip_quotes(q, 0) == 1);
        let t = q.subrange(1, q.len() as int);
        assert(t =~= v + seq!['"']);
        assert(t[t.len() - 2] == v.last());
        assert(skip_quotes_back(t, t.len() - 1) == t.len() - 1);
        assert(skip_quotes_back(t, t.len() as int) == t.len() - 1);
        assert(t.subrange(0, t.len() - 1) =~= v);
    }
}

/// `key "value"` reads as the key and the value between the quotes, for a
/// valid key without whitespace, quotes or `=`, and a value that neither
/// starts nor ends with a quote and holds no quote where it holds a `=`.
pub proof fn law_property_spaced(key: Seq<char>, value: Seq<char>)
    requires
        valid_key(key),
        forall|i: int| 0 <= i < key.len() ==> !is_ws(#[trigger] key[i]),
        !key.contains('='),
        !key.contains('"'),
        !value.contains('"') || !value.contains('='),
        value.len() > 0 ==> value[0] != '"' && value.last() != '"',
    ensures
        property(key + seq![' ', '"'] + value + seq!['"']) == Some((key, value)),
{
    let line = key + seq![' ', '"'] + value + seq!['"'];
    assert(line[0] == key[0]);
    assert(line.last() == '"');
    lemma_trim_unchanged(line);
    let t = line;
    let kl = key.len() as int;
    let vl = value.len() as int;
    assert(find_unquoted_eq(t, 0, false) is None) by {
        if !value.contains('=') {
            assert forall|k: int| 0 <= k < t.len() implies t[k] != '=' by {
                if k < kl {
                    assert(t[k] == key[k]);
                } else if kl + 2 <= k < kl + 2 + vl {
                    assert(t[k] == value[k - kl - 2]);
                    assert(!value.contains('='));
                }
            }
            lemma_unquoted_none(t, 0, false);
        } else {
            assert forall|k: int| 0 <= k < kl implies t[k] != '"' && t[k] != '=' by {
                assert(t[k] == key[k]);
            }
            lemma_unquoted_skip(t, 0, kl, false);
            assert forall|k: int| kl + 2 <= k < kl + 2 + vl implies t[k] != '"' by {
                assert(t[k] == value[k - kl - 2]);
            }
            lemma_unquoted_skip(t, kl + 2, kl + 2 + vl, true);
            assert(t[kl] == ' ');
            assert(t[kl + 1] == '"');
            assert(t[kl + 2 + vl] == '"');
            assert(t.len() == kl + 3 + vl);
            assert(find_unquoted_eq(t, kl + 3 + vl, false) is None);
            assert(find_unquoted_eq(t, kl + 2 + vl, true) is None);
            lemma_find_from(t, '"', kl + 2);
            assert(find_from(t, '"', kl + 2) is Some);
            assert(find_unquoted_eq(t, kl + 1, false) == find_unquoted_eq(t, kl + 2, true));
            assert(find_unquoted_eq(t, kl, false) == find_unquoted_eq(t, kl + 1, false));
        }
    }
    lemma_find_ws_from(t, 0);
    assert(t[key.len() as int] == ' ');
    assert(find_ws_from(t, 0) == Some(key.len() as int)) by {
        let j = find_ws_from(t, 0)->0;
        if j < key.len() {
            assert(t[j] == key[j]);
        }
        if j > key.len() {
            assert(!is_ws(t[key.len() as int]));
        }
    }
    assert(t.take(key.len() as int) =~= key);
    lemma_trim_no_ws(key);
    assert(t.skip(key.len() + 1int) =~= seq!['"'] + value + seq!['"']);
    let q = seq!['"'] + value + seq!['"'];
    lemma_trim_unchanged(q);
    lemma_trim_quotes_inner(value);
}

/// `key=value` reads as the key before the first `=` and the value after
/// it, each without surrounding whitespace, the value also without
/// surrounding quotes, whenever the key has no `=` or quote and is a valid
/// key once trimmed.
pub proof fn law_property_equals(key: Seq<char>, value: Seq<char>)
    requires
        !key.contains('='),
        !key.contains('"'),
        valid_key(trim(key)),
    ensures
        property(key + seq!['='] + value) == Some((trim(key), trim_quotes(trim(value)))),
{
    let line = key + seq!['='] + value;
    lemma_skip_ws_bounds(key, 0);
    let a = skip_ws(key, 0);
    assert(a < key.len()) by {
        if a >= key.len() {
            lemma_trim_exact(key, 0, 0);
        }
    }
    lemma_skip_ws_back_bounds(value, value.len() as int);
    let vb = skip_ws_back(value, value.len() as int);
    let pre = key.take(a);
    let ks = key.skip(a);
    let m = ks + seq!['='] + value.take(vb);
    let post = value.skip(vb);
    assert(line =~= pre + m + post);
    lemma_trim_padding(pre, m, post);
    assert(m[0] == key[a]);
    if vb > 0 {
        assert(m.last() == value[vb - 1]);
    } else {
        assert(m.last() == '=');
    }
    lemma_trim_unchanged(m);
    let t = m;
    assert(t[ks.len() as int] == '=');
    assert(find_unquoted_eq(t, 0, false) == Some(ks.len() as int)) by {
        assert forall|k: int| 0 <= k < ks.len() implies t[k] != '"' && t[k] != '=' by {
            assert(t[k] == key[a + k]);
        }
        lemma_unquoted_skip(t, 0, ks.len() as int, false);
    }
    assert(t.take(ks.len() as int) =~= ks);
    assert(key =~= pre + ks + Seq::<char>::empty());
    lemma_trim_padding(pre, ks, Seq::<char>::empty());
    assert(t.skip(ks.len() + 1int) =~= value.take(vb));
    assert(value =~= Seq::<char>::empty() + value.take(vb) + post);
    lemma_trim_padding(Seq::<char>::empty(), value.take(vb), post);
}

proof fn lemma_style_text_keys(st: StyleView, value: Seq<char>)
    ensures
        style_prop(st, "background"@, value) == (StyleView { background: value, ..st }),
        style_prop(st, "foreground"@, value) == (StyleView { foreground: value, ..st }),
        style_prop(st, "accent"@, value) == (StyleView { accent: value, ..st }),
        style_prop(st, "font-family"@, value) == (StyleView { font_family: value, ..st }),
        style_prop(st, "font_family"@, value) == (StyleView { font_family: value, ..st }),
{
    reveal_strlit("foreground");
    reveal_strlit("background");
    reveal_strlit("accent");
    reveal_strlit("font-family");
    reveal_strlit("font_family");
    assert("foreground"@[0] != "background"@[0]);
    assert("font_family"@[4] != "font-family"@[4]);
}

/// Inside the `style` block, a `background`, `foreground`, `accent` or
/// `font-family` property sets that colour or font to its value, whatever
/// it was, and leaves the other style settings, the bar and the modules as
/// they were.
pub proof fn law_style_property_sets_field(st: ParseState, value: Seq<char>)
    requires
        st.stack == seq!["style"@],
    ensures
        ({
            let c = apply_property(st, "foreground"@, value).cfg;
            &&& c.style.foreground == value
            &&& c.style.background == st.cfg.style.background
            &&& c.style.accent == st.cfg.style.accent
            &&& c.style.font_family == st.cfg.style.font_family
            &&& c.bar == st.cfg.bar
            &&& c.modules == st.cfg.modules
        }),
        ({
            let c = apply_property(st, "background"@, value).cfg;
            &&& c.style.background == value
            &&& c.style.foreground == st.cfg.style.foreground
            &&& c.style.accent == st.cfg.style.accent
        }),
        ({
            let c = apply_property(st, "accent"@, value).cfg;
            &&& c.style.accent == value
            &&& c.style.foreground == st.cfg.style.foreground
            &&& c.style.background == st.cfg.style.background
        }),
        apply_property(st, "font-family"@, value).cfg.style.font_family == value,
        apply_property(st, "font_family"@, value).cfg.style.font_family == value,
{
    reveal_strlit("style");
    reveal_strlit("bar");
    assert(join_dot(st.stack) == "style"@);
    assert("style"@.len() == 5 && "bar"@.len() == 3);
    lemma_style_text_keys(st.cfg.style, value);
}

/// Inside the `bar` block, a `position` property sets the bar's position to
/// its value and leaves the other bar settings as they were.
pub proof fn law_bar_position_sets_field(st: ParseState, value: Seq<char>)
    requires
        st.stack == seq!["bar"@],
    ensures
        ({
            let c = apply_property(st, "position"@, value).cfg;
            &&& c.bar.position == value
            &&& c.bar.height == st.cfg.bar.height
            &&& c.bar.multi_monitor == st.cfg.bar.multi_monitor
            &&& c.style == st.cfg.style
        }),
{
    reveal_strlit("bar");
    reveal_strlit("position");
    assert(join_dot(st.stack) == "bar"@);
}

/// In a module block, `format` sets the module's format and `on-click`,
/// `on-scroll-up` and `on-scroll-down` set its commands to their values,
/// each leaving the module's other settings as they were.
pub proof fn law_module_property_sets_field(m: EntryView, value: Seq<char>)
    ensures
        ({
            let r = module_prop(m, "format"@, value);
            &&& r.format == value
            &&& r.kind == m.kind
            &&& r.on_click == m.on_click
        }),
        ({
            let r = module_prop(m, "on-click"@, value);
            &&& r.on_click == Some(value)
            &&& r.on_scroll_up == m.on_scroll_up
            &&& r.on_scroll_down == m.on_scroll_down
            &&& r.kind == m.kind
        }),
        ({
            let r = module_prop(m, "on-scroll-up"@, value);
            &&& r.on_scroll_up == Some(value)
            &&& r.on_click == m.on_click
            &&& r.on_scroll_down == m.on_scroll_down
        }),
        ({
            let r = module_prop(m, "on-scroll-down"@, value);
            &&& r.on_scroll_down == Some(value)
            &&& r.on_click == m.on_click
            &&& r.on_scroll_up == m.on_scroll_up
        }),
{
    reveal_strlit("format");
    reveal_strlit("interval-ms");
    reveal_strlit("interval_ms");
    reveal_strlit("on-click");
    reveal_strlit("on_click");
    reveal_strlit("on-scroll-up");
    reveal_strlit("on_scroll_up");
    reveal_strlit("on-scroll-down");
    assert("format"@.len() == 6 && "interval-ms"@.len() == 11 && "interval_ms"@.len() == 11);
    assert("on-click"@.len() == 8 && "on_click"@.len() == 8);
    assert("on-scroll-up"@.len() == 12 && "on_scroll_up"@.len() == 12);
    assert("on-scroll-down"@.len() == 14);
    assert("on-click"@[2] != "on_click"@[2]);
    assert("on-scroll-up"@[2] != "on_scroll_up"@[2]);
}

} // verus!
