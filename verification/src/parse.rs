//! The configuration file grammar and its verified parser.
//!
//! A file is a sequence of lines.  After trimming, each line must be
//! blank, a `#` comment, a `[section]` header, or a `key = value`
//! assignment.  Unknown keys are permissive: their value may be any
//! text.  Only the consumed field — `path` inside `[config]` —
//! demands a quoted string value, and its empty string counts as
//! unset.  The loader tracks the current section and keeps the last
//! non-empty `path` value assigned inside `[config]`; when the
//! section is present but sets no usable `path`, the default
//! `<home>/.config` is synthesized, so a loaded path is never empty.
//! A file with no content at all (only blank and comment lines) also
//! loads to the default; any other file without a `[config]` section
//! is rejected.

use vstd::prelude::*;

use crate::text::{
    is_ws, is_ws_char, ltrim, rtrim, trim, find_char, spec_lines, trim_bounds, split_lines,
    lemma_leading_ws_is, lemma_trailing_ws_is, lemma_find_char_is, lemma_trailing_ws_le,
    lemma_find_char_bounds,
};
use crate::config::{Configuration, default_path_spec, default_path};

verus! {

/// Characters allowed in section and key names.
pub open spec fn is_ident_char(c: char) -> bool {
    ('a' <= c && c <= 'z') || ('A' <= c && c <= 'Z') || ('0' <= c && c <= '9') || c == '_' || c
        == '-'
}

/// Runtime test for [`is_ident_char`].
pub fn ident_char(c: char) -> (b: bool)
    ensures
        b == is_ident_char(c),
{
    ('a' <= c && c <= 'z') || ('A' <= c && c <= 'Z') || ('0' <= c && c <= '9') || c == '_' || c
        == '-'
}

/// A nonempty run of identifier characters.
pub open spec fn is_ident(t: Seq<char>) -> bool {
    t.len() > 0 && forall|i: int| 0 <= i < t.len() ==> is_ident_char(t[i])
}

/// Nothing but spacing.
pub open spec fn is_blank(t: Seq<char>) -> bool {
    t.len() == 0
}

/// A comment line: first significant character is `#`.
pub open spec fn is_comment(t: Seq<char>) -> bool {
    t.len() > 0 && t[0] == '#'
}

/// A section header: `[name]` with an identifier name.
pub open spec fn is_header(t: Seq<char>) -> bool {
    t.len() >= 2 && t[0] == '[' && t[t.len() - 1] == ']' && is_ident(t.subrange(1, t.len() - 1))
}

/// The name between the brackets of a header line.
pub open spec fn header_name(t: Seq<char>) -> Seq<char> {
    t.subrange(1, t.len() - 1)
}

/// A quoted string value: `"..."` with no inner quote or backslash.
pub open spec fn is_quoted(v: Seq<char>) -> bool {
    v.len() >= 2 && v[0] == '"' && v[v.len() - 1] == '"' && forall|i: int|
        1 <= i < v.len() - 1 ==> v[i] != '"' && v[i] != '\\'
}

/// The characters between the quotes.
pub open spec fn quoted_body(v: Seq<char>) -> Seq<char> {
    v.subrange(1, v.len() - 1)
}

/// The position of the `=` separator of an assignment line.
pub open spec fn eq_pos(t: Seq<char>) -> int {
    find_char(t, '=')
}

/// The key of an assignment line: what stands left of `=`, without
/// the spacing next to the separator.
pub open spec fn kv_key(t: Seq<char>) -> Seq<char> {
    rtrim(t.take(eq_pos(t)))
}

/// The raw (still quoted) value of an assignment line.
pub open spec fn kv_value_raw(t: Seq<char>) -> Seq<char> {
    ltrim(t.skip(eq_pos(t) + 1))
}

/// An assignment line: an identifier key, `=`, and some value text.
/// The value may be anything; only the consumed field demands a
/// quoted string of it.
pub open spec fn is_assign(t: Seq<char>) -> bool {
    eq_pos(t) < t.len() && is_ident(kv_key(t)) && kv_value_raw(t).len() > 0
}

/// An assignment line whose value is a quoted string.
pub open spec fn is_kv(t: Seq<char>) -> bool {
    is_assign(t) && is_quoted(kv_value_raw(t))
}

/// The string assigned by a quoted assignment line.
pub open spec fn kv_value(t: Seq<char>) -> Seq<char> {
    quoted_body(kv_value_raw(t))
}

/// A line the grammar accepts.
pub open spec fn line_ok(l: Seq<char>) -> bool {
    is_blank(trim(l)) || is_comment(trim(l)) || is_header(trim(l)) || is_assign(trim(l))
}

/// A line that carries no content.
pub open spec fn line_trivial(l: Seq<char>) -> bool {
    is_blank(trim(l)) || is_comment(trim(l))
}

/// An assignment line starts with an identifier character.
pub proof fn lemma_assign_first_char(t: Seq<char>)
    requires
        is_assign(t),
    ensures
        t.len() > 0 && is_ident_char(t[0]),
{
    lemma_find_char_bounds(t, '=');
    let e = eq_pos(t);
    let key = kv_key(t);
    lemma_trailing_ws_le(t.take(e));
    assert(key.len() > 0);
    assert(t.take(e).len() > 0);
    assert(key[0] == t.take(e)[0]);
    assert(t.take(e)[0] == t[0]);
}

/// What one line contributes, as the classifier reports it.
pub enum LineKind {
    Blank,
    Comment,
    Header(String),
    KeyValue(String, String),
    BareAssign(String),
    Invalid,
}

/// Classifies one line of the file against the grammar and extracts
/// the header name, the key with its unquoted value, or — for an
/// assignment whose value is no quoted string — the key alone.
#[verifier::loop_isolation(false)]
pub fn classify_line(line: &str) -> (k: LineKind)
    ensures
        ({
            let t = trim(line@);
            match k {
                LineKind::Blank => is_blank(t),
                LineKind::Comment => is_comment(t),
                LineKind::Header(name) => is_header(t) && name@ == header_name(t),
                LineKind::KeyValue(key, value) => is_kv(t) && key@ == kv_key(t) && value@
                    == kv_value(t),
                LineKind::BareAssign(key) => is_assign(t) && !is_quoted(kv_value_raw(t)) && key@
                    == kv_key(t),
                LineKind::Invalid => !line_ok(line@),
            }
        }),
{
    let (lo, hi) = trim_bounds(line);
    let ghost t = trim(line@);
    if lo == hi {
        return LineKind::Blank;
    }
    let c0 = line.get_char(lo);
    assert(c0 == t[0]);
    if c0 == '#' {
        return LineKind::Comment;
    }
    if c0 == '[' {
        proof {
            if is_assign(t) {
                lemma_assign_first_char(t);
            }
        }
        if hi - lo < 3 || line.get_char(hi - 1) != ']' {
            return LineKind::Invalid;
        }
        let mut j = lo + 1;
        while j < hi - 1
            invariant
                lo + 1 <= j <= hi - 1,
                hi <= line@.len(),
                2 < hi - lo,
                forall|p: int| lo + 1 <= p < j ==> is_ident_char(line@[p]),
            decreases hi - j,
        {
            if !ident_char(line.get_char(j)) {
                proof {
                    if is_assign(t) {
                        lemma_assign_first_char(t);
                    }
                    assert(header_name(t)[j - lo - 1] == t[j - lo]);
                    assert(t[j - lo] == line@[j as int]);
                }
                return LineKind::Invalid;
            }
            j += 1;
        }
        let name = String::from_str(line.substring_char(lo + 1, hi - 1));
        proof {
            assert(header_name(t) =~= line@.subrange(lo + 1, hi - 1));
            assert(is_ident(header_name(t)));
        }
        return LineKind::Header(name);
    }
    // From here the only acceptable shape is `key = "value"`.
    let mut e = lo;
    while e < hi && line.get_char(e) != '='
        invariant
            lo <= e <= hi,
            hi <= line@.len(),
            forall|p: int| lo <= p < e ==> line@[p] != '=',
        decreases hi - e,
    {
        e += 1;
    }
    proof {
        assert(forall|p: int| 0 <= p < t.len() ==> t[p] == line@[p + lo]);
        lemma_find_char_is(t, '=', e - lo);
    }
    if e == hi {
        return LineKind::Invalid;
    }
    if e == lo {
        return LineKind::Invalid;
    }
    // The key: back off the spacing before `=`, then check the name.
    let mut khi = e;
    while khi > lo && is_ws_char(line.get_char(khi - 1))
        invariant
            lo <= khi <= e,
            e < hi <= line@.len(),
            forall|p: int| khi <= p < e ==> is_ws(line@[p]),
        decreases khi,
    {
        khi -= 1;
    }
    proof {
        let keypart = t.take(e - lo);
        assert(forall|p: int| 0 <= p < keypart.len() ==> keypart[p] == line@[p + lo]);
        lemma_trailing_ws_is(keypart, e - khi);
        assert(kv_key(t) =~= line@.subrange(lo as int, khi as int));
    }
    if khi == lo {
        return LineKind::Invalid;
    }
    let mut j = lo;
    while j < khi
        invariant
            lo <= j <= khi,
            khi <= line@.len(),
            forall|p: int| lo <= p < j ==> is_ident_char(line@[p]),
        decreases khi - j,
    {
        if !ident_char(line.get_char(j)) {
            proof {
                assert(kv_key(t)[j - lo] == line@[j as int]);
            }
            return LineKind::Invalid;
        }
        j += 1;
    }
    assert(is_ident(kv_key(t)));
    // The value: skip the spacing after `=`, then check the quotes.
    let mut vlo = e + 1;
    while vlo < hi && is_ws_char(line.get_char(vlo))
        invariant
            e + 1 <= vlo <= hi,
            hi <= line@.len(),
            forall|p: int| e + 1 <= p < vlo ==> is_ws(line@[p]),
        decreases hi - vlo,
    {
        vlo += 1;
    }
    proof {
        let valpart = t.skip(e - lo + 1);
        assert(forall|p: int| 0 <= p < valpart.len() ==> valpart[p] == line@[p + e + 1]);
        lemma_leading_ws_is(valpart, vlo - e - 1);
        assert(kv_value_raw(t) =~= line@.subrange(vlo as int, hi as int));
    }
    if vlo == hi {
        return LineKind::Invalid;
    }
    let key = String::from_str(line.substring_char(lo, khi));
    if hi - vlo < 2 || line.get_char(vlo) != '"' || line.get_char(hi - 1) != '"' {
        return LineKind::BareAssign(key);
    }
    let mut j = vlo + 1;
    while j < hi - 1
        invariant
            vlo + 1 <= j <= hi - 1,
            hi <= line@.len(),
            vlo + 2 <= hi,
            forall|p: int| vlo + 1 <= p < j ==> line@[p] != '"' && line@[p] != '\\',
        decreases hi - j,
    {
        let c = line.get_char(j);
        if c == '"' || c == '\\' {
            proof {
                let raw = kv_value_raw(t);
                assert(raw[j - vlo] == line@[j as int]);
            }
            return LineKind::BareAssign(key);
        }
        j += 1;
    }
    let value = String::from_str(line.substring_char(vlo + 1, hi - 1));
    proof {
        assert(is_quoted(kv_value_raw(t)));
        assert(kv_value(t) =~= line@.subrange(vlo + 1, hi - 1));
    }
    LineKind::KeyValue(key, value)
}

/// Why a file fails to load.
#[derive(Debug, Clone, Copy, PartialEq, Eq, Structural)]
pub enum ParseError {
    /// Some line does not match the grammar.
    Syntax,
    /// The file has content but no `[config]` section.
    MissingSection,
    /// The `path` field inside `[config]` carries a value that is not
    /// a quoted string.
    BadValue,
}

/// Every line of the text matches the grammar.
pub open spec fn text_ok(s: Seq<char>) -> bool {
    forall|i: int| 0 <= i < spec_lines(s).len() ==> line_ok(spec_lines(s)[i])
}

/// The text carries no content at all.
pub open spec fn text_trivial(s: Seq<char>) -> bool {
    forall|i: int| 0 <= i < spec_lines(s).len() ==> line_trivial(spec_lines(s)[i])
}

/// Walks the lines from position `i` with the scan state: whether the
/// current section is `[config]`, whether a `[config]` header was
/// seen, and the last `path` value assigned inside `[config]`.
/// Returns the final pair (section seen, path value), or `None` when
/// a `path` assignment inside `[config]` carries a value that is not
/// a quoted string.  Assignments to any other key are kept whatever
/// their value looks like, and ignored.
pub open spec fn scan_lines(
    lines: Seq<Seq<char>>,
    i: int,
    in_cfg: bool,
    seen: bool,
    path: Option<Seq<char>>,
) -> Option<(bool, Option<Seq<char>>)>
    decreases lines.len() - i,
{
    if i < 0 || i >= lines.len() {
        Some((seen, path))
    } else {
        let t = trim(lines[i]);
        if is_header(t) {
            let c = header_name(t) == "config"@;
            scan_lines(lines, i + 1, c, seen || c, path)
        } else if is_assign(t) && in_cfg && kv_key(t) == "path"@ {
            if is_quoted(kv_value_raw(t)) {
                scan_lines(lines, i + 1, in_cfg, seen, Some(kv_value(t)))
            } else {
                None
            }
        } else {
            scan_lines(lines, i + 1, in_cfg, seen, path)
        }
    }
}

/// The scan of the whole text, from its start.
pub open spec fn scan_result(s: Seq<char>) -> Option<(bool, Option<Seq<char>>)> {
    scan_lines(spec_lines(s), 0, false, false, None)
}

/// The view of an optional string.
pub open spec fn opt_view(p: Option<String>) -> Option<Seq<char>> {
    match p {
        Some(s) => Some(s@),
        None => None,
    }
}

/// What loading a file yields: the `path` value for the
/// configuration, or the reason the file is rejected.  An empty
/// `path` value counts as unset: the default is synthesized for it,
/// so a loaded path is never empty.
pub open spec fn spec_load(home: Seq<char>, text: Seq<char>) -> Result<Seq<char>, ParseError> {
    if !text_ok(text) {
        Result::Err(ParseError::Syntax)
    } else {
        match scan_result(text) {
            None => Result::Err(ParseError::BadValue),
            Some((seen, found)) => if seen {
                match found {
                    Some(p) => if p.len() > 0 {
                        Result::Ok(p)
                    } else {
                        Result::Ok(default_path_spec(home))
                    },
                    None => Result::Ok(default_path_spec(home)),
                }
            } else if text_trivial(text) {
                Result::Ok(default_path_spec(home))
            } else {
                Result::Err(ParseError::MissingSection)
            },
        }
    }
}

/// Law: a loaded configuration's path is never empty — it is either
/// a non-empty value read from the file or the synthesized
/// `<home>/.config`.
pub proof fn lemma_loaded_path_nonempty(home: Seq<char>, text: Seq<char>)
    ensures
        spec_load(home, text) matches Result::Ok(p) ==> p.len() > 0,
{
    reveal_strlit("/.config");
}

/// Law: for every home directory, a well-formed file whose `[config]`
/// section sets no `path` loads to the synthesized default
/// `<home>/.config`.
pub proof fn lemma_default_synthesis(home: Seq<char>, text: Seq<char>)
    requires
        text_ok(text),
        scan_result(text) matches Some(r) && r.0 && r.1 is None,
    ensures
        spec_load(home, text) == Result::<Seq<char>, ParseError>::Ok(default_path_spec(home)),
{
}

/// Law: for every home directory and every representable path string
/// `s` (a non-empty string without newlines, quotes and backslashes),
/// the file `[config]` + newline + `path = "s"` loads back to exactly
/// `s`.  The empty string is left out: an empty `path` value counts
/// as unset and loads to the default instead.
pub proof fn lemma_round_trip(home: Seq<char>, s: Seq<char>)
    requires
        s.len() > 0,
        forall|i: int| 0 <= i < s.len() ==> s[i] != '\n' && s[i] != '"' && s[i] != '\\',
    ensures
        ({
            let text = "[config]\npath = \""@ + s + "\""@;
            spec_load(home, text) == Result::<Seq<char>, ParseError>::Ok(s)
        }),
{
    reveal_strlit("[config]\npath = \"");
    reveal_strlit("\"");
    reveal_strlit("config");
    reveal_strlit("path");
    let pre = "[config]\npath = \""@;
    let text = pre + s + "\""@;
    assert(pre.len() == 17);
    assert(text.len() == 18 + s.len());
    assert(forall|j: int| 0 <= j < 17 ==> text[j] == pre[j]);
    assert(forall|j: int| 0 <= j < s.len() ==> text[17 + j] == s[j]);
    assert(text[text.len() - 1] == '"');
    // The text splits into the header line and the assignment line.
    lemma_find_char_is(text, '\n', 8);
    let l1 = text.take(8);
    let l2 = text.skip(9);
    assert(l2.len() == 9 + s.len());
    assert(forall|j: int| 0 <= j < l2.len() ==> l2[j] == text[j + 9]);
    assert(forall|j: int| 0 <= j < l2.len() ==> l2[j] != '\n') by {
        assert(forall|j: int| 8 <= j < s.len() + 8 ==> l2[j] == s[j - 8]);
    }
    lemma_find_char_is(l2, '\n', l2.len() as int);
    assert(spec_lines(l2) == seq![l2]);
    let lines = spec_lines(text);
    assert(lines =~= seq![l1, l2]);
    // The header line is `[config]`.
    assert(l1.len() == 8);
    assert(forall|j: int| 0 <= j < 8 ==> l1[j] == pre[j]);
    lemma_leading_ws_is(l1, 0);
    assert(ltrim(l1) =~= l1);
    lemma_trailing_ws_is(l1, 0);
    assert(trim(l1) =~= l1);
    assert(header_name(l1) =~= "config"@);
    assert(is_header(trim(l1)));
    // The assignment line is `path = "s"`.
    lemma_leading_ws_is(l2, 0);
    assert(ltrim(l2) =~= l2);
    lemma_trailing_ws_is(l2, 0);
    assert(trim(l2) =~= l2);
    lemma_find_char_is(l2, '=', 5);
    let keypart = l2.take(5);
    lemma_trailing_ws_is(keypart, 1);
    assert(kv_key(l2) =~= "path"@);
    assert(is_ident(kv_key(l2)));
    let valpart = l2.skip(6);
    assert(forall|j: int| 0 <= j < valpart.len() ==> valpart[j] == l2[j + 6]);
    lemma_leading_ws_is(valpart, 1);
    let raw = kv_value_raw(l2);
    assert(raw =~= valpart.skip(1));
    assert(raw.len() == s.len() + 2);
    assert(raw[0] == '"' && raw[raw.len() - 1] == '"');
    assert(forall|j: int| 1 <= j < raw.len() - 1 ==> raw[j] == s[j - 1]);
    assert(is_quoted(raw));
    assert(is_kv(trim(l2)));
    assert(kv_value(l2) =~= s);
    // Both lines are accepted, and the scan keeps `s`.
    assert(text_ok(text));
    assert(!is_header(trim(l2)));
    assert(scan_lines(lines, 0, false, false, None) == scan_lines(lines, 1, true, true, None));
    assert(scan_lines(lines, 1, true, true, None) == scan_lines(lines, 2, true, true, Some(s)));
    assert(scan_lines(lines, 2, true, true, Some(s)) == Some((true, Some(s))));
    assert(scan_result(text) == Some((true, Some(s))));
}

/// Loads the configuration from the file's text, exactly as
/// [`spec_load`] describes: the last `path` assigned inside
/// `[config]`, the default `<home>/.config` when the section sets no
/// `path` (or sets it empty) or the file is empty, and an error on a
/// line outside the grammar, on a non-string `path` value, or on
/// real content without a `[config]` section.  The path of a loaded
/// configuration is never empty.
#[verifier::loop_isolation(false)]
pub fn load_config(home: &str, text: &str) -> (r: Result<Configuration, ParseError>)
    ensures
        ({
            match spec_load(home@, text@) {
                Result::Ok(p) => r matches Ok(c) && c.path@ == p,
                Result::Err(e) => r matches Err(e2) && e2 == e,
            }
        }),
        r matches Ok(c) ==> c.path@.len() > 0,
{
    proof {
        lemma_loaded_path_nonempty(home@, text@);
    }
    let lines = split_lines(text);
    let ghost ls = spec_lines(text@);
    let mut i: usize = 0;
    let mut in_cfg = false;
    let mut seen = false;
    let mut path: Option<String> = None;
    let mut trivial = true;
    let mut bad = false;
    while i < lines.len()
        invariant
            0 <= i <= lines.len(),
            lines@.len() == ls.len(),
            forall|j: int| 0 <= j < ls.len() ==> lines@[j]@ == ls[j],
            forall|j: int| 0 <= j < i ==> line_ok(ls[j]),
            trivial == forall|j: int| 0 <= j < i ==> line_trivial(ls[j]),
            bad ==> scan_lines(ls, 0, false, false, None) is None,
            !bad ==> scan_lines(ls, 0, false, false, None) == scan_lines(
                ls,
                i as int,
                in_cfg,
                seen,
                opt_view(path),
            ),
        decreases lines.len() - i,
    {
        let line = &lines[i];
        proof {
            assert(line@ == ls[i as int]);
        }
        let ghost t = trim(line@);
        match classify_line(line.as_str()) {
            LineKind::Blank => {
                proof {
                    assert(scan_lines(ls, i as int, in_cfg, seen, opt_view(path)) == scan_lines(
                        ls,
                        i + 1,
                        in_cfg,
                        seen,
                        opt_view(path),
                    ));
                }
            },
            LineKind::Comment => {
                proof {
                    if is_assign(t) {
                        lemma_assign_first_char(t);
                    }
                    assert(scan_lines(ls, i as int, in_cfg, seen, opt_view(path)) == scan_lines(
                        ls,
                        i + 1,
                        in_cfg,
                        seen,
                        opt_view(path),
                    ));
                }
            },
            LineKind::Header(name) => {
                let c = name == String::from_str("config");
                proof {
                    assert(scan_lines(ls, i as int, in_cfg, seen, opt_view(path)) == scan_lines(
                        ls,
                        i + 1,
                        c,
                        seen || c,
                        opt_view(path),
                    ));
                }
                in_cfg = c;
                seen = seen || c;
                trivial = false;
            },
            LineKind::KeyValue(key, value) => {
                proof {
                    lemma_assign_first_char(t);
                }
                let is_path = key == String::from_str("path");
                if in_cfg && is_path {
                    proof {
                        assert(scan_lines(ls, i as int, in_cfg, seen, opt_view(path))
                            == scan_lines(ls, i + 1, in_cfg, seen, Some(value@)));
                    }
                    path = Some(value);
                } else {
                    proof {
                        assert(scan_lines(ls, i as int, in_cfg, seen, opt_view(path))
                            == scan_lines(ls, i + 1, in_cfg, seen, opt_view(path)));
                    }
                }
                trivial = false;
            },
            LineKind::BareAssign(key) => {
                proof {
                    lemma_assign_first_char(t);
                }
                let is_path = key == String::from_str("path");
                if in_cfg && is_path {
                    proof {
                        assert(scan_lines(ls, i as int, in_cfg, seen, opt_view(path)) is None);
                    }
                    bad = true;
                } else {
                    proof {
                        assert(scan_lines(ls, i as int, in_cfg, seen, opt_view(path))
                            == scan_lines(ls, i + 1, in_cfg, seen, opt_view(path)));
                    }
                }
                trivial = false;
            },
            LineKind::Invalid => {
                proof {
                    assert(!line_ok(ls[i as int]));
                    assert(!text_ok(text@));
                }
                return Result::Err(ParseError::Syntax);
            },
        }
        i += 1;
    }
    if bad {
        Result::Err(ParseError::BadValue)
    } else if seen {
        match path {
            Some(p) => {
                if p.as_str().is_empty() {
                    Result::Ok(Configuration { path: default_path(home) })
                } else {
                    Result::Ok(Configuration { path: p })
                }
            },
            None => Result::Ok(Configuration { path: default_path(home) }),
        }
    } else if trivial {
        Result::Ok(Configuration { path: default_path(home) })
    } else {
        Result::Err(ParseError::MissingSection)
    }
}

} // verus!
