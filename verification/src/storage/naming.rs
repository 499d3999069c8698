//! Safe file names for recordings.
//!
//! A user-supplied recording name becomes one component of a file name. The
//! component never contains a directory separator, never contains `..`, and
//! never starts or ends with `_` or `.`, so it cannot escape the output
//! directory or produce a hidden file.

use vstd::prelude::*;
use crate::clock::{
    is_compact_datetime_text, is_date_text, strftime_at, unix_seconds, utc_date_text, utc_datetime_text,
    CALENDAR_LIMIT_SECS,
};
use crate::text::{chars_of, decimal, push_decimal, push_str, replace_all, replace_chars, starts_with, string_from_chars, string_of};

verus! {

/// What `char::is_alphanumeric` returns for `c` (Unicode `Alphabetic` or `Numeric`).
pub uninterp spec fn is_alphanumeric(c: char) -> bool;

/// `char::is_alphanumeric`: ASCII letters and digits are alphanumeric.
#[verifier::external_body]
fn char_is_alphanumeric(c: char) -> (r: bool)
    ensures
        r == is_alphanumeric(c),
        ('a' <= c <= 'z' || 'A' <= c <= 'Z' || '0' <= c <= '9') ==> r,
{
    c.is_alphanumeric()
}

/// Characters that separate path components or end C strings.
pub open spec fn is_separator(c: char) -> bool {
    c == '/' || c == '\\' || c == ':' || c == '\0'
}

/// An ASCII letter or digit (all of which `char::is_alphanumeric` accepts).
pub open spec fn is_ascii_alphanumeric(c: char) -> bool {
    'a' <= c <= 'z' || 'A' <= c <= 'Z' || '0' <= c <= '9'
}

/// First step: separators and characters outside the safe set (what
/// `char::is_alphanumeric` accepts, and `_`, `-`, `.`) become `_`.
pub open spec fn safe_char(c: char) -> char {
    if is_separator(c) {
        '_'
    } else if is_ascii_alphanumeric(c) || is_alphanumeric(c) || c == '_' || c == '-' || c == '.' {
        c
    } else {
        '_'
    }
}

/// The first step applied to every character.
pub open spec fn safe_chars(s: Seq<char>) -> Seq<char> {
    s.map_values(|c: char| safe_char(c))
}

/// Remove traversal patterns: `..`, then `._`, then `_.` each become `_`.
pub open spec fn without_dots(s: Seq<char>) -> Seq<char> {
    replace_all(replace_all(replace_all(s, seq!['.', '.'], seq!['_']), seq!['.', '_'], seq!['_']), seq!['_', '.'], seq!['_'])
}

/// Runs of underscores shortened to one: a `_` is dropped when the character
/// before it (in the input) is also `_`.
pub open spec fn collapse_underscores(s: Seq<char>) -> Seq<char>
    decreases s.len(),
{
    if s.len() == 0 {
        Seq::empty()
    } else if s.len() >= 2 && s.last() == '_' && s[s.len() - 2] == '_' {
        collapse_underscores(s.drop_last())
    } else {
        collapse_underscores(s.drop_last()).push(s.last())
    }
}

/// Characters trimmed from both ends of the name.
pub open spec fn is_trimmed(c: char) -> bool {
    c == '_' || c == '.'
}

/// `s` without its leading `_` and `.` characters.
pub open spec fn trim_start(s: Seq<char>) -> Seq<char>
    decreases s.len(),
{
    if s.len() > 0 && is_trimmed(s[0]) {
        trim_start(s.drop_first())
    } else {
        s
    }
}

/// `s` without its trailing `_` and `.` characters.
pub open spec fn trim_end(s: Seq<char>) -> Seq<char>
    decreases s.len(),
{
    if s.len() > 0 && is_trimmed(s.last()) {
        trim_end(s.drop_last())
    } else {
        s
    }
}

/// The sanitized form of a name: the steps above, then `unnamed` if nothing is left.
pub open spec fn sanitized(name: Seq<char>) -> Seq<char> {
    let t = trim_end(trim_start(collapse_underscores(without_dots(safe_chars(name)))));
    if t.len() == 0 {
        "unnamed"@
    } else {
        t
    }
}

/// No `a` is directly followed by `b` in `s`.
pub open spec fn no_pair(s: Seq<char>, a: char, b: char) -> bool {
    forall|i: int| 0 <= i < s.len() - 1 ==> !(#[trigger] s[i] == a && s[i + 1] == b)
}

/// `s` holds no separator character.
pub open spec fn no_separator(s: Seq<char>) -> bool {
    forall|i: int| 0 <= i < s.len() ==> !is_separator(#[trigger] s[i])
}

fn safe_chars_exec(s: &Vec<char>) -> (r: Vec<char>)
    ensures
        r@ == safe_chars(s@),
{
    let mut r: Vec<char> = Vec::new();
    let mut i: usize = 0;
    while i < s.len()
        invariant
            i <= s.len(),
            r@ == safe_chars(s@.take(i as int)),
        decreases s.len() - i,
    {
        let c = s[i];
        let d = if c == '/' || c == '\\' || c == ':' || c == '\0' {
            '_'
        } else if char_is_alphanumeric(c) || c == '_' || c == '-' || c == '.' {
            c
        } else {
            '_'
        };
        r.push(d);
        proof {
            assert(safe_chars(s@.take(i as int + 1)) =~= safe_chars(s@.take(i as int)).push(d));
        }
        i = i + 1;
    }
    proof {
        assert(s@.take(s.len() as int) =~= s@);
    }
    r
}

fn collapse_exec(s: &Vec<char>) -> (r: Vec<char>)
    ensures
        r@ == collapse_underscores(s@),
{
    let mut r: Vec<char> = Vec::new();
    let mut last_was_underscore = false;
    let mut i: usize = 0;
    while i < s.len()
        invariant
            i <= s.len(),
            r@ == collapse_underscores(s@.take(i as int)),
            last_was_underscore == (i > 0 && s@[i - 1] == '_'),
        decreases s.len() - i,
    {
        let c = s[i];
        proof {
            let t = s@.take(i as int + 1);
            assert(t.drop_last() =~= s@.take(i as int));
            assert(t.last() == c);
            if i > 0 {
                assert(t[t.len() - 2] == s@[i - 1]);
            }
        }
        if c == '_' {
            if !last_was_underscore {
                r.push(c);
            }
            last_was_underscore = true;
        } else {
            r.push(c);
            last_was_underscore = false;
        }
        i = i + 1;
    }
    proof {
        assert(s@.take(s.len() as int) =~= s@);
    }
    r
}

fn trim_exec(s: &Vec<char>) -> (r: Vec<char>)
    ensures
        r@ == trim_end(trim_start(s@)),
{
    let mut a: usize = 0;
    proof {
        assert(s@.skip(0) =~= s@);
    }
    while a < s.len() && (s[a] == '_' || s[a] == '.')
        invariant
            a <= s.len(),
            trim_start(s@.skip(a as int)) == trim_start(s@),
        decreases s.len() - a,
    {
        proof {
            assert(s@.skip(a as int).drop_first() =~= s@.skip(a as int + 1));
        }
        a = a + 1;
    }
    let ghost t = s@.skip(a as int);
    let mut b: usize = s.len();
    proof {
        assert(t.take(t.len() as int) =~= t);
    }
    while b > a && (s[b - 1] == '_' || s[b - 1] == '.')
        invariant
            a <= b <= s.len(),
            t == s@.skip(a as int),
            trim_end(t.take(b - a)) == trim_end(t),
        decreases b,
    {
        proof {
            assert(t.take(b - a).drop_last() =~= t.take(b - a - 1));
            assert(t.take(b - a).last() == s@[b - 1]);
        }
        b = b - 1;
    }
    let mut r: Vec<char> = Vec::new();
    let mut k: usize = a;
    while k < b
        invariant
            a <= k <= b <= s.len(),
            r@ == s@.subrange(a as int, k as int),
        decreases b - k,
    {
        r.push(s[k]);
        proof {
            assert(s@.subrange(a as int, k + 1) =~= s@.subrange(a as int, k as int).push(s@[k as int]));
        }
        k = k + 1;
    }
    proof {
        assert(r@ =~= t.take(b - a));
        assert(trim_start(s@) == t);
    }
    r
}

/// Make a user-supplied name safe to use as one file-name component.
pub fn sanitize_filename_component(name: &str) -> (r: String)
    ensures
        r@ == sanitized(name@),
{
    let chars = chars_of(name);
    let mapped = safe_chars_exec(&chars);
    let dot = vec!['.', '.'];
    let dot_under = vec!['.', '_'];
    let under_dot = vec!['_', '.'];
    let under = vec!['_'];
    let step1 = replace_chars(&mapped, &dot, &under);
    let step2 = replace_chars(&step1, &dot_under, &under);
    let step3 = replace_chars(&step2, &under_dot, &under);
    proof {
        assert(dot@ == seq!['.', '.']);
        assert(dot_under@ == seq!['.', '_']);
        assert(under_dot@ == seq!['_', '.']);
        assert(under@ == seq!['_']);
    }
    let collapsed = collapse_exec(&step3);
    let trimmed = trim_exec(&collapsed);
    if trimmed.len() == 0 {
        string_of("unnamed")
    } else {
        string_from_chars(&trimmed)
    }
}

proof fn lemma_no_pair_concat(u: Seq<char>, t: Seq<char>, a: char, b: char)
    requires
        no_pair(u, a, b),
        no_pair(t, a, b),
        u.len() > 0 && t.len() > 0 ==> !(u.last() == a && t[0] == b),
    ensures
        no_pair(u + t, a, b),
{
    let w = u + t;
    assert forall|i: int| 0 <= i < w.len() - 1 implies !(#[trigger] w[i] == a && w[i + 1] == b) by {
        if i + 1 < u.len() {
            assert(w[i] == u[i] && w[i + 1] == u[i + 1]);
        } else if i >= u.len() {
            assert(w[i] == t[i - u.len()] && w[i + 1] == t[i + 1 - u.len()]);
        } else {
            assert(w[i] == u.last() && w[i + 1] == t[0]);
        }
    }
}

proof fn lemma_no_pair_skip(s: Seq<char>, k: int, a: char, b: char)
    requires
        no_pair(s, a, b),
        0 <= k <= s.len(),
    ensures
        no_pair(s.skip(k), a, b),
{
    let t = s.skip(k);
    assert forall|i: int| 0 <= i < t.len() - 1 implies !(#[trigger] t[i] == a && t[i + 1] == b) by {
        assert(t[i] == s[i + k] && t[i + 1] == s[i + k + 1]);
    }
}

proof fn lemma_no_pair_take(s: Seq<char>, k: int, a: char, b: char)
    requires
        no_pair(s, a, b),
        0 <= k <= s.len(),
    ensures
        no_pair(s.take(k), a, b),
{
    let t = s.take(k);
    assert forall|i: int| 0 <= i < t.len() - 1 implies !(#[trigger] t[i] == a && t[i + 1] == b) by {
        assert(t[i] == s[i] && t[i + 1] == s[i + 1]);
    }
}

proof fn lemma_no_pair_push(t: Seq<char>, x: char, a: char, b: char)
    requires
        no_pair(t, a, b),
        t.len() > 0 ==> !(t.last() == a && x == b),
    ensures
        no_pair(t.push(x), a, b),
{
    let w = t.push(x);
    assert forall|i: int| 0 <= i < w.len() - 1 implies !(#[trigger] w[i] == a && w[i + 1] == b) by {
        if i + 1 < t.len() {
            assert(w[i] == t[i] && w[i + 1] == t[i + 1]);
        } else {
            assert(w[i] == t.last() && w[i + 1] == x);
        }
    }
}

/// A replacement with a non-empty text starts with the text's first
/// character when the pattern starts the input, and with the input's first
/// character otherwise.
proof fn lemma_replace_first(s: Seq<char>, pat: Seq<char>, rep: Seq<char>)
    requires
        s.len() > 0,
        rep.len() > 0,
    ensures
        replace_all(s, pat, rep).len() > 0,
        replace_all(s, pat, rep)[0] == if pat.len() > 0 && crate::text::starts_with(s, pat) {
            rep[0]
        } else {
            s[0]
        },
{
}

/// A replacement brings in no separator that neither input holds.
proof fn lemma_replace_no_separator(s: Seq<char>, pat: Seq<char>, rep: Seq<char>)
    requires
        no_separator(s),
        no_separator(rep),
    ensures
        no_separator(replace_all(s, pat, rep)),
    decreases s.len(),
{
    if s.len() == 0 {
    } else if pat.len() > 0 && crate::text::starts_with(s, pat) {
        let t = s.skip(pat.len() as int);
        assert forall|i: int| 0 <= i < t.len() implies !is_separator(#[trigger] t[i]) by {
            assert(t[i] == s[i + pat.len()]);
        }
        lemma_replace_no_separator(t, pat, rep);
        let w = rep + replace_all(t, pat, rep);
        assert forall|i: int| 0 <= i < w.len() implies !is_separator(#[trigger] w[i]) by {
            if i < rep.len() {
                assert(w[i] == rep[i]);
            } else {
                assert(w[i] == replace_all(t, pat, rep)[i - rep.len()]);
            }
        }
    } else {
        let t = s.skip(1);
        assert forall|i: int| 0 <= i < t.len() implies !is_separator(#[trigger] t[i]) by {
            assert(t[i] == s[i + 1]);
        }
        lemma_replace_no_separator(t, pat, rep);
        let w = seq![s[0]] + replace_all(t, pat, rep);
        assert forall|i: int| 0 <= i < w.len() implies !is_separator(#[trigger] w[i]) by {
            if i < 1 {
                assert(w[i] == s[0]);
            } else {
                assert(w[i] == replace_all(t, pat, rep)[i - 1]);
            }
        }
    }
}

/// After replacing `..` by `_`, no `..` is left.
proof fn lemma_first_pass(s: Seq<char>)
    ensures
        no_pair(replace_all(s, seq!['.', '.'], seq!['_']), '.', '.'),
    decreases s.len(),
{
    let pat = seq!['.', '.'];
    let rep = seq!['_'];
    if s.len() == 0 {
    } else if crate::text::starts_with(s, pat) {
        let t = s.skip(2);
        lemma_first_pass(t);
        lemma_no_pair_concat(rep, replace_all(t, pat, rep), '.', '.');
    } else {
        let t = s.skip(1);
        lemma_first_pass(t);
        if t.len() > 0 {
            lemma_replace_first(t, pat, rep);
            if s[0] == '.' && t[0] == '.' {
                assert(s.take(2) =~= pat);
            }
        }
        lemma_no_pair_concat(seq![s[0]], replace_all(t, pat, rep), '.', '.');
    }
}

/// Replacing `._` by `_` in a text without `..` leaves neither `..` nor `._`.
proof fn lemma_second_pass(s: Seq<char>)
    requires
        no_pair(s, '.', '.'),
    ensures
        no_pair(replace_all(s, seq!['.', '_'], seq!['_']), '.', '.'),
        no_pair(replace_all(s, seq!['.', '_'], seq!['_']), '.', '_'),
    decreases s.len(),
{
    let pat = seq!['.', '_'];
    let rep = seq!['_'];
    if s.len() == 0 {
    } else if crate::text::starts_with(s, pat) {
        let t = s.skip(2);
        lemma_no_pair_skip(s, 2, '.', '.');
        lemma_second_pass(t);
        lemma_no_pair_concat(rep, replace_all(t, pat, rep), '.', '.');
        lemma_no_pair_concat(rep, replace_all(t, pat, rep), '.', '_');
    } else {
        let t = s.skip(1);
        lemma_no_pair_skip(s, 1, '.', '.');
        lemma_second_pass(t);
        if t.len() > 0 {
            lemma_replace_first(t, pat, rep);
            assert(s[1] == t[0]);
            if s[0] == '.' && t[0] == '_' {
                assert(s.take(2) =~= pat);
            }
            if crate::text::starts_with(t, pat) {
                assert(t[0] == '.');
            }
        }
        lemma_no_pair_concat(seq![s[0]], replace_all(t, pat, rep), '.', '.');
        lemma_no_pair_concat(seq![s[0]], replace_all(t, pat, rep), '.', '_');
    }
}

/// Replacing `_.` by `_` in a text without `..` or `._` leaves none of `..`,
/// `._` and `_.`.
proof fn lemma_third_pass(s: Seq<char>)
    requires
        no_pair(s, '.', '.'),
        no_pair(s, '.', '_'),
    ensures
        no_pair(replace_all(s, seq!['_', '.'], seq!['_']), '.', '.'),
        no_pair(replace_all(s, seq!['_', '.'], seq!['_']), '.', '_'),
        no_pair(replace_all(s, seq!['_', '.'], seq!['_']), '_', '.'),
    decreases s.len(),
{
    let pat = seq!['_', '.'];
    let rep = seq!['_'];
    if s.len() == 0 {
    } else if crate::text::starts_with(s, pat) {
        let t = s.skip(2);
        lemma_no_pair_skip(s, 2, '.', '.');
        lemma_no_pair_skip(s, 2, '.', '_');
        lemma_third_pass(t);
        if t.len() > 0 {
            lemma_replace_first(t, pat, rep);
            assert(s[1] == '.');
            assert(s[2] == t[0]);
            if crate::text::starts_with(t, pat) {
                assert(t[0] == '_');
            }
        }
        lemma_no_pair_concat(rep, replace_all(t, pat, rep), '.', '.');
        lemma_no_pair_concat(rep, replace_all(t, pat, rep), '.', '_');
        lemma_no_pair_concat(rep, replace_all(t, pat, rep), '_', '.');
    } else {
        let t = s.skip(1);
        lemma_no_pair_skip(s, 1, '.', '.');
        lemma_no_pair_skip(s, 1, '.', '_');
        lemma_third_pass(t);
        if t.len() > 0 {
            lemma_replace_first(t, pat, rep);
            assert(s[1] == t[0]);
            if s[0] == '_' && t[0] == '.' {
                assert(s.take(2) =~= pat);
            }
            if crate::text::starts_with(t, pat) {
                assert(t[0] == '_');
            }
        }
        lemma_no_pair_concat(seq![s[0]], replace_all(t, pat, rep), '.', '.');
        lemma_no_pair_concat(seq![s[0]], replace_all(t, pat, rep), '.', '_');
        lemma_no_pair_concat(seq![s[0]], replace_all(t, pat, rep), '_', '.');
    }
}

/// Collapsing keeps the last character, keeps the absence of `..`, `._`,
/// `_.` and separators, and leaves no `__`.
proof fn lemma_collapse(s: Seq<char>)
    requires
        no_pair(s, '.', '.'),
        no_pair(s, '.', '_'),
        no_pair(s, '_', '.'),
        no_separator(s),
    ensures
        s.len() > 0 ==> collapse_underscores(s).len() > 0 && collapse_underscores(s).last() == s.last(),
        no_pair(collapse_underscores(s), '.', '.'),
        no_pair(collapse_underscores(s), '.', '_'),
        no_pair(collapse_underscores(s), '_', '.'),
        no_pair(collapse_underscores(s), '_', '_'),
        no_separator(collapse_underscores(s)),
    decreases s.len(),
{
    if s.len() > 0 {
        let p = s.drop_last();
        lemma_no_pair_take(s, s.len() - 1, '.', '.');
        lemma_no_pair_take(s, s.len() - 1, '.', '_');
        lemma_no_pair_take(s, s.len() - 1, '_', '.');
        assert(p =~= s.take(s.len() - 1));
        assert forall|i: int| 0 <= i < p.len() implies !is_separator(#[trigger] p[i]) by {
            assert(p[i] == s[i]);
        }
        lemma_collapse(p);
        if s.len() >= 2 && s.last() == '_' && s[s.len() - 2] == '_' {
        } else {
            let c = collapse_underscores(p);
            let x = s.last();
            if p.len() > 0 {
                assert(c.last() == s[s.len() - 2]);
                assert(!(s[s.len() - 2] == '.' && s[s.len() - 2 + 1] == '.'));
                assert(!(s[s.len() - 2] == '.' && s[s.len() - 2 + 1] == '_'));
                assert(!(s[s.len() - 2] == '_' && s[s.len() - 2 + 1] == '.'));
            }
            lemma_no_pair_push(c, x, '.', '.');
            lemma_no_pair_push(c, x, '.', '_');
            lemma_no_pair_push(c, x, '_', '.');
            lemma_no_pair_push(c, x, '_', '_');
            assert(!is_separator(s[s.len() - 1]));
            let w = c.push(x);
            assert forall|i: int| 0 <= i < w.len() implies !is_separator(#[trigger] w[i]) by {
                if i < c.len() {
                    assert(w[i] == c[i]);
                }
            }
        }
    }
}

/// Trimming the front leaves a suffix that does not start with `_` or `.`.
proof fn lemma_trim_start(s: Seq<char>)
    ensures
        exists|k: int| 0 <= k <= s.len() && trim_start(s) == s.skip(k),
        trim_start(s).len() > 0 ==> !is_trimmed(trim_start(s)[0]),
    decreases s.len(),
{
    if s.len() > 0 && is_trimmed(s[0]) {
        lemma_trim_start(s.drop_first());
        let k = choose|k: int| 0 <= k <= s.drop_first().len() && trim_start(s.drop_first()) == s.drop_first().skip(k);
        assert(s.drop_first().skip(k) =~= s.skip(k + 1));
    } else {
        assert(s.skip(0) =~= s);
    }
}

/// Trimming the back leaves a prefix that does not end with `_` or `.`.
proof fn lemma_trim_end(s: Seq<char>)
    ensures
        exists|k: int| 0 <= k <= s.len() && trim_end(s) == s.take(k),
        trim_end(s).len() > 0 ==> !is_trimmed(trim_end(s).last()),
    decreases s.len(),
{
    if s.len() > 0 && is_trimmed(s.last()) {
        lemma_trim_end(s.drop_last());
        let k = choose|k: int| 0 <= k <= s.drop_last().len() && trim_end(s.drop_last()) == s.drop_last().take(k);
        assert(s.drop_last().take(k) =~= s.take(k));
    } else {
        assert(s.take(s.len() as int) =~= s);
    }
}

/// A sanitized name is never empty, holds no path separator, no `..`, no
/// `._`, `_.` or `__`, and neither starts nor ends with `_` or `.`: used as a
/// file-name component, it names a visible file inside the target directory.
pub proof fn lemma_sanitized_is_safe(name: Seq<char>)
    ensures
        sanitized(name).len() > 0,
        no_separator(sanitized(name)),
        no_pair(sanitized(name), '.', '.'),
        no_pair(sanitized(name), '.', '_'),
        no_pair(sanitized(name), '_', '.'),
        no_pair(sanitized(name), '_', '_'),
        !is_trimmed(sanitized(name)[0]),
        !is_trimmed(sanitized(name).last()),
{
    let m = safe_chars(name);
    assert forall|i: int| 0 <= i < m.len() implies !is_separator(#[trigger] m[i]) by {
        assert(m[i] == safe_char(name[i]));
    }
    let under = seq!['_'];
    assert forall|i: int| 0 <= i < under.len() implies !is_separator(#[trigger] under[i]) by {}
    let p1 = replace_all(m, seq!['.', '.'], under);
    let p2 = replace_all(p1, seq!['.', '_'], under);
    let p3 = replace_all(p2, seq!['_', '.'], under);
    lemma_replace_no_separator(m, seq!['.', '.'], under);
    lemma_replace_no_separator(p1, seq!['.', '_'], under);
    lemma_replace_no_separator(p2, seq!['_', '.'], under);
    lemma_first_pass(m);
    lemma_second_pass(p1);
    lemma_third_pass(p2);
    assert(p3 == without_dots(m));
    lemma_collapse(p3);
    let c = collapse_underscores(p3);
    lemma_trim_start(c);
    let a = trim_start(c);
    let k1 = choose|k: int| 0 <= k <= c.len() && a == c.skip(k);
    lemma_no_pair_skip(c, k1, '.', '.');
    lemma_no_pair_skip(c, k1, '.', '_');
    lemma_no_pair_skip(c, k1, '_', '.');
    lemma_no_pair_skip(c, k1, '_', '_');
    lemma_trim_end(a);
    let t = trim_end(a);
    let k2 = choose|k: int| 0 <= k <= a.len() && t == a.take(k);
    lemma_no_pair_take(a, k2, '.', '.');
    lemma_no_pair_take(a, k2, '.', '_');
    lemma_no_pair_take(a, k2, '_', '.');
    lemma_no_pair_take(a, k2, '_', '_');
    assert forall|i: int| 0 <= i < t.len() implies !is_separator(#[trigger] t[i]) by {
        assert(t[i] == c[i + k1]);
    }
    if t.len() > 0 {
        assert(t[0] == a[0]);
    } else {
        reveal_strlit("unnamed");
        let u = "unnamed"@;
        assert(no_pair(u, '.', '.'));
        assert(no_pair(u, '.', '_'));
        assert(no_pair(u, '_', '.'));
        assert(no_pair(u, '_', '_'));
        assert(no_separator(u));
    }
}

/// Every character of `s` is left as it is by the first step.
pub open spec fn all_safe(s: Seq<char>) -> bool {
    forall|i: int| 0 <= i < s.len() ==> safe_char(#[trigger] s[i]) == s[i]
}

proof fn lemma_replace_keeps_safe(s: Seq<char>, pat: Seq<char>, rep: Seq<char>)
    requires
        all_safe(s),
        all_safe(rep),
    ensures
        all_safe(replace_all(s, pat, rep)),
    decreases s.len(),
{
    if s.len() == 0 {
    } else if pat.len() > 0 && starts_with(s, pat) {
        lemma_replace_keeps_safe(s.skip(pat.len() as int), pat, rep);
        let t = replace_all(s.skip(pat.len() as int), pat, rep);
        assert forall|i: int| 0 <= i < (rep + t).len() implies safe_char(#[trigger] (rep + t)[i]) == (rep + t)[i] by {
            if i < rep.len() {
                assert((rep + t)[i] == rep[i]);
            } else {
                assert((rep + t)[i] == t[i - rep.len()]);
            }
        }
    } else {
        lemma_replace_keeps_safe(s.skip(1), pat, rep);
        let t = replace_all(s.skip(1), pat, rep);
        let h = seq![s[0]];
        assert forall|i: int| 0 <= i < (h + t).len() implies safe_char(#[trigger] (h + t)[i]) == (h + t)[i] by {
            if i < 1 {
                assert((h + t)[i] == s[0]);
            } else {
                assert((h + t)[i] == t[i - 1]);
            }
        }
    }
}

proof fn lemma_collapse_keeps_safe(s: Seq<char>)
    requires
        all_safe(s),
    ensures
        all_safe(collapse_underscores(s)),
    decreases s.len(),
{
    if s.len() > 0 {
        assert(all_safe(s.drop_last())) by {
            assert forall|i: int| 0 <= i < s.drop_last().len() implies safe_char(#[trigger] s.drop_last()[i]) == s.drop_last()[i] by {
                assert(s.drop_last()[i] == s[i]);
            }
        }
        lemma_collapse_keeps_safe(s.drop_last());
        let c = collapse_underscores(s.drop_last());
        assert forall|i: int| 0 <= i < c.push(s.last()).len() implies safe_char(#[trigger] c.push(s.last())[i]) == c.push(s.last())[i] by {
            if i < c.len() {
                assert(c.push(s.last())[i] == c[i]);
            }
        }
    }
}

proof fn lemma_replace_absent(s: Seq<char>, a: char, b: char, rep: Seq<char>)
    requires
        no_pair(s, a, b),
    ensures
        replace_all(s, seq![a, b], rep) == s,
    decreases s.len(),
{
    if s.len() > 0 {
        if starts_with(s, seq![a, b]) {
            assert(s.take(2)[0] == s[0] && s.take(2)[1] == s[1]);
            assert(!(s[0] == a && s[1] == b));
            assert(false);
        }
        lemma_no_pair_skip(s, 1, a, b);
        lemma_replace_absent(s.skip(1), a, b, rep);
        assert(seq![s[0]] + s.skip(1) =~= s);
    }
}

proof fn lemma_collapse_absent(s: Seq<char>)
    requires
        no_pair(s, '_', '_'),
    ensures
        collapse_underscores(s) == s,
    decreases s.len(),
{
    if s.len() > 0 {
        if s.len() >= 2 {
            assert(!(s[s.len() - 2] == '_' && s[s.len() - 2 + 1] == '_'));
        }
        lemma_no_pair_take(s, s.len() - 1, '_', '_');
        assert(s.take(s.len() - 1) =~= s.drop_last());
        lemma_collapse_absent(s.drop_last());
        assert(s.drop_last().push(s.last()) =~= s);
    }
}

/// Every character of a sanitized name is in the safe set.
pub proof fn lemma_sanitized_all_safe(name: Seq<char>)
    ensures
        all_safe(sanitized(name)),
{
    let m = safe_chars(name);
    assert forall|i: int| 0 <= i < m.len() implies safe_char(#[trigger] m[i]) == m[i] by {
        assert(m[i] == safe_char(name[i]));
    }
    let under = seq!['_'];
    assert(safe_char(under[0]) == under[0]);
    assert(all_safe(under));
    let p1 = replace_all(m, seq!['.', '.'], under);
    let p2 = replace_all(p1, seq!['.', '_'], under);
    let p3 = replace_all(p2, seq!['_', '.'], under);
    lemma_replace_keeps_safe(m, seq!['.', '.'], under);
    lemma_replace_keeps_safe(p1, seq!['.', '_'], under);
    lemma_replace_keeps_safe(p2, seq!['_', '.'], under);
    assert(p3 == without_dots(m));
    lemma_collapse_keeps_safe(p3);
    let c = collapse_underscores(p3);
    lemma_trim_start(c);
    let a = trim_start(c);
    let k1 = choose|k: int| 0 <= k <= c.len() && a == c.skip(k);
    lemma_trim_end(a);
    let t = trim_end(a);
    let k2 = choose|k: int| 0 <= k <= a.len() && t == a.take(k);
    assert forall|i: int| 0 <= i < t.len() implies safe_char(#[trigger] t[i]) == t[i] by {
        assert(t[i] == c[i + k1]);
    }
    if t.len() == 0 {
        reveal_strlit("unnamed");
        let u = "unnamed"@;
        assert forall|i: int| 0 <= i < u.len() implies safe_char(#[trigger] u[i]) == u[i] by {}
    }
}

/// Sanitizing is idempotent: a sanitized name sanitizes to itself.
pub proof fn lemma_sanitize_idempotent(name: Seq<char>)
    ensures
        sanitized(sanitized(name)) == sanitized(name),
{
    let s = sanitized(name);
    lemma_sanitized_is_safe(name);
    lemma_sanitized_all_safe(name);
    assert(safe_chars(s) =~= s);
    lemma_replace_absent(s, '.', '.', seq!['_']);
    lemma_replace_absent(s, '.', '_', seq!['_']);
    lemma_replace_absent(s, '_', '.', seq!['_']);
    assert(without_dots(s) == s);
    lemma_collapse_absent(s);
    assert(trim_start(s) == s);
    assert(trim_end(s) == s);
}

/// The file name a pattern describes: `{name}`, `{timestamp}`, `{date}` and
/// `{datetime}` replaced, in that order, by the given texts.
pub open spec fn filled_pattern(pattern: Seq<char>, name: Seq<char>, timestamp: nat, date: Seq<char>, datetime: Seq<char>) -> Seq<char> {
    replace_all(
        replace_all(
            replace_all(replace_all(pattern, "{name}"@, name), "{timestamp}"@, decimal(timestamp)),
            "{date}"@,
            date,
        ),
        "{datetime}"@,
        datetime,
    )
}

/// Replace one placeholder of a pattern.
fn replace_placeholder(s: &Vec<char>, placeholder: &str, value: &Vec<char>) -> (r: Vec<char>)
    requires
        placeholder@.len() > 0,
    ensures
        r@ == replace_all(s@, placeholder@, value@),
{
    let pat = chars_of(placeholder);
    replace_chars(s, &pat, value)
}

/// Fill a file-name pattern with a (sanitized) name, a Unix timestamp in
/// seconds, a date (`%Y-%m-%d`) and a date-time (`%Y%m%d_%H%M%S`).
pub fn fill_filename_pattern(pattern: &str, safe_name: &str, timestamp: u64, date: &str, datetime: &str) -> (r: String)
    ensures
        r@ == filled_pattern(pattern@, safe_name@, timestamp as nat, date@, datetime@),
{
    proof {
        reveal_strlit("{name}");
        reveal_strlit("{timestamp}");
        reveal_strlit("{date}");
        reveal_strlit("{datetime}");
    }
    let p = chars_of(pattern);
    let name = chars_of(safe_name);
    let mut ts_text = String::new();
    push_decimal(&mut ts_text, timestamp);
    let ts = chars_of(ts_text.as_str());
    let d = chars_of(date);
    let dt = chars_of(datetime);
    let s1 = replace_placeholder(&p, "{name}", &name);
    let s2 = replace_placeholder(&s1, "{timestamp}", &ts);
    let s3 = replace_placeholder(&s2, "{date}", &d);
    let s4 = replace_placeholder(&s3, "{datetime}", &dt);
    proof {
        assert(ts_text@ =~= decimal(timestamp as nat));
    }
    string_from_chars(&s4)
}

/// The output file name for a recording: the pattern filled with the
/// sanitized name and one reading of the clock, as a Unix timestamp, a UTC
/// date (`%Y-%m-%d`) and a UTC date and time (`%Y%m%d_%H%M%S`). A clock
/// before the Unix epoch, or at or past `CALENDAR_LIMIT_SECS`, counts as
/// timestamp 0.
pub fn generate_filename(name: &str, pattern: &str) -> (r: String)
    ensures
        exists|timestamp: nat|
            timestamp < CALENDAR_LIMIT_SECS && r@ == #[trigger] filled_pattern(
                pattern@,
                sanitized(name@),
                timestamp,
                strftime_at(timestamp as int, "%Y-%m-%d"@),
                strftime_at(timestamp as int, "%Y%m%d_%H%M%S"@),
            ) && is_date_text(strftime_at(timestamp as int, "%Y-%m-%d"@)) && is_compact_datetime_text(
                strftime_at(timestamp as int, "%Y%m%d_%H%M%S"@),
            ),
{
    let safe_name = sanitize_filename_component(name);
    let mut timestamp = match unix_seconds() {
        Some(t) => t,
        None => 0,
    };
    if timestamp >= CALENDAR_LIMIT_SECS {
        timestamp = 0;
    }
    let date = match utc_date_text(timestamp) {
        Some(d) => d,
        None => String::new(),
    };
    let datetime = match utc_datetime_text(timestamp) {
        Some(d) => d,
        None => String::new(),
    };
    let r = fill_filename_pattern(pattern, safe_name.as_str(), timestamp, date.as_str(), datetime.as_str());
    proof {
        assert(r@ == filled_pattern(pattern@, sanitized(name@), timestamp as nat, date@, datetime@));
    }
    r
}

/// `file` appended to the directory `dir` (`Path::join` with a plain file name):
/// a `/` goes between them unless `dir` is empty or already ends with one.
pub open spec fn joined_path(dir: Seq<char>, file: Seq<char>) -> Seq<char> {
    if dir.len() == 0 || dir.last() == '/' {
        dir + file
    } else {
        dir + "/"@ + file
    }
}

/// `path` lies inside the non-empty `base`: on paths as `canonicalize`
/// returns them (absolute, no `.` or `..`, no doubled or trailing `/` but for
/// the root), the components of `base` are the first components of `path`.
/// An empty base has no components and holds every path.
pub open spec fn inside_directory(path: Seq<char>, base: Seq<char>) -> bool {
    path == base || (starts_with(path, base) && (base.last() == '/' || path[base.len() as int] == '/'))
}

/// The message for a path that leaves its base directory.
pub open spec fn escape_message(target: Seq<char>, base: Seq<char>) -> Seq<char> {
    "Path '"@ + target + "' escapes base directory '"@ + base + "'"@
}

/// Decide whether a target file stays inside the base directory, given the
/// canonical base, the canonical parent of the target and its file name.
/// The two display texts are used in the error message only.
pub fn check_within_directory(
    canonical_base: &str,
    canonical_parent: &str,
    file_name: &str,
    target_display: &str,
    base_display: &str,
) -> (r: Result<String, String>)
    ensures
        r is Ok <==> canonical_base@.len() == 0 || inside_directory(
            joined_path(canonical_parent@, file_name@),
            canonical_base@,
        ),
        r matches Ok(p) ==> p@ == joined_path(canonical_parent@, file_name@),
        r matches Err(m) ==> m@ == escape_message(target_display@, base_display@),
{
    proof {
        reveal_strlit("/");
    }
    let parent = chars_of(canonical_parent);
    let mut joined = string_of(canonical_parent);
    if !(parent.len() == 0 || parent[parent.len() - 1] == '/') {
        push_str(&mut joined, "/");
    }
    push_str(&mut joined, file_name);
    let path = chars_of(joined.as_str());
    let base = chars_of(canonical_base);
    let inside = if base.len() == 0 {
        true
    } else if base.len() > path.len() {
        false
    } else {
        let mut same = true;
        let mut k: usize = 0;
        while k < base.len()
            invariant
                base.len() <= path.len(),
                k <= base.len(),
                same == (forall|q: int| 0 <= q < k ==> path@[q] == base@[q]),
            decreases base.len() - k,
        {
            if path[k] != base[k] {
                same = false;
            }
            k = k + 1;
        }
        proof {
            if same {
                assert(path@.take(base.len() as int) =~= base@);
            } else {
                let q = choose|q: int| 0 <= q < base.len() && path@[q] != base@[q];
                assert(path@.take(base.len() as int)[q] != base@[q]);
            }
        }
        same && (base.len() == path.len() || base[base.len() - 1] == '/' || path[base.len()] == '/')
    };
    proof {
        if base.len() > 0 && base.len() <= path.len() && starts_with(path@, base@) && base.len() == path.len() {
            assert(path@ =~= base@);
        }
        if path@ == base@ {
            assert(path@.take(base.len() as int) =~= base@);
        }
    }
    if inside {
        Ok(joined)
    } else {
        let mut m = string_of("Path '");
        push_str(&mut m, target_display);
        push_str(&mut m, "' escapes base directory '");
        push_str(&mut m, base_display);
        push_str(&mut m, "'");
        Err(m)
    }
}

} // verus!
