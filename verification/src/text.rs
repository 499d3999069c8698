//! Building strings: appending text and decimal numbers, character tests.

use vstd::prelude::*;

verus! {

/// The character of a decimal digit.
pub open spec fn digit_char(d: nat) -> char {
    if d == 0 {
        '0'
    } else if d == 1 {
        '1'
    } else if d == 2 {
        '2'
    } else if d == 3 {
        '3'
    } else if d == 4 {
        '4'
    } else if d == 5 {
        '5'
    } else if d == 6 {
        '6'
    } else if d == 7 {
        '7'
    } else if d == 8 {
        '8'
    } else {
        '9'
    }
}

/// Decimal rendering of a natural number, without leading zeros.
pub open spec fn decimal(n: nat) -> Seq<char>
    decreases n,
{
    if n < 10 {
        seq![digit_char(n)]
    } else {
        decimal(n / 10).push(digit_char(n % 10))
    }
}

fn digit(d: u64) -> (c: char)
    requires
        d < 10,
    ensures
        c == digit_char(d as nat),
{
    if d == 0 {
        '0'
    } else if d == 1 {
        '1'
    } else if d == 2 {
        '2'
    } else if d == 3 {
        '3'
    } else if d == 4 {
        '4'
    } else if d == 5 {
        '5'
    } else if d == 6 {
        '6'
    } else if d == 7 {
        '7'
    } else if d == 8 {
        '8'
    } else {
        '9'
    }
}

/// Append one character (`String::push`).
#[verifier::external_body]
pub fn push_char(s: &mut String, c: char)
    ensures
        final(s)@ == old(s)@.push(c),
{
    s.push(c);
}

/// Append a string slice.
pub fn push_str(s: &mut String, t: &str)
    ensures
        final(s)@ == old(s)@ + t@,
{
    s.append(t);
}

/// Append the decimal rendering of `n`.
pub fn push_decimal(s: &mut String, n: u64)
    ensures
        final(s)@ == old(s)@ + decimal(n as nat),
    decreases n,
{
    if n < 10 {
        let c = digit(n);
        push_char(s, c);
        proof {
            assert(decimal(n as nat) == seq![c]);
            assert(old(s)@.push(c) =~= old(s)@ + seq![c]);
        }
    } else {
        push_decimal(s, n / 10);
        let c = digit(n % 10);
        push_char(s, c);
        proof {
            assert(decimal(n as nat) == decimal((n / 10) as nat).push(c));
            assert(old(s)@ + decimal((n / 10) as nat) + seq![c] =~= old(s)@ + decimal(n as nat));
        }
    }
}

/// A fresh string holding `t`.
pub fn string_of(t: &str) -> (r: String)
    ensures
        r@ == t@,
{
    String::from_str(t)
}

/// Does `s` contain `pat` as a contiguous run?
pub open spec fn seq_contains(s: Seq<char>, pat: Seq<char>) -> bool {
    exists|i: int| 0 <= i && i + pat.len() <= s.len() && #[trigger] matches_at(s, pat, i)
}

/// `pat` occurs in `s` starting at position `i`.
pub open spec fn matches_at(s: Seq<char>, pat: Seq<char>, i: int) -> bool {
    s.subrange(i, i + pat.len()) == pat
}

/// The characters of a string slice, in order.
pub fn chars_of(s: &str) -> (r: Vec<char>)
    ensures
        r@ == s@,
{
    let mut r: Vec<char> = Vec::new();
    let n = s.unicode_len();
    let mut i: usize = 0;
    while i < n
        invariant
            n == s@.len(),
            i <= n,
            r@ == s@.take(i as int),
        decreases n - i,
    {
        let c = s.get_char(i);
        r.push(c);
        proof {
            assert(s@.take(i as int + 1) =~= s@.take(i as int).push(c));
        }
        i = i + 1;
    }
    proof {
        assert(s@.take(n as int) =~= s@);
    }
    r
}

/// Substring test on character vectors.
pub fn contains_chars(s: &Vec<char>, pat: &Vec<char>) -> (r: bool)
    ensures
        r == seq_contains(s@, pat@),
{
    if pat.len() > s.len() {
        return false;
    }
    let last = s.len() - pat.len();
    let mut i: usize = 0;
    let mut finished = false;
    while !finished
        invariant
            last == s.len() - pat.len(),
            pat.len() <= s.len(),
            0 <= i <= last,
            forall|j: int| 0 <= j < i ==> !#[trigger] matches_at(s@, pat@, j),
            finished ==> i == last && !matches_at(s@, pat@, i as int),
        decreases last - i + (if finished { 0int } else { 1int }),
    {
        let mut k: usize = 0;
        let mut ok = true;
        while k < pat.len()
            invariant
                i <= last,
                last == s.len() - pat.len(),
                k <= pat.len(),
                ok == (forall|q: int| 0 <= q < k ==> s@[i + q] == pat@[q]),
            decreases pat.len() - k,
        {
            if s[i + k] != pat[k] {
                ok = false;
            }
            k = k + 1;
        }
        if ok {
            proof {
                assert(s@.subrange(i as int, i + pat.len()) =~= pat@);
                assert(matches_at(s@, pat@, i as int));
            }
            return true;
        }
        proof {
            assert(s@.subrange(i as int, i + pat.len()) != pat@) by {
                let q = choose|q: int| 0 <= q < pat.len() && s@[i + q] != pat@[q];
                assert(s@.subrange(i as int, i + pat.len())[q] != pat@[q]);
            }
        }
        if i == last {
            finished = true;
        } else {
            i = i + 1;
        }
    }
    proof {
        assert forall|j: int| 0 <= j && j + pat.len() <= s.len() implies !#[trigger] matches_at(
            s@,
            pat@,
            j,
        ) by {
            if j < i {
            } else {
                assert(j == i);
            }
        }
    }
    false
}

/// A string holding the characters of `v`, in order.
pub fn string_from_chars(v: &Vec<char>) -> (r: String)
    ensures
        r@ == v@,
{
    let mut r = String::new();
    let mut i: usize = 0;
    while i < v.len()
        invariant
            i <= v.len(),
            r@ == v@.take(i as int),
        decreases v.len() - i,
    {
        push_char(&mut r, v[i]);
        proof {
            assert(v@.take(i as int + 1) =~= v@.take(i as int).push(v@[i as int]));
        }
        i = i + 1;
    }
    proof {
        assert(v@.take(v.len() as int) =~= v@);
    }
    r
}

/// `pat` is a prefix of `s`.
pub open spec fn starts_with(s: Seq<char>, pat: Seq<char>) -> bool {
    pat.len() <= s.len() && s.take(pat.len() as int) == pat
}

/// Every occurrence of `pat` in `s` replaced by `rep`, scanning left to right
/// and never overlapping (the semantics of `str::replace`).
pub open spec fn replace_all(s: Seq<char>, pat: Seq<char>, rep: Seq<char>) -> Seq<char>
    decreases s.len(),
{
    if s.len() == 0 {
        Seq::empty()
    } else if pat.len() > 0 && starts_with(s, pat) {
        rep + replace_all(s.skip(pat.len() as int), pat, rep)
    } else {
        seq![s[0]] + replace_all(s.skip(1), pat, rep)
    }
}

/// Does `pat` occur in `s` at position `i`? (executable)
fn occurs_at(s: &Vec<char>, pat: &Vec<char>, i: usize) -> (r: bool)
    requires
        i <= s.len(),
    ensures
        r == starts_with(s@.skip(i as int), pat@),
{
    if pat.len() > s.len() - i {
        return false;
    }
    let mut k: usize = 0;
    while k < pat.len()
        invariant
            i + pat.len() <= s.len(),
            k <= pat.len(),
            forall|q: int| 0 <= q < k ==> s@[i + q] == pat@[q],
        decreases pat.len() - k,
    {
        if s[i + k] != pat[k] {
            proof {
                assert(s@.skip(i as int).take(pat.len() as int)[k as int] != pat@[k as int]);
            }
            return false;
        }
        k = k + 1;
    }
    proof {
        assert(s@.skip(i as int).take(pat.len() as int) =~= pat@);
    }
    true
}

/// Replace every occurrence of `pat` in `s` by `rep` (as `str::replace` does).
pub fn replace_chars(s: &Vec<char>, pat: &Vec<char>, rep: &Vec<char>) -> (r: Vec<char>)
    requires
        pat.len() > 0,
    ensures
        r@ == replace_all(s@, pat@, rep@),
{
    let mut r: Vec<char> = Vec::new();
    let mut i: usize = 0;
    proof {
        assert(s@.skip(0) =~= s@);
    }
    while i < s.len()
        invariant
            pat.len() > 0,
            i <= s.len(),
            r@ + replace_all(s@.skip(i as int), pat@, rep@) == replace_all(s@, pat@, rep@),
        decreases s.len() - i,
    {
        let ghost before = r@;
        let ghost t = s@.skip(i as int);
        if occurs_at(s, pat, i) {
            let mut k: usize = 0;
            while k < rep.len()
                invariant
                    k <= rep.len(),
                    r@ == before + rep@.take(k as int),
                decreases rep.len() - k,
            {
                r.push(rep[k]);
                proof {
                    assert(rep@.take(k as int + 1) =~= rep@.take(k as int).push(rep@[k as int]));
                }
                k = k + 1;
            }
            proof {
                assert(rep@.take(rep.len() as int) =~= rep@);
                assert(t.skip(pat.len() as int) =~= s@.skip(i + pat.len()));
                assert(before + (rep@ + replace_all(s@.skip(i + pat.len()), pat@, rep@)) =~= r@
                    + replace_all(s@.skip(i + pat.len()), pat@, rep@));
            }
            i = i + pat.len();
        } else {
            r.push(s[i]);
            proof {
                assert(t[0] == s@[i as int]);
                assert(t.skip(1) =~= s@.skip(i + 1));
                assert(before + (seq![s@[i as int]] + replace_all(s@.skip(i + 1), pat@, rep@)) =~= r@
                    + replace_all(s@.skip(i + 1), pat@, rep@));
            }
            i = i + 1;
        }
    }
    proof {
        assert(r@ + replace_all(s@.skip(s.len() as int), pat@, rep@) =~= r@);
    }
    r
}

/// The first position, from `i` on, at which `pat` occurs in `s`.
pub open spec fn find_from(s: Seq<char>, pat: Seq<char>, i: int) -> Option<int>
    decreases s.len() + 1 - i,
{
    if i < 0 || i + pat.len() > s.len() {
        None
    } else if matches_at(s, pat, i) {
        Some(i)
    } else {
        find_from(s, pat, i + 1)
    }
}

/// The first position at which `pat` occurs in `s` (`str::find`).
pub open spec fn find_first(s: Seq<char>, pat: Seq<char>) -> Option<int> {
    find_from(s, pat, 0)
}

/// Position of the first occurrence of `pat` in `s`.
pub fn find_chars(s: &Vec<char>, pat: &Vec<char>) -> (r: Option<usize>)
    ensures
        r matches Some(i) ==> find_first(s@, pat@) == Some(i as int) && i + pat@.len() <= s@.len(),
        r is None ==> find_first(s@, pat@) is None,
{
    if pat.len() > s.len() {
        return None;
    }
    let last = s.len() - pat.len();
    let mut i: usize = 0;
    while i <= last
        invariant
            last == s.len() - pat.len(),
            pat.len() <= s.len(),
            i <= last + 1,
            find_first(s@, pat@) == find_from(s@, pat@, i as int),
        decreases last + 1 - i,
    {
        let mut k: usize = 0;
        let mut ok = true;
        while k < pat.len()
            invariant
                i <= last,
                last == s.len() - pat.len(),
                k <= pat.len(),
                ok == (forall|q: int| 0 <= q < k ==> s@[i + q] == pat@[q]),
            decreases pat.len() - k,
        {
            if s[i + k] != pat[k] {
                ok = false;
            }
            k = k + 1;
        }
        if ok {
            proof {
                assert(s@.subrange(i as int, i + pat.len()) =~= pat@);
            }
            return Some(i);
        }
        proof {
            let q = choose|q: int| 0 <= q < pat.len() && s@[i + q] != pat@[q];
            assert(s@.subrange(i as int, i + pat.len())[q] != pat@[q]);
        }
        i = i + 1;
    }
    None
}

/// `s` consists of ASCII digits only.
pub open spec fn all_digits(s: Seq<char>) -> bool {
    forall|i: int| 0 <= i < s.len() ==> '0' <= #[trigger] s[i] <= '9'
}

/// The number a string of ASCII digits denotes.
pub open spec fn digits_value(s: Seq<char>) -> nat
    decreases s.len(),
{
    if s.len() == 0 {
        0
    } else {
        digits_value(s.drop_last()) * 10 + ((s.last() as nat) - ('0' as nat)) as nat
    }
}

/// What `str::parse::<usize>` accepts: an optional `+`, then one or more
/// ASCII digits denoting a number no greater than `usize::MAX`.
pub open spec fn parsed_usize(s: Seq<char>) -> Option<nat> {
    let d = if s.len() > 0 && s[0] == '+' { s.drop_first() } else { s };
    if d.len() > 0 && all_digits(d) && digits_value(d) <= usize::MAX {
        Some(digits_value(d))
    } else {
        None
    }
}

proof fn lemma_digits_value_monotone(s: Seq<char>, k: int)
    requires
        all_digits(s),
        0 <= k <= s.len(),
    ensures
        digits_value(s.take(k)) <= digits_value(s),
    decreases s.len() - k,
{
    if k < s.len() {
        lemma_digits_value_monotone(s, k + 1);
        assert(s.take(k + 1).drop_last() =~= s.take(k));
        assert('0' <= s[k] <= '9');
    } else {
        assert(s.take(k) =~= s);
    }
}

/// Parse a decimal `usize` as `str::parse::<usize>` does.
pub fn parse_usize(s: &Vec<char>) -> (r: Option<usize>)
    ensures
        r matches Some(v) ==> parsed_usize(s@) == Some(v as nat),
        r is None ==> parsed_usize(s@) is None,
{
    let start: usize = if s.len() > 0 && s[0] == '+' { 1 } else { 0 };
    let ghost d = if s@.len() > 0 && s@[0] == '+' { s@.drop_first() } else { s@ };
    proof {
        assert(d =~= s@.skip(start as int));
        assert(parsed_usize(s@) == (if d.len() > 0 && all_digits(d) && digits_value(d) <= usize::MAX {
            Some(digits_value(d))
        } else {
            None
        }));
    }
    if start >= s.len() {
        return None;
    }
    let mut value: usize = 0;
    let mut i: usize = start;
    while i < s.len()
        invariant
            start <= i <= s.len(),
            d == s@.skip(start as int),
            parsed_usize(s@) == (if d.len() > 0 && all_digits(d) && digits_value(d) <= usize::MAX {
                Some(digits_value(d))
            } else {
                None
            }),
            all_digits(d.take(i - start)),
            value as nat == digits_value(d.take(i - start)),
        decreases s.len() - i,
    {
        let c = s[i];
        proof {
            assert(d.take(i - start + 1).drop_last() =~= d.take(i - start));
            assert(d.take(i - start + 1).last() == c);
        }
        if !('0' <= c && c <= '9') {
            proof {
                assert(d[i - start] == c);
                assert(!all_digits(d));
                assert(parsed_usize(s@) is None);
            }
            return None;
        }
        let digit = (c as u32 - '0' as u32) as usize;
        let next = match value.checked_mul(10) {
            Some(m) => m.checked_add(digit),
            None => None,
        };
        match next {
            Some(n) => {
                value = n;
            },
            None => {
                proof {
                    assert(all_digits(d.take(i - start + 1)));
                    assert(digits_value(d.take(i - start + 1)) > usize::MAX);
                    if all_digits(d) {
                        lemma_digits_value_monotone(d, i - start + 1);
                    }
                    assert(parsed_usize(s@) is None);
                }
                return None;
            },
        }
        i = i + 1;
    }
    proof {
        assert(d.take(i - start) =~= d);
    }
    Some(value)
}

/// Digits render and parse back: `decimal` consists of digits with value `n`.
pub proof fn lemma_decimal_digits(n: nat)
    ensures
        decimal(n).len() > 0,
        all_digits(decimal(n)),
        digits_value(decimal(n)) == n,
        decimal(n)[0] != '+',
    decreases n,
{
    if n < 10 {
        assert(digits_value(decimal(n)) == digits_value(decimal(n).drop_last()) * 10 + ((decimal(n).last() as nat) - ('0' as nat)) as nat);
        assert(decimal(n).drop_last() =~= Seq::<char>::empty());
    } else {
        lemma_decimal_digits(n / 10);
        let d = decimal(n);
        assert(d.drop_last() =~= decimal(n / 10));
        assert forall|i: int| 0 <= i < d.len() implies '0' <= #[trigger] d[i] <= '9' by {
            if i < d.len() - 1 {
                assert(d[i] == decimal(n / 10)[i]);
            }
        }
        assert(d[0] == decimal(n / 10)[0]);
    }
}

/// The characters `s[a..b]`.
pub fn subrange_chars(s: &Vec<char>, a: usize, b: usize) -> (r: Vec<char>)
    requires
        a <= b <= s.len(),
    ensures
        r@ == s@.subrange(a as int, b as int),
{
    let mut r: Vec<char> = Vec::new();
    let mut k: usize = a;
    while k < b
        invariant
            a <= k <= b <= s.len(),
            r@ == s@.subrange(a as int, k as int),
        decreases b - k,
    {
        r.push(s[k]);
        proof {
            assert(s@.subrange(a as int, k + 1) =~= s@.subrange(a as int, k as int).push(s@[k as int]));
        }
        k = k + 1;
    }
    r
}

/// Does `s` start with `prefix`? (executable)
pub fn has_prefix(s: &Vec<char>, prefix: &Vec<char>) -> (r: bool)
    ensures
        r == starts_with(s@, prefix@),
{
    if prefix.len() > s.len() {
        return false;
    }
    let mut k: usize = 0;
    while k < prefix.len()
        invariant
            prefix.len() <= s.len(),
            k <= prefix.len(),
            forall|q: int| 0 <= q < k ==> s@[q] == prefix@[q],
        decreases prefix.len() - k,
    {
        if s[k] != prefix[k] {
            proof {
                assert(s@.take(prefix.len() as int)[k as int] != prefix@[k as int]);
            }
            return false;
        }
        k = k + 1;
    }
    proof {
        assert(s@.take(prefix.len() as int) =~= prefix@);
    }
    true
}

} // verus!
