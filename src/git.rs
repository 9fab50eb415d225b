//! Turning the output of `git describe --tags --always --dirty` into a
//! version suffix that reads naturally next to a semantic version.
use vstd::prelude::*;
use vstd::string::StrSliceExecFns;

verus! {

/// What `str::trim` makes of a string: it depends on the characters alone.
pub uninterp spec fn trim_of(s: Seq<char>) -> Seq<char>;

/// What `char::is_numeric` says of a character.
pub uninterp spec fn numeric_char(c: char) -> bool;

/// Relies on `str::trim`: the result depends on the characters alone.
#[verifier::external_body]
pub(crate) fn trimmed<'a>(s: &'a str) -> (r: &'a str)
    ensures
        r@ == trim_of(s@),
{
    s.trim()
}

fn chars_of(s: &str) -> (r: Vec<char>)
    ensures
        r@ == s@,
{
    let n = s.unicode_len();
    let mut v: Vec<char> = Vec::new();
    let mut i: usize = 0;
    while i < n
        invariant
            i <= n,
            n == s@.len(),
            v@ == s@.subrange(0, i as int),
        decreases n - i,
    {
        v.push(s.get_char(i));
        assert(s@.subrange(0, i + 1) == s@.subrange(0, i as int).push(s@[i as int]));
        i = i + 1;
    }
    assert(s@.subrange(0, n as int) == s@);
    v
}

/// Relies on `char::is_numeric`: true for characters of the Unicode number
/// categories, so for ASCII digits and not for ASCII letters.
#[verifier::external_body]
fn is_numeric(c: char) -> (r: bool)
    ensures
        r == numeric_char(c),
        '0' <= c <= '9' ==> r,
        ('a' <= c <= 'z') || ('A' <= c <= 'Z') ==> !r,
{
    c.is_numeric()
}

/// Relies on `String::from_iter` over characters: the string holds them in order.
#[verifier::external_body]
fn string_of(v: &Vec<char>) -> (r: String)
    ensures
        r@ == v@,
{
    v.iter().collect()
}

/// The sequence with every leading `v` removed.
pub open spec fn strip_leading_v(s: Seq<char>) -> Seq<char>
    decreases s.len(),
{
    if s.len() > 0 && s[0] == 'v' {
        strip_leading_v(s.drop_first())
    } else {
        s
    }
}

/// The position of the last `-g` among the first `end + 1` characters, or -1.
pub open spec fn last_dash_g_before(s: Seq<char>, end: int) -> int
    decreases end,
{
    if end < 1 || end >= s.len() {
        -1
    } else if s[end - 1] == '-' && s[end] == 'g' {
        end - 1
    } else {
        last_dash_g_before(s, end - 1)
    }
}

/// The position of the last `-g` in `s`, or -1.
pub open spec fn last_dash_g(s: Seq<char>) -> int {
    last_dash_g_before(s, s.len() - 1)
}

/// The position of the last `-` among the first `end` characters, or -1.
pub open spec fn last_dash_before(s: Seq<char>, end: int) -> int
    decreases end,
{
    if end <= 0 || end > s.len() {
        -1
    } else if s[end - 1] == '-' {
        end - 1
    } else {
        last_dash_before(s, end - 1)
    }
}

/// The position of the last `-` in `s`, or -1.
pub open spec fn last_dash(s: Seq<char>) -> int {
    last_dash_before(s, s.len() as int)
}

/// Each flag of `flags` from `from` up to `to` is set.
pub open spec fn flags_all(flags: Seq<bool>, from: int, to: int) -> bool {
    forall|i: int| from <= i < to ==> #[trigger] flags[i]
}

/// Whether each character of `t` is numeric.
pub open spec fn numeric_flags(t: Seq<char>) -> Seq<bool> {
    Seq::new(t.len(), |i: int| numeric_char(t[i]))
}

/// The version suffix for a trimmed description `t`, where `flags[i]` says
/// whether `t[i]` is numeric.
///
/// `v1.2.3-26-gabc` becomes `1.2.3+26~abc`; where the part before the last
/// `-g` does not end in a commit count, only `-g` becomes `~`; a description
/// without `-g` (a bare hash) is kept.
pub open spec fn describe_format_by(t: Seq<char>, flags: Seq<bool>) -> Seq<char> {
    let s = strip_leading_v(t);
    let k = t.len() - s.len();
    let g = last_dash_g(s);
    if g < 0 {
        s
    } else {
        let prefix = s.subrange(0, g);
        let suffix = s.subrange(g + 2, s.len() as int);
        let d = last_dash(prefix);
        if d >= 0 && flags_all(flags, k + d + 1, k + g) {
            prefix.subrange(0, d) + seq!['+'] + prefix.subrange(d + 1, prefix.len() as int)
                + seq!['~'] + suffix
        } else {
            prefix + seq!['~'] + suffix
        }
    }
}

/// The version suffix for a trimmed description `t`, judging digits by
/// `char::is_numeric`.
pub open spec fn describe_format(t: Seq<char>) -> Seq<char> {
    describe_format_by(t, numeric_flags(t))
}

fn copy_range(v: &Vec<char>, from: usize, to: usize, out: &mut Vec<char>)
    requires
        from <= to <= v@.len(),
    ensures
        final(out)@ == old(out)@ + v@.subrange(from as int, to as int),
{
    let mut i: usize = from;
    while i < to
        invariant
            from <= i <= to <= v@.len(),
            out@ == old(out)@ + v@.subrange(from as int, i as int),
        decreases to - i,
    {
        out.push(v[i]);
        assert(v@.subrange(from as int, i + 1) == v@.subrange(from as int, i as int).push(v@[i as int]));
        i = i + 1;
    }
}

proof fn lemma_strip_leading_v(s: Seq<char>, k: int)
    requires
        0 <= k <= s.len(),
        forall|j: int| 0 <= j < k ==> s[j] == 'v',
    ensures
        strip_leading_v(s) == strip_leading_v(s.subrange(k, s.len() as int)),
    decreases k,
{
    if k > 0 {
        assert(s.drop_first() == s.subrange(1, s.len() as int));
        lemma_strip_leading_v(s.drop_first(), k - 1);
        assert(s.drop_first().subrange(k - 1, s.drop_first().len() as int) == s.subrange(
            k,
            s.len() as int,
        ));
    } else {
        assert(s.subrange(0, s.len() as int) == s);
    }
}

fn find_last_dash_g(t: &Vec<char>, k: usize) -> (r: Option<usize>)
    requires
        k <= t@.len(),
    ensures
        match r {
            None => last_dash_g(t@.subrange(k as int, t@.len() as int)) == -1,
            Some(g) => k <= g && g + 2 <= t@.len() && last_dash_g(
                t@.subrange(k as int, t@.len() as int),
            ) == g - k,
        },
{
    let ghost s = t@.subrange(k as int, t@.len() as int);
    let n = t.len();
    let mut j: usize = n;
    while j - k >= 2
        invariant
            k <= j <= n == t@.len(),
            s == t@.subrange(k as int, n as int),
            last_dash_g(s) == last_dash_g_before(s, j - 1 - k),
        decreases j,
    {
        assert(s[j - 2 - k] == t@[j - 2] && s[j - 1 - k] == t@[j - 1]);
        if t[j - 2] == '-' && t[j - 1] == 'g' {
            return Some(j - 2);
        }
        j = j - 1;
    }
    None
}

fn find_last_dash(t: &Vec<char>, k: usize, g: usize) -> (r: Option<usize>)
    requires
        k <= g <= t@.len(),
    ensures
        match r {
            None => last_dash(t@.subrange(k as int, g as int)) == -1,
            Some(d) => k <= d < g && last_dash(t@.subrange(k as int, g as int)) == d - k,
        },
{
    let ghost p = t@.subrange(k as int, g as int);
    let mut j: usize = g;
    while j > k
        invariant
            k <= j <= g <= t@.len(),
            p == t@.subrange(k as int, g as int),
            last_dash(p) == last_dash_before(p, j - k),
        decreases j,
    {
        assert(p[j - 1 - k] == t@[j - 1]);
        if t[j - 1] == '-' {
            return Some(j - 1);
        }
        j = j - 1;
    }
    None
}

fn flags_in(flags: &Vec<bool>, from: usize, to: usize) -> (r: bool)
    requires
        from <= to <= flags@.len(),
    ensures
        r == flags_all(flags@, from as int, to as int),
{
    let mut i: usize = from;
    while i < to
        invariant
            from <= i <= to <= flags@.len(),
            forall|m: int| from <= m < i ==> #[trigger] flags@[m],
        decreases to - i,
    {
        if !flags[i] {
            return false;
        }
        i = i + 1;
    }
    true
}

fn numeric_flags_of(t: &Vec<char>) -> (r: Vec<bool>)
    ensures
        r@ == numeric_flags(t@),
{
    let mut r: Vec<bool> = Vec::new();
    let mut i: usize = 0;
    while i < t.len()
        invariant
            i <= t@.len(),
            r@.len() == i,
            forall|m: int| 0 <= m < i ==> r@[m] == numeric_char(t@[m]),
        decreases t@.len() - i,
    {
        r.push(is_numeric(t[i]));
        i = i + 1;
    }
    assert(r@ =~= numeric_flags(t@));
    r
}

/// The version suffix for a description that was already trimmed.
pub fn format_trimmed(t: &Vec<char>) -> (r: String)
    ensures
        r@ == describe_format(t@),
{
    let flags = numeric_flags_of(t);
    format_trimmed_with(t, &flags)
}

/// The version suffix for a description that was already trimmed, where
/// `flags[i]` says whether `t[i]` is numeric.
pub fn format_trimmed_with(t: &Vec<char>, flags: &Vec<bool>) -> (r: String)
    requires
        flags@.len() == t@.len(),
    ensures
        r@ == describe_format_by(t@, flags@),
{
    let n = t.len();
    let mut k: usize = 0;
    while k < n && t[k] == 'v'
        invariant
            k <= n == t@.len(),
            forall|j: int| 0 <= j < k ==> t@[j] == 'v',
        decreases n - k,
    {
        k = k + 1;
    }
    let ghost s = t@.subrange(k as int, n as int);
    proof {
        lemma_strip_leading_v(t@, k as int);
        if s.len() > 0 {
            assert(s[0] == t@[k as int]);
        }
    }
    assert(strip_leading_v(t@) == s);
    let mut out: Vec<char> = Vec::new();
    match find_last_dash_g(t, k) {
        None => {
            copy_range(t, k, n, &mut out);
            string_of(&out)
        },
        Some(g) => {
            let ghost prefix = t@.subrange(k as int, g as int);
            assert(prefix == s.subrange(0, g - k));
            assert(s.subrange(g + 2 - k, s.len() as int) == t@.subrange(g + 2, n as int));
            match find_last_dash(t, k, g) {
                Some(d) => {
                    let numeric = flags_in(flags, d + 1, g);
                    if numeric {
                        copy_range(t, k, d, &mut out);
                        out.push('+');
                        copy_range(t, d + 1, g, &mut out);
                        out.push('~');
                        copy_range(t, g + 2, n, &mut out);
                        assert(prefix.subrange(0, d - k) == t@.subrange(k as int, d as int));
                        assert(out@ == describe_format_by(t@, flags@));
                        return string_of(&out);
                    }
                },
                None => {},
            }
            copy_range(t, k, g, &mut out);
            out.push('~');
            copy_range(t, g + 2, n, &mut out);
            assert(out@ == describe_format_by(t@, flags@));
            string_of(&out)
        },
    }
}

/// The version suffix for the output of `git describe`: trimmed, then as
/// `format_trimmed` gives it.
pub fn format(s: &str) -> (r: String)
    ensures
        r@ == describe_format(trim_of(s@)),
{
    let t = chars_of(trimmed(s));
    format_trimmed(&t)
}

} // verus!
