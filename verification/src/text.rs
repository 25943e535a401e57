//! Text primitives shared by the validators: white space, trimming, the scheme
//! separator, byte length and letter case, each with its meaning on `Seq<char>`.

use vstd::prelude::*;
use vstd::string::StrSliceExecFns;
use vstd::utf8::encode_utf8;

verus! {

/// Whether `c` carries Unicode's `White_Space` property.
pub open spec fn is_whitespace(c: char) -> bool {
    let n = c as u32;
    ||| 0x09 <= n <= 0x0D
    ||| n == 0x20
    ||| n == 0x85
    ||| n == 0xA0
    ||| n == 0x1680
    ||| 0x2000 <= n <= 0x200A
    ||| n == 0x2028
    ||| n == 0x2029
    ||| n == 0x202F
    ||| n == 0x205F
    ||| n == 0x3000
}

/// Whether `c` carries Unicode's `White_Space` property, as
/// `char::is_whitespace` tells.
pub fn is_white_space(c: char) -> (res: bool)
    ensures
        res == is_whitespace(c),
{
    let n = c as u32;
    (0x09 <= n && n <= 0x0D) || n == 0x20 || n == 0x85 || n == 0xA0 || n == 0x1680 || (0x2000 <= n
        && n <= 0x200A) || n == 0x2028 || n == 0x2029 || n == 0x202F || n == 0x205F || n == 0x3000
}

/// `s` without its leading white space.
pub open spec fn trim_start(s: Seq<char>) -> Seq<char>
    decreases s.len(),
{
    if s.len() > 0 && is_whitespace(s.first()) {
        trim_start(s.drop_first())
    } else {
        s
    }
}

/// `s` without its trailing white space.
pub open spec fn trim_end(s: Seq<char>) -> Seq<char>
    decreases s.len(),
{
    if s.len() > 0 && is_whitespace(s.last()) {
        trim_end(s.drop_last())
    } else {
        s
    }
}

/// `s` without leading and trailing white space.
pub open spec fn trimmed(s: Seq<char>) -> Seq<char> {
    trim_end(trim_start(s))
}

/// Whether `s` starts and ends with something other than white space, or is empty.
pub open spec fn is_trimmed(s: Seq<char>) -> bool {
    s.len() > 0 ==> !is_whitespace(s.first()) && !is_whitespace(s.last())
}

/// The number of bytes of `s` in UTF-8, which is what `str::len` counts.
pub open spec fn byte_len(s: Seq<char>) -> nat {
    encode_utf8(s).len()
}

/// Whether `://` occurs in `s`.
pub open spec fn has_scheme_separator(s: Seq<char>) -> bool {
    exists|i: int| separator_at(s, i)
}

/// Whether `://` stands in `s` at index `i`.
pub open spec fn separator_at(s: Seq<char>, i: int) -> bool {
    &&& 0 <= i
    &&& i + 3 <= s.len()
    &&& s[i] == ':'
    &&& s[i + 1] == '/'
    &&& s[i + 2] == '/'
}

/// The pieces of `s` between the occurrences of `sep`, as `str::split` gives
/// them: one more piece than there are separators, empty pieces included.
pub open spec fn split_on(s: Seq<char>, sep: char) -> Seq<Seq<char>>
    decreases s.len(),
{
    if s.len() == 0 {
        seq![Seq::empty()]
    } else {
        let init = split_on(s.drop_last(), sep);
        if s.last() == sep {
            init.push(Seq::empty())
        } else {
            init.update(init.len() - 1, init.last().push(s.last()))
        }
    }
}

/// `c` in lower case if it is one of `A` to `Z`, else `c` itself.
pub open spec fn ascii_lower(c: char) -> char {
    if 'A' <= c <= 'Z' {
        ((c as u8) + 32) as u8 as char
    } else {
        c
    }
}

/// `s` with `A` to `Z` in lower case.
pub open spec fn lowered(s: Seq<char>) -> Seq<char> {
    Seq::new(s.len(), |i: int| ascii_lower(s[i]))
}

/// Whether `s` begins with `prefix`.
pub open spec fn starts_with(s: Seq<char>, prefix: Seq<char>) -> bool {
    prefix.len() <= s.len() && s.subrange(0, prefix.len() as int) == prefix
}

/// Leading white space ends at `a`: `trim_start` cuts exactly there.
pub proof fn lemma_trim_start_at(s: Seq<char>, a: int)
    requires
        0 <= a <= s.len(),
        forall|i: int| 0 <= i < a ==> is_whitespace(#[trigger] s[i]),
        a < s.len() ==> !is_whitespace(s[a]),
    ensures
        trim_start(s) == s.subrange(a, s.len() as int),
    decreases a,
{
    if a == 0 {
        assert(s.subrange(0, s.len() as int) =~= s);
    } else {
        let rest = s.drop_first();
        assert forall|i: int| 0 <= i < a - 1 implies is_whitespace(#[trigger] rest[i]) by {
            assert(rest[i] == s[i + 1]);
        }
        lemma_trim_start_at(rest, a - 1);
        assert(rest.subrange(a - 1, rest.len() as int) =~= s.subrange(a, s.len() as int));
    }
}

/// Trailing white space begins at `e`: `trim_end` cuts exactly there.
pub proof fn lemma_trim_end_at(s: Seq<char>, e: int)
    requires
        0 <= e <= s.len(),
        forall|i: int| e <= i < s.len() ==> is_whitespace(#[trigger] s[i]),
        0 < e ==> !is_whitespace(s[e - 1]),
    ensures
        trim_end(s) == s.subrange(0, e),
    decreases s.len() - e,
{
    if e == s.len() {
        assert(s.subrange(0, e) =~= s);
    } else {
        let rest = s.drop_last();
        lemma_trim_end_at(rest, e);
        assert(rest.subrange(0, e) =~= s.subrange(0, e));
    }
}

/// Trimming cuts a window out of `s`, and what it yields is trimmed.
pub proof fn lemma_trimmed_window(s: Seq<char>) -> (w: (int, int))
    ensures
        0 <= w.0 <= w.1 <= s.len(),
        trimmed(s) == s.subrange(w.0, w.1),
        is_trimmed(trimmed(s)),
    decreases s.len(),
{
    if s.len() > 0 && is_whitespace(s.first()) {
        let inner = lemma_trimmed_window(s.drop_first());
        assert(s.drop_first().subrange(inner.0, inner.1) =~= s.subrange(inner.0 + 1, inner.1 + 1));
        (inner.0 + 1, inner.1 + 1)
    } else {
        let e = lemma_trim_end_window(s);
        (0, e)
    }
}

/// `trim_end` keeps a prefix of `s`, which ends in something other than white space.
pub proof fn lemma_trim_end_window(s: Seq<char>) -> (e: int)
    ensures
        0 <= e <= s.len(),
        trim_end(s) == s.subrange(0, e),
        e > 0 ==> !is_whitespace(s[e - 1]),
    decreases s.len(),
{
    if s.len() > 0 && is_whitespace(s.last()) {
        let e = lemma_trim_end_window(s.drop_last());
        assert(s.drop_last().subrange(0, e) =~= s.subrange(0, e));
        e
    } else {
        assert(s.subrange(0, s.len() as int) =~= s);
        s.len() as int
    }
}

/// Text that is trimmed already is left as it is.
pub proof fn lemma_trimmed_fixed(s: Seq<char>)
    requires
        is_trimmed(s),
    ensures
        trimmed(s) == s,
{
}

/// A separator inside a window of `s` is a separator of `s`.
pub proof fn lemma_separator_in_window(s: Seq<char>, from: int, to: int)
    requires
        0 <= from <= to <= s.len(),
        has_scheme_separator(s.subrange(from, to)),
    ensures
        has_scheme_separator(s),
{
    let w = s.subrange(from, to);
    let i = choose|i: int| separator_at(w, i);
    assert(w[i] == s[from + i]);
    assert(w[i + 1] == s[from + i + 1]);
    assert(w[i + 2] == s[from + i + 2]);
    assert(separator_at(s, from + i));
}

/// `s` with leading and trailing white space removed, as `str::trim` gives it.
pub fn trim<'a>(s: &'a str) -> (res: &'a str)
    ensures
        res@ == trimmed(s@),
{
    let total = s.unicode_len();
    let mut start: usize = 0;
    let mut end: usize = 0;
    let mut n: usize = 0;
    let mut leading = true;
    for c in it: s.chars()
        invariant
            it.seq() == s@,
            total == s@.len(),
            n == it.index(),
            leading ==> start == n && end == 0,
            !leading ==> start < end <= n && !is_whitespace(s@[start as int]) && !is_whitespace(
                s@[end - 1],
            ),
            forall|i: int| 0 <= i < start ==> is_whitespace(#[trigger] s@[i]),
            !leading ==> forall|i: int| end <= i < n ==> is_whitespace(#[trigger] s@[i]),
    {
        let blank = is_white_space(c);
        if leading {
            if blank {
                start = n + 1;
            } else {
                leading = false;
                end = n + 1;
            }
        } else if !blank {
            end = n + 1;
        }
        n = n + 1;
    }
    proof {
        lemma_trim_start_at(s@, start as int);
        let rest = s@.subrange(start as int, s@.len() as int);
        if leading {
            assert(rest.len() == 0);
            assert(s@.subrange(0, 0) =~= rest);
        } else {
            assert forall|i: int| end - start <= i < rest.len() implies is_whitespace(
                #[trigger] rest[i],
            ) by {
                assert(rest[i] == s@[start + i]);
            }
            lemma_trim_end_at(rest, end - start);
            assert(rest.subrange(0, end - start) =~= s@.subrange(start as int, end as int));
        }
    }
    if leading {
        s.substring_char(0, 0)
    } else {
        s.substring_char(start, end)
    }
}

/// Whether `://` occurs in `s`.
pub fn contains_scheme_separator(s: &str) -> (res: bool)
    ensures
        res == has_scheme_separator(s@),
{
    let total = s.unicode_len();
    let mut n: usize = 0;
    let mut colon_before_slash = false;
    let mut after_colon_slash = false;
    let mut found = false;
    for c in it: s.chars()
        invariant
            it.seq() == s@,
            total == s@.len(),
            n == it.index(),
            colon_before_slash == (n >= 1 && s@[n - 1] == ':'),
            after_colon_slash == (n >= 2 && s@[n - 2] == ':' && s@[n - 1] == '/'),
            found == (exists|i: int| i + 3 <= n && separator_at(s@, i)),
    {
        let ghost before = found;
        if after_colon_slash && c == '/' {
            found = true;
            assert(separator_at(s@, n - 2));
        }
        after_colon_slash = colon_before_slash && c == '/';
        colon_before_slash = c == ':';
        proof {
            if !found {
                assert forall|i: int| i + 3 <= n + 1 implies !separator_at(s@, i) by {
                    if i + 3 <= n {
                        assert(!before);
                    }
                }
            } else if before {
                let i = choose|i: int| i + 3 <= n && separator_at(s@, i);
                assert(i + 3 <= n + 1 && separator_at(s@, i));
            }
        }
        n = n + 1;
    }
    proof {
        if found {
            let i = choose|i: int| i + 3 <= n && separator_at(s@, i);
            assert(separator_at(s@, i));
        } else if has_scheme_separator(s@) {
            let i = choose|i: int| separator_at(s@, i);
            assert(i + 3 <= n && separator_at(s@, i));
        }
    }
    found
}

/// Reading one more character either closes the piece being read or
/// lengthens it.
pub proof fn lemma_split_on_step(s: Seq<char>, sep: char, n: int, done: Seq<Seq<char>>, from: int)
    requires
        0 <= from <= n < s.len(),
        split_on(s.subrange(0, n), sep) == done.push(s.subrange(from, n)),
    ensures
        s[n] == sep ==> split_on(s.subrange(0, n + 1), sep) == done.push(s.subrange(from, n)).push(
            s.subrange(n + 1, n + 1),
        ),
        s[n] != sep ==> split_on(s.subrange(0, n + 1), sep) == done.push(s.subrange(from, n + 1)),
{
    let next = s.subrange(0, n + 1);
    assert(next.drop_last() =~= s.subrange(0, n));
    assert(next.last() == s[n]);
    let init = done.push(s.subrange(from, n));
    if s[n] == sep {
        assert(s.subrange(n + 1, n + 1) =~= Seq::<char>::empty());
    } else {
        assert(init.last().push(s[n]) =~= s.subrange(from, n + 1));
        assert(init.update(init.len() - 1, s.subrange(from, n + 1)) =~= done.push(
            s.subrange(from, n + 1),
        ));
    }
}

/// `c` in lower case if it is one of `A` to `Z`, else `c` itself.
pub fn to_ascii_lower(c: char) -> (res: char)
    ensures
        res == ascii_lower(c),
{
    if 'A' <= c && c <= 'Z' {
        ((c as u8) + 32) as char
    } else {
        c
    }
}

/// The number of bytes of `s`, as `str::len` counts them.
pub fn byte_length(s: &str) -> (n: usize)
    ensures
        n == byte_len(s@),
{
    s.as_bytes().len()
}

/// Whether `a` and `b` hold the same characters.
pub fn same_text(a: &str, b: &str) -> (res: bool)
    ensures
        res == (a@ == b@),
{
    a.to_owned() == b.to_owned()
}

/// Whether `text`, with `A` to `Z` in lower case, is `lower`.
pub fn lowers_to(text: &str, lower: &str) -> (res: bool)
    ensures
        res == (lowered(text@) == lower@),
{
    let total = text.unicode_len();
    if total != lower.unicode_len() {
        return false;
    }
    let mut n: usize = 0;
    for c in it: text.chars()
        invariant
            it.seq() == text@,
            total == text@.len(),
            total == lower@.len(),
            n == it.index(),
            forall|i: int| 0 <= i < n ==> ascii_lower(text@[i]) == lower@[i],
    {
        if to_ascii_lower(c) != lower.get_char(n) {
            assert(lowered(text@)[n as int] != lower@[n as int]);
            return false;
        }
        n = n + 1;
    }
    assert(lowered(text@) =~= lower@);
    true
}

} // verus!
