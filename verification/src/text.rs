//! Character-level text operations on `str`, each stated over the string's
//! sequence of characters.

use vstd::prelude::*;

verus! {

/// Unicode `White_Space` characters (what `char::is_whitespace` accepts).
pub open spec fn is_white_space(c: char) -> bool {
    let u = c as u32;
    ||| 0x09 <= u <= 0x0d
    ||| u == 0x20
    ||| u == 0x85
    ||| u == 0xa0
    ||| u == 0x1680
    ||| 0x2000 <= u <= 0x200a
    ||| u == 0x2028
    ||| u == 0x2029
    ||| u == 0x202f
    ||| u == 0x205f
    ||| u == 0x3000
}

/// `s` without its leading white space.
pub open spec fn trim_start(s: Seq<char>) -> Seq<char>
    decreases s.len(),
{
    if s.len() > 0 && is_white_space(s[0]) {
        trim_start(s.drop_first())
    } else {
        s
    }
}

/// `s` without its trailing white space.
pub open spec fn trim_end(s: Seq<char>) -> Seq<char>
    decreases s.len(),
{
    if s.len() > 0 && is_white_space(s.last()) {
        trim_end(s.drop_last())
    } else {
        s
    }
}

/// `s` without leading and trailing white space.
pub open spec fn trimmed(s: Seq<char>) -> Seq<char> {
    trim_end(trim_start(s))
}

/// `s` without any trailing occurrences of `c`.
pub open spec fn trim_end_char(s: Seq<char>, c: char) -> Seq<char>
    decreases s.len(),
{
    if s.len() > 0 && s.last() == c {
        trim_end_char(s.drop_last(), c)
    } else {
        s
    }
}

/// ASCII upper-case letters mapped to lower case; every other character kept.
pub open spec fn ascii_lower_char(c: char) -> char {
    if 'A' <= c <= 'Z' {
        (((c as u32) + 32) as u32) as char
    } else {
        c
    }
}

/// `s` with each character mapped by [`ascii_lower_char`].
pub open spec fn ascii_lower(s: Seq<char>) -> Seq<char> {
    s.map_values(|c: char| ascii_lower_char(c))
}

/// Whether `w` occurs as a contiguous piece of `s`.
pub open spec fn occurs_in(w: Seq<char>, s: Seq<char>) -> bool {
    exists|i: int| 0 <= i && i + w.len() <= s.len() && #[trigger] s.subrange(i, i + w.len()) == w
}

/// The characters of `s`, in order.
pub fn chars_of(s: &str) -> (v: Vec<char>)
    ensures
        v@ == s@,
{
    let n = s.unicode_len();
    let mut v: Vec<char> = Vec::new();
    let mut i: usize = 0;
    while i < n
        invariant
            n == s@.len(),
            i <= n,
            v@ == s@.subrange(0, i as int),
        decreases n - i,
    {
        v.push(s.get_char(i));
        i = i + 1;
    }
    v
}

/// Whether the two strings hold the same characters.
pub fn same_text(a: &str, b: &str) -> (r: bool)
    ensures
        r == (a@ == b@),
{
    let x = chars_of(a);
    let y = chars_of(b);
    if x.len() != y.len() {
        return false;
    }
    let mut i: usize = 0;
    while i < x.len()
        invariant
            x@ == a@,
            y@ == b@,
            x.len() == y.len(),
            i <= x.len(),
            forall|j: int| 0 <= j < i ==> x@[j] == y@[j],
        decreases x.len() - i,
    {
        if x[i] != y[i] {
            return false;
        }
        i = i + 1;
    }
    assert(a@ =~= b@);
    true
}

fn is_white_space_char(c: char) -> (r: bool)
    ensures
        r == is_white_space(c),
{
    let u = c as u32;
    (0x09 <= u && u <= 0x0d) || u == 0x20 || u == 0x85 || u == 0xa0 || u == 0x1680 || (0x2000
        <= u && u <= 0x200a) || u == 0x2028 || u == 0x2029 || u == 0x202f || u == 0x205f || u
        == 0x3000
}

proof fn lemma_trim_start_step(s: Seq<char>, i: int)
    requires
        0 <= i < s.len(),
        is_white_space(s[i]),
    ensures
        trim_start(s.subrange(i, s.len() as int)) == trim_start(s.subrange(i + 1, s.len() as int)),
{
    assert(s.subrange(i, s.len() as int).drop_first() =~= s.subrange(i + 1, s.len() as int));
}

proof fn lemma_trim_end_step(s: Seq<char>, j: int)
    requires
        0 < j <= s.len(),
        is_white_space(s[j - 1]),
    ensures
        trim_end(s.subrange(0, j)) == trim_end(s.subrange(0, j - 1)),
{
    assert(s.subrange(0, j).drop_last() =~= s.subrange(0, j - 1));
}

/// `s` without leading and trailing white space.
pub fn trim(s: &str) -> (r: &str)
    ensures
        r@ == trimmed(s@),
{
    let n = s.unicode_len();
    let mut start: usize = 0;
    assert(s@.subrange(0, n as int) =~= s@);
    while start < n && is_white_space_char(s.get_char(start))
        invariant
            n == s@.len(),
            start <= n,
            trim_start(s@) == trim_start(s@.subrange(start as int, n as int)),
        decreases n - start,
    {
        proof {
            lemma_trim_start_step(s@, start as int);
        }
        start = start + 1;
    }
    assert(s@.subrange(0, n as int) =~= s@);
    let ghost rest = s@.subrange(start as int, n as int);
    assert(trim_start(s@) == rest);
    let mut end: usize = n;
    assert(rest.subrange(0, n - start) =~= rest);
    while end > start && is_white_space_char(s.get_char(end - 1))
        invariant
            n == s@.len(),
            start <= end <= n,
            rest == s@.subrange(start as int, n as int),
            trim_end(rest) == trim_end(rest.subrange(0, end - start)),
        decreases end - start,
    {
        proof {
            lemma_trim_end_step(rest, (end - start) as int);
        }
        end = end - 1;
    }
    assert(rest.subrange(0, n - start) =~= rest);
    assert(rest.subrange(0, end - start) =~= s@.subrange(start as int, end as int));
    s.substring_char(start, end)
}

/// Whether `s`, with ASCII upper-case letters lowered, equals `word`.
pub fn ascii_lower_eq(s: &str, word: &str) -> (r: bool)
    ensures
        r == (ascii_lower(s@) == word@),
{
    let x = chars_of(s);
    let y = chars_of(word);
    if x.len() != y.len() {
        assert(ascii_lower(s@).len() == s@.len());
        return false;
    }
    let mut i: usize = 0;
    while i < x.len()
        invariant
            x@ == s@,
            y@ == word@,
            x.len() == y.len(),
            i <= x.len(),
            forall|j: int| 0 <= j < i ==> ascii_lower_char(x@[j]) == y@[j],
        decreases x.len() - i,
    {
        let c = x[i];
        let d = y[i];
        let same = if 'A' <= c && c <= 'Z' {
            let hit = (d as u32) == (c as u32) + 32;
            proof {
                if hit {
                    vstd::utf8::char_u32_cast(d, ((c as u32) + 32) as u32);
                }
            }
            hit
        } else {
            c == d
        };
        if !same {
            assert(ascii_lower(s@)[i as int] != word@[i as int]);
            return false;
        }
        i = i + 1;
    }
    assert(ascii_lower(s@) =~= word@);
    true
}

/// Whether the string ends with the character `c`.
pub fn ends_with_char(s: &str, c: char) -> (r: bool)
    ensures
        r == (s@.len() > 0 && s@.last() == c),
{
    let n = s.unicode_len();
    n > 0 && s.get_char(n - 1) == c
}

/// Whether `needle` occurs as a contiguous piece of `hay`.
pub fn contains_text(hay: &[char], needle: &[char]) -> (r: bool)
    ensures
        r == occurs_in(needle@, hay@),
{
    let n = hay.len();
    let m = needle.len();
    if m > n {
        return false;
    }
    if m == 0 {
        assert(hay@.subrange(0, 0 + m as int) =~= needle@);
        return true;
    }
    let mut i: usize = 0;
    while i <= n - m
        invariant
            n == hay@.len(),
            m == needle@.len(),
            0 < m <= n,
            i <= n - m + 1,
            forall|k: int| 0 <= k < i ==> #[trigger] hay@.subrange(k, k + m) != needle@,
        decreases n - m + 1 - i,
    {
        let mut j: usize = 0;
        let mut ok = true;
        while j < m
            invariant
                n == hay@.len(),
                m == needle@.len(),
                i + m <= n,
                j <= m,
                ok ==> forall|t: int| 0 <= t < j ==> hay@[i + t] == needle@[t],
                !ok ==> hay@.subrange(i as int, i + m) != needle@,
            decreases m - j,
        {
            if ok && hay[i + j] != needle[j] {
                ok = false;
                assert(hay@.subrange(i as int, i + m)[j as int] != needle@[j as int]);
            }
            j = j + 1;
        }
        if ok {
            assert(hay@.subrange(i as int, i + m) =~= needle@);
            return true;
        }
        i = i + 1;
    }
    assert forall|k: int| 0 <= k && k + m <= n implies #[trigger] hay@.subrange(k, k + m)
        != needle@ by {
        assert(k < i);
    }
    false
}

proof fn lemma_lower_char(c: char)
    ensures
        ascii_lower_char(ascii_lower_char(c)) == ascii_lower_char(c),
        is_white_space(ascii_lower_char(c)) == is_white_space(c),
{
    if 'A' <= c <= 'Z' {
        let u = ((c as u32) + 32) as u32;
        let d = u as char;
        assert(97 <= u <= 122);
        assert(d as u32 == u);
    }
}

proof fn lemma_lower_keeps_trim(s: Seq<char>)
    requires
        s == trimmed(s),
    ensures
        trimmed(ascii_lower(s)) == ascii_lower(s),
{
    let t = ascii_lower(s);
    if s.len() > 0 {
        lemma_trim_bounds(s);
        lemma_lower_char(s[0]);
        lemma_lower_char(s.last());
        assert(t[0] == ascii_lower_char(s[0]));
        assert(t.last() == ascii_lower_char(s.last()));
    }
    assert(trim_start(t) == t);
    assert(trim_end(t) == t);
}

proof fn lemma_trim_bounds(s: Seq<char>)
    requires
        s == trimmed(s),
        s.len() > 0,
    ensures
        !is_white_space(s[0]),
        !is_white_space(s.last()),
{
    lemma_trim_start_shape(s);
    lemma_trim_end_shape(trim_start(s));
    if is_white_space(s[0]) {
        assert(trim_start(s) == trim_start(s.drop_first()));
        lemma_trim_start_shape(s.drop_first());
        lemma_trim_end_shape(trim_start(s));
    }
    if is_white_space(s.last()) {
        lemma_trim_start_shape(s);
        if trim_start(s).len() == s.len() {
            lemma_trim_start_same(s);
            assert(trim_end(s) == trim_end(s.drop_last()));
            lemma_trim_end_shape(s.drop_last());
        } else {
            lemma_trim_end_shape(trim_start(s));
        }
    }
}

proof fn lemma_trim_start_shape(s: Seq<char>)
    ensures
        trim_start(s).len() <= s.len(),
    decreases s.len(),
{
    if s.len() > 0 && is_white_space(s[0]) {
        lemma_trim_start_shape(s.drop_first());
    }
}

proof fn lemma_trim_end_shape(s: Seq<char>)
    ensures
        trim_end(s).len() <= s.len(),
    decreases s.len(),
{
    if s.len() > 0 && is_white_space(s.last()) {
        lemma_trim_end_shape(s.drop_last());
    }
}

proof fn lemma_trim_start_same(s: Seq<char>)
    requires
        trim_start(s).len() == s.len(),
    ensures
        trim_start(s) == s,
{
    if s.len() > 0 && is_white_space(s[0]) {
        lemma_trim_start_shape(s.drop_first());
    }
}

proof fn lemma_lower_idempotent(s: Seq<char>)
    ensures
        ascii_lower(ascii_lower(s)) == ascii_lower(s),
{
    assert forall|i: int| 0 <= i < s.len() implies ascii_lower(ascii_lower(s))[i] == ascii_lower(
        s,
    )[i] by {
        lemma_lower_char(s[i]);
    }
    assert(ascii_lower(ascii_lower(s)) =~= ascii_lower(s));
}

/// Normalizing a wire word (trimming white space, lowering ASCII letters) is
/// idempotent: normalizing again changes nothing.
pub proof fn law_normalization_idempotent(s: Seq<char>)
    ensures
        ascii_lower(trimmed(ascii_lower(trimmed(s)))) == ascii_lower(trimmed(s)),
{
    let t = trimmed(s);
    crate::access::lemma_trimmed_of_trimmed(s);
    lemma_lower_keeps_trim(t);
    lemma_lower_idempotent(t);
}

} // verus!
