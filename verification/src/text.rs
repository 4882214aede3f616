//! Character-level building blocks: white space, trimming, searching and
//! splitting, each as a definition over `Seq<char>` and a function on `&str`
//! proved against it.

use vstd::prelude::*;

verus! {

/// Whether `c` carries the Unicode `White_Space` property.
pub open spec fn is_space(c: char) -> bool {
    ||| ('\u{9}' <= c && c <= '\u{d}')
    ||| c == ' '
    ||| c == '\u{85}'
    ||| c == '\u{a0}'
    ||| c == '\u{1680}'
    ||| ('\u{2000}' <= c && c <= '\u{200a}')
    ||| c == '\u{2028}'
    ||| c == '\u{2029}'
    ||| c == '\u{202f}'
    ||| c == '\u{205f}'
    ||| c == '\u{3000}'
}

/// Whether `c` is white space.
pub fn char_is_space(c: char) -> (r: bool)
    ensures
        r == is_space(c),
{
    ('\u{9}' <= c && c <= '\u{d}') || c == ' ' || c == '\u{85}' || c == '\u{a0}' || c
        == '\u{1680}' || ('\u{2000}' <= c && c <= '\u{200a}') || c == '\u{2028}' || c
        == '\u{2029}' || c == '\u{202f}' || c == '\u{205f}' || c == '\u{3000}'
}

/// The index of the first character at or after `from` that is not white
/// space, or `s.len()` where only white space follows.
pub open spec fn skip_spaces(s: Seq<char>, from: int) -> int
    decreases s.len() - from,
{
    if 0 <= from < s.len() && is_space(s[from]) {
        skip_spaces(s, from + 1)
    } else {
        from
    }
}

/// Where `s[..to]` ends once the white space at its end is dropped.
pub open spec fn drop_spaces(s: Seq<char>, to: int) -> int
    decreases to,
{
    if 0 < to <= s.len() && is_space(s[to - 1]) {
        drop_spaces(s, to - 1)
    } else {
        to
    }
}

/// `s` without the white space at its two ends.
pub open spec fn trimmed(s: Seq<char>) -> Seq<char> {
    let a = skip_spaces(s, 0);
    let b = drop_spaces(s, s.len() as int);
    if a < b {
        s.subrange(a, b)
    } else {
        Seq::empty()
    }
}

/// `skip_spaces` passes over white space only, and stops at the first
/// character that is none.
pub proof fn lemma_skip_spaces(s: Seq<char>, from: int)
    requires
        0 <= from <= s.len(),
    ensures
        from <= skip_spaces(s, from) <= s.len(),
        forall|i: int| from <= i < skip_spaces(s, from) ==> is_space(#[trigger] s[i]),
        skip_spaces(s, from) < s.len() ==> !is_space(s[skip_spaces(s, from)]),
    decreases s.len() - from,
{
    if from < s.len() && is_space(s[from]) {
        lemma_skip_spaces(s, from + 1);
    }
}

/// `drop_spaces` drops white space only, and stops behind the last
/// character that is none.
pub proof fn lemma_drop_spaces(s: Seq<char>, to: int)
    requires
        0 <= to <= s.len(),
    ensures
        0 <= drop_spaces(s, to) <= to,
        forall|i: int| drop_spaces(s, to) <= i < to ==> is_space(#[trigger] s[i]),
        drop_spaces(s, to) > 0 ==> !is_space(s[drop_spaces(s, to) - 1]),
    decreases to,
{
    if 0 < to && is_space(s[to - 1]) {
        lemma_drop_spaces(s, to - 1);
    }
}

/// Trimming is determined by its result: between white space on both sides,
/// a core that neither starts nor ends with white space is what `trimmed`
/// gives.
pub proof fn lemma_trimmed_is(s: Seq<char>, a: int, b: int)
    requires
        0 <= a <= b <= s.len(),
        forall|i: int| 0 <= i < a ==> is_space(#[trigger] s[i]),
        forall|i: int| b <= i < s.len() ==> is_space(#[trigger] s[i]),
        a < b ==> !is_space(s[a]) && !is_space(s[b - 1]),
    ensures
        trimmed(s) == s.subrange(a, b),
{
    lemma_skip_spaces(s, 0);
    lemma_drop_spaces(s, s.len() as int);
    let x = skip_spaces(s, 0);
    let y = drop_spaces(s, s.len() as int);
    if a < b {
        assert(x == a) by {
            if x < a {
                assert(is_space(s[x]));
            }
            if x > a {
                assert(is_space(s[a]));
            }
        }
        assert(y == b) by {
            if y > b {
                assert(is_space(s[y - 1]));
            }
            if y < b {
                assert(is_space(s[b - 1]));
            }
        }
    } else {
        assert(x == s.len()) by {
            if x < s.len() {
                assert(is_space(s[x]));
            }
        }
        assert(s.subrange(a, b) =~= Seq::<char>::empty());
    }
}

/// What `trimmed` gives has no white space at either end, and trimming it
/// again changes nothing.
pub proof fn lemma_trimmed_ends(s: Seq<char>)
    ensures
        trimmed(s).len() > 0 ==> !is_space(trimmed(s)[0]) && !is_space(trimmed(s).last()),
        trimmed(trimmed(s)) == trimmed(s),
        trimmed(s).len() <= s.len(),
{
    lemma_skip_spaces(s, 0);
    lemma_drop_spaces(s, s.len() as int);
    let t = trimmed(s);
    lemma_trimmed_is(t, 0, t.len() as int);
    assert(t.subrange(0, t.len() as int) =~= t);
}

/// The index of the first `c` in `s` at or after `from`, or `s.len()` where
/// there is none.
pub open spec fn find_char(s: Seq<char>, c: char, from: int) -> int
    decreases s.len() - from,
{
    if 0 <= from < s.len() && s[from] != c {
        find_char(s, c, from + 1)
    } else if from < s.len() {
        from
    } else {
        s.len() as int
    }
}

/// No `c` stands between `from` and what `find_char` gives, and where that
/// is inside the text a `c` stands there.
pub proof fn lemma_find_char(s: Seq<char>, c: char, from: int)
    requires
        0 <= from <= s.len(),
    ensures
        from <= find_char(s, c, from) <= s.len(),
        forall|i: int| from <= i < find_char(s, c, from) ==> #[trigger] s[i] != c,
        find_char(s, c, from) < s.len() ==> s[find_char(s, c, from)] == c,
    decreases s.len() - from,
{
    if from < s.len() && s[from] != c {
        lemma_find_char(s, c, from + 1);
    }
}

/// `find_char` is the one index that holds `c` with no `c` before it.
pub proof fn lemma_find_char_is(s: Seq<char>, c: char, from: int, at: int)
    requires
        0 <= from <= at <= s.len(),
        forall|i: int| from <= i < at ==> #[trigger] s[i] != c,
        at < s.len() ==> s[at] == c,
    ensures
        find_char(s, c, from) == at,
    decreases at - from,
{
    if from < at {
        assert(s[from] != c);
        lemma_find_char_is(s, c, from + 1, at);
    }
}

/// The index of the first white space in `s` at or after `from`, or
/// `s.len()` where there is none.
pub open spec fn find_space(s: Seq<char>, from: int) -> int
    decreases s.len() - from,
{
    if 0 <= from < s.len() && !is_space(s[from]) {
        find_space(s, from + 1)
    } else if from < s.len() {
        from
    } else {
        s.len() as int
    }
}

/// No white space stands between `from` and what `find_space` gives, and
/// where that is inside the text white space stands there.
pub proof fn lemma_find_space(s: Seq<char>, from: int)
    requires
        0 <= from <= s.len(),
    ensures
        from <= find_space(s, from) <= s.len(),
        forall|i: int| from <= i < find_space(s, from) ==> !is_space(#[trigger] s[i]),
        find_space(s, from) < s.len() ==> is_space(s[find_space(s, from)]),
    decreases s.len() - from,
{
    if from < s.len() && !is_space(s[from]) {
        lemma_find_space(s, from + 1);
    }
}

/// The index of the first `::` in `s` at or after `from`, or `s.len()`
/// where there is none.
pub open spec fn find_path_sep(s: Seq<char>, from: int) -> int
    decreases s.len() - from,
{
    if 0 <= from && from + 1 < s.len() {
        if s[from] == ':' && s[from + 1] == ':' {
            from
        } else {
            find_path_sep(s, from + 1)
        }
    } else {
        s.len() as int
    }
}

/// No `::` starts between `from` and what `find_path_sep` gives, and where
/// that is inside the text a `::` starts there.
pub proof fn lemma_find_path_sep(s: Seq<char>, from: int)
    requires
        0 <= from <= s.len(),
    ensures
        from <= find_path_sep(s, from) <= s.len(),
        find_path_sep(s, from) < s.len() ==> find_path_sep(s, from) + 1 < s.len() && s[find_path_sep(
            s,
            from,
        )] == ':' && s[find_path_sep(s, from) + 1] == ':',
        forall|i: int|
            from <= i < find_path_sep(s, from) && i + 1 < s.len() ==> !(#[trigger] s[i] == ':' && s[i
                + 1] == ':'),
    decreases s.len() - from,
{
    if from + 1 < s.len() {
        if !(s[from] == ':' && s[from + 1] == ':') {
            lemma_find_path_sep(s, from + 1);
        }
    }
}

/// The pieces of `s[from..]` between occurrences of `sep`. A text without
/// `sep` is one piece; a text that ends in `sep` ends in an empty piece.
pub open spec fn pieces(s: Seq<char>, sep: char, from: int) -> Seq<Seq<char>>
    decreases s.len() - from,
{
    let i = find_char(s, sep, from);
    if 0 <= from <= i < s.len() {
        seq![s.subrange(from, i)] + pieces(s, sep, i + 1)
    } else {
        seq![s.subrange(from, s.len() as int)]
    }
}

/// `s` cut at every `sep`.
pub open spec fn split(s: Seq<char>, sep: char) -> Seq<Seq<char>> {
    pieces(s, sep, 0)
}

/// `s` without one carriage return at its end.
pub open spec fn without_cr(s: Seq<char>) -> Seq<char> {
    if s.len() > 0 && s.last() == '\r' {
        s.drop_last()
    } else {
        s
    }
}

/// The lines of `s[from..]`. A line ends at a line feed, or at a carriage
/// return directly before one; neither belongs to the line. What follows
/// the last line feed is a line unless it is empty.
pub open spec fn lines_from(s: Seq<char>, from: int) -> Seq<Seq<char>>
    decreases s.len() - from,
{
    let i = find_char(s, '\n', from);
    if 0 <= from <= i < s.len() {
        seq![without_cr(s.subrange(from, i))] + lines_from(s, i + 1)
    } else if 0 <= from < s.len() {
        seq![s.subrange(from, s.len() as int)]
    } else {
        Seq::empty()
    }
}

/// The lines of `s`.
pub open spec fn lines(s: Seq<char>) -> Seq<Seq<char>> {
    lines_from(s, 0)
}

/// The lower-case form of an ASCII capital; any other character unchanged.
pub open spec fn ascii_lower(c: char) -> char {
    if 'A' <= c && c <= 'Z' {
        ((c as u8) + 32) as char
    } else {
        c
    }
}

/// Whether `a` and `b` are the same but for the case of ASCII letters.
pub open spec fn same_ignoring_case(a: Seq<char>, b: Seq<char>) -> bool {
    &&& a.len() == b.len()
    &&& forall|i: int| 0 <= i < a.len() ==> ascii_lower(#[trigger] a[i]) == ascii_lower(b[i])
}

/// The texts that a vector of slices holds.
pub open spec fn views(v: Seq<&str>) -> Seq<Seq<char>> {
    Seq::new(v.len(), |i: int| v[i]@)
}

/// The texts that a vector of strings holds.
pub open spec fn texts(v: Seq<String>) -> Seq<Seq<char>> {
    Seq::new(v.len(), |i: int| v[i]@)
}

/// `String::push`: the text with `c` at its end.
pub assume_specification[ std::string::String::push ](text: &mut std::string::String, c: char)
    ensures
        final(text)@ == old(text)@.push(c),
;

/// The characters of `s`.
pub fn to_chars(s: &str) -> (v: Vec<char>)
    ensures
        v@ == s@,
{
    let mut v: Vec<char> = Vec::new();
    for c in it: s.chars()
        invariant
            v@ == it.seq().take(it.index() as int),
            it.seq() == s@,
    {
        v.push(c);
    }
    v
}

/// The lower-case form of an ASCII capital; any other character unchanged.
pub fn lower_char(c: char) -> (r: char)
    ensures
        r == ascii_lower(c),
{
    if 'A' <= c && c <= 'Z' {
        ((c as u8) + 32) as char
    } else {
        c
    }
}

/// Whether `v` holds exactly the characters of `text`.
pub fn chars_are(v: &Vec<char>, text: &str) -> (r: bool)
    ensures
        r == (v@ == text@),
{
    let t = to_chars(text);
    if v.len() != t.len() {
        return false;
    }
    let mut i: usize = 0;
    while i < v.len()
        invariant
            t@ == text@,
            v.len() == t.len(),
            i <= v.len(),
            forall|j: int| 0 <= j < i ==> v@[j] == t@[j],
        decreases v.len() - i,
    {
        if v[i] != t[i] {
            return false;
        }
        i += 1;
    }
    assert(v@ =~= text@);
    true
}

/// Whether `v` holds the characters of `text` but for the case of ASCII
/// letters.
pub fn chars_are_ignoring_case(v: &Vec<char>, text: &str) -> (r: bool)
    ensures
        r == same_ignoring_case(v@, text@),
{
    let t = to_chars(text);
    if v.len() != t.len() {
        return false;
    }
    let mut i: usize = 0;
    while i < v.len()
        invariant
            t@ == text@,
            v.len() == t.len(),
            i <= v.len(),
            forall|j: int| 0 <= j < i ==> ascii_lower(#[trigger] v@[j]) == ascii_lower(t@[j]),
        decreases v.len() - i,
    {
        if lower_char(v[i]) != lower_char(t[i]) {
            return false;
        }
        i += 1;
    }
    true
}

/// Whether the two texts hold the same characters.
pub fn same_text(a: &str, b: &str) -> (r: bool)
    ensures
        r == (a@ == b@),
{
    let v = to_chars(a);
    chars_are(&v, b)
}

/// The index of the first `c` in `v` at or after `from`, or `v.len()`.
pub fn position(v: &Vec<char>, c: char, from: usize) -> (r: usize)
    requires
        from <= v.len(),
    ensures
        r == find_char(v@, c, from as int),
        from <= r <= v.len(),
{
    let mut i = from;
    while i < v.len() && v[i] != c
        invariant
            from <= i <= v.len(),
            find_char(v@, c, from as int) == find_char(v@, c, i as int),
        decreases v.len() - i,
    {
        i += 1;
    }
    i
}

/// The index of the first white space in `v` at or after `from`, or
/// `v.len()`.
pub fn space_position(v: &Vec<char>, from: usize) -> (r: usize)
    requires
        from <= v.len(),
    ensures
        r == find_space(v@, from as int),
        from <= r <= v.len(),
{
    let mut i = from;
    while i < v.len() && !char_is_space(v[i])
        invariant
            from <= i <= v.len(),
            find_space(v@, from as int) == find_space(v@, i as int),
        decreases v.len() - i,
    {
        i += 1;
    }
    i
}

/// The index of the first `::` in `v`, or `v.len()`.
pub fn path_sep_position(v: &Vec<char>) -> (r: usize)
    ensures
        r == find_path_sep(v@, 0),
        r <= v.len(),
        r < v.len() ==> r + 1 < v.len(),
{
    let n = v.len();
    let mut i: usize = 0;
    while i < n && i + 1 < n
        invariant
            n == v.len(),
            i <= n,
            find_path_sep(v@, 0) == find_path_sep(v@, i as int),
        decreases n - i,
    {
        if v[i] == ':' && v[i + 1] == ':' {
            return i;
        }
        i += 1;
    }
    n
}

/// `s` without the white space at its two ends.
pub fn trim(s: &str) -> (r: &str)
    ensures
        r@ == trimmed(s@),
{
    let v = to_chars(s);
    let n = v.len();
    let mut a: usize = 0;
    while a < n && char_is_space(v[a])
        invariant
            v@ == s@,
            n == v.len(),
            a <= n,
            skip_spaces(s@, 0) == skip_spaces(s@, a as int),
        decreases n - a,
    {
        a += 1;
    }
    if a == n {
        proof {
            lemma_drop_spaces(s@, n as int);
            assert(s@.subrange(n as int, n as int) =~= Seq::<char>::empty());
        }
        return s.substring_char(n, n);
    }
    let mut b: usize = n;
    while char_is_space(v[b - 1])
        invariant
            v@ == s@,
            n == v.len(),
            a < b <= n,
            !is_space(s@[a as int]),
            drop_spaces(s@, n as int) == drop_spaces(s@, b as int),
        decreases b,
    {
        b -= 1;
    }
    s.substring_char(a, b)
}

/// `s` cut at every `sep`.
pub fn split_at_each(s: &str, sep: char) -> (r: Vec<&str>)
    ensures
        views(r@) == split(s@, sep),
{
    let v = to_chars(s);
    let n = v.len();
    let mut out: Vec<&str> = Vec::new();
    let mut from: usize = 0;
    loop
        invariant
            v@ == s@,
            n == v.len(),
            from <= n,
            split(s@, sep) == views(out@) + pieces(s@, sep, from as int),
        decreases n - from,
    {
        let i = position(&v, sep, from);
        let ghost before = out@;
        if i < n {
            out.push(s.substring_char(from, i));
            proof {
                assert(views(out@) =~= views(before) + seq![s@.subrange(from as int, i as int)]);
                assert(views(out@) + pieces(s@, sep, i + 1) =~= views(before) + pieces(
                    s@,
                    sep,
                    from as int,
                ));
            }
            from = i + 1;
        } else {
            out.push(s.substring_char(from, n));
            proof {
                assert(views(out@) =~= views(before) + pieces(s@, sep, from as int));
            }
            return out;
        }
    }
}

/// A copy of the characters `v[from..to]`.
pub fn text_of(v: &Vec<char>, from: usize, to: usize) -> (r: String)
    requires
        from <= to <= v.len(),
    ensures
        r@ == v@.subrange(from as int, to as int),
{
    let mut r = String::new();
    let mut i = from;
    while i < to
        invariant
            from <= i <= to <= v.len(),
            r@ == v@.subrange(from as int, i as int),
        decreases to - i,
    {
        r.push(v[i]);
        assert(r@ =~= v@.subrange(from as int, i + 1));
        i += 1;
    }
    r
}

/// The lines of `s`.
pub fn split_lines(s: &str) -> (r: Vec<String>)
    ensures
        texts(r@) == lines(s@),
{
    let v = to_chars(s);
    let n = v.len();
    let mut out: Vec<String> = Vec::new();
    let mut from: usize = 0;
    while from < n
        invariant
            v@ == s@,
            n == v.len(),
            from <= n,
            lines(s@) == texts(out@) + lines_from(s@, from as int),
        decreases n - from,
    {
        let i = position(&v, '\n', from);
        let ghost before = out@;
        if i < n {
            let end = if i > from && v[i - 1] == '\r' {
                i - 1
            } else {
                i
            };
            out.push(text_of(&v, from, end));
            proof {
                let piece = s@.subrange(from as int, i as int);
                assert(without_cr(piece) =~= s@.subrange(from as int, end as int));
                assert(texts(out@) =~= texts(before) + seq![without_cr(piece)]);
                assert(texts(out@) + lines_from(s@, i + 1) =~= texts(before) + lines_from(
                    s@,
                    from as int,
                ));
            }
            from = i + 1;
        } else {
            out.push(text_of(&v, from, n));
            proof {
                assert(texts(out@) =~= texts(before) + lines_from(s@, from as int));
            }
            return out;
        }
    }
    proof {
        assert(lines_from(s@, from as int) =~= Seq::<Seq<char>>::empty());
        assert(texts(out@) + Seq::<Seq<char>>::empty() =~= texts(out@));
    }
    out
}

} // verus!
