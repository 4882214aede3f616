//! The grammar of a line: where its comment starts, how an assignment
//! splits into key and value, and how a value sheds its quotes.

use crate::aaml::AAML;
use crate::text::{
    find_char, is_space, lemma_drop_spaces, lemma_find_char_is, lemma_skip_spaces,
    lemma_trimmed_is, position, skip_spaces, drop_spaces, to_chars, trim, trimmed,
};
use vstd::prelude::*;

verus! {

/// Whether `c` is one of the two quote characters, `"` and `'`.
pub open spec fn is_quote(c: char) -> bool {
    c == '"' || c == '\''
}

/// The index, at or after `from`, of the `#` that starts the comment of
/// `line`, or `line.len()` where there is none. `quote` is the quote
/// character that is open at `from`, if one is. A quote character opens a
/// quoted span, which the same character closes; inside it a `#` starts
/// nothing, and the other quote character neither opens nor closes.
pub open spec fn comment_start(line: Seq<char>, from: int, quote: Option<char>) -> int
    decreases line.len() - from,
{
    if 0 <= from < line.len() {
        let c = line[from];
        match quote {
            None => if c == '#' {
                from
            } else if is_quote(c) {
                comment_start(line, from + 1, Some(c))
            } else {
                comment_start(line, from + 1, None)
            },
            Some(q) => if c == q {
                comment_start(line, from + 1, None)
            } else {
                comment_start(line, from + 1, quote)
            },
        }
    } else {
        line.len() as int
    }
}

/// `line` without its comment.
pub open spec fn without_comment(line: Seq<char>) -> Seq<char> {
    line.subrange(0, comment_start(line, 0, None))
}

/// Whether `s` stands between two quote characters of one kind.
pub open spec fn is_quoted(s: Seq<char>) -> bool {
    s.len() >= 2 && is_quote(s[0]) && s.last() == s[0]
}

/// `s` without the white space around it and, where what is left stands
/// between two quote characters of one kind, without those two. Quotes
/// further in stay.
pub open spec fn unquoted(s: Seq<char>) -> Seq<char> {
    let t = trimmed(s);
    if is_quoted(t) {
        t.subrange(1, t.len() - 1)
    } else {
        t
    }
}

/// The key and the value of the assignment `line`, or the reason why
/// `line` is none. The first `=` parts key from value. The key is what
/// stands before it, without the white space around it, and is not empty;
/// the value is what stands behind it, unquoted.
pub open spec fn assignment(line: Seq<char>) -> Result<(Seq<char>, Seq<char>), Seq<char>> {
    let at = find_char(line, '=', 0);
    let key = trimmed(line.subrange(0, at));
    if at >= line.len() {
        Err("Missing assignment operator '='"@)
    } else if key.len() == 0 {
        Err("Key cannot be empty"@)
    } else {
        Ok((key, unquoted(line.subrange(at + 1, line.len() as int))))
    }
}

/// The line that assigns `value` to `key`.
pub open spec fn assignment_line(key: Seq<char>, value: Seq<char>) -> Seq<char> {
    key + " = "@ + value
}

/// A comment starts inside the line or not at all, and where it starts
/// there is a `#`.
pub proof fn lemma_comment_start(line: Seq<char>, from: int, quote: Option<char>)
    requires
        0 <= from <= line.len(),
    ensures
        from <= comment_start(line, from, quote) <= line.len(),
        comment_start(line, from, quote) < line.len() ==> line[comment_start(line, from, quote)]
            == '#',
    decreases line.len() - from,
{
    if from < line.len() {
        let c = line[from];
        match quote {
            None => {
                if c == '#' {
                } else if is_quote(c) {
                    lemma_comment_start(line, from + 1, Some(c));
                } else {
                    lemma_comment_start(line, from + 1, None);
                }
            },
            Some(q) => {
                if c == q {
                    lemma_comment_start(line, from + 1, None);
                } else {
                    lemma_comment_start(line, from + 1, quote);
                }
            },
        }
    }
}

/// A line without `#` has no comment.
pub proof fn lemma_no_hash_no_comment(line: Seq<char>, from: int, quote: Option<char>)
    requires
        0 <= from <= line.len(),
        forall|i: int| from <= i < line.len() ==> #[trigger] line[i] != '#',
    ensures
        comment_start(line, from, quote) == line.len(),
    decreases line.len() - from,
{
    if from < line.len() {
        let c = line[from];
        assert(line[from] != '#');
        match quote {
            None => {
                if is_quote(c) {
                    lemma_no_hash_no_comment(line, from + 1, Some(c));
                } else {
                    lemma_no_hash_no_comment(line, from + 1, None);
                }
            },
            Some(q) => {
                if c == q {
                    lemma_no_hash_no_comment(line, from + 1, None);
                } else {
                    lemma_no_hash_no_comment(line, from + 1, quote);
                }
            },
        }
    }
}

/// White space put around a text does not change what trimming leaves of
/// it.
pub proof fn lemma_trimmed_padded(before: Seq<char>, s: Seq<char>, after: Seq<char>)
    requires
        forall|i: int| 0 <= i < before.len() ==> is_space(#[trigger] before[i]),
        forall|i: int| 0 <= i < after.len() ==> is_space(#[trigger] after[i]),
    ensures
        trimmed(before + s + after) == trimmed(s),
{
    let whole = before + s + after;
    let a = skip_spaces(s, 0);
    let b = drop_spaces(s, s.len() as int);
    lemma_skip_spaces(s, 0);
    lemma_drop_spaces(s, s.len() as int);
    let p = before.len() as int;
    assert forall|i: int| 0 <= i < whole.len() implies #[trigger] whole[i] == (if i < p {
        before[i]
    } else if i < p + s.len() {
        s[i - p]
    } else {
        after[i - p - s.len()]
    }) by {}
    if a < b {
        assert forall|i: int| 0 <= i < p + a implies is_space(#[trigger] whole[i]) by {
            if i >= p {
                assert(is_space(s[i - p]));
            }
        }
        assert forall|i: int| p + b <= i < whole.len() implies is_space(#[trigger] whole[i]) by {
            if i < p + s.len() {
                assert(is_space(s[i - p]));
            }
        }
        lemma_trimmed_is(whole, p + a, p + b);
        assert(whole.subrange(p + a, p + b) =~= s.subrange(a, b));
    } else {
        assert(a == s.len()) by {
            if a < s.len() {
                assert(b >= a + 1) by {
                    if b <= a {
                        assert(is_space(s[a]));
                    }
                }
            }
        }
        assert forall|i: int| 0 <= i < whole.len() implies is_space(#[trigger] whole[i]) by {
            if p <= i < p + s.len() {
                assert(is_space(s[i - p]));
            }
        }
        lemma_trimmed_is(whole, 0, 0);
        assert(whole.subrange(0, 0) =~= Seq::<char>::empty());
    }
}

/// What is assembled as `key = value` is read back as that key and that
/// value: for every key without `=` that is more than white space, and
/// every value, if the line has no comment, it is the assignment of the
/// unquoted value to the trimmed key.
pub proof fn lemma_assignment_round_trip(key: Seq<char>, value: Seq<char>)
    requires
        forall|i: int| 0 <= i < key.len() ==> #[trigger] key[i] != '=',
        trimmed(key).len() > 0,
        comment_start(assignment_line(key, value), 0, None) == assignment_line(key, value).len(),
    ensures
        assignment(without_comment(assignment_line(key, value))) == Ok::<
            (Seq<char>, Seq<char>),
            Seq<char>,
        >((trimmed(key), unquoted(value))),
{
    reveal_strlit(" = ");
    let line = assignment_line(key, value);
    let n = key.len() as int;
    assert(without_comment(line) =~= line);
    assert(" = "@ =~= seq![' ', '=', ' ']);
    assert(line.len() == n + 3 + value.len());
    assert forall|i: int| 0 <= i < n implies #[trigger] line[i] != '=' by {
        assert(line[i] == key[i]);
    }
    assert(line[n] == ' ');
    assert(line[n + 1] == '=');
    assert forall|i: int| 0 <= i < n + 1 implies #[trigger] line[i] != '=' by {
        if i < n {
            assert(line[i] == key[i]);
        }
    }
    lemma_find_char_is(line, '=', 0, n + 1);
    let space = seq![' '];
    let none = Seq::<char>::empty();
    assert(line.subrange(0, n + 1) =~= none + key + space);
    assert(line.subrange(n + 2, line.len() as int) =~= space + value + none);
    lemma_trimmed_padded(none, key, space);
    lemma_trimmed_padded(space, value, none);
}

/// The key of an assignment holds no `=`, has no white space at its ends
/// and is not empty.
pub proof fn lemma_key_is_clean(line: Seq<char>)
    requires
        assignment(line) is Ok,
    ensures
        ({
            let key = assignment(line)->Ok_0.0;
            &&& key.len() > 0
            &&& trimmed(key) == key
            &&& forall|i: int| 0 <= i < key.len() ==> #[trigger] key[i] != '='
        }),
{
    let at = find_char(line, '=', 0);
    let before = line.subrange(0, at);
    let key = trimmed(before);
    crate::text::lemma_find_char(line, '=', 0);
    crate::text::lemma_trimmed_ends(before);
    lemma_skip_spaces(before, 0);
    lemma_drop_spaces(before, before.len() as int);
    let a = skip_spaces(before, 0);
    assert forall|i: int| 0 <= i < key.len() implies #[trigger] key[i] != '=' by {
        assert(key[i] == before[a + i]);
        assert(before[a + i] == line[a + i]);
    }
}

/// What a line was read as is read again from the line assembled of it:
/// where `line` is the assignment of `value` to `key`, and `value` is as
/// it would be unquoted, the line `key = value`, if it has no comment, is
/// the same assignment.
pub proof fn lemma_assignment_reads_back(line: Seq<char>, key: Seq<char>, value: Seq<char>)
    requires
        assignment(line) == Ok::<(Seq<char>, Seq<char>), Seq<char>>((key, value)),
        unquoted(value) == value,
        comment_start(assignment_line(key, value), 0, None) == assignment_line(key, value).len(),
    ensures
        assignment(without_comment(assignment_line(key, value))) == Ok::<
            (Seq<char>, Seq<char>),
            Seq<char>,
        >((key, value)),
{
    lemma_key_is_clean(line);
    lemma_assignment_round_trip(key, value);
}

impl AAML {
    /// `line` without its comment: what stands before the first `#` that is
    /// not inside quotes.
    pub fn strip_comment(line: &str) -> (r: &str)
        ensures
            r@ == without_comment(line@),
    {
        let v = to_chars(line);
        let n = v.len();
        let mut quote: Option<char> = None;
        let mut i: usize = 0;
        while i < n
            invariant
                v@ == line@,
                n == v.len(),
                i <= n,
                comment_start(line@, 0, None) == comment_start(line@, i as int, quote),
            decreases n - i,
        {
            let c = v[i];
            match quote {
                None => {
                    if c == '#' {
                        return line.substring_char(0, i);
                    } else if c == '"' || c == '\'' {
                        quote = Some(c);
                    }
                },
                Some(q) => {
                    if c == q {
                        quote = None;
                    }
                },
            }
            i += 1;
        }
        line.substring_char(0, n)
    }

    /// The key and the value of the assignment `line`, or the reason why
    /// `line` is none.
    pub fn parse_assignment(line: &str) -> (r: Result<(&str, &str), &'static str>)
        ensures
            match r {
                Ok((key, value)) => assignment(line@) == Ok::<(Seq<char>, Seq<char>), Seq<char>>(
                    (key@, value@),
                ),
                Err(reason) => assignment(line@) == Err::<(Seq<char>, Seq<char>), Seq<char>>(
                    reason@,
                ),
            },
    {
        let v = to_chars(line);
        let n = v.len();
        let at = position(&v, '=', 0);
        if at >= n {
            return Err("Missing assignment operator '='");
        }
        let key = trim(line.substring_char(0, at));
        if key.unicode_len() == 0 {
            return Err("Key cannot be empty");
        }
        let value = Self::unwrap_quotes(line.substring_char(at + 1, n));
        Ok((key, value))
    }

    /// `s` without the white space around it and without one pair of
    /// quotes around that.
    pub fn unwrap_quotes(s: &str) -> (r: &str)
        ensures
            r@ == unquoted(s@),
    {
        let t = trim(s);
        let v = to_chars(t);
        let n = v.len();
        if n >= 2 && (v[0] == '"' || v[0] == '\'') && v[n - 1] == v[0] {
            t.substring_char(1, n - 1)
        } else {
            t
        }
    }
}

} // verus!
