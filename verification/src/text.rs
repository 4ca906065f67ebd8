//! Character-level helpers shared by the parsers: searching, splitting,
//! unescaping and trimming.

use vstd::prelude::*;

verus! {

/// Position of the first `c` in `s`, or `s.len()` when `s` holds none.
pub open spec fn first_index(s: Seq<char>, c: char) -> int
    decreases s.len(),
{
    if s.len() == 0 || s[0] == c {
        0
    } else {
        1 + first_index(s.skip(1), c)
    }
}

/// `first_index` is in range, nothing before it is `c`, and it points at a
/// `c` unless it is the length.
pub proof fn lemma_first_index(s: Seq<char>, c: char)
    ensures
        0 <= first_index(s, c) <= s.len(),
        forall|j: int| 0 <= j < first_index(s, c) ==> s[j] != c,
        first_index(s, c) < s.len() ==> s[first_index(s, c)] == c,
    decreases s.len(),
{
    if s.len() > 0 && s[0] != c {
        let rest = s.skip(1);
        lemma_first_index(rest, c);
        let r = first_index(rest, c);
        assert forall|j: int| 0 <= j < r + 1 implies s[j] != c by {
            if j > 0 {
                assert(rest[j - 1] == s[j]);
            }
        }
        if r < rest.len() {
            assert(rest[r] == s[r + 1]);
        }
    }
}

/// A position with the three properties of `lemma_first_index` is the
/// first index.
pub proof fn lemma_first_index_unique(s: Seq<char>, c: char, i: int)
    requires
        0 <= i <= s.len(),
        forall|j: int| 0 <= j < i ==> s[j] != c,
        i < s.len() ==> s[i] == c,
    ensures
        first_index(s, c) == i,
{
    lemma_first_index(s, c);
}

/// The pieces of `s` between occurrences of `sep`. A sequence without
/// `sep` is one piece, so the result is never empty.
pub open spec fn split_spec(s: Seq<char>, sep: char) -> Seq<Seq<char>>
    decreases s.len(),
{
    let i = first_index(s, sep);
    if 0 <= i < s.len() {
        seq![s.take(i)] + split_spec(s.skip(i + 1), sep)
    } else {
        seq![s]
    }
}

/// `s` with every two-character escape `\s` replaced by one space, read
/// from the left without overlap.
pub open spec fn unescape_spec(s: Seq<char>) -> Seq<char>
    decreases s.len(),
{
    if s.len() == 0 {
        Seq::empty()
    } else if s.len() >= 2 && s[0] == '\\' && s[1] == 's' {
        seq![' '] + unescape_spec(s.skip(2))
    } else {
        seq![s[0]] + unescape_spec(s.skip(1))
    }
}

/// `s` without the run of `c` at its end. What stands before that run is
/// kept as it is, `c` included.
pub open spec fn strip_trailing(s: Seq<char>, c: char) -> Seq<char>
    decreases s.len(),
{
    if s.len() > 0 && s.last() == c {
        strip_trailing(s.drop_last(), c)
    } else {
        s
    }
}

/// Stripping cuts nothing but `c` off the end: the result is a prefix of
/// `s`, everything after it is `c`, and it does not end in `c`.
pub proof fn lemma_strip_trailing(s: Seq<char>, c: char)
    ensures
        strip_trailing(s, c).len() <= s.len(),
        strip_trailing(s, c) == s.take(strip_trailing(s, c).len() as int),
        forall|i: int| strip_trailing(s, c).len() <= i < s.len() ==> s[i] == c,
        strip_trailing(s, c).len() > 0 ==> strip_trailing(s, c).last() != c,
    decreases s.len(),
{
    if s.len() > 0 && s.last() == c {
        let front = s.drop_last();
        lemma_strip_trailing(front, c);
        let kept = strip_trailing(front, c);
        assert(front.take(kept.len() as int) == s.take(kept.len() as int));
        assert forall|i: int| kept.len() <= i < s.len() implies s[i] == c by {
            if i < front.len() {
                assert(front[i] == s[i]);
            }
        }
    } else {
        assert(s.take(s.len() as int) == s);
    }
}

/// View of a list of rows of characters.
pub open spec fn rows(v: Seq<Vec<char>>) -> Seq<Seq<char>> {
    v.map_values(|r: Vec<char>| r@)
}

/// The characters of `s`, in order.
pub fn chars_of(s: &str) -> (v: Vec<char>)
    ensures
        v@ == s@,
{
    let mut v: Vec<char> = Vec::new();
    for c in it: s.chars()
        invariant
            it.seq() == s@,
            v@ == it.seq().take(it.index()),
    {
        v.push(c);
    }
    v
}

/// Builds a `String` from characters by collecting an iterator over them
/// (`String: FromIterator<&char>`). Not proved: the string holds exactly
/// these characters, in order.
#[verifier::external_body]
pub(crate) fn string_of(chars: &Vec<char>) -> (s: String)
    ensures
        s@ == chars@,
{
    chars.iter().collect()
}

/// Where the first `c` stands in `s`, if anywhere.
pub fn find(s: &Vec<char>, c: char) -> (r: Option<usize>)
    ensures
        match r {
            Some(i) => i < s.len() && i == first_index(s@, c),
            None => first_index(s@, c) == s.len(),
        },
{
    let mut i: usize = 0;
    while i < s.len()
        invariant
            i <= s.len(),
            forall|j: int| 0 <= j < i ==> s@[j] != c,
        decreases s.len() - i,
    {
        if s[i] == c {
            proof {
                lemma_first_index_unique(s@, c, i as int);
            }
            return Some(i);
        }
        i += 1;
    }
    proof {
        lemma_first_index_unique(s@, c, s.len() as int);
    }
    None
}

/// The characters of `s` from `from` up to, not including, `to`.
pub fn slice(s: &Vec<char>, from: usize, to: usize) -> (r: Vec<char>)
    requires
        from <= to <= s.len(),
    ensures
        r@ == s@.subrange(from as int, to as int),
{
    let mut r: Vec<char> = Vec::new();
    let mut i: usize = from;
    while i < to
        invariant
            from <= i <= to <= s.len(),
            r@ == s@.subrange(from as int, i as int),
        decreases to - i,
    {
        r.push(s[i]);
        i += 1;
    }
    r
}

/// Splits `s` at every `sep`, as `str::split` does for a character.
pub fn split(s: &Vec<char>, sep: char) -> (fields: Vec<Vec<char>>)
    ensures
        rows(fields@) == split_spec(s@, sep),
        fields.len() >= 1,
{
    let mut fields: Vec<Vec<char>> = Vec::new();
    let mut current: Vec<char> = Vec::new();
    let ghost mut start: int = 0;
    let mut i: usize = 0;
    proof {
        assert(s@.skip(0) == s@);
        assert(rows(fields@) + split_spec(s@, sep) == split_spec(s@, sep));
    }
    while i < s.len()
        invariant
            0 <= start <= i <= s.len(),
            current@ == s@.subrange(start, i as int),
            forall|j: int| start <= j < i ==> s@[j] != sep,
            split_spec(s@, sep) == rows(fields@) + split_spec(s@.skip(start), sep),
        decreases s.len() - i,
    {
        let c = s[i];
        if c == sep {
            proof {
                let tail = s@.skip(start);
                lemma_first_index_unique(tail, sep, i - start);
                assert(tail.take(i - start) == s@.subrange(start, i as int));
                assert(tail.skip(i - start + 1) == s@.skip(i + 1));
                assert(rows(fields@.push(current)) == rows(fields@) + seq![current@]);
            }
            fields.push(current);
            current = Vec::new();
            proof {
                start = i + 1;
            }
        } else {
            current.push(c);
        }
        i += 1;
    }
    proof {
        let tail = s@.skip(start);
        lemma_first_index_unique(tail, sep, s.len() - start);
        assert(tail == s@.subrange(start, s.len() as int));
        assert(rows(fields@.push(current)) == rows(fields@) + seq![current@]);
    }
    fields.push(current);
    fields
}

/// Replaces every escape `\s` in `s` by a space.
pub fn unescape(s: &Vec<char>) -> (r: Vec<char>)
    ensures
        r@ == unescape_spec(s@),
{
    let mut r: Vec<char> = Vec::new();
    let mut i: usize = 0;
    proof {
        assert(s@.skip(0) == s@);
        assert(r@ + unescape_spec(s@) == unescape_spec(s@));
    }
    while i < s.len()
        invariant
            i <= s.len(),
            unescape_spec(s@) == r@ + unescape_spec(s@.skip(i as int)),
        decreases s.len() - i,
    {
        let ghost tail = s@.skip(i as int);
        if s[i] == '\\' && i + 1 < s.len() && s[i + 1] == 's' {
            proof {
                assert(tail[0] == s@[i as int] && tail[1] == s@[i + 1]);
                assert(tail.skip(2) == s@.skip(i + 2));
                assert(r@.push(' ') + unescape_spec(tail.skip(2)) == r@ + (seq![' ']
                    + unescape_spec(tail.skip(2))));
            }
            r.push(' ');
            i += 2;
        } else {
            proof {
                assert(tail[0] == s@[i as int]);
                if tail.len() >= 2 {
                    assert(tail[1] == s@[i + 1]);
                }
                assert(tail.skip(1) == s@.skip(i + 1));
                assert(r@.push(tail[0]) + unescape_spec(tail.skip(1)) == r@ + (seq![tail[0]]
                    + unescape_spec(tail.skip(1))));
            }
            r.push(s[i]);
            i += 1;
        }
    }
    proof {
        assert(s@.skip(i as int).len() == 0);
        assert(r@ + Seq::<char>::empty() == r@);
    }
    r
}

/// Cuts the run of `c` off the end of `s`.
pub fn trim_end(s: &Vec<char>, c: char) -> (r: Vec<char>)
    ensures
        r@ == strip_trailing(s@, c),
{
    let mut end: usize = s.len();
    proof {
        assert(s@.take(s.len() as int) == s@);
    }
    while end > 0 && s[end - 1] == c
        invariant
            end <= s.len(),
            strip_trailing(s@, c) == strip_trailing(s@.take(end as int), c),
        decreases end,
    {
        proof {
            assert(s@.take(end as int).drop_last() == s@.take(end - 1));
        }
        end -= 1;
    }
    slice(s, 0, end)
}

} // verus!
