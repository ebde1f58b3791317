//! Splitting exercise sources into lines, as `str::lines` does.

use vstd::prelude::*;

verus! {

/// Splits `s` at every `'\n'`; always yields at least one part.
pub open spec fn split_newlines(s: Seq<char>) -> Seq<Seq<char>>
    decreases s.len(),
{
    if s.len() == 0 {
        seq![Seq::<char>::empty()]
    } else {
        let parts = split_newlines(s.drop_last());
        if s.last() == '\n' {
            parts.push(Seq::<char>::empty())
        } else {
            parts.update(parts.len() - 1, parts.last().push(s.last()))
        }
    }
}

/// Removes one trailing carriage return, if there is one.
pub open spec fn strip_cr(line: Seq<char>) -> Seq<char> {
    if line.len() > 0 && line.last() == '\r' {
        line.drop_last()
    } else {
        line
    }
}

/// The lines of `s`: split at `'\n'`, an optional final terminator
/// ignored, and the `'\r'` of a `"\r\n"` terminator removed.
pub open spec fn lines_of(s: Seq<char>) -> Seq<Seq<char>> {
    let parts = split_newlines(s);
    let terminated = parts.drop_last().map_values(|l: Seq<char>| strip_cr(l));
    if parts.last().len() == 0 {
        terminated
    } else {
        terminated.push(parts.last())
    }
}

proof fn lemma_split_nonempty(s: Seq<char>)
    ensures
        split_newlines(s).len() >= 1,
    decreases s.len(),
{
    if s.len() > 0 {
        lemma_split_nonempty(s.drop_last());
    }
}

/// Splits `source` into its lines.
pub fn split_lines(source: &str) -> (lines: Vec<String>)
    ensures
        lines@.map_values(|l: String| l@) == lines_of(source@),
{
    let n = source.unicode_len();
    let mut lines: Vec<String> = Vec::new();
    let mut start: usize = 0;
    let mut i: usize = 0;
    while i < n
        invariant
            n == source@.len(),
            start <= i <= n,
            ({
                let parts = split_newlines(source@.take(i as int));
                &&& lines@.len() + 1 == parts.len()
                &&& forall|j: int| 0 <= j < lines@.len() ==> #[trigger] lines@[j]@ == strip_cr(parts[j])
                &&& parts.last() == source@.subrange(start as int, i as int)
            }),
        decreases n - i,
    {
        proof { lemma_split_nonempty(source@.take(i as int)); }
        let c = source.get_char(i);
        assert(source@.take(i + 1).drop_last() == source@.take(i as int));
        if c == '\n' {
            let end: usize = if i > start && source.get_char(i - 1) == '\r' { i - 1 } else { i };
            let piece = source.substring_char(start, end);
            lines.push(piece.to_owned());
            start = i + 1;
        }
        i = i + 1;
    }
    proof { lemma_split_nonempty(source@); }
    assert(source@.take(n as int) == source@);
    let ghost parts = split_newlines(source@);
    if start < n {
        let piece = source.substring_char(start, n);
        lines.push(piece.to_owned());
    }
    assert(lines@.map_values(|l: String| l@) =~= lines_of(source@));
    lines
}

} // verus!

verus! {

/// Whether two strings hold the same characters.
pub fn same_text(a: &str, b: &str) -> (eq: bool)
    ensures
        eq == (a@ == b@),
{
    let x = String::from_str(a);
    let y = String::from_str(b);
    x == y
}

/// `s` followed by enough spaces to make it `width` characters long.
pub open spec fn padded(s: Seq<char>, width: nat) -> Seq<char> {
    if s.len() < width {
        s + Seq::new((width - s.len()) as nat, |i: int| ' ')
    } else {
        s
    }
}

/// Pads `s` on the right with spaces to at least `width` characters, as
/// the `{:<width}` format does.
pub fn pad_right(s: &str, width: usize) -> (out: String)
    ensures
        out@ == padded(s@, width as nat),
{
    let n = s.unicode_len();
    let mut out = String::from_str(s);
    let mut k: usize = n;
    while k < width
        invariant
            n == s@.len(),
            n <= k,
            k <= width || k == n,
            out@ == s@ + Seq::new((k - n) as nat, |i: int| ' '),
        decreases width - k,
    {
        proof { reveal_strlit(" "); }
        out = out.concat(" ");
        assert(out@ =~= s@ + Seq::new((k + 1 - n) as nat, |i: int| ' '));
        k = k + 1;
    }
    assert(out@ =~= padded(s@, width as nat));
    out
}

/// The characters that `char::is_whitespace` accepts: those with the
/// Unicode `White_Space` property.
pub open spec fn is_white_space(c: char) -> bool {
    let u = c as u32;
    ||| 0x9 <= u <= 0xd
    ||| u == 0x20
    ||| u == 0x85
    ||| u == 0xa0
    ||| u == 0x1680
    ||| 0x2000 <= u <= 0x200a
    ||| u == 0x2028
    ||| u == 0x2029
    ||| u == 0x202f
    ||| u == 0x205f
    ||| u == 0x3000
}

/// `t` is `s` without its leading and trailing white space.
pub open spec fn is_trim_of(s: Seq<char>, t: Seq<char>) -> bool {
    exists|a: int, b: int|
        #![trigger s.subrange(a, b)]
        {
            &&& 0 <= a <= b <= s.len()
            &&& t == s.subrange(a, b)
            &&& forall|k: int| 0 <= k < a ==> is_white_space(#[trigger] s[k])
            &&& forall|k: int| b <= k < s.len() ==> is_white_space(#[trigger] s[k])
            &&& t.len() > 0 ==> !is_white_space(t[0]) && !is_white_space(t[t.len() - 1])
        }
}

/// `s` without its leading and trailing white space.
pub open spec fn trim_of(s: Seq<char>) -> Seq<char> {
    choose|t: Seq<char>| is_trim_of(s, t)
}

/// A string has exactly one trimmed form.
pub proof fn lemma_trim_unique(s: Seq<char>, t1: Seq<char>, t2: Seq<char>)
    requires
        is_trim_of(s, t1),
        is_trim_of(s, t2),
    ensures
        t1 == t2,
{
    let (a1, b1) = choose|a: int, b: int|
        {
            &&& 0 <= a <= b <= s.len()
            &&& t1 == #[trigger] s.subrange(a, b)
            &&& forall|k: int| 0 <= k < a ==> is_white_space(#[trigger] s[k])
            &&& forall|k: int| b <= k < s.len() ==> is_white_space(#[trigger] s[k])
            &&& t1.len() > 0 ==> !is_white_space(t1[0]) && !is_white_space(t1[t1.len() - 1])
        };
    let (a2, b2) = choose|a: int, b: int|
        {
            &&& 0 <= a <= b <= s.len()
            &&& t2 == #[trigger] s.subrange(a, b)
            &&& forall|k: int| 0 <= k < a ==> is_white_space(#[trigger] s[k])
            &&& forall|k: int| b <= k < s.len() ==> is_white_space(#[trigger] s[k])
            &&& t2.len() > 0 ==> !is_white_space(t2[0]) && !is_white_space(t2[t2.len() - 1])
        };
    if t1.len() == 0 && t2.len() == 0 {
        assert(t1 =~= t2);
    } else if t1.len() == 0 {
        // every character of s is white space, yet t2 starts with one that is not
        assert(a1 == b1);
        assert(s[a2] == t2[0]);
        assert(is_white_space(s[a2]));
    } else if t2.len() == 0 {
        assert(a2 == b2);
        assert(s[a1] == t1[0]);
        assert(is_white_space(s[a1]));
    } else {
        assert(s[a1] == t1[0]);
        assert(s[a2] == t2[0]);
        assert(s[b1 - 1] == t1[t1.len() - 1]);
        assert(s[b2 - 1] == t2[t2.len() - 1]);
        if a1 < a2 {
            assert(is_white_space(s[a1]));
        } else if a2 < a1 {
            assert(is_white_space(s[a2]));
        }
        if b1 < b2 {
            assert(is_white_space(s[b2 - 1]));
        } else if b2 < b1 {
            assert(is_white_space(s[b1 - 1]));
        }
        assert(t1 =~= t2);
    }
}

/// Calls `str::trim`, which removes leading and trailing white space as
/// `char::is_whitespace` defines it; the contract states just that.
#[verifier::external_body]
pub(crate) fn trim_text(s: &str) -> (t: &str)
    ensures
        is_trim_of(s@, t@),
{
    s.trim()
}

/// `s` without leading and trailing white space.
pub fn trimmed(s: &str) -> (t: &str)
    ensures
        t@ == trim_of(s@),
{
    let t = trim_text(s);
    proof {
        lemma_trim_unique(s@, t@, trim_of(s@));
    }
    t
}

} // verus!

verus! {

proof fn lemma_split_no_newline(s: Seq<char>)
    ensures
        forall|p: int, k: int|
            0 <= p < split_newlines(s).len() && 0 <= k < split_newlines(s)[p].len()
                ==> #[trigger] split_newlines(s)[p][k] != '\n',
    decreases s.len(),
{
    if s.len() > 0 {
        lemma_split_no_newline(s.drop_last());
        lemma_split_nonempty(s.drop_last());
        let parts = split_newlines(s.drop_last());
        if s.last() != '\n' {
            let last = parts.last().push(s.last());
            assert forall|p: int, k: int|
                0 <= p < split_newlines(s).len() && 0 <= k < split_newlines(s)[p].len()
                implies #[trigger] split_newlines(s)[p][k] != '\n' by {
                if p == parts.len() - 1 {
                    if k < parts.last().len() {
                        assert(split_newlines(s)[p][k] == parts[p][k]);
                    }
                } else {
                    assert(split_newlines(s)[p] == parts[p]);
                }
            }
        }
    }
}

/// No line holds a line feed.
pub proof fn lemma_lines_have_no_newline(s: Seq<char>)
    ensures
        forall|p: int, k: int|
            0 <= p < lines_of(s).len() && 0 <= k < lines_of(s)[p].len()
                ==> #[trigger] lines_of(s)[p][k] != '\n',
{
    lemma_split_no_newline(s);
    lemma_split_nonempty(s);
    let parts = split_newlines(s);
    assert forall|p: int, k: int|
        0 <= p < lines_of(s).len() && 0 <= k < lines_of(s)[p].len()
        implies #[trigger] lines_of(s)[p][k] != '\n' by {
        if p < parts.len() - 1 {
            assert(lines_of(s)[p] == strip_cr(parts[p]));
            assert(lines_of(s)[p][k] == parts[p][k]);
        } else {
            assert(lines_of(s)[p] == parts[p]);
        }
    }
}

} // verus!

verus! {

/// A final line terminator, `"\n"` or `"\r\n"`, adds no line: a text that
/// ends in one has the same lines as the text without it.
pub proof fn lemma_final_terminator_adds_no_line(s: Seq<char>)
    requires
        s.len() > 0,
        s.last() != '\n',
        s.last() != '\r',
    ensures
        lines_of(s.push('\n')) == lines_of(s),
        lines_of(s.push('\r').push('\n')) == lines_of(s),
{
    lemma_split_nonempty(s);
    let parts = split_newlines(s);
    assert(s.push('\n').drop_last() == s);
    assert(split_newlines(s.push('\n')) == parts.push(Seq::<char>::empty()));
    assert(parts.last().len() > 0) by {
        lemma_split_nonempty(s.drop_last());
    }
    assert(parts.last().last() == s.last()) by {
        lemma_split_nonempty(s.drop_last());
    }
    assert(strip_cr(parts.last()) == parts.last());
    assert(parts.push(Seq::<char>::empty()).drop_last() == parts);
    assert(parts.map_values(|l: Seq<char>| strip_cr(l)) =~= parts.drop_last().map_values(
        |l: Seq<char>| strip_cr(l),
    ).push(parts.last()));
    let t = s.push('\r');
    assert(t.drop_last() == s);
    lemma_split_nonempty(t);
    let tparts = split_newlines(t);
    assert(tparts == parts.update(parts.len() - 1, parts.last().push('\r')));
    assert(t.push('\n').drop_last() == t);
    assert(split_newlines(t.push('\n')) == tparts.push(Seq::<char>::empty()));
    assert(tparts.push(Seq::<char>::empty()).drop_last() == tparts);
    assert(strip_cr(parts.last().push('\r')) == parts.last());
    assert(tparts.map_values(|l: Seq<char>| strip_cr(l)) =~= parts.drop_last().map_values(
        |l: Seq<char>| strip_cr(l),
    ).push(parts.last()));
}

} // verus!

verus! {

/// Where each part of `split_newlines(s)` starts in `s`.
pub open spec fn part_starts(s: Seq<char>) -> Seq<int>
    decreases s.len(),
{
    if s.len() == 0 {
        seq![0int]
    } else {
        let starts = part_starts(s.drop_last());
        if s.last() == '\n' {
            starts.push(s.len() as int)
        } else {
            starts
        }
    }
}

/// Each part of `s` is the text of `s` from its start on, and starts
/// either at the beginning of `s` or right after a line feed; the last
/// part runs to the end of `s`.
pub proof fn lemma_part_starts(s: Seq<char>)
    ensures
        part_starts(s).len() == split_newlines(s).len(),
        part_starts(s).len() >= 1,
        part_starts(s).last() + split_newlines(s).last().len() == s.len(),
        forall|j: int|
            0 <= j < part_starts(s).len() ==> {
                let st = #[trigger] part_starts(s)[j];
                let part = split_newlines(s)[j];
                &&& 0 <= st
                &&& st + part.len() <= s.len()
                &&& s.subrange(st, st + part.len()) == part
                &&& (st == 0 || s[st - 1] == '\n')
            },
    decreases s.len(),
{
    if s.len() > 0 {
        let t = s.drop_last();
        lemma_part_starts(t);
        let starts = part_starts(t);
        let parts = split_newlines(t);
        assert forall|j: int| 0 <= j < part_starts(s).len() implies {
            let st = #[trigger] part_starts(s)[j];
            let part = split_newlines(s)[j];
            &&& 0 <= st
            &&& st + part.len() <= s.len()
            &&& s.subrange(st, st + part.len()) == part
            &&& (st == 0 || s[st - 1] == '\n')
        } by {
            let st = part_starts(s)[j];
            let part = split_newlines(s)[j];
            if j < starts.len() {
                assert(st == starts[j]);
                if j < parts.len() - 1 || s.last() == '\n' {
                    assert(part == parts[j]);
                    assert(s.subrange(st, st + part.len()) =~= t.subrange(st, st + part.len()));
                } else {
                    assert(part == parts[j].push(s.last()));
                    assert(s.subrange(st, st + part.len()) =~= t.subrange(st, st + parts[j].len()).push(s.last()));
                }
                if st > 0 {
                    assert(s[st - 1] == t[st - 1]);
                }
            } else {
                assert(st == s.len());
                assert(part.len() == 0);
                assert(s.subrange(st, st) =~= part);
            }
        }
    }
}

/// Every line of `s` is the text of `s` at some position that is the
/// beginning of `s` or right after a line feed.
pub proof fn lemma_line_in_source(s: Seq<char>, i: int)
    requires
        0 <= i < lines_of(s).len(),
    ensures
        exists|st: int|
            {
                &&& 0 <= st
                &&& st + lines_of(s)[i].len() <= s.len()
                &&& #[trigger] s.subrange(st, st + lines_of(s)[i].len()) == lines_of(s)[i]
                &&& (st == 0 || s[st - 1] == '\n')
            },
{
    lemma_part_starts(s);
    let parts = split_newlines(s);
    let st = part_starts(s)[i];
    let line = lines_of(s)[i];
    let part = parts[i];
    assert(s.subrange(st, st + part.len()) == part);
    if i < parts.len() - 1 {
        assert(line == strip_cr(part));
        assert(s.subrange(st, st + line.len()) =~= part.subrange(0, line.len() as int));
        assert(part.subrange(0, line.len() as int) =~= line);
    } else {
        assert(line == part);
    }
    assert(s.subrange(st, st + line.len()) == line);
}

} // verus!
