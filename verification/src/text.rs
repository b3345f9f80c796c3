//! Character-level text operations: whitespace trimming, splitting a
//! description into lines, and rejoining the trimmed segments. These
//! back the description-cleaning step of the transform.
use vstd::prelude::*;

verus! {

/// The Unicode `White_Space` characters, the set that trimming removes
/// from both ends of a line segment.
pub open spec fn is_space(c: char) -> bool {
    ||| c == ' '
    ||| c == '\t'
    ||| c == '\n'
    ||| c == '\r'
    ||| c == '\u{000b}'
    ||| c == '\u{000c}'
    ||| c == '\u{0085}'
    ||| c == '\u{00a0}'
    ||| c == '\u{1680}'
    ||| c == '\u{2000}'
    ||| c == '\u{2001}'
    ||| c == '\u{2002}'
    ||| c == '\u{2003}'
    ||| c == '\u{2004}'
    ||| c == '\u{2005}'
    ||| c == '\u{2006}'
    ||| c == '\u{2007}'
    ||| c == '\u{2008}'
    ||| c == '\u{2009}'
    ||| c == '\u{200a}'
    ||| c == '\u{2028}'
    ||| c == '\u{2029}'
    ||| c == '\u{202f}'
    ||| c == '\u{205f}'
    ||| c == '\u{3000}'
}

fn is_space_x(c: char) -> (r: bool)
    ensures
        r == is_space(c),
{
    c == ' ' || c == '\t' || c == '\n' || c == '\r' || c == '\u{000b}' || c == '\u{000c}' || c
        == '\u{0085}' || c == '\u{00a0}' || c == '\u{1680}' || c == '\u{2000}' || c == '\u{2001}'
        || c == '\u{2002}' || c == '\u{2003}' || c == '\u{2004}' || c == '\u{2005}' || c
        == '\u{2006}' || c == '\u{2007}' || c == '\u{2008}' || c == '\u{2009}' || c == '\u{200a}'
        || c == '\u{2028}' || c == '\u{2029}' || c == '\u{202f}' || c == '\u{205f}' || c
        == '\u{3000}'
}

/// The segment with its leading whitespace removed.
pub open spec fn ltrim(s: Seq<char>) -> Seq<char>
    decreases s.len(),
{
    if s.len() > 0 && is_space(s[0]) {
        ltrim(s.drop_first())
    } else {
        s
    }
}

/// The segment with its trailing whitespace removed.
pub open spec fn rtrim(s: Seq<char>) -> Seq<char>
    decreases s.len(),
{
    if s.len() > 0 && is_space(s.last()) {
        rtrim(s.drop_last())
    } else {
        s
    }
}

/// The segment with whitespace removed from both ends.
pub open spec fn trimmed(s: Seq<char>) -> Seq<char> {
    rtrim(ltrim(s))
}

proof fn lemma_ltrim_skip(s: Seq<char>, a: int)
    requires
        0 <= a <= s.len(),
        forall|k: int| 0 <= k < a ==> is_space(s[k]),
        a < s.len() ==> !is_space(s[a]),
    ensures
        ltrim(s) == s.skip(a),
    decreases a,
{
    if a == 0 {
        assert(s.skip(0) =~= s);
    } else {
        let t = s.drop_first();
        assert(t =~= s.skip(1));
        lemma_ltrim_skip(t, a - 1);
        assert(t.skip(a - 1) =~= s.skip(a));
    }
}

proof fn lemma_rtrim_take(s: Seq<char>, b: int)
    requires
        0 <= b <= s.len(),
        forall|k: int| b <= k < s.len() ==> is_space(s[k]),
        b > 0 ==> !is_space(s[b - 1]),
    ensures
        rtrim(s) == s.take(b),
    decreases s.len() - b,
{
    if b == s.len() {
        assert(s.take(b) =~= s);
    } else {
        let t = s.drop_last();
        assert(t =~= s.take(s.len() - 1));
        lemma_rtrim_take(t, b);
        assert(t.take(b) =~= s.take(b));
    }
}

/// The trimmed form of `s.subrange(lo, i)` is `s.subrange(a, b)`, where
/// `a` and `b` bound the non-whitespace middle as the scanning loops
/// establish it.
proof fn lemma_trimmed_subrange(s: Seq<char>, lo: int, i: int, a: int, b: int)
    requires
        0 <= lo <= a <= b <= i <= s.len(),
        forall|k: int| lo <= k < a ==> is_space(s[k]),
        forall|k: int| b <= k < i ==> is_space(s[k]),
        a < b ==> !is_space(s[a]) && !is_space(s[b - 1]),
        a == b ==> a == i,
    ensures
        trimmed(s.subrange(lo, i)) == s.subrange(a, b),
{
    let seg = s.subrange(lo, i);
    if a == b {
        lemma_ltrim_skip(seg, seg.len() as int);
        assert(seg.skip(seg.len() as int) =~= Seq::<char>::empty());
        assert(rtrim(Seq::<char>::empty()) == Seq::<char>::empty());
        assert(s.subrange(a, b) =~= Seq::<char>::empty());
    } else {
        lemma_ltrim_skip(seg, a - lo);
        assert(seg.skip(a - lo) =~= s.subrange(a, i));
        let mid = s.subrange(a, i);
        lemma_rtrim_take(mid, b - a);
        assert(mid.take(b - a) =~= s.subrange(a, b));
    }
}

/// Index of the first line feed in `s`, or `s.len()` if there is none.
pub open spec fn first_nl(s: Seq<char>) -> nat
    decreases s.len(),
{
    if s.len() == 0 {
        0
    } else if s[0] == '\n' {
        0
    } else {
        1 + first_nl(s.drop_first())
    }
}

proof fn lemma_first_nl(s: Seq<char>)
    ensures
        first_nl(s) <= s.len(),
        forall|k: int| 0 <= k < first_nl(s) ==> s[k] != '\n',
    decreases s.len(),
{
    if s.len() == 0 {
    } else if s[0] == '\n' {
    } else {
        lemma_first_nl(s.drop_first());
        assert(forall|k: int| 1 <= k < first_nl(s) ==> s[k] == s.drop_first()[k - 1]);
    }
}

proof fn lemma_first_nl_at(s: Seq<char>, j: int)
    requires
        0 <= j <= s.len(),
        forall|k: int| 0 <= k < j ==> s[k] != '\n',
        j < s.len() ==> s[j] == '\n',
    ensures
        first_nl(s) == j,
    decreases j,
{
    if j == 0 {
    } else {
        let t = s.drop_first();
        assert(forall|k: int| 0 <= k < j - 1 ==> t[k] == s[k + 1] && t[k] != '\n');
        lemma_first_nl_at(t, j - 1);
    }
}

/// The segments of `s` between line feeds, in order. A string without
/// a line feed is one segment; a trailing line feed yields a final
/// empty segment, which cleaning discards anyway.
pub open spec fn split_nl(s: Seq<char>) -> Seq<Seq<char>>
    decreases s.len(),
{
    let j = first_nl(s);
    if j >= s.len() {
        seq![s]
    } else {
        seq![s.take(j as int)] + split_nl(s.skip(j as int + 1))
    }
}

/// Joins two already-cleaned pieces: empty pieces vanish, and a single
/// space separates two non-empty pieces.
pub open spec fn glue(left: Seq<char>, right: Seq<char>) -> Seq<char> {
    if right.len() == 0 {
        left
    } else if left.len() == 0 {
        right
    } else {
        left + seq![' '] + right
    }
}

/// Trims every segment, drops the ones that became empty, and joins
/// the rest with single spaces.
pub open spec fn join_clean(lines: Seq<Seq<char>>) -> Seq<char>
    decreases lines.len(),
{
    if lines.len() == 0 {
        Seq::empty()
    } else {
        glue(trimmed(lines[0]), join_clean(lines.drop_first()))
    }
}

/// The cleaned form of a description: its line segments trimmed,
/// empty segments dropped, the rest joined by single spaces.
pub open spec fn clean_text(s: Seq<char>) -> Seq<char> {
    join_clean(split_nl(s))
}

proof fn lemma_glue_assoc(a: Seq<char>, b: Seq<char>, c: Seq<char>)
    ensures
        glue(a, glue(b, c)) == glue(glue(a, b), c),
{
    if b.len() == 0 {
    } else if c.len() == 0 {
    } else if a.len() == 0 {
    } else {
        assert(a + seq![' '] + (b + seq![' '] + c) =~= (a + seq![' '] + b) + seq![' '] + c);
    }
}

/// Splitting off the first segment of `s` at a line feed found at
/// index `j` decomposes `split_nl`.
proof fn lemma_split_nl_step(s: Seq<char>, j: int)
    requires
        0 <= j <= s.len(),
        forall|k: int| 0 <= k < j ==> s[k] != '\n',
        j < s.len() ==> s[j] == '\n',
    ensures
        j == s.len() ==> split_nl(s) == seq![s],
        j < s.len() ==> split_nl(s) == seq![s.take(j)] + split_nl(s.skip(j + 1)),
{
    lemma_first_nl_at(s, j);
}

pub(crate) fn chars_of(s: &str) -> (v: Vec<char>)
    ensures
        v@ == s@,
{
    let n = s.unicode_len();
    let mut v: Vec<char> = Vec::new();
    let mut idx: usize = 0;
    while idx < n
        invariant
            n == s@.len(),
            idx <= n,
            v@ == s@.take(idx as int),
        decreases n - idx,
    {
        let c = s.get_char(idx);
        v.push(c);
        assert(s@.take(idx as int).push(c) =~= s@.take(idx as int + 1));
        idx = idx + 1;
    }
    assert(s@.take(n as int) =~= s@);
    v
}

/// Relies on std's String::push: appends the given character to the
/// end of the string.
#[verifier::external_body]
pub(crate) fn push_char(s: &mut String, c: char)
    ensures
        final(s)@ == old(s)@.push(c),
{
    s.push(c);
}

fn chars_to_string(v: &Vec<char>) -> (s: String)
    ensures
        s@ == v@,
{
    let mut s = String::new();
    let mut idx: usize = 0;
    while idx < v.len()
        invariant
            idx <= v@.len(),
            s@ == v@.take(idx as int),
        decreases v@.len() - idx,
    {
        push_char(&mut s, v[idx]);
        assert(v@.take(idx as int).push(v@[idx as int]) =~= v@.take(idx as int + 1));
        idx = idx + 1;
    }
    assert(v@.take(v@.len() as int) =~= v@);
    s
}

/// Collapses a multi-line text to one line: every segment between line
/// feeds is trimmed of surrounding whitespace, segments left empty are
/// dropped, and the rest are joined by single spaces.
pub fn clean_description_text(desc: &str) -> (r: String)
    ensures
        r@ == clean_text(desc@),
{
    let v = chars_of(desc);
    let n = v.len();
    let mut out: Vec<char> = Vec::new();
    let mut lo: usize = 0;
    proof {
        assert(desc@.skip(0) =~= desc@);
    }
    loop
        invariant_except_break
            n == v@.len(),
            v@ == desc@,
            lo <= n,
            clean_text(desc@) == glue(out@, join_clean(split_nl(desc@.skip(lo as int)))),
        ensures
            clean_text(desc@) == out@,
        decreases n - lo,
    {
        // find the end of the current segment
        let mut i = lo;
        while i < n && v[i] != '\n'
            invariant
                n == v@.len(),
                lo <= i <= n,
                forall|k: int| lo <= k < i ==> v@[k] != '\n',
            decreases n - i,
        {
            i = i + 1;
        }
        // trim the segment v[lo..i]
        let mut a = lo;
        while a < i && is_space_x(v[a])
            invariant
                n == v@.len(),
                lo <= a <= i <= n,
                forall|k: int| lo <= k < a ==> is_space(v@[k]),
            decreases i - a,
        {
            a = a + 1;
        }
        let mut b = i;
        while b > a && is_space_x(v[b - 1])
            invariant
                n == v@.len(),
                a <= b <= i <= n,
                forall|k: int| b <= k < i ==> is_space(v@[k]),
            decreases b - a,
        {
            b = b - 1;
        }
        proof {
            lemma_trimmed_subrange(v@, lo as int, i as int, a as int, b as int);
        }
        // append the trimmed segment, preceded by a space if needed
        let ghost out0 = out@;
        if a < b {
            if out.len() > 0 {
                out.push(' ');
            }
            let ghost out1 = out@;
            let mut k = a;
            while k < b
                invariant
                    n == v@.len(),
                    a <= k <= b <= n,
                    out@ == out1 + v@.subrange(a as int, k as int),
                decreases b - k,
            {
                out.push(v[k]);
                assert(out1 + v@.subrange(a as int, k as int + 1) =~= (out1 + v@.subrange(
                    a as int,
                    k as int,
                )).push(v@[k as int]));
                k = k + 1;
            }
            assert(out1 + v@.subrange(a as int, a as int) =~= out1);
            assert(out@ == glue(out0, v@.subrange(a as int, b as int))) by {
                if out0.len() > 0 {
                    assert(out1 =~= out0.push(' '));
                    assert(out0.push(' ') + v@.subrange(a as int, b as int) =~= out0 + seq![' ']
                        + v@.subrange(a as int, b as int));
                } else {
                    assert(out1 =~= out0);
                    assert(out0 + v@.subrange(a as int, b as int) =~= v@.subrange(
                        a as int,
                        b as int,
                    ));
                }
            }
        } else {
            assert(out@ == glue(out0, v@.subrange(a as int, b as int)));
        }
        // if this was the last segment, the invariant collapses to the result
        if i == n {
            proof {
                let rest = desc@.skip(lo as int);
                assert(forall|k: int|
                    0 <= k < i - lo ==> rest[k] == desc@[k + lo] && rest[k] != '\n');
                lemma_split_nl_step(rest, i - lo);
                assert(split_nl(rest) == seq![rest]);
                assert(seq![rest][0] == rest);
                assert(rest =~= v@.subrange(lo as int, i as int));
                let t = trimmed(v@.subrange(lo as int, i as int));
                assert(trimmed(rest) == t);
                assert(seq![rest].drop_first() =~= Seq::<Seq<char>>::empty());
                assert(join_clean(seq![rest].drop_first()) == Seq::<char>::empty());
                assert(join_clean(seq![rest]) == glue(t, Seq::<char>::empty()));
                assert(glue(t, Seq::<char>::empty()) == t);
                assert(glue(out0, t) == out@);
            }
            break;
        }
        // otherwise re-establish the invariant at lo = i + 1
        proof {
            let rest = desc@.skip(lo as int);
            assert(forall|k: int|
                0 <= k < i - lo ==> rest[k] == desc@[k + lo] && rest[k] != '\n');
            assert(rest[i - lo] == desc@[i as int]);
            lemma_split_nl_step(rest, i - lo);
            assert(rest.take(i - lo) =~= v@.subrange(lo as int, i as int));
            let t = trimmed(v@.subrange(lo as int, i as int));
            assert(rest.skip(i - lo + 1) =~= desc@.skip(i as int + 1));
            let tail = join_clean(split_nl(desc@.skip(i as int + 1)));
            assert(split_nl(rest) == seq![rest.take(i - lo)] + split_nl(rest.skip(i - lo + 1)));
            assert((seq![rest.take(i - lo)] + split_nl(rest.skip(i - lo + 1)))[0] == rest.take(
                i - lo,
            ));
            assert((seq![rest.take(i - lo)] + split_nl(rest.skip(i - lo + 1))).drop_first()
                =~= split_nl(rest.skip(i - lo + 1)));
            assert(join_clean(split_nl(rest)) == glue(t, tail));
            lemma_glue_assoc(out0, t, tail);
        }
        lo = i + 1;
    }
    chars_to_string(&out)
}

/// No character of `s` is a line feed.
pub open spec fn no_nl(s: Seq<char>) -> bool {
    forall|i: int| 0 <= i < s.len() ==> s[i] != '\n'
}

proof fn lemma_ltrim_no_nl(s: Seq<char>)
    requires
        no_nl(s),
    ensures
        no_nl(ltrim(s)),
    decreases s.len(),
{
    if s.len() > 0 && is_space(s[0]) {
        assert(forall|i: int|
            0 <= i < s.drop_first().len() ==> s.drop_first()[i] == s[i + 1]);
        lemma_ltrim_no_nl(s.drop_first());
    }
}

proof fn lemma_rtrim_no_nl(s: Seq<char>)
    requires
        no_nl(s),
    ensures
        no_nl(rtrim(s)),
    decreases s.len(),
{
    if s.len() > 0 && is_space(s.last()) {
        assert(forall|i: int| 0 <= i < s.drop_last().len() ==> s.drop_last()[i] == s[i]);
        lemma_rtrim_no_nl(s.drop_last());
    }
}

proof fn lemma_trimmed_no_nl(s: Seq<char>)
    requires
        no_nl(s),
    ensures
        no_nl(trimmed(s)),
{
    lemma_ltrim_no_nl(s);
    lemma_rtrim_no_nl(ltrim(s));
}

proof fn lemma_join_clean_no_nl(lines: Seq<Seq<char>>)
    requires
        forall|i: int| 0 <= i < lines.len() ==> no_nl(#[trigger] lines[i]),
    ensures
        no_nl(join_clean(lines)),
    decreases lines.len(),
{
    if lines.len() > 0 {
        lemma_trimmed_no_nl(lines[0]);
        assert(forall|i: int|
            0 <= i < lines.drop_first().len() ==> lines.drop_first()[i] == lines[i + 1]
                && no_nl(lines.drop_first()[i]));
        lemma_join_clean_no_nl(lines.drop_first());
        let t = trimmed(lines[0]);
        let rest = join_clean(lines.drop_first());
        if rest.len() > 0 && t.len() > 0 {
            assert forall|i: int| 0 <= i < glue(t, rest).len() implies glue(t, rest)[i]
                != '\n' by {
                let g = t + seq![' '] + rest;
                if i < t.len() {
                    assert(g[i] == t[i]);
                } else if i == t.len() {
                    assert(g[i] == ' ');
                } else {
                    assert(g[i] == rest[i - t.len() - 1]);
                }
            }
        }
    }
}

proof fn lemma_split_nl_no_nl(s: Seq<char>)
    ensures
        forall|i: int| 0 <= i < split_nl(s).len() ==> no_nl(#[trigger] split_nl(s)[i]),
    decreases s.len(),
{
    lemma_first_nl(s);
    let j = first_nl(s);
    if j >= s.len() {
        assert(split_nl(s)[0] == s);
    } else {
        lemma_split_nl_no_nl(s.skip(j as int + 1));
        let head = s.take(j as int);
        let tail = split_nl(s.skip(j as int + 1));
        assert(split_nl(s) == seq![head] + tail);
        assert(forall|k: int| 0 <= k < head.len() ==> head[k] == s[k] && head[k] != '\n');
        assert forall|i: int| 0 <= i < split_nl(s).len() implies no_nl(
            #[trigger] split_nl(s)[i],
        ) by {
            if i == 0 {
                assert(split_nl(s)[0] == head);
            } else {
                assert(split_nl(s)[i] == tail[i - 1]);
            }
        }
    }
}

/// Cleaning collapses a description to a single line: whatever the
/// input, the cleaned text contains no line feed.
pub proof fn lemma_clean_text_single_line(s: Seq<char>)
    ensures
        no_nl(clean_text(s)),
{
    lemma_split_nl_no_nl(s);
    lemma_join_clean_no_nl(split_nl(s));
}

} // verus!
