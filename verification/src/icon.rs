//! The SVG bodies of Lucide icons, read as far as the renderer needs.
//!
//! An icon body is a run of elements, `<path d="..."/>`, `<rect .../>`,
//! `<circle .../>` and `<line .../>`, on a 24 by 24 view box. The reader
//! takes every tag, from a `<` to the first `>` after it (a `<` with no `>`
//! after it ends the body), names it by the first word inside it, and
//! finds an attribute's value between `name="` and the next `"`. The
//! numbers in those values, and the drawing, are the renderer's.

use vstd::prelude::*;

verus! {

/// Where the first `c` at or after `from` is, or -1.
pub open spec fn find_char_from(s: Seq<char>, from: int, c: char) -> int
    decreases s.len() - from,
{
    if from < 0 || from >= s.len() {
        -1
    } else if s[from] == c {
        from
    } else {
        find_char_from(s, from + 1, c)
    }
}

pub proof fn lemma_find_char_from(s: Seq<char>, from: int, c: char)
    requires
        0 <= from,
    ensures
        find_char_from(s, from, c) == -1 || (from <= find_char_from(s, from, c) < s.len() && s[find_char_from(
            s,
            from,
            c,
        )] == c),
        forall|k: int| from <= k < s.len() && (find_char_from(s, from, c) == -1 || k < find_char_from(s, from, c)) ==> s[k] != c,
    decreases s.len() - from,
{
    if from >= 0 && from < s.len() && s[from] != c {
        lemma_find_char_from(s, from + 1, c);
    }
}

/// The tags of the body from position `i` on: the text between each `<`
/// and the first `>` after it.
pub open spec fn tags_from(s: Seq<char>, i: int) -> Seq<Seq<char>>
    decreases s.len() - i,
{
    if i < 0 || i >= s.len() {
        Seq::empty()
    } else if s[i] != '<' {
        tags_from(s, i + 1)
    } else {
        let e = find_char_from(s, i, '>');
        if e < 0 {
            Seq::empty()
        } else {
            proof {
                lemma_find_char_from(s, i, '>');
            }
            seq![s.subrange(i + 1, e)] + tags_from(s, e + 1)
        }
    }
}

pub open spec fn tags(s: Seq<char>) -> Seq<Seq<char>> {
    tags_from(s, 0)
}

pub open spec fn strings_view(v: Seq<String>) -> Seq<Seq<char>> {
    Seq::new(v.len(), |i: int| v[i]@)
}

fn chars_of(s: &str) -> (v: Vec<char>)
    ensures
        v@ == s@,
{
    let n = s.unicode_len();
    let mut v: Vec<char> = Vec::new();
    let mut i: usize = 0;
    while i < n
        invariant
            i <= n,
            n == s@.len(),
            v@ == s@.take(i as int),
        decreases n - i,
    {
        v.push(s.get_char(i));
        proof {
            assert(s@.take(i + 1) =~= s@.take(i as int).push(s@[i as int]));
        }
        i += 1;
    }
    proof {
        assert(s@.take(n as int) =~= s@);
    }
    v
}

fn string_of(v: &Vec<char>, from: usize, to: usize) -> (s: String)
    requires
        from <= to <= v@.len(),
    ensures
        s@ == v@.subrange(from as int, to as int),
{
    let mut s = String::new();
    let mut i: usize = from;
    while i < to
        invariant
            from <= i <= to,
            to <= v@.len(),
            s@ == v@.subrange(from as int, i as int),
        decreases to - i,
    {
        s.push(v[i]);
        proof {
            assert(v@.subrange(from as int, i + 1) =~= v@.subrange(from as int, i as int).push(v@[i as int]));
        }
        i += 1;
    }
    s
}

/// The tags of an icon body, in order.
pub fn svg_tags(body: &str) -> (t: Vec<String>)
    ensures
        strings_view(t@) == tags(body@),
{
    let s = chars_of(body);
    let n = s.len();
    let mut out: Vec<String> = Vec::new();
    let mut i: usize = 0;
    proof {
        assert(strings_view(out@) + tags_from(s@, 0) =~= tags(body@));
    }
    while i < n
        invariant
            i <= n,
            n == s@.len(),
            s@ == body@,
            strings_view(out@) + tags_from(s@, i as int) == tags(body@),
        decreases n - i,
    {
        if s[i] != '<' {
            i += 1;
        } else {
            let mut e: usize = i;
            while e < n && s[e] != '>'
                invariant
                    i <= e <= n,
                    n == s@.len(),
                    find_char_from(s@, i as int, '>') == find_char_from(s@, e as int, '>'),
                decreases n - e,
            {
                e += 1;
            }
            proof {
                lemma_find_char_from(s@, i as int, '>');
            }
            if e >= n {
                proof {
                    assert(tags_from(s@, i as int) =~= Seq::<Seq<char>>::empty());
                    assert(strings_view(out@) + tags_from(s@, i as int) =~= strings_view(out@));
                    assert(strings_view(out@) + tags_from(s@, n as int) =~= strings_view(out@));
                }
                i = n;
            } else {
                let tag = string_of(&s, i + 1, e);
                let ghost before = out@;
                out.push(tag);
                proof {
                    assert(strings_view(out@) =~= strings_view(before).push(s@.subrange(i + 1, e as int)));
                    assert(tags_from(s@, i as int) == seq![s@.subrange(i + 1, e as int)] + tags_from(s@, e + 1));
                    assert(strings_view(out@) + tags_from(s@, e + 1) =~= strings_view(before) + tags_from(
                        s@,
                        i as int,
                    ));
                }
                i = e + 1;
            }
        }
    }
    proof {
        assert(tags_from(s@, i as int) =~= Seq::<Seq<char>>::empty());
        assert(strings_view(out@) + tags_from(s@, i as int) =~= strings_view(out@));
    }
    out
}

/// The whitespace `split_ascii_whitespace` splits at.
pub open spec fn is_ascii_ws(c: char) -> bool {
    c == ' ' || c == '\t' || c == '\n' || c == '\x0C' || c == '\r'
}

/// Where the first character at or after `from` that is (or is not) ASCII
/// whitespace is, or the end.
pub open spec fn skip_from(s: Seq<char>, from: int, ws: bool) -> int
    decreases s.len() - from,
{
    if from < 0 || from >= s.len() {
        s.len() as int
    } else if is_ascii_ws(s[from]) != ws {
        from
    } else {
        skip_from(s, from + 1, ws)
    }
}

/// The element's name: the first word of the tag, or nothing.
pub open spec fn element_name(tag: Seq<char>) -> Seq<char> {
    let start = skip_from(tag, 0, true);
    let end = skip_from(tag, start, false);
    tag.subrange(start, end)
}

proof fn lemma_skip_from(s: Seq<char>, from: int, ws: bool)
    requires
        0 <= from <= s.len(),
    ensures
        from <= skip_from(s, from, ws) <= s.len(),
        skip_from(s, from, ws) < s.len() ==> is_ascii_ws(s[skip_from(s, from, ws)]) != ws,
    decreases s.len() - from,
{
    if from < s.len() && is_ascii_ws(s[from]) == ws {
        lemma_skip_from(s, from + 1, ws);
    }
}

fn skip_exec(s: &Vec<char>, from: usize, ws: bool) -> (r: usize)
    requires
        from <= s@.len(),
    ensures
        r == skip_from(s@, from as int, ws),
{
    let mut k = from;
    while k < s.len() && char_is_ascii_ws(s[k]) == ws
        invariant
            from <= k <= s@.len(),
            skip_from(s@, from as int, ws) == skip_from(s@, k as int, ws),
        decreases s@.len() - k,
    {
        k += 1;
    }
    k
}

fn char_is_ascii_ws(c: char) -> (r: bool)
    ensures
        r == is_ascii_ws(c),
{
    c == ' ' || c == '\t' || c == '\n' || c == '\x0C' || c == '\r'
}

/// The primitives an icon can hold.
#[derive(Debug, Clone, Copy, PartialEq, Eq, Structural)]
pub enum ElementKind {
    Path,
    Rect,
    Circle,
    Line,
    /// Anything else, which the renderer skips.
    Other,
}

pub open spec fn spec_element_kind(tag: Seq<char>) -> ElementKind {
    let name = element_name(tag);
    if name == "path"@ {
        ElementKind::Path
    } else if name == "rect"@ {
        ElementKind::Rect
    } else if name == "circle"@ {
        ElementKind::Circle
    } else if name == "line"@ {
        ElementKind::Line
    } else {
        ElementKind::Other
    }
}

fn same_chars(v: &Vec<char>, from: usize, to: usize, word: &str) -> (r: bool)
    requires
        from <= to <= v@.len(),
    ensures
        r == (v@.subrange(from as int, to as int) == word@),
{
    let n = word.unicode_len();
    if to - from != n {
        return false;
    }
    let mut i: usize = 0;
    while i < n
        invariant
            i <= n,
            n == word@.len(),
            to - from == n,
            from <= to <= v@.len(),
            v@.subrange(from as int, from + i) == word@.take(i as int),
        decreases n - i,
    {
        if v[from + i] != word.get_char(i) {
            proof {
                assert(v@.subrange(from as int, to as int)[i as int] == v@[from + i]);
            }
            return false;
        }
        proof {
            assert(v@.subrange(from as int, from + i + 1) =~= v@.subrange(from as int, from + i).push(v@[from + i]));
            assert(word@.take(i + 1) =~= word@.take(i as int).push(word@[i as int]));
        }
        i += 1;
    }
    proof {
        assert(word@.take(n as int) =~= word@);
    }
    true
}

/// Which primitive a tag is, by its first word.
pub fn element_kind(tag: &str) -> (k: ElementKind)
    ensures
        k == spec_element_kind(tag@),
{
    let t = chars_of(tag);
    proof {
        lemma_skip_from(t@, 0, true);
    }
    let start = skip_exec(&t, 0, true);
    proof {
        lemma_skip_from(t@, start as int, false);
    }
    let end = skip_exec(&t, start, false);
    if same_chars(&t, start, end, "path") {
        ElementKind::Path
    } else if same_chars(&t, start, end, "rect") {
        ElementKind::Rect
    } else if same_chars(&t, start, end, "circle") {
        ElementKind::Circle
    } else if same_chars(&t, start, end, "line") {
        ElementKind::Line
    } else {
        ElementKind::Other
    }
}

/// Whether `p` occurs in `s` at `k`.
pub open spec fn occurs_at(s: Seq<char>, p: Seq<char>, k: int) -> bool {
    0 <= k && k + p.len() <= s.len() && s.subrange(k, k + p.len()) == p
}

/// Where `p` first occurs in `s` at or after `from`, or -1.
pub open spec fn find_from(s: Seq<char>, p: Seq<char>, from: int) -> int
    decreases s.len() + 1 - from,
{
    if from < 0 || from + p.len() > s.len() {
        -1
    } else if occurs_at(s, p, from) {
        from
    } else {
        find_from(s, p, from + 1)
    }
}

/// What `attr(tag, name)` gives: the text between the first `name="` and
/// the next `"`, if both are there.
pub open spec fn spec_attr(tag: Seq<char>, name: Seq<char>) -> Option<Seq<char>> {
    let pattern = name + seq!['=', '"'];
    let k = find_from(tag, pattern, 0);
    if k < 0 {
        None
    } else {
        let start = k + pattern.len();
        let end = find_char_from(tag, start, '"');
        if end < 0 {
            None
        } else {
            Some(tag.subrange(start, end))
        }
    }
}

proof fn lemma_find_from(s: Seq<char>, p: Seq<char>, from: int)
    requires
        0 <= from,
    ensures
        find_from(s, p, from) == -1 || (from <= find_from(s, p, from) && occurs_at(s, p, find_from(s, p, from))),
    decreases s.len() + 1 - from,
{
    if from + p.len() <= s.len() && !occurs_at(s, p, from) {
        lemma_find_from(s, p, from + 1);
    }
}

/// The value of attribute `name` in a tag, if it has one.
pub fn attr(tag: &str, name: &str) -> (r: Option<String>)
    ensures
        match spec_attr(tag@, name@) {
            Some(v) => r is Some && r->0@ == v,
            None => r is None,
        },
{
    let t = chars_of(tag);
    let mut p = chars_of(name);
    p.push('=');
    p.push('"');
    let ghost pattern = name@ + seq!['=', '"'];
    proof {
        assert(p@ =~= pattern);
    }
    let n = t.len();
    let m = p.len();
    let mut k: usize = 0;
    let mut found = false;
    while m <= n && k <= n - m && !found
        invariant
            n == t@.len(),
            m == p@.len(),
            p@ == pattern,
            t@ == tag@,
            found ==> occurs_at(t@, pattern, k as int) && find_from(t@, pattern, 0) == k,
            !found ==> find_from(t@, pattern, 0) == find_from(t@, pattern, k as int),
        decreases n + 1 - k - (if found { 1int } else { 0int }),
    {
        let mut j: usize = 0;
        while j < m && t[k + j] == p[j]
            invariant
                j <= m,
                k + m <= n,
                n == t@.len(),
                m == p@.len(),
                t@.subrange(k as int, k + j) == p@.take(j as int),
            decreases m - j,
        {
            proof {
                assert(t@.subrange(k as int, k + j + 1) =~= t@.subrange(k as int, k + j).push(t@[k + j]));
                assert(p@.take(j + 1) =~= p@.take(j as int).push(p@[j as int]));
            }
            j += 1;
        }
        if j == m {
            proof {
                assert(p@.take(m as int) =~= p@);
                assert(occurs_at(t@, pattern, k as int));
            }
            found = true;
        } else {
            proof {
                assert(t@.subrange(k as int, k + m)[j as int] == t@[k + j]);
                assert(!occurs_at(t@, pattern, k as int));
            }
            k += 1;
        }
    }
    if !found {
        return None;
    }
    let start = k + m;
    proof {
        lemma_find_char_from(t@, start as int, '"');
    }
    let mut e = start;
    while e < n && t[e] != '"'
        invariant
            start <= e <= n,
            n == t@.len(),
            find_char_from(t@, start as int, '"') == find_char_from(t@, e as int, '"'),
        decreases n - e,
    {
        e += 1;
    }
    if e >= n {
        return None;
    }
    Some(string_of(&t, start, e))
}

} // verus!
