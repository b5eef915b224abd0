//! The model's token list, as `vocab.txt` gives it.
//!
//! Each line is `<token> <id>`: the token is what comes before the last
//! space, the id what comes after it, a decimal number. A line without a
//! space, or with an id that is not a number that fits a `usize`, is skipped.
//! SentencePiece marks the start of a word with `▁`, which becomes a plain
//! space. The tokens are then put in order of their ids; lines with the
//! same id keep the order they had in the file. Lines end at `\n`, and a
//! `\r` before the `\n` is not part of the line.

use vstd::prelude::*;

use crate::binding_text::same_text;

verus! {

/// SentencePiece's word-start mark.
pub const WORD_MARK: char = '\u{2581}';

/// The text split at every `\n`: one piece more than there are newlines.
pub open spec fn split_nl(s: Seq<char>) -> Seq<Seq<char>>
    decreases s.len(),
{
    if s.len() == 0 {
        seq![Seq::empty()]
    } else {
        let prev = split_nl(s.drop_last());
        if s.last() == '\n' {
            prev.push(Seq::empty())
        } else {
            prev.update(prev.len() - 1, prev.last().push(s.last()))
        }
    }
}

/// A line that ended at a `\n`, without the `\r` of a `\r\n`.
pub open spec fn strip_cr(l: Seq<char>) -> Seq<char> {
    if l.len() > 0 && l.last() == '\r' {
        l.drop_last()
    } else {
        l
    }
}

/// The lines ended by a `\n` so far.
pub open spec fn ended_lines(s: Seq<char>) -> Seq<Seq<char>> {
    let p = split_nl(s);
    Seq::new((p.len() - 1) as nat, |i: int| strip_cr(p[i]))
}

/// The lines of the text, as `str::lines` gives them: a last line without
/// a `\n` counts unless it is empty.
pub open spec fn lines(s: Seq<char>) -> Seq<Seq<char>> {
    let rest = split_nl(s).last();
    if rest.len() == 0 {
        ended_lines(s)
    } else {
        ended_lines(s).push(rest)
    }
}

/// Where the last space of `l` is, or -1.
pub open spec fn last_space(l: Seq<char>) -> int
    decreases l.len(),
{
    if l.len() == 0 {
        -1
    } else if l.last() == ' ' {
        l.len() - 1
    } else {
        last_space(l.drop_last())
    }
}

pub open spec fn is_digit(c: char) -> bool {
    '0' <= c && c <= '9'
}

pub open spec fn all_digits(d: Seq<char>) -> bool {
    forall|i: int| 0 <= i < d.len() ==> is_digit(d[i])
}

/// The number the decimal digits spell.
pub open spec fn digits_value(d: Seq<char>) -> nat
    decreases d.len(),
{
    if d.len() == 0 {
        0
    } else {
        digits_value(d.drop_last()) * 10 + ((d.last() as nat) - ('0' as nat)) as nat
    }
}

/// What `usize::from_str` makes of the text: an optional `+`, then one or
/// more decimal digits whose value fits.
pub open spec fn parse_id(d: Seq<char>) -> Option<nat> {
    let ds = if d.len() > 0 && d[0] == '+' { d.drop_first() } else { d };
    if ds.len() > 0 && all_digits(ds) && digits_value(ds) <= usize::MAX {
        Some(digits_value(ds))
    } else {
        None
    }
}

/// The token with its word marks turned into spaces.
pub open spec fn unmark(t: Seq<char>) -> Seq<char> {
    Seq::new(t.len(), |i: int| if t[i] == WORD_MARK { ' ' } else { t[i] })
}

/// The id and text a line gives, if it gives one.
pub open spec fn entry(l: Seq<char>) -> Option<(nat, Seq<char>)> {
    let k = last_space(l);
    if k < 0 {
        None
    } else {
        match parse_id(l.subrange(k + 1, l.len() as int)) {
            None => None,
            Some(id) => Some((id, unmark(l.subrange(0, k)))),
        }
    }
}

/// The entries of the lines that give one, in file order.
pub open spec fn entries(ls: Seq<Seq<char>>) -> Seq<(nat, Seq<char>)>
    decreases ls.len(),
{
    if ls.len() == 0 {
        Seq::empty()
    } else {
        match entry(ls.last()) {
            Some(e) => entries(ls.drop_last()).push(e),
            None => entries(ls.drop_last()),
        }
    }
}

/// How many entries have an id no greater than `id`.
pub open spec fn count_le(s: Seq<(nat, Seq<char>)>, id: nat) -> nat
    decreases s.len(),
{
    if s.len() == 0 {
        0
    } else {
        count_le(s.drop_last(), id) + if s.last().0 <= id { 1nat } else { 0nat }
    }
}

/// The entries in order of their ids, equal ids in the order the file has them:
/// each entry goes in after every earlier one whose id is not greater.
pub open spec fn stable_sort(es: Seq<(nat, Seq<char>)>) -> Seq<(nat, Seq<char>)>
    decreases es.len(),
{
    if es.len() == 0 {
        Seq::empty()
    } else {
        let prev = stable_sort(es.drop_last());
        let e = es.last();
        prev.insert(count_le(prev, e.0) as int, e)
    }
}

/// The token list a `vocab.txt` gives: its tokens in order of their ids.
pub open spec fn spec_vocab(text: Seq<char>) -> Seq<Seq<char>> {
    let sorted = stable_sort(entries(lines(text)));
    Seq::new(sorted.len(), |i: int| sorted[i].1)
}

pub open spec fn ids_sorted(s: Seq<(nat, Seq<char>)>) -> bool {
    forall|i: int, j: int| 0 <= i < j < s.len() ==> s[i].0 <= s[j].0
}

pub open spec fn table_view(t: Seq<(usize, String)>) -> Seq<(nat, Seq<char>)> {
    Seq::new(t.len(), |i: int| (t[i].0 as nat, t[i].1@))
}

pub open spec fn strings_view(v: Seq<String>) -> Seq<Seq<char>> {
    Seq::new(v.len(), |i: int| v[i]@)
}

// --- MARK: lemmas ---

/// In a table sorted by id, the entries with an id no greater than `id`
/// are exactly the first `count_le` ones.
proof fn lemma_count_le_prefix(s: Seq<(nat, Seq<char>)>, id: nat)
    requires
        ids_sorted(s),
    ensures
        count_le(s, id) <= s.len(),
        forall|i: int| 0 <= i < count_le(s, id) ==> s[i].0 <= id,
        forall|i: int| count_le(s, id) <= i < s.len() ==> s[i].0 > id,
    decreases s.len(),
{
    if s.len() > 0 {
        let p = s.drop_last();
        assert forall|i: int| 0 <= i < p.len() implies s[i] == p[i] by {}
        assert(ids_sorted(p)) by {
            assert forall|i: int, j: int| 0 <= i < j < p.len() implies p[i].0 <= p[j].0 by {
                assert(p[i] == s[i] && p[j] == s[j]);
            }
        }
        lemma_count_le_prefix(p, id);
        let c = count_le(p, id) as int;
        if s.last().0 <= id {
            if c < p.len() {
                assert(p[c].0 > id);
                assert(s[c].0 <= s[s.len() - 1].0);
            }
            assert(c == p.len());
        }
    }
}

/// The table stays sorted as entries go in.
proof fn lemma_insert_sorted(s: Seq<(nat, Seq<char>)>, e: (nat, Seq<char>))
    requires
        ids_sorted(s),
    ensures
        ids_sorted(s.insert(count_le(s, e.0) as int, e)),
{
    lemma_count_le_prefix(s, e.0);
    let k = count_le(s, e.0) as int;
    let r = s.insert(k, e);
    assert forall|i: int, j: int| 0 <= i < j < r.len() implies r[i].0 <= r[j].0 by {
        if j < k {
        } else if j == k {
        } else if i < k {
        } else if i == k {
        } else {
            assert(r[i] == s[i - 1] && r[j] == s[j - 1]);
        }
    }
}

/// The token list comes out in order of the ids.
pub proof fn lemma_sorted_by_id(es: Seq<(nat, Seq<char>)>)
    ensures
        ids_sorted(stable_sort(es)),
        stable_sort(es).len() == es.len(),
    decreases es.len(),
{
    if es.len() > 0 {
        lemma_sorted_by_id(es.drop_last());
        lemma_insert_sorted(stable_sort(es.drop_last()), es.last());
        lemma_count_le_prefix(stable_sort(es.drop_last()), es.last().0);
    }
}

proof fn lemma_digits_grow(d: Seq<char>, i: int)
    requires
        0 <= i <= d.len(),
        all_digits(d),
    ensures
        digits_value(d.take(i)) <= digits_value(d),
    decreases d.len() - i,
{
    if i < d.len() {
        lemma_digits_grow(d, i + 1);
        assert(d.take(i + 1).drop_last() =~= d.take(i));
        assert(is_digit(d.take(i + 1).last()));
    } else {
        assert(d.take(i) =~= d);
    }
}

proof fn lemma_split_nl_len(s: Seq<char>)
    ensures
        split_nl(s).len() >= 1,
    decreases s.len(),
{
    if s.len() > 0 {
        lemma_split_nl_len(s.drop_last());
    }
}

/// One more line is one more entry, sorted in, if it gives one.
proof fn lemma_sort_push_line(ls: Seq<Seq<char>>, l: Seq<char>)
    ensures
        stable_sort(entries(ls.push(l))) == match entry(l) {
            Some(e) => stable_sort(entries(ls)).insert(count_le(stable_sort(entries(ls)), e.0) as int, e),
            None => stable_sort(entries(ls)),
        },
{
    assert(ls.push(l).drop_last() =~= ls);
    match entry(l) {
        Some(e) => {
            assert(entries(ls).push(e).drop_last() =~= entries(ls));
        },
        None => {},
    }
}

/// Every entry of the sorted table is one of the file's, and the other way
/// round.
proof fn lemma_sort_keeps_entries(es: Seq<(nat, Seq<char>)>)
    ensures
        forall|x: (nat, Seq<char>)| stable_sort(es).contains(x) <==> es.contains(x),
    decreases es.len(),
{
    if es.len() > 0 {
        let init = es.drop_last();
        let e = es.last();
        lemma_sort_keeps_entries(init);
        lemma_sorted_by_id(init);
        let prev = stable_sort(init);
        let k = count_le(prev, e.0) as int;
        lemma_count_le_prefix(prev, e.0);
        let out = prev.insert(k, e);
        assert forall|x: (nat, Seq<char>)| out.contains(x) <==> es.contains(x) by {
            if out.contains(x) {
                let j = choose|j: int| 0 <= j < out.len() && out[j] == x;
                if j < k {
                    assert(prev[j] == x);
                    assert(prev.contains(x));
                    assert(init.contains(x));
                    let m = choose|m: int| 0 <= m < init.len() && init[m] == x;
                    assert(es[m] == x);
                } else if j == k {
                    assert(es[es.len() - 1] == x);
                } else {
                    assert(prev[j - 1] == x);
                    assert(prev.contains(x));
                    assert(init.contains(x));
                    let m = choose|m: int| 0 <= m < init.len() && init[m] == x;
                    assert(es[m] == x);
                }
            }
            if es.contains(x) {
                let m = choose|m: int| 0 <= m < es.len() && es[m] == x;
                if m == es.len() - 1 {
                    assert(out[k] == x);
                } else {
                    assert(init[m] == x);
                    assert(init.contains(x));
                    assert(prev.contains(x));
                    let j = choose|j: int| 0 <= j < prev.len() && prev[j] == x;
                    if j < k {
                        assert(out[j] == x);
                    } else {
                        assert(out[j + 1] == x);
                    }
                }
            }
        }
    }
}

pub open spec fn ids_distinct(s: Seq<(nat, Seq<char>)>) -> bool {
    forall|i: int, j: int| 0 <= i < j < s.len() ==> s[i].0 != s[j].0
}

/// Sorting keeps the ids distinct when the file's are.
proof fn lemma_sort_keeps_distinct(es: Seq<(nat, Seq<char>)>)
    requires
        ids_distinct(es),
    ensures
        ids_distinct(stable_sort(es)),
    decreases es.len(),
{
    if es.len() > 0 {
        let init = es.drop_last();
        let e = es.last();
        assert(ids_distinct(init)) by {
            assert forall|i: int, j: int| 0 <= i < j < init.len() implies init[i].0 != init[j].0 by {
                assert(init[i] == es[i] && init[j] == es[j]);
            }
        }
        lemma_sort_keeps_distinct(init);
        lemma_sort_keeps_entries(init);
        lemma_sorted_by_id(init);
        let prev = stable_sort(init);
        let k = count_le(prev, e.0) as int;
        lemma_count_le_prefix(prev, e.0);
        let out = prev.insert(k, e);
        assert forall|j: int| 0 <= j < prev.len() implies prev[j].0 != e.0 by {
            assert(prev.contains(prev[j]));
            assert(init.contains(prev[j]));
            let m = choose|m: int| 0 <= m < init.len() && init[m] == prev[j];
            assert(es[m] == prev[j]);
        }
        assert forall|i: int, j: int| 0 <= i < j < out.len() implies out[i].0 != out[j].0 by {
            if j < k {
                assert(out[i] == prev[i] && out[j] == prev[j]);
            } else if j == k {
                assert(out[i] == prev[i]);
            } else if i < k {
                assert(out[i] == prev[i] && out[j] == prev[j - 1]);
            } else if i == k {
                assert(out[j] == prev[j - 1]);
            } else {
                assert(out[i] == prev[i - 1] && out[j] == prev[j - 1]);
            }
        }
    }
}

/// In a table sorted by distinct ids, ids grow by at least the distance.
proof fn lemma_increasing_gaps(s: Seq<(nat, Seq<char>)>, a: int, b: int)
    requires
        ids_sorted(s),
        ids_distinct(s),
        0 <= a <= b < s.len(),
    ensures
        s[b].0 - s[a].0 >= b - a,
    decreases b - a,
{
    if a < b {
        lemma_increasing_gaps(s, a, b - 1);
        assert(s[b - 1].0 <= s[b].0 && s[b - 1].0 != s[b].0);
    }
}

/// When the file gives every id from 0 up, each once, the token list has
/// each token at its id.
pub proof fn lemma_vocab_by_id(text: Seq<char>)
    requires
        ids_distinct(entries(lines(text))),
        forall|i: int| 0 <= i < entries(lines(text)).len() ==> #[trigger] entries(lines(text))[i].0 < entries(lines(text)).len(),
    ensures
        spec_vocab(text).len() == entries(lines(text)).len(),
        forall|i: int| 0 <= i < entries(lines(text)).len() ==> spec_vocab(text)[#[trigger] entries(lines(text))[i].0 as int]
            == entries(lines(text))[i].1,
{
    let es = entries(lines(text));
    let out = stable_sort(es);
    let n = es.len() as int;
    lemma_sorted_by_id(es);
    lemma_sort_keeps_entries(es);
    lemma_sort_keeps_distinct(es);
    assert forall|j: int| 0 <= j < n implies #[trigger] out[j].0 == j by {
        assert(out.contains(out[j]));
        assert(es.contains(out[j]));
        let m = choose|m: int| 0 <= m < n && es[m] == out[j];
        assert(out[j].0 < n);
        lemma_increasing_gaps(out, 0, j);
        lemma_increasing_gaps(out, j, n - 1);
        assert(out.contains(out[n - 1]));
        assert(es.contains(out[n - 1]));
        let m2 = choose|m: int| 0 <= m < n && es[m] == out[n - 1];
        assert(out[n - 1].0 < n);
    }
    assert forall|i: int| 0 <= i < n implies spec_vocab(text)[#[trigger] es[i].0 as int] == es[i].1 by {
        assert(es.contains(es[i]));
        assert(out.contains(es[i]));
        let j = choose|j: int| 0 <= j < n && out[j] == es[i];
        assert(out[j].0 == j);
    }
}

// --- MARK: reading ---

/// The value of a run of decimal digits, if it is one that fits a `usize`
/// (after an optional `+`).
fn parse_id_exec(d: &Vec<char>, from: usize) -> (r: Option<usize>)
    requires
        from <= d@.len(),
    ensures
        match parse_id(d@.subrange(from as int, d@.len() as int)) {
            Some(v) => r == Some(v as usize),
            None => r is None,
        },
{
    let ghost whole = d@.subrange(from as int, d@.len() as int);
    let n = d.len();
    let mut start = from;
    if from < n && d[from] == '+' {
        start = from + 1;
    }
    let ghost ds = d@.subrange(start as int, n as int);
    proof {
        if from < n {
            assert(whole[0] == d@[from as int]);
        }
        if from < n && d@[from as int] == '+' {
            assert(ds =~= whole.drop_first());
        } else {
            assert(ds =~= whole);
        }
        assert(parse_id(whole) == if ds.len() > 0 && all_digits(ds) && digits_value(ds) <= usize::MAX {
            Some(digits_value(ds))
        } else {
            None::<nat>
        });
    }
    if start >= n {
        return None;
    }
    let mut v: usize = 0;
    let mut i: usize = start;
    while i < n
        invariant
            start <= i <= n,
            n == d@.len(),
            ds == d@.subrange(start as int, n as int),
            ds.len() > 0,
            parse_id(d@.subrange(from as int, n as int)) == if all_digits(ds) && digits_value(ds) <= usize::MAX {
                Some(digits_value(ds))
            } else {
                None::<nat>
            },
            all_digits(ds.take(i - start)),
            v == digits_value(ds.take(i - start)),
        decreases n - i,
    {
        let c = d[i];
        proof {
            assert(ds.take(i + 1 - start).drop_last() =~= ds.take(i - start));
            assert(ds.take(i + 1 - start).last() == c);
        }
        if !('0' <= c && c <= '9') {
            proof {
                assert(ds[i - start] == c);
                assert(!is_digit(ds[i - start]));
                assert(!all_digits(ds));
            }
            return None;
        }
        let digit: u32 = (c as u32) - ('0' as u32);
        let w: u128 = (v as u128) * 10 + (digit as u128);
        if w > (usize::MAX as u128) {
            proof {
                let rest = ds;
                if all_digits(rest) {
                    lemma_digits_grow(rest, i + 1 - start);
                }
            }
            return None;
        }
        v = w as usize;
        i += 1;
    }
    proof {
        assert(ds.take(n - start) =~= ds);
    }
    Some(v)
}

/// Add the entry a line gives, if any, to the sorted table.
fn add_line(table: &mut Vec<(usize, String)>, l: &Vec<char>)
    requires
        ids_sorted(table_view(old(table)@)),
    ensures
        ids_sorted(table_view(final(table)@)),
        table_view(final(table)@) == match entry(l@) {
            Some(e) => table_view(old(table)@).insert(count_le(table_view(old(table)@), e.0) as int, e),
            None => table_view(old(table)@),
        },
{
    let n = l.len();
    let mut k: usize = n;
    proof {
        assert(l@.take(n as int) =~= l@);
    }
    while k > 0 && l[k - 1] != ' '
        invariant
            k <= n,
            n == l@.len(),
            last_space(l@) == last_space(l@.take(k as int)),
        decreases k,
    {
        proof {
            assert(l@.take(k as int).drop_last() =~= l@.take(k - 1));
        }
        k -= 1;
    }
    proof {
        if k == 0 {
            assert(l@.take(0) =~= Seq::<char>::empty());
        } else {
            assert(l@.take(k as int).last() == ' ');
        }
    }
    if k == 0 {
        return;
    }
    let sp = k - 1;
    let id = match parse_id_exec(l, sp + 1) {
        Some(v) => v,
        None => return,
    };
    let mut token = String::new();
    let mut j: usize = 0;
    while j < sp
        invariant
            j <= sp,
            sp < n,
            n == l@.len(),
            token@ == unmark(l@.subrange(0, sp as int)).take(j as int),
        decreases sp - j,
    {
        let c = l[j];
        if c == WORD_MARK {
            token.push(' ');
        } else {
            token.push(c);
        }
        proof {
            assert(token@ =~= unmark(l@.subrange(0, sp as int)).take(j + 1));
        }
        j += 1;
    }
    proof {
        assert(unmark(l@.subrange(0, sp as int)).take(sp as int) =~= unmark(l@.subrange(0, sp as int)));
    }
    let ghost old_view = table_view(table@);
    let ghost e = (id as nat, token@);
    let mut pos: usize = 0;
    let mut m: usize = 0;
    while m < table.len()
        invariant
            m <= table@.len(),
            old_view == table_view(table@),
            pos as nat == count_le(old_view.take(m as int), id as nat),
            pos <= m,
        decreases table@.len() - m,
    {
        proof {
            assert(old_view.take(m + 1).drop_last() =~= old_view.take(m as int));
        }
        if table[m].0 <= id {
            pos += 1;
        }
        m += 1;
    }
    proof {
        assert(old_view.take(table@.len() as int) =~= old_view);
        lemma_insert_sorted(old_view, e);
    }
    table.insert(pos, (id, token));
    proof {
        assert(table_view(table@) =~= old_view.insert(pos as int, e));
    }
}

/// Read the token list out of `vocab.txt`'s text.
pub fn parse_vocab(text: &str) -> (vocab: Vec<String>)
    ensures
        strings_view(vocab@) == spec_vocab(text@),
{
    let n = text.unicode_len();
    let mut table: Vec<(usize, String)> = Vec::new();
    let mut line: Vec<char> = Vec::new();
    let mut i: usize = 0;
    proof {
        assert(text@.take(0) =~= Seq::<char>::empty());
        assert(ended_lines(text@.take(0)) =~= Seq::<Seq<char>>::empty());
        assert(table_view(table@) =~= Seq::<(nat, Seq<char>)>::empty());
    }
    while i < n
        invariant
            i <= n,
            n == text@.len(),
            ids_sorted(table_view(table@)),
            table_view(table@) == stable_sort(entries(ended_lines(text@.take(i as int)))),
            line@ == split_nl(text@.take(i as int)).last(),
        decreases n - i,
    {
        let c = text.get_char(i);
        let ghost s0 = text@.take(i as int);
        let ghost s1 = text@.take(i + 1);
        proof {
            assert(s1.drop_last() =~= s0);
            assert(s1.last() == c);
            lemma_split_nl_len(s0);
        }
        if c == '\n' {
            let mut l = line;
            if l.len() > 0 && l[l.len() - 1] == '\r' {
                l.pop();
            }
            proof {
                assert(l@ == strip_cr(split_nl(s0).last()));
                assert(split_nl(s1) == split_nl(s0).push(Seq::empty()));
                assert(ended_lines(s1) =~= ended_lines(s0).push(l@));
                lemma_sort_push_line(ended_lines(s0), l@);
            }
            add_line(&mut table, &l);
            line = Vec::new();
        } else {
            line.push(c);
            proof {
                let p0 = split_nl(s0);
                assert(split_nl(s1) == p0.update(p0.len() - 1, p0.last().push(c)));
                assert(ended_lines(s1) =~= ended_lines(s0));
            }
        }
        i += 1;
    }
    proof {
        assert(text@.take(n as int) =~= text@);
    }
    if line.len() > 0 {
        proof {
            assert(lines(text@) == ended_lines(text@).push(line@));
            lemma_sort_push_line(ended_lines(text@), line@);
        }
        add_line(&mut table, &line);
    }
    assert(table_view(table@) == stable_sort(entries(lines(text@))));
    let ghost sorted = table_view(table@);
    let mut vocab: Vec<String> = Vec::new();
    let mut k: usize = 0;
    while k < table.len()
        invariant
            k <= table@.len(),
            sorted == table_view(table@),
            vocab@.len() == k,
            forall|j: int| 0 <= j < k ==> #[trigger] vocab@[j]@ == sorted[j].1,
        decreases table@.len() - k,
    {
        let t = table[k].1.clone();
        proof {
            assert(t@ == sorted[k as int].1);
        }
        vocab.push(t);
        k += 1;
    }
    proof {
        assert(strings_view(vocab@) =~= spec_vocab(text@));
    }
    vocab
}

/// The blank token's text.
pub open spec fn blank_text() -> Seq<char> {
    "<blk>"@
}

/// The position of the blank token: the first `<blk>` in the list.
pub fn blank_index(vocab: &Vec<String>) -> (r: Option<usize>)
    ensures
        match r {
            Some(i) => i < vocab@.len() && vocab@[i as int]@ == blank_text()
                && forall|j: int| 0 <= j < i ==> vocab@[j]@ != blank_text(),
            None => forall|j: int| 0 <= j < vocab@.len() ==> vocab@[j]@ != blank_text(),
        },
{
    let blk = "<blk>";
    let mut i: usize = 0;
    while i < vocab.len()
        invariant
            i <= vocab@.len(),
            blk@ == blank_text(),
            forall|j: int| 0 <= j < i ==> vocab@[j]@ != blank_text(),
        decreases vocab@.len() - i,
    {
        if same_text(vocab[i].as_str(), blk) {
            return Some(i);
        }
        i += 1;
    }
    None
}

} // verus!
