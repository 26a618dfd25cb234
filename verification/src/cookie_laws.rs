//! What holds of merging and writing cookie headers.

use vstd::prelude::*;

use crate::cookies;
use crate::text;

verus! {

/// The value that the last part with a given name sets.
pub open spec fn last_value(parts: Seq<Seq<char>>, name: Seq<char>) -> Option<Seq<char>>
    decreases parts.len(),
{
    if parts.len() == 0 {
        None
    } else {
        match cookies::cookie_part(parts.last()) {
            Some((n, value)) => if n == name {
                Some(value)
            } else {
                last_value(parts.drop_last(), name)
            },
            None => last_value(parts.drop_last(), name),
        }
    }
}

/// Cookies as a header can carry them: the names are not empty and occur once, names and values
/// have no white space at their ends, no name holds `=` or `;`, and no value holds `;`.
pub open spec fn clean(pairs: Seq<(Seq<char>, Seq<char>)>) -> bool {
    &&& forall|i: int| 0 <= i < pairs.len() ==> clean_pair(#[trigger] pairs[i])
    &&& forall|i: int, j: int|
        0 <= i < j < pairs.len() ==> (#[trigger] pairs[i]).0 != (#[trigger] pairs[j]).0
}

/// A cookie as a header can carry it.
pub open spec fn clean_pair(pair: (Seq<char>, Seq<char>)) -> bool {
    &&& pair.0.len() > 0
    &&& text::trim(pair.0) == pair.0
    &&& !pair.0.contains('=')
    &&& !pair.0.contains(';')
    &&& text::trim(pair.1) == pair.1
    &&& !pair.1.contains(';')
}

// ---------------------------------------------------------------------------------------------
// Clean cookies stay clean
// ---------------------------------------------------------------------------------------------

proof fn lemma_part_lacks(s: Seq<char>, from: int, to: int, c: char)
    requires
        0 <= from <= to <= s.len(),
        !s.contains(c),
    ensures
        !s.subrange(from, to).contains(c),
{
    let part = s.subrange(from, to);
    if part.contains(c) {
        let i = choose|i: int| 0 <= i < part.len() && part[i] == c;
        assert(s[from + i] == c);
    }
}

proof fn lemma_trim_lacks(s: Seq<char>, c: char)
    requires
        !s.contains(c),
    ensures
        !text::trim(s).contains(c),
{
    let k = text::lemma_trim(s);
    lemma_part_lacks(s, k, k + text::trim(s).len(), c);
}

proof fn lemma_trim_twice(s: Seq<char>)
    ensures
        text::trim(text::trim(s)) == text::trim(s),
{
    let k = text::lemma_trim(s);
    text::lemma_trimmed_is_fixed(text::trim(s));
}

proof fn lemma_split_lacks(s: Seq<char>, c: char)
    ensures
        forall|i: int|
            0 <= i < text::split(s, c).len() ==> !(#[trigger] text::split(s, c)[i]).contains(c),
    decreases s.len(),
{
    text::lemma_cut(s, c);
    let parts = text::split(s, c);
    let head = text::before(s, c);
    assert(!head.contains(c)) by {
        if head.contains(c) {
            let i = choose|i: int| 0 <= i < head.len() && head[i] == c;
            assert(s[i] == c);
        }
    }
    if text::cut(s, c) < s.len() {
        let rest = text::behind(s, c);
        lemma_split_lacks(rest, c);
        assert forall|i: int| 0 <= i < parts.len() implies !(#[trigger] parts[i]).contains(c) by {
            if i > 0 {
                assert(parts[i] == text::split(rest, c)[i - 1]);
            }
        }
    } else {
        assert(head == s);
    }
}

/// A part of a header that names a cookie names a clean one.
proof fn lemma_cookie_part_is_clean(part: Seq<char>)
    requires
        !part.contains(';'),
    ensures
        cookies::cookie_part(part) matches Some(pair) ==> clean_pair(pair),
{
    let p = text::trim(part);
    lemma_trim_lacks(part, ';');
    text::lemma_cut(p, '=');
    let k = text::cut(p, '=') as int;
    if k < p.len() {
        let head = text::before(p, '=');
        let tail = text::behind(p, '=');
        assert(head == p.subrange(0, k));
        assert(tail == p.subrange(k + 1, p.len() as int));
        lemma_part_lacks(p, 0, k, ';');
        lemma_part_lacks(p, k + 1, p.len() as int, ';');
        assert(!head.contains('=')) by {
            if head.contains('=') {
                let i = choose|i: int| 0 <= i < head.len() && head[i] == '=';
                assert(p[i] == '=');
            }
        }
        lemma_trim_lacks(head, '=');
        lemma_trim_lacks(head, ';');
        lemma_trim_lacks(tail, ';');
        lemma_trim_twice(head);
        lemma_trim_twice(tail);
    }
}

proof fn lemma_set_value_clean(
    pairs: Seq<(Seq<char>, Seq<char>)>,
    name: Seq<char>,
    value: Seq<char>,
)
    requires
        clean(pairs),
        clean_pair((name, value)),
    ensures
        clean(cookies::set_value(pairs, name, value)),
{
    cookies::lemma_place(pairs, name);
    let k = cookies::place(pairs, name) as int;
    let after = cookies::set_value(pairs, name, value);
    assert forall|i: int| 0 <= i < after.len() implies clean_pair(#[trigger] after[i]) by {
        if i != k {
            assert(after[i] == pairs[i]);
        }
    }
    assert forall|i: int, j: int| 0 <= i < j < after.len() implies (#[trigger] after[i]).0 != (
    #[trigger] after[j]).0 by {
        if k < pairs.len() {
            assert(after[i].0 == pairs[i].0);
            assert(after[j].0 == pairs[j].0);
        } else {
            assert(after[i] == pairs[i]);
            if j < pairs.len() {
                assert(after[j] == pairs[j]);
            }
        }
    }
}

proof fn lemma_merge_parts_clean(pairs: Seq<(Seq<char>, Seq<char>)>, parts: Seq<Seq<char>>)
    requires
        clean(pairs),
        forall|i: int| 0 <= i < parts.len() ==> !(#[trigger] parts[i]).contains(';'),
    ensures
        clean(cookies::merge_parts(pairs, parts)),
    decreases parts.len(),
{
    if parts.len() > 0 {
        let fewer = parts.drop_last();
        assert forall|i: int| 0 <= i < fewer.len() implies !(#[trigger] fewer[i]).contains(';') by {
            assert(fewer[i] == parts[i]);
        }
        lemma_merge_parts_clean(pairs, fewer);
        assert(!parts[parts.len() - 1].contains(';'));
        lemma_cookie_part_is_clean(parts.last());
        match cookies::cookie_part(parts.last()) {
            Some((name, value)) => {
                lemma_set_value_clean(cookies::merge_parts(pairs, fewer), name, value);
            },
            None => {},
        }
    }
}

/// Merging any header into clean cookies leaves clean cookies: in particular, no name comes to
/// stand twice.
pub proof fn law_merging_keeps_cookies_clean(
    pairs: Seq<(Seq<char>, Seq<char>)>,
    header: Seq<char>,
)
    requires
        clean(pairs),
    ensures
        clean(cookies::merge(pairs, header)),
{
    lemma_split_lacks(header, ';');
    lemma_merge_parts_clean(pairs, text::split(header, ';'));
}

/// The cookies that are sent to the login service are clean, whatever headers they come from.
pub proof fn law_login_cookies_are_clean(headers: Seq<Option<Seq<char>>>)
    ensures
        clean(cookies::merge_headers(headers)),
    decreases headers.len(),
{
    if headers.len() > 0 {
        law_login_cookies_are_clean(headers.drop_last());
        match headers.last() {
            Some(header) => {
                law_merging_keeps_cookies_clean(
                    cookies::merge_headers(headers.drop_last()),
                    header,
                );
            },
            None => {},
        }
    }
}

// ---------------------------------------------------------------------------------------------
// What a merge sets and what it leaves
// ---------------------------------------------------------------------------------------------

/// Merging keeps every cookie's name and place; new names come behind.
pub proof fn law_merging_keeps_places(
    pairs: Seq<(Seq<char>, Seq<char>)>,
    parts: Seq<Seq<char>>,
)
    ensures
        pairs.len() <= cookies::merge_parts(pairs, parts).len(),
        forall|i: int|
            0 <= i < pairs.len() ==> (#[trigger] cookies::merge_parts(pairs, parts)[i]).0
                == pairs[i].0,
    decreases parts.len(),
{
    if parts.len() > 0 {
        law_merging_keeps_places(pairs, parts.drop_last());
        let before = cookies::merge_parts(pairs, parts.drop_last());
        let after = cookies::merge_parts(pairs, parts);
        match cookies::cookie_part(parts.last()) {
            Some((name, value)) => {
                cookies::lemma_place(before, name);
            },
            None => {},
        }
        assert forall|i: int| 0 <= i < pairs.len() implies (#[trigger] after[i]).0
            == pairs[i].0 by {
            assert(before[i].0 == pairs[i].0);
        }
    }
}

/// After a merge the last value that the header sets for a name is the value of the first cookie
/// of that name.
pub proof fn law_last_value_wins(
    pairs: Seq<(Seq<char>, Seq<char>)>,
    parts: Seq<Seq<char>>,
    name: Seq<char>,
)
    requires
        last_value(parts, name) is Some,
    ensures
        ({
            let after = cookies::merge_parts(pairs, parts);
            let k = cookies::place(after, name);
            k < after.len() && after[k as int] == (name, last_value(parts, name)->0)
        }),
    decreases parts.len(),
{
    let before = cookies::merge_parts(pairs, parts.drop_last());
    let after = cookies::merge_parts(pairs, parts);
    match cookies::cookie_part(parts.last()) {
        Some((n, value)) => {
            cookies::lemma_place(before, n);
            let k = cookies::place(before, n) as int;
            if n == name {
                assert forall|i: int| 0 <= i < k implies (#[trigger] after[i]).0 != name by {
                    assert(before[i].0 != name);
                    assert(after[i] == before[i]);
                }
                cookies::lemma_place_is(after, name, k);
            } else {
                law_last_value_wins(pairs, parts.drop_last(), name);
                cookies::lemma_place(before, name);
                let m = cookies::place(before, name) as int;
                assert(after[m] == before[m]);
                assert forall|i: int| 0 <= i < m implies (#[trigger] after[i]).0 != name by {
                    assert(before[i].0 != name);
                }
                cookies::lemma_place_is(after, name, m);
            }
        },
        None => {
            law_last_value_wins(pairs, parts.drop_last(), name);
        },
    }
}

/// The place of a name is decided by the names alone.
proof fn lemma_place_by_names(
    a: Seq<(Seq<char>, Seq<char>)>,
    b: Seq<(Seq<char>, Seq<char>)>,
    name: Seq<char>,
)
    requires
        a.len() == b.len(),
        forall|i: int| 0 <= i < a.len() ==> (#[trigger] a[i]).0 == b[i].0,
    ensures
        cookies::place(a, name) == cookies::place(b, name),
{
    cookies::lemma_place(a, name);
    let k = cookies::place(a, name) as int;
    assert forall|i: int| 0 <= i < k implies (#[trigger] b[i]).0 != name by {
        assert(a[i].0 != name);
    }
    if k < a.len() {
        assert(a[k].0 == b[k].0);
    }
    cookies::lemma_place_is(b, name, k);
}

/// Where all the names of the parts are there, a merge only sets their values.
proof fn lemma_merge_over(pairs: Seq<(Seq<char>, Seq<char>)>, parts: Seq<Seq<char>>)
    requires
        forall|name: Seq<char>| #[trigger]
            last_value(parts, name) is Some ==> cookies::place(pairs, name) < pairs.len(),
    ensures
        ({
            let after = cookies::merge_parts(pairs, parts);
            &&& after.len() == pairs.len()
            &&& forall|i: int|
                0 <= i < pairs.len() ==> {
                    &&& (#[trigger] after[i]).0 == pairs[i].0
                    &&& after[i].1 == (if cookies::place(pairs, pairs[i].0) == i && last_value(
                        parts,
                        pairs[i].0,
                    ) is Some {
                        last_value(parts, pairs[i].0)->0
                    } else {
                        pairs[i].1
                    })
                }
        }),
    decreases parts.len(),
{
    if parts.len() > 0 {
        let fewer = parts.drop_last();
        assert forall|name: Seq<char>| #[trigger] last_value(fewer, name) is Some implies cookies::place(
            pairs,
            name,
        ) < pairs.len() by {
            assert(last_value(parts, name) is Some);
        }
        lemma_merge_over(pairs, fewer);
        let before = cookies::merge_parts(pairs, fewer);
        let after = cookies::merge_parts(pairs, parts);
        match cookies::cookie_part(parts.last()) {
            Some((n, value)) => {
                assert(last_value(parts, n) == Some(value));
                lemma_place_by_names(pairs, before, n);
                cookies::lemma_place(pairs, n);
                let k = cookies::place(pairs, n) as int;
                assert(after == before.update(k, (n, value)));
                assert forall|i: int| 0 <= i < pairs.len() implies {
                    &&& (#[trigger] after[i]).0 == pairs[i].0
                    &&& after[i].1 == (if cookies::place(pairs, pairs[i].0) == i && last_value(
                        parts,
                        pairs[i].0,
                    ) is Some {
                        last_value(parts, pairs[i].0)->0
                    } else {
                        pairs[i].1
                    })
                } by {
                    assert(before[i].0 == pairs[i].0);
                }
            },
            None => {
                assert forall|i: int| 0 <= i < pairs.len() implies {
                    &&& (#[trigger] after[i]).0 == pairs[i].0
                    &&& after[i].1 == (if cookies::place(pairs, pairs[i].0) == i && last_value(
                        parts,
                        pairs[i].0,
                    ) is Some {
                        last_value(parts, pairs[i].0)->0
                    } else {
                        pairs[i].1
                    })
                } by {
                    assert(before[i].0 == pairs[i].0);
                }
            },
        }
    }
}

/// Merging the same header a second time changes nothing.
pub proof fn law_merging_twice_is_merging_once(
    pairs: Seq<(Seq<char>, Seq<char>)>,
    header: Seq<char>,
)
    ensures
        cookies::merge(cookies::merge(pairs, header), header) == cookies::merge(pairs, header),
{
    let parts = text::split(header, ';');
    let once = cookies::merge_parts(pairs, parts);
    assert forall|name: Seq<char>| #[trigger] last_value(parts, name) is Some implies cookies::place(
        once,
        name,
    ) < once.len() by {
        law_last_value_wins(pairs, parts, name);
    }
    lemma_merge_over(once, parts);
    let twice = cookies::merge_parts(once, parts);
    assert forall|i: int| 0 <= i < once.len() implies #[trigger] twice[i] == once[i] by {
        assert(twice[i].0 == once[i].0);
        let name = once[i].0;
        if last_value(parts, name) is Some {
            law_last_value_wins(pairs, parts, name);
        }
    }
    assert(twice == once);
}

// ---------------------------------------------------------------------------------------------
// Reading back what was written
// ---------------------------------------------------------------------------------------------

/// Splitting at a separator splits what stands on both sides of it.
proof fn lemma_split_around(a: Seq<char>, b: Seq<char>, c: char)
    ensures
        text::split(a + seq![c] + b, c) == text::split(a, c) + text::split(b, c),
    decreases a.len(),
{
    let whole = a + seq![c] + b;
    text::lemma_cut(a, c);
    let k = text::cut(a, c) as int;
    assert forall|i: int| 0 <= i < k implies #[trigger] whole[i] != c by {
        assert(whole[i] == a[i]);
    }
    text::lemma_cut_is(whole, c, k);
    if k < a.len() {
        let rest = text::behind(a, c);
        lemma_split_around(rest, b, c);
        assert(text::before(whole, c) == text::before(a, c));
        assert(text::behind(whole, c) == rest + seq![c] + b);
        assert(text::split(whole, c) == seq![text::before(a, c)] + (text::split(rest, c)
            + text::split(b, c)));
        assert(text::split(whole, c) == text::split(a, c) + text::split(b, c));
    } else {
        assert(text::before(whole, c) == a);
        assert(text::behind(whole, c) == b);
    }
}

/// Merging parts and then more parts is merging them all.
proof fn lemma_merge_more(
    pairs: Seq<(Seq<char>, Seq<char>)>,
    first: Seq<Seq<char>>,
    more: Seq<Seq<char>>,
)
    ensures
        cookies::merge_parts(pairs, first + more) == cookies::merge_parts(
            cookies::merge_parts(pairs, first),
            more,
        ),
    decreases more.len(),
{
    if more.len() == 0 {
        assert(first + more == first);
    } else {
        lemma_merge_more(pairs, first, more.drop_last());
        assert((first + more).drop_last() == first + more.drop_last());
    }
}

/// Text that trimming leaves as it is has no white space at its ends.
proof fn lemma_trimmed_ends(s: Seq<char>)
    requires
        text::trim(s) == s,
        s.len() > 0,
    ensures
        !text::white_space(s[0]),
        !text::white_space(s.last()),
{
    let k = text::lemma_trim(s);
}

proof fn lemma_pair_lacks(name: Seq<char>, value: Seq<char>)
    requires
        !name.contains(';'),
        !value.contains(';'),
    ensures
        !(name + seq!['='] + value).contains(';'),
{
    let t = name + seq!['='] + value;
    let n = name.len() as int;
    if t.contains(';') {
        let i = choose|i: int| 0 <= i < t.len() && t[i] == ';';
        if i < n {
            assert(name.contains(name[i]));
        } else if i > n {
            assert(value.contains(value[i - n - 1]));
        }
    }
}

proof fn lemma_pair_cut(name: Seq<char>, value: Seq<char>)
    requires
        !name.contains('='),
    ensures
        text::cut(name + seq!['='] + value, '=') == name.len(),
{
    let t = name + seq!['='] + value;
    let n = name.len() as int;
    assert forall|i: int| 0 <= i < n implies #[trigger] t[i] != '=' by {
        assert(name.contains(name[i]));
    }
    text::lemma_cut_is(t, '=', n);
}

proof fn lemma_pair_trimmed(name: Seq<char>, value: Seq<char>)
    requires
        name.len() > 0,
        text::trim(name) == name,
        text::trim(value) == value,
    ensures
        text::trim(name + seq!['='] + value) == name + seq!['='] + value,
{
    let t = name + seq!['='] + value;
    lemma_trimmed_ends(name);
    assert(t[0] == name[0]);
    assert(!text::white_space(t.last())) by {
        if value.len() > 0 {
            lemma_trimmed_ends(value);
            assert(t.last() == value.last());
        } else {
            assert(t.last() == '=');
        }
    }
    text::lemma_trimmed_is_fixed(t);
}

/// The text of a clean cookie, with or without a space before it, is one part that names it.
proof fn lemma_pair_text_is_read(pair: (Seq<char>, Seq<char>))
    requires
        clean_pair(pair),
    ensures
        !cookies::pair_text(pair).contains(';'),
        !(seq![' '] + cookies::pair_text(pair)).contains(';'),
        cookies::cookie_part(cookies::pair_text(pair)) == Some(pair),
        cookies::cookie_part(seq![' '] + cookies::pair_text(pair)) == Some(pair),
{
    let t = cookies::pair_text(pair);
    let u = seq![' '] + t;
    assert(t == pair.0 + seq!['='] + pair.1) by {
        reveal_strlit("=");
        assert("="@ == seq!['=']);
    }
    lemma_pair_lacks(pair.0, pair.1);
    lemma_pair_cut(pair.0, pair.1);
    lemma_pair_trimmed(pair.0, pair.1);
    assert(!u.contains(';')) by {
        if u.contains(';') {
            let i = choose|i: int| 0 <= i < u.len() && u[i] == ';';
            assert(t.contains(t[i - 1]));
        }
    }
    assert(text::trim(u) == t) by {
        assert(u.skip(1) == t);
    }
    assert(text::before(t, '=') == pair.0);
    assert(text::behind(t, '=') == pair.1);
}

proof fn lemma_split_single(s: Seq<char>, c: char)
    requires
        !s.contains(c),
    ensures
        text::split(s, c) == seq![s],
{
    text::lemma_cut(s, c);
    if text::cut(s, c) < s.len() {
        assert(s.contains(s[text::cut(s, c) as int]));
    }
}

/// Clean cookies that are written as a header and read again are the same cookies, in order.
pub proof fn law_written_cookies_read_back(pairs: Seq<(Seq<char>, Seq<char>)>)
    requires
        clean(pairs),
    ensures
        cookies::merge(Seq::empty(), cookies::joined(pairs)) == pairs,
    decreases pairs.len(),
{
    let none = Seq::<(Seq<char>, Seq<char>)>::empty();
    let header = cookies::joined(pairs);
    if pairs.len() == 0 {
        lemma_split_single(header, ';');
        assert(text::trim(header).len() == 0) by {
            text::lemma_trim_blank(header);
        }
        assert(text::split(header, ';').drop_last() == Seq::<Seq<char>>::empty());
        assert(cookies::merge_parts(none, text::split(header, ';').drop_last()) == none);
        assert(cookies::merge(none, header) == none);
    } else {
        let last = pairs.last();
        assert(last == pairs[pairs.len() - 1]);
        lemma_pair_text_is_read(last);
        let fewer = pairs.drop_last();
        assert(clean(fewer)) by {
            assert forall|i: int| 0 <= i < fewer.len() implies clean_pair(#[trigger] fewer[i]) by {
                assert(fewer[i] == pairs[i]);
            }
            assert forall|i: int, j: int| 0 <= i < j < fewer.len() implies (#[trigger] fewer[i]).0
                != (#[trigger] fewer[j]).0 by {
                assert(fewer[i] == pairs[i] && fewer[j] == pairs[j]);
            }
        }
        assert forall|i: int| 0 <= i < fewer.len() implies (#[trigger] fewer[i]).0 != last.0 by {
            assert(fewer[i] == pairs[i]);
        }
        cookies::lemma_place_is(fewer, last.0, fewer.len() as int);
        assert(fewer.push(last) == pairs);
        if pairs.len() == 1 {
            assert(fewer == none);
            assert(header == cookies::pair_text(last));
            lemma_split_single(header, ';');
            assert(text::split(header, ';').drop_last() == Seq::<Seq<char>>::empty());
            assert(cookies::merge_parts(none, text::split(header, ';').drop_last()) == none);
            assert(cookies::merge(none, header) == none.push(last));
        } else {
            reveal_strlit("; ");
            assert("; "@.len() == 2 && "; "@[0] == ';' && "; "@[1] == ' ');
            law_written_cookies_read_back(fewer);
            let front = cookies::joined(fewer);
            let tail = seq![' '] + cookies::pair_text(last);
            assert(header == front + seq![';'] + tail);
            lemma_split_around(front, tail, ';');
            lemma_split_single(tail, ';');
            lemma_merge_more(none, text::split(front, ';'), seq![tail]);
            assert(seq![tail].drop_last() == Seq::<Seq<char>>::empty());
            assert(cookies::merge_parts(fewer, seq![tail].drop_last()) == fewer);
            assert(cookies::merge_parts(fewer, seq![tail]) == fewer.push(last));
        }
    }
}

} // verus!
