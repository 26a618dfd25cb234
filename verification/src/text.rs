//! Text as sequences of characters: trimming, cutting, searching and decimal numbers.

use vstd::prelude::*;

verus! {

/// `String::push` of the standard library appends one character to the end of the string.
pub assume_specification[ String::push ](s: &mut String, ch: char)
    ensures
        final(s)@ == old(s)@.push(ch),
;

// ---------------------------------------------------------------------------------------------
// Classes of characters
// ---------------------------------------------------------------------------------------------

/// The characters with the Unicode property `White_Space`.
pub open spec fn white_space(c: char) -> bool {
    let n = c as u32;
    ||| 0x9 <= n <= 0xd
    ||| n == 0x20
    ||| n == 0x85
    ||| n == 0xa0
    ||| n == 0x1680
    ||| 0x2000 <= n <= 0x200a
    ||| n == 0x2028
    ||| n == 0x2029
    ||| n == 0x202f
    ||| n == 0x205f
    ||| n == 0x3000
}

/// The characters of the Unicode category `Cc`.
pub open spec fn control(c: char) -> bool {
    let n = c as u32;
    n <= 0x1f || 0x7f <= n <= 0x9f
}

/// Whether `c` is white space, as `char::is_whitespace` has it.
pub fn is_white_space(c: char) -> (r: bool)
    ensures
        r == white_space(c),
{
    let n: u32 = c as u32;
    (0x9 <= n && n <= 0xd) || n == 0x20 || n == 0x85 || n == 0xa0 || n == 0x1680 || (0x2000 <= n
        && n <= 0x200a) || n == 0x2028 || n == 0x2029 || n == 0x202f || n == 0x205f || n == 0x3000
}

/// Whether `c` is a control character, as `char::is_control` has it.
pub fn is_control(c: char) -> (r: bool)
    ensures
        r == control(c),
{
    let n: u32 = c as u32;
    n <= 0x1f || (0x7f <= n && n <= 0x9f)
}

// ---------------------------------------------------------------------------------------------
// Between strings and vectors of characters
// ---------------------------------------------------------------------------------------------

/// What the strings of a sequence hold.
pub open spec fn views(texts: Seq<String>) -> Seq<Seq<char>> {
    texts.map_values(|t: String| t@)
}

/// What the string slices of a sequence hold.
pub open spec fn str_views(texts: Seq<&str>) -> Seq<Seq<char>> {
    texts.map_values(|t: &str| t@)
}

/// What an optional string holds.
pub open spec fn option_view(text: Option<String>) -> Option<Seq<char>> {
    match text {
        Some(t) => Some(t@),
        None => None,
    }
}

/// What the pairs of strings of a sequence hold.
pub open spec fn pair_views(pairs: Seq<(String, String)>) -> Seq<(Seq<char>, Seq<char>)> {
    pairs.map_values(|p: (String, String)| (p.0@, p.1@))
}

/// The characters of `s`, in order.
pub fn chars_of(s: &str) -> (r: Vec<char>)
    ensures
        r@ == s@,
{
    let mut r: Vec<char> = Vec::new();
    for c in it: s.chars()
        invariant
            r@ == s@.take(it.index()),
            it.seq() == s@,
    {
        r.push(c);
        assert(s@.take(it.index() + 1) == s@.take(it.index()).push(c));
    }
    assert(s@.take(s@.len() as int) == s@);
    r
}

/// The string of the characters `from..to` of `chars`.
pub fn text_of(chars: &Vec<char>, from: usize, to: usize) -> (r: String)
    requires
        from <= to <= chars@.len(),
    ensures
        r@ == chars@.subrange(from as int, to as int),
{
    let mut r: String = String::new();
    let mut i: usize = from;
    assert(chars@.subrange(from as int, from as int) == Seq::<char>::empty());
    while i < to
        invariant
            from <= i <= to <= chars@.len(),
            r@ == chars@.subrange(from as int, i as int),
        decreases to - i,
    {
        r.push(chars[i]);
        assert(chars@.subrange(from as int, i + 1) == chars@.subrange(from as int, i as int).push(
            chars@[i as int],
        ));
        i = i + 1;
    }
    r
}

/// No character takes more than four bytes.
pub proof fn lemma_encoding_is_bounded(s: Seq<char>)
    ensures
        vstd::utf8::encode_utf8(s).len() <= 4 * s.len(),
    decreases s.len(),
{
    if s.len() > 0 {
        lemma_encoding_is_bounded(s.drop_first());
    }
}

/// Whether `a` and `b` hold the same characters.
pub fn same_text(a: &str, b: &str) -> (r: bool)
    ensures
        r == (a@ == b@),
{
    let x = a.as_bytes();
    let y = b.as_bytes();
    proof {
        vstd::utf8::encode_utf8_decode_utf8(a@);
        vstd::utf8::encode_utf8_decode_utf8(b@);
    }
    if x.len() != y.len() {
        return false;
    }
    let mut i: usize = 0;
    while i < x.len()
        invariant
            i <= x@.len(),
            x@.len() == y@.len(),
            x@ == vstd::utf8::encode_utf8(a@),
            y@ == vstd::utf8::encode_utf8(b@),
            forall|j: int| 0 <= j < i ==> x@[j] == y@[j],
        decreases x@.len() - i,
    {
        if x[i] != y[i] {
            return false;
        }
        i = i + 1;
    }
    assert(x@ == y@);
    true
}

// ---------------------------------------------------------------------------------------------
// Trimming
// ---------------------------------------------------------------------------------------------

/// `s` without the white space that it starts with.
pub open spec fn trim_start(s: Seq<char>) -> Seq<char>
    decreases s.len(),
{
    if s.len() > 0 && white_space(s[0]) {
        trim_start(s.skip(1))
    } else {
        s
    }
}

/// `s` without the characters that it ends with and that `drop` holds of.
pub open spec fn trim_end_by(s: Seq<char>, drop: spec_fn(char) -> bool) -> Seq<char>
    decreases s.len(),
{
    if s.len() > 0 && drop(s.last()) {
        trim_end_by(s.drop_last(), drop)
    } else {
        s
    }
}

/// `s` without the white space at both of its ends.
pub open spec fn trim(s: Seq<char>) -> Seq<char> {
    trim_end_by(trim_start(s), |c: char| white_space(c))
}

/// Dots and spaces.
pub open spec fn dot_or_space(c: char) -> bool {
    c == '.' || c == ' '
}

/// The start of what is left of `chars[from..to]` when the white space that it starts with is
/// dropped.
pub fn trim_start_bound(chars: &Vec<char>, from: usize, to: usize) -> (r: usize)
    requires
        from <= to <= chars@.len(),
    ensures
        from <= r <= to,
        chars@.subrange(r as int, to as int) == trim_start(chars@.subrange(from as int, to as int)),
{
    let ghost whole = chars@.subrange(from as int, to as int);
    let mut i: usize = from;
    while i < to && is_white_space(chars[i])
        invariant
            from <= i <= to <= chars@.len(),
            trim_start(chars@.subrange(i as int, to as int)) == trim_start(whole),
        decreases to - i,
    {
        assert(chars@.subrange(i as int, to as int).skip(1) == chars@.subrange(i + 1, to as int));
        i = i + 1;
    }
    i
}

/// The bounds of what is left of `chars[from..to]` when the white space at both ends is dropped.
pub fn trim_bounds(chars: &Vec<char>, from: usize, to: usize) -> (r: (usize, usize))
    requires
        from <= to <= chars@.len(),
    ensures
        from <= r.0 <= r.1 <= to,
        chars@.subrange(r.0 as int, r.1 as int) == trim(chars@.subrange(from as int, to as int)),
{
    let ghost whole = chars@.subrange(from as int, to as int);
    let ghost space = |c: char| white_space(c);
    let i = trim_start_bound(chars, from, to);
    let ghost middle = chars@.subrange(i as int, to as int);
    assert(trim_start(whole) == middle);
    let mut j: usize = to;
    while j > i && is_white_space(chars[j - 1])
        invariant
            from <= i <= j <= to <= chars@.len(),
            space == (|c: char| white_space(c)),
            trim_end_by(chars@.subrange(i as int, j as int), space) == trim_end_by(middle, space),
        decreases j,
    {
        assert(chars@.subrange(i as int, j as int).drop_last() == chars@.subrange(
            i as int,
            j - 1,
        ));
        j = j - 1;
    }
    assert(trim_end_by(middle, space) == chars@.subrange(i as int, j as int));
    (i, j)
}

/// The end of what is left of `chars[from..to]` when the dots and spaces at its end are dropped.
pub fn trim_dots_bound(chars: &Vec<char>, from: usize, to: usize) -> (r: usize)
    requires
        from <= to <= chars@.len(),
    ensures
        from <= r <= to,
        chars@.subrange(from as int, r as int) == trim_end_by(
            chars@.subrange(from as int, to as int),
            |c: char| dot_or_space(c),
        ),
{
    let ghost whole = chars@.subrange(from as int, to as int);
    let ghost drop = |c: char| dot_or_space(c);
    let mut j: usize = to;
    while j > from && (chars[j - 1] == '.' || chars[j - 1] == ' ')
        invariant
            from <= j <= to <= chars@.len(),
            drop == (|c: char| dot_or_space(c)),
            trim_end_by(chars@.subrange(from as int, j as int), drop) == trim_end_by(whole, drop),
        decreases j,
    {
        assert(chars@.subrange(from as int, j as int).drop_last() == chars@.subrange(
            from as int,
            j - 1,
        ));
        j = j - 1;
    }
    j
}

/// `s` without the white space at both of its ends, as `str::trim` gives it.
pub fn trim_text(s: &str) -> (r: String)
    ensures
        r@ == trim(s@),
{
    let chars = chars_of(s);
    let n: usize = chars.len();
    assert(chars@.subrange(0, n as int) == s@);
    let (from, to) = trim_bounds(&chars, 0, n);
    text_of(&chars, from, to)
}

/// Dropping characters from the end leaves a prefix whose last character stays.
pub proof fn lemma_trim_end_by(s: Seq<char>, drop: spec_fn(char) -> bool)
    ensures
        trim_end_by(s, drop).len() <= s.len(),
        trim_end_by(s, drop) == s.take(trim_end_by(s, drop).len() as int),
        trim_end_by(s, drop).len() > 0 ==> !drop(trim_end_by(s, drop).last()),
        forall|i: int| trim_end_by(s, drop).len() <= i < s.len() ==> drop(#[trigger] s[i]),
    decreases s.len(),
{
    if s.len() > 0 && drop(s.last()) {
        lemma_trim_end_by(s.drop_last(), drop);
        let r = trim_end_by(s.drop_last(), drop);
        assert(s.take(r.len() as int) == s.drop_last().take(r.len() as int));
        assert forall|i: int| r.len() <= i < s.len() implies drop(#[trigger] s[i]) by {
            if i < s.len() - 1 {
                assert(s.drop_last()[i] == s[i]);
            }
        }
    } else {
        assert(s.take(s.len() as int) == s);
    }
}

/// Dropping white space from the start leaves a suffix whose first character stays.
pub proof fn lemma_trim_start(s: Seq<char>)
    ensures
        trim_start(s).len() <= s.len(),
        trim_start(s) == s.skip(s.len() - trim_start(s).len()),
        trim_start(s).len() > 0 ==> !white_space(trim_start(s)[0]),
        forall|i: int| 0 <= i < s.len() - trim_start(s).len() ==> white_space(#[trigger] s[i]),
    decreases s.len(),
{
    if s.len() > 0 && white_space(s[0]) {
        lemma_trim_start(s.skip(1));
        let r = trim_start(s.skip(1));
        assert(s.skip(s.len() - r.len()) == s.skip(1).skip(s.skip(1).len() - r.len()));
        assert forall|i: int| 0 <= i < s.len() - r.len() implies white_space(#[trigger] s[i]) by {
            if i > 0 {
                assert(s.skip(1)[i - 1] == s[i]);
            }
        }
    } else {
        assert(s.skip(0) == s);
    }
}

/// What is left by trimming is a part of the text, starts and ends without white space, and
/// everything around it is white space.
pub proof fn lemma_trim(s: Seq<char>) -> (k: int)
    ensures
        0 <= k <= k + trim(s).len() <= s.len(),
        trim(s) == s.subrange(k, k + trim(s).len()),
        trim(s).len() > 0 ==> !white_space(trim(s)[0]) && !white_space(trim(s).last()),
        forall|i: int| 0 <= i < k ==> white_space(#[trigger] s[i]),
        forall|i: int| k + trim(s).len() <= i < s.len() ==> white_space(#[trigger] s[i]),
{
    let a = trim_start(s);
    lemma_trim_start(s);
    lemma_trim_end_by(a, |c: char| white_space(c));
    let k = s.len() - a.len();
    let r = trim(s);
    assert(r == s.subrange(k, k + r.len()));
    if r.len() > 0 {
        assert(r[0] == a[0]);
    }
    assert forall|i: int| k + r.len() <= i < s.len() implies white_space(#[trigger] s[i]) by {
        assert(a[i - k] == s[i]);
    }
    k
}

/// Text that neither starts nor ends with white space is what trimming it leaves.
pub proof fn lemma_trimmed_is_fixed(s: Seq<char>)
    requires
        s.len() > 0 ==> !white_space(s[0]) && !white_space(s.last()),
    ensures
        trim(s) == s,
{
}

/// Text of white space alone is trimmed to nothing.
pub proof fn lemma_trim_blank(s: Seq<char>)
    requires
        forall|i: int| 0 <= i < s.len() ==> white_space(#[trigger] s[i]),
    ensures
        trim(s).len() == 0,
{
    let k = lemma_trim(s);
    if trim(s).len() > 0 {
        assert(trim(s)[0] == s[k]);
    }
}

// ---------------------------------------------------------------------------------------------
// Cutting and searching
// ---------------------------------------------------------------------------------------------

/// Where `c` first stands in `s`; the length of `s` where it does not occur.
pub open spec fn cut(s: Seq<char>, c: char) -> nat
    decreases s.len(),
{
    if s.len() == 0 || s[0] == c {
        0
    } else {
        1 + cut(s.skip(1), c)
    }
}

/// What stands before the first `c` of `s`; all of `s` where it does not occur.
pub open spec fn before(s: Seq<char>, c: char) -> Seq<char> {
    s.take(cut(s, c) as int)
}

/// What stands behind the first `c` of `s`; nothing where it does not occur.
pub open spec fn behind(s: Seq<char>, c: char) -> Seq<char> {
    if cut(s, c) < s.len() {
        s.skip(cut(s, c) as int + 1)
    } else {
        Seq::empty()
    }
}

/// What stands behind the last `c` of `s`; all of `s` where it does not occur.
pub open spec fn behind_last(s: Seq<char>, c: char) -> Seq<char>
    decreases s.len(),
{
    if s.len() == 0 || s.last() == c {
        Seq::empty()
    } else {
        behind_last(s.drop_last(), c).push(s.last())
    }
}

/// The parts of `s` between the occurrences of `c`.
pub open spec fn split(s: Seq<char>, c: char) -> Seq<Seq<char>>
    decreases s.len(),
    via split_decreases
{
    if cut(s, c) < s.len() {
        seq![before(s, c)] + split(behind(s, c), c)
    } else {
        seq![s]
    }
}

#[via_fn]
proof fn split_decreases(s: Seq<char>, c: char) {
    lemma_cut(s, c);
}

/// Where `pattern` first stands in `s`.
pub open spec fn find(s: Seq<char>, pattern: Seq<char>) -> Option<nat>
    decreases s.len(),
{
    if pattern.is_prefix_of(s) {
        Some(0)
    } else if s.len() == 0 {
        None
    } else {
        match find(s.skip(1), pattern) {
            Some(i) => Some(i + 1),
            None => None,
        }
    }
}

/// The first `c` is at the cut and not before it.
pub proof fn lemma_cut(s: Seq<char>, c: char)
    ensures
        cut(s, c) <= s.len(),
        cut(s, c) < s.len() ==> s[cut(s, c) as int] == c,
        forall|i: int| 0 <= i < cut(s, c) ==> #[trigger] s[i] != c,
    decreases s.len(),
{
    if s.len() > 0 && s[0] != c {
        lemma_cut(s.skip(1), c);
        assert forall|i: int| 0 <= i < cut(s, c) implies #[trigger] s[i] != c by {
            if i > 0 {
                assert(s.skip(1)[i - 1] == s[i]);
            }
        }
    }
}

/// An index at which `c` stands, with none before it, is the cut.
pub proof fn lemma_cut_is(s: Seq<char>, c: char, k: int)
    requires
        0 <= k <= s.len(),
        k < s.len() ==> s[k] == c,
        forall|i: int| 0 <= i < k ==> #[trigger] s[i] != c,
    ensures
        cut(s, c) == k,
{
    lemma_cut(s, c);
    let m = cut(s, c) as int;
    if m < k {
        assert(s[m] != c);
    } else if m > k {
        assert(s[k] != c);
    }
}

/// The index in `from..to` at which `c` first stands in `chars`; `to` where it does not.
pub fn find_char(chars: &Vec<char>, from: usize, to: usize, c: char) -> (r: usize)
    requires
        from <= to <= chars@.len(),
    ensures
        from <= r <= to,
        r - from == cut(chars@.subrange(from as int, to as int), c),
{
    let mut i: usize = from;
    while i < to && chars[i] != c
        invariant
            from <= i <= to <= chars@.len(),
            forall|j: int| from <= j < i ==> chars@[j] != c,
        decreases to - i,
    {
        i = i + 1;
    }
    proof {
        lemma_cut_is(chars@.subrange(from as int, to as int), c, i - from);
    }
    i
}

/// What stands before the first `c` of `s`; all of `s` where it does not occur.
pub fn text_before(s: &str, c: char) -> (r: String)
    ensures
        r@ == before(s@, c),
{
    let chars = chars_of(s);
    let n: usize = chars.len();
    assert(chars@.subrange(0, n as int) == s@);
    let k = find_char(&chars, 0, n, c);
    assert(chars@.subrange(0, k as int) == s@.take(k as int));
    text_of(&chars, 0, k)
}

/// What stands behind the first `c` of `s`, where it occurs.
pub fn text_behind(s: &str, c: char) -> (r: Option<String>)
    ensures
        r is Some <==> cut(s@, c) < s@.len(),
        r matches Some(t) ==> t@ == behind(s@, c),
{
    let chars = chars_of(s);
    let n: usize = chars.len();
    assert(chars@.subrange(0, n as int) == s@);
    let k = find_char(&chars, 0, n, c);
    if k < n {
        assert(chars@.subrange(k + 1, n as int) == s@.skip(k + 1));
        Some(text_of(&chars, k + 1, n))
    } else {
        None
    }
}

/// What stands behind the last `c` of `s`; all of `s` where it does not occur.
pub fn text_behind_last(s: &str, c: char) -> (r: String)
    ensures
        r@ == behind_last(s@, c),
{
    let chars = chars_of(s);
    let n: usize = chars.len();
    let mut i: usize = n;
    assert(chars@.take(n as int) == chars@);
    assert(chars@.subrange(n as int, n as int) == Seq::<char>::empty());
    assert(behind_last(chars@, c) + Seq::<char>::empty() == behind_last(chars@, c));
    while i > 0 && chars[i - 1] != c
        invariant
            i <= n == chars@.len(),
            behind_last(chars@, c) == behind_last(chars@.take(i as int), c) + chars@.subrange(
                i as int,
                n as int,
            ),
        decreases i,
    {
        let ghost t = chars@.take(i as int);
        assert(t.drop_last() == chars@.take(i - 1));
        assert(behind_last(t, c) == behind_last(t.drop_last(), c).push(chars@[i - 1]));
        assert(behind_last(t, c) + chars@.subrange(i as int, n as int) == behind_last(
            t.drop_last(),
            c,
        ) + chars@.subrange(i - 1, n as int));
        i = i - 1;
    }
    assert(behind_last(chars@.take(i as int), c) == Seq::<char>::empty());
    assert(behind_last(chars@, c) == chars@.subrange(i as int, n as int));
    text_of(&chars, i, n)
}

/// The parts of `s` between the occurrences of `c`, as `str::split` gives them.
pub fn split_text(s: &str, c: char) -> (r: Vec<String>)
    ensures
        views(r@) == split(s@, c),
{
    let chars = chars_of(s);
    let n: usize = chars.len();
    let mut r: Vec<String> = Vec::new();
    let mut from: usize = 0;
    assert(chars@.subrange(0, n as int) == s@);
    assert(views(r@) + split(s@, c) == split(s@, c));
    loop
        invariant
            from <= n == chars@.len(),
            views(r@) + split(chars@.subrange(from as int, n as int), c) == split(s@, c),
        decreases n - from,
    {
        let ghost rest = chars@.subrange(from as int, n as int);
        let ghost done = views(r@);
        let k = find_char(&chars, from, n, c);
        proof {
            lemma_cut(rest, c);
        }
        let part = text_of(&chars, from, k);
        assert(part@ == before(rest, c));
        r.push(part);
        assert(views(r@) == done.push(part@));
        if k < n {
            assert(behind(rest, c) == chars@.subrange(k + 1, n as int));
            assert(done + (seq![part@] + split(behind(rest, c), c)) == views(r@) + split(
                behind(rest, c),
                c,
            ));
            from = k + 1;
        } else {
            assert(part@ == rest);
            assert(done + seq![part@] == views(r@));
            return r;
        }
    }
}

/// Whether `pattern` stands in `chars` at `at`.
fn stands_at(chars: &Vec<char>, at: usize, pattern: &Vec<char>) -> (r: bool)
    requires
        at <= chars@.len(),
    ensures
        r == pattern@.is_prefix_of(chars@.skip(at as int)),
{
    let n: usize = pattern.len();
    if chars.len() - at < n {
        return false;
    }
    let mut i: usize = 0;
    while i < n
        invariant
            i <= n == pattern@.len(),
            at + n <= chars.len(),
            forall|j: int| 0 <= j < i ==> pattern@[j] == chars@[at + j],
        decreases n - i,
    {
        if chars[at + i] != pattern[i] {
            assert(chars@.skip(at as int)[i as int] != pattern@[i as int]);
            return false;
        }
        i = i + 1;
    }
    assert(pattern@ == chars@.skip(at as int).take(n as int));
    true
}

/// Whether `s` starts with `pattern`.
pub fn starts_with(s: &str, pattern: &str) -> (r: bool)
    ensures
        r == pattern@.is_prefix_of(s@),
{
    let chars = chars_of(s);
    let wanted = chars_of(pattern);
    assert(chars@.skip(0) == s@);
    stands_at(&chars, 0, &wanted)
}

/// Where `pattern` first stands in `s`, counted in characters.
pub fn find_text(s: &str, pattern: &str) -> (r: Option<usize>)
    ensures
        r is Some <==> find(s@, pattern@) is Some,
        r matches Some(i) ==> find(s@, pattern@) == Some(i as nat) && i + pattern@.len() <= s@.len(),
{
    let chars = chars_of(s);
    let wanted = chars_of(pattern);
    let n: usize = chars.len();
    let mut i: usize = 0;
    assert(chars@.skip(0) == s@);
    loop
        invariant
            i <= n == chars@.len(),
            chars@ == s@,
            wanted@ == pattern@,
            find(s@, pattern@) == (match find(chars@.skip(i as int), pattern@) {
                Some(k) => Some((k + i) as nat),
                None => None,
            }),
        decreases n - i,
    {
        if stands_at(&chars, i, &wanted) {
            return Some(i);
        }
        if i == n {
            return None;
        }
        assert(chars@.skip(i as int).skip(1) == chars@.skip(i + 1));
        i = i + 1;
    }
}

// ---------------------------------------------------------------------------------------------
// Decimal numbers
// ---------------------------------------------------------------------------------------------

/// The character for a digit.
pub open spec fn digit(d: int) -> char {
    (0x30 + d) as char
}

/// `n` in decimal, without leading zeros.
pub open spec fn decimal(n: nat) -> Seq<char>
    decreases n,
{
    if n < 10 {
        seq![digit(n as int)]
    } else {
        decimal(n / 10).push(digit((n % 10) as int))
    }
}

/// `i` in decimal, with a minus sign where it is negative.
pub open spec fn signed_decimal(i: int) -> Seq<char> {
    if i < 0 {
        seq!['-'] + decimal((-i) as nat)
    } else {
        decimal(i as nat)
    }
}

/// `n` in decimal, filled up with zeros on the left to at least `width` characters.
pub open spec fn padded(n: nat, width: nat) -> Seq<char> {
    if decimal(n).len() < width {
        Seq::new((width - decimal(n).len()) as nat, |i: int| '0') + decimal(n)
    } else {
        decimal(n)
    }
}

/// Appends `n` in decimal.
pub fn push_decimal(out: &mut String, n: u64)
    ensures
        final(out)@ == old(out)@ + decimal(n as nat),
    decreases n,
{
    if n >= 10 {
        push_decimal(out, n / 10);
    }
    let c: char = (0x30u8 + (n % 10) as u8) as char;
    assert(c == digit((n % 10) as int));
    out.push(c);
    assert(out@ == old(out)@ + decimal(n as nat));
}

/// `n` in decimal.
pub fn decimal_text(n: u64) -> (r: String)
    ensures
        r@ == decimal(n as nat),
{
    let mut r: String = String::new();
    push_decimal(&mut r, n);
    r
}

/// `i` in decimal, with a minus sign where it is negative.
pub fn signed_decimal_text(i: i64) -> (r: String)
    ensures
        r@ == signed_decimal(i as int),
{
    let mut r: String = String::new();
    if i < 0 {
        r.push('-');
        push_decimal(&mut r, (-(i as i128)) as u64);
        assert(r@ == seq!['-'] + decimal((-i) as nat));
    } else {
        push_decimal(&mut r, i as u64);
    }
    r
}

/// Appends `n` in decimal, filled up with zeros on the left to at least `width` characters.
pub fn push_padded(out: &mut String, n: u64, width: usize)
    ensures
        final(out)@ == old(out)@ + padded(n as nat, width as nat),
{
    let digits = decimal_text(n);
    let count: usize = digits.as_str().unicode_len();
    let mut i: usize = count;
    while i < width
        invariant
            count <= i,
            count <= width ==> i <= width,
            count > width ==> i == count,
            out@ == old(out)@ + Seq::new((i - count) as nat, |k: int| '0'),
        decreases width - i,
    {
        out.push('0');
        assert(out@ == old(out)@ + Seq::new((i + 1 - count) as nat, |k: int| '0'));
        i = i + 1;
    }
    out.append(digits.as_str());
    assert(out@ == old(out)@ + padded(n as nat, width as nat));
}

// ---------------------------------------------------------------------------------------------
// Reading decimal numbers
// ---------------------------------------------------------------------------------------------

/// The decimal digits.
pub open spec fn is_digit(c: char) -> bool {
    '0' <= c <= '9'
}

/// Whether `s` is made of decimal digits alone.
pub open spec fn all_digits(s: Seq<char>) -> bool {
    forall|i: int| 0 <= i < s.len() ==> is_digit(#[trigger] s[i])
}

/// The number that a sequence of digits stands for.
pub open spec fn number_of(s: Seq<char>) -> int
    decreases s.len(),
{
    if s.len() == 0 {
        0
    } else {
        number_of(s.drop_last()) * 10 + (s.last() as int - 0x30)
    }
}

/// The number behind an optional sign, where only digits, and at least one, follow it.
pub open spec fn integer_of(s: Seq<char>) -> Option<int> {
    let signed = s.len() > 0 && (s[0] == '-' || s[0] == '+');
    let body = if signed {
        s.skip(1)
    } else {
        s
    };
    if body.len() == 0 || !all_digits(body) {
        None
    } else if signed && s[0] == '-' {
        Some(-number_of(body))
    } else {
        Some(number_of(body))
    }
}

/// What `str::parse` reads as an `i64`: an optional sign and digits, within the bounds of the type.
pub open spec fn i64_of(s: Seq<char>) -> Option<i64> {
    match integer_of(s) {
        Some(n) => if i64::MIN <= n <= i64::MAX {
            Some(n as i64)
        } else {
            None
        },
        None => None,
    }
}

proof fn lemma_number_grows(s: Seq<char>, k: int)
    requires
        0 <= k <= s.len(),
        all_digits(s),
    ensures
        0 <= number_of(s.take(k)) <= number_of(s),
    decreases s.len(),
{
    if k < s.len() {
        assert(s.drop_last().take(k) == s.take(k));
        assert forall|i: int| 0 <= i < s.drop_last().len() implies is_digit(
            #[trigger] s.drop_last()[i],
        ) by {
            assert(is_digit(s[i]));
        }
        lemma_number_grows(s.drop_last(), k);
        assert(is_digit(s[s.len() - 1]));
    } else {
        assert(s.take(k) == s);
        if s.len() > 0 {
            assert forall|i: int| 0 <= i < s.drop_last().len() implies is_digit(
                #[trigger] s.drop_last()[i],
            ) by {
                assert(is_digit(s[i]));
            }
            lemma_number_grows(s.drop_last(), s.len() - 1);
            assert(s.drop_last().take(s.len() - 1) == s.drop_last());
            assert(is_digit(s[s.len() - 1]));
        }
    }
}

/// The `i64` that `s` holds in decimal, as `str::parse` reads it.
pub fn parse_i64(s: &str) -> (r: Option<i64>)
    ensures
        r == i64_of(s@),
{
    let chars = chars_of(s);
    let n: usize = chars.len();
    let signed: bool = n > 0 && (chars[0] == '-' || chars[0] == '+');
    let from: usize = if signed {
        1
    } else {
        0
    };
    let ghost body = chars@.skip(from as int);
    assert(chars@.skip(0) == chars@);
    if from == n {
        return None;
    }
    let mut total: i128 = 0;
    let mut i: usize = from;
    assert(body.take(0) == Seq::<char>::empty());
    while i < n
        invariant
            from <= i <= n == chars@.len(),
            body == chars@.skip(from as int),
            chars@ == s@,
            0 < body.len(),
            signed == (s@.len() > 0 && (s@[0] == '-' || s@[0] == '+')),
            from == (if signed {
                1int
            } else {
                0int
            }),
            body == (if signed {
                s@.skip(1)
            } else {
                s@
            }),
            forall|j: int| 0 <= j < i - from ==> is_digit(#[trigger] body[j]),
            total == number_of(body.take(i - from)),
            0 <= total <= 0x8000_0000_0000_0000,
        decreases n - i,
    {
        let c: char = chars[i];
        assert(body[i - from] == c);
        if !('0' <= c && c <= '9') {
            assert(!all_digits(body));
            return None;
        }
        assert(body.take(i + 1 - from).drop_last() == body.take(i - from));
        total = total * 10 + (c as u32 - 0x30) as i128;
        assert(total == number_of(body.take(i + 1 - from)));
        i = i + 1;
        if total > 0x8000_0000_0000_0000 {
            proof {
                if all_digits(body) {
                    lemma_number_grows(body, i - from);
                }
            }
            return None;
        }
    }
    assert(body.take(n - from) == body);
    assert(all_digits(body));
    if signed && chars[0] == '-' {
        Some((-total) as i64)
    } else if total < 0x8000_0000_0000_0000 {
        Some(total as i64)
    } else {
        None
    }
}

/// Reading back a number that was written in decimal gives the number.
pub proof fn lemma_decimal_reads_back(n: nat)
    ensures
        decimal(n).len() > 0,
        all_digits(decimal(n)),
        number_of(decimal(n)) == n,
    decreases n,
{
    if n < 10 {
        let s = decimal(n);
        assert(s.drop_last() == Seq::<char>::empty());
        assert(number_of(s.drop_last()) == 0);
        assert(s.last() == digit(n as int));
    } else {
        lemma_decimal_reads_back(n / 10);
        let s = decimal(n);
        assert(s.drop_last() == decimal(n / 10));
        assert forall|i: int| 0 <= i < s.len() implies is_digit(#[trigger] s[i]) by {
            if i < s.len() - 1 {
                assert(is_digit(decimal(n / 10)[i]));
            }
        }
    }
}

/// Leading zeros do not change the number that is read.
proof fn lemma_zeros(k: nat, s: Seq<char>)
    requires
        all_digits(s),
    ensures
        all_digits(Seq::new(k, |i: int| '0') + s),
        number_of(Seq::new(k, |i: int| '0') + s) == number_of(s),
    decreases k + s.len(),
{
    let zeros = Seq::new(k, |i: int| '0');
    let t = zeros + s;
    assert forall|i: int| 0 <= i < t.len() implies is_digit(#[trigger] t[i]) by {
        if i >= k {
            assert(t[i] == s[i - k]);
        }
    }
    if s.len() > 0 {
        assert forall|i: int| 0 <= i < s.drop_last().len() implies is_digit(
            #[trigger] s.drop_last()[i],
        ) by {
            assert(is_digit(s[i]));
        }
        lemma_zeros(k, s.drop_last());
        assert(t.drop_last() == zeros + s.drop_last());
    } else if k > 0 {
        lemma_zeros((k - 1) as nat, s);
        assert(t.drop_last() == Seq::new((k - 1) as nat, |i: int| '0') + s);
    }
}

/// Reading back a number that was written with leading zeros gives the number.
pub proof fn lemma_padded_reads_back(n: nat, width: nat)
    ensures
        padded(n, width).len() >= width,
        all_digits(padded(n, width)),
        number_of(padded(n, width)) == n,
{
    lemma_decimal_reads_back(n);
    if decimal(n).len() < width {
        lemma_zeros((width - decimal(n).len()) as nat, decimal(n));
    }
}

/// A number below a power of ten has no more digits than the power has zeros.
pub proof fn lemma_decimal_is_short(n: nat)
    ensures
        n < 100 ==> decimal(n).len() <= 2,
        n < 1000 ==> decimal(n).len() <= 3,
{
    reveal_with_fuel(decimal, 3);
}

/// A `u64` has at most twenty digits.
pub proof fn lemma_decimal_of_u64_is_short(n: u64)
    ensures
        decimal(n as nat).len() <= 20,
{
    lemma_decimal_length(n as nat, 20);
    assert(power_of_ten(20) > u64::MAX) by {
        reveal_with_fuel(power_of_ten, 21);
    }
}

spec fn power_of_ten(k: nat) -> nat
    decreases k,
{
    if k == 0 {
        1
    } else {
        10 * power_of_ten((k - 1) as nat)
    }
}

/// A number below a power of ten has no more digits than the power has zeros.
proof fn lemma_decimal_length(n: nat, k: nat)
    requires
        k > 0,
    ensures
        n < power_of_ten(k) ==> decimal(n).len() <= k,
    decreases k,
{
    if k > 1 && n >= 10 {
        lemma_decimal_length(n / 10, (k - 1) as nat);
    } else if k == 1 {
        reveal_with_fuel(power_of_ten, 2);
    }
}

/// An `i64` that is written in decimal and read again is the same number.
pub proof fn lemma_signed_decimal_reads_back(i: i64)
    ensures
        i64_of(signed_decimal(i as int)) == Some(i),
{
    let s = signed_decimal(i as int);
    if i < 0 {
        lemma_decimal_reads_back((-i) as nat);
        assert(s.skip(1) == decimal((-i) as nat));
    } else {
        lemma_decimal_reads_back(i as nat);
        assert(is_digit(s[0]));
    }
}

} // verus!
