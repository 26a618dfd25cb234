//! What holds of trimming, cutting, splitting, searching, and of decimal numbers.

use vstd::prelude::*;

use crate::text;

verus! {

// ---------------------------------------------------------------------------------------------
// Trimming
// ---------------------------------------------------------------------------------------------

/// White space is a tab, a line end of any kind, a space, or one of the other blanks of Unicode, and
/// control characters are those below the space and those around the end of ASCII.
pub proof fn law_classes_go_by_code_points(c: char)
    ensures
        text::white_space(c) <==> {
            ||| '\t' <= c <= '\r'
            ||| c == ' '
            ||| c == '\u{85}'
            ||| c == '\u{a0}'
            ||| c == '\u{1680}'
            ||| '\u{2000}' <= c <= '\u{200a}'
            ||| c == '\u{2028}'
            ||| c == '\u{2029}'
            ||| c == '\u{202f}'
            ||| c == '\u{205f}'
            ||| c == '\u{3000}'
        },
        text::control(c) <==> (c < ' ' || '\u{7f}' <= c <= '\u{9f}'),
        text::dot_or_space(c) <==> (c == '.' || c == ' '),
        text::is_digit(c) <==> '0' <= c <= '9',
{
}

/// Whether `s` holds a character that is not white space.
pub open spec fn says_something(s: Seq<char>) -> bool {
    exists|i: int| 0 <= i < s.len() && !text::white_space(#[trigger] s[i])
}

/// Whether `s` is white space alone.
pub open spec fn is_blank(s: Seq<char>) -> bool {
    forall|i: int| 0 <= i < s.len() ==> text::white_space(#[trigger] s[i])
}

/// Trimming takes white space off both ends and nothing else: put back what was taken, and the text
/// is there again. What is left starts and ends with something else, and is left as it is by
/// trimming it again.
pub proof fn law_trimming_takes_white_space_off_the_ends(
    front: Seq<char>,
    body: Seq<char>,
    back: Seq<char>,
)
    requires
        is_blank(front),
        is_blank(back),
        body.len() > 0 ==> !text::white_space(body[0]) && !text::white_space(body.last()),
    ensures
        text::trim(front + body + back) == body,
{
    let s = front + body + back;
    let k = text::lemma_trim(s);
    let r = text::trim(s);
    if body.len() == 0 {
        assert(is_blank(s)) by {
            assert forall|i: int| 0 <= i < s.len() implies text::white_space(#[trigger] s[i]) by {
                if i < front.len() {
                    assert(s[i] == front[i]);
                } else {
                    assert(s[i] == back[i - front.len()]);
                }
            }
        }
        text::lemma_trim_blank(s);
        assert(r =~= body);
    } else {
        let m = front.len() as int;
        let n = m + body.len();
        assert(s[m] == body[0]);
        assert(s[n - 1] == body.last());
        assert(r.len() > 0);
        assert(r[0] == s[k]);
        assert(r.last() == s[k + r.len() - 1]);
        if k < m {
            assert(s[k] == front[k]);
        }
        if k + r.len() > n {
            assert(s[k + r.len() - 1] == back[k + r.len() - 1 - n]);
        }
        assert(k == m);
        assert(k + r.len() == n);
        assert(r =~= body);
    }
}

/// A text says something exactly where trimming it leaves something.
pub proof fn law_trimming_leaves_what_is_said(s: Seq<char>)
    ensures
        text::trim(s).len() > 0 <==> says_something(s),
{
    let k = text::lemma_trim(s);
    if text::trim(s).len() > 0 {
        assert(s[k] == text::trim(s)[0]);
        assert(!text::white_space(s[k]));
    } else if says_something(s) {
        let i = choose|i: int| 0 <= i < s.len() && !text::white_space(#[trigger] s[i]);
        assert(text::white_space(s[i]));
    }
}

// ---------------------------------------------------------------------------------------------
// Cutting, splitting and searching
// ---------------------------------------------------------------------------------------------

/// Whether `c` stands nowhere in `s`.
pub open spec fn lacks(s: Seq<char>, c: char) -> bool {
    forall|i: int| 0 <= i < s.len() ==> #[trigger] s[i] != c
}

/// What stands before and behind the first `c` is what was put there.
pub proof fn law_cutting_at_the_first(front: Seq<char>, c: char, back: Seq<char>)
    requires
        lacks(front, c),
    ensures
        text::before(front + seq![c] + back, c) == front,
        text::behind(front + seq![c] + back, c) == back,
        text::before(front, c) == front,
        text::behind(front, c).len() == 0,
        text::cut(front, c) == front.len(),
        text::cut(front + seq![c] + back, c) == front.len(),
{
    let s = front + seq![c] + back;
    let n = front.len() as int;
    assert(s[n] == c);
    assert forall|i: int| 0 <= i < n implies #[trigger] s[i] != c by {
        assert(s[i] == front[i]);
    }
    text::lemma_cut_is(s, c, n);
    text::lemma_cut_is(front, c, n);
    assert(s.take(n) =~= front);
    assert(s.skip(n + 1) =~= back);
    assert(front.take(n) =~= front);
}

/// What stands behind the last `c` is what was put there.
pub proof fn law_cutting_at_the_last(front: Seq<char>, c: char, back: Seq<char>)
    requires
        lacks(back, c),
    ensures
        text::behind_last(front + seq![c] + back, c) == back,
        text::behind_last(back, c) == back,
    decreases back.len(),
{
    let s = front + seq![c] + back;
    if back.len() == 0 {
        assert(s.last() == c);
        assert(text::behind_last(s, c) =~= back);
        assert(text::behind_last(back, c) =~= back);
    } else {
        let fewer = back.drop_last();
        assert forall|i: int| 0 <= i < fewer.len() implies #[trigger] fewer[i] != c by {
            assert(back[i] != c);
        }
        assert(back[back.len() - 1] != c);
        law_cutting_at_the_last(front, c, fewer);
        assert(s.drop_last() =~= front + seq![c] + fewer);
        assert(s.last() == back.last());
        assert(text::behind_last(s, c) =~= back);
        assert(text::behind_last(back, c) =~= back);
    }
}

/// Texts, one after the other, with `c` between them.
pub open spec fn joined_by(parts: Seq<Seq<char>>, c: char) -> Seq<char>
    decreases parts.len(),
{
    if parts.len() == 0 {
        Seq::empty()
    } else if parts.len() == 1 {
        parts[0]
    } else {
        parts[0] + seq![c] + joined_by(parts.skip(1), c)
    }
}

/// Splitting undoes joining: texts without `c` that were joined by it are the parts.
pub proof fn law_splitting_undoes_joining(parts: Seq<Seq<char>>, c: char)
    requires
        parts.len() > 0,
        forall|i: int| 0 <= i < parts.len() ==> lacks(#[trigger] parts[i], c),
    ensures
        text::split(joined_by(parts, c), c) == parts,
    decreases parts.len(),
{
    let s = joined_by(parts, c);
    assert(lacks(parts[0], c));
    if parts.len() == 1 {
        law_cutting_at_the_first(parts[0], c, Seq::empty());
        assert(text::split(s, c) =~= parts);
    } else {
        let rest = parts.skip(1);
        assert forall|i: int| 0 <= i < rest.len() implies lacks(#[trigger] rest[i], c) by {
            assert(lacks(parts[i + 1], c));
        }
        law_splitting_undoes_joining(rest, c);
        law_cutting_at_the_first(parts[0], c, joined_by(rest, c));
        assert(text::split(s, c) == seq![parts[0]] + rest);
        assert(seq![parts[0]] + rest =~= parts);
    }
}

/// Whether `pattern` stands in `s` at `at`.
pub open spec fn stands_at(s: Seq<char>, pattern: Seq<char>, at: int) -> bool {
    0 <= at && at + pattern.len() <= s.len() && s.subrange(at, at + pattern.len()) == pattern
}

/// What is found is the first place at which the pattern stands, and nothing is found only where it
/// stands nowhere.
pub proof fn law_finding_the_first(s: Seq<char>, pattern: Seq<char>)
    ensures
        text::find(s, pattern) matches Some(i) ==> stands_at(s, pattern, i as int) && forall|j: int|
            0 <= j < i ==> !#[trigger] stands_at(s, pattern, j),
        text::find(s, pattern) is None ==> forall|j: int| !#[trigger] stands_at(s, pattern, j),
    decreases s.len(),
{
    if pattern.is_prefix_of(s) {
        assert(s.subrange(0, pattern.len() as int) =~= pattern);
    } else {
        assert(!stands_at(s, pattern, 0)) by {
            if stands_at(s, pattern, 0) {
                assert(s.take(pattern.len() as int) =~= pattern);
                assert(pattern.is_prefix_of(s));
            }
        }
        if s.len() > 0 {
            let rest = s.skip(1);
            law_finding_the_first(rest, pattern);
            assert forall|j: int| stands_at(s, pattern, j) implies j > 0 && stands_at(
                rest,
                pattern,
                j - 1,
            ) by {
                assert(rest.subrange(j - 1, j - 1 + pattern.len()) =~= s.subrange(
                    j,
                    j + pattern.len(),
                ));
            }
            if let Some(found) = text::find(rest, pattern) {
                let i = found as int;
                assert(s.subrange(i + 1, i + 1 + pattern.len()) =~= rest.subrange(
                    i,
                    i + pattern.len(),
                ));
            }
        }
    }
}

// ---------------------------------------------------------------------------------------------
// Decimal numbers
// ---------------------------------------------------------------------------------------------

/// A number that is read grows by its last digit.
pub proof fn law_digits_count_by_tens(s: Seq<char>, c: char)
    ensures
        text::number_of(Seq::empty()) == 0,
        text::number_of(s.push(c)) == 10 * text::number_of(s) + (c as int - 0x30),
{
    assert(s.push(c).drop_last() =~= s);
}

/// A number is written in decimal digits, the first of which is no zero unless it is the only one,
/// and reads as itself. A negative one has a minus sign and the digits of its opposite.
pub proof fn law_numbers_are_written_in_digits(n: nat)
    ensures
        text::decimal(n).len() > 0,
        forall|i: int|
            0 <= i < text::decimal(n).len() ==> '0' <= #[trigger] text::decimal(n)[i] <= '9',
        text::decimal(n).len() > 1 ==> text::decimal(n)[0] != '0',
        text::number_of(text::decimal(n)) == n,
        text::signed_decimal(n as int) == text::decimal(n),
        n > 0 ==> text::signed_decimal(-n) == seq!['-'] + text::decimal(n),
    decreases n,
{
    text::lemma_decimal_reads_back(n);
    assert forall|i: int| 0 <= i < text::decimal(n).len() implies '0' <= #[trigger] text::decimal(
        n,
    )[i] <= '9' by {
        assert(text::is_digit(text::decimal(n)[i]));
    }
    if n >= 10 {
        law_numbers_are_written_in_digits(n / 10);
        assert(text::decimal(n)[0] == text::decimal(n / 10)[0]);
        if n < 100 {
            assert(text::decimal(n / 10) == seq![text::digit((n / 10) as int)]);
        } else {
            law_numbers_are_written_in_digits(n / 10 / 10);
            assert(text::decimal(n / 10).len() == text::decimal(n / 10 / 10).len() + 1);
        }
    }
}

/// Filling up with zeros changes neither the number nor what is long enough, and gives exactly the
/// width to what is shorter.
pub proof fn law_filling_up_keeps_the_number(n: nat, width: nat)
    ensures
        text::number_of(text::padded(n, width)) == n,
        text::decimal(n).len() >= width ==> text::padded(n, width) == text::decimal(n),
        text::decimal(n).len() < width ==> text::padded(n, width).len() == width,
        forall|i: int|
            0 <= i < text::padded(n, width).len() ==> '0' <= #[trigger] text::padded(n, width)[i]
                <= '9',
{
    text::lemma_padded_reads_back(n, width);
    assert forall|i: int| 0 <= i < text::padded(n, width).len() implies '0'
        <= #[trigger] text::padded(n, width)[i] <= '9' by {
        assert(text::is_digit(text::padded(n, width)[i]));
    }
}

/// Whether `s` is made of decimal digits, and at least one.
pub open spec fn is_number(s: Seq<char>) -> bool {
    s.len() > 0 && forall|i: int| 0 <= i < s.len() ==> '0' <= #[trigger] s[i] <= '9'
}

/// What an `i64` is read from: digits, alone or behind a sign, within the bounds of the type.
pub proof fn law_integers_are_digits_behind_a_sign(digits: Seq<char>)
    requires
        is_number(digits),
    ensures
        ({
            let n = text::number_of(digits);
            &&& text::i64_of(digits) == if n <= i64::MAX {
                Some(n as i64)
            } else {
                None
            }
            &&& text::i64_of(seq!['+'] + digits) == if n <= i64::MAX {
                Some(n as i64)
            } else {
                None
            }
            &&& text::i64_of(seq!['-'] + digits) == if -n >= i64::MIN {
                Some((-n) as i64)
            } else {
                None
            }
        }),
{
    assert(text::all_digits(digits)) by {
        assert forall|i: int| 0 <= i < digits.len() implies text::is_digit(
            #[trigger] digits[i],
        ) by {
            assert('0' <= digits[i] <= '9');
        }
    }
    lemma_number_is_not_negative(digits);
    assert('0' <= digits[0] <= '9');
    let plus = seq!['+'] + digits;
    let minus = seq!['-'] + digits;
    assert(plus.skip(1) =~= digits);
    assert(minus.skip(1) =~= digits);
}

proof fn lemma_number_is_not_negative(s: Seq<char>)
    requires
        forall|i: int| 0 <= i < s.len() ==> '0' <= #[trigger] s[i] <= '9',
    ensures
        text::number_of(s) >= 0,
    decreases s.len(),
{
    if s.len() > 0 {
        let fewer = s.drop_last();
        assert forall|i: int| 0 <= i < fewer.len() implies '0' <= #[trigger] fewer[i] <= '9' by {
            assert('0' <= s[i] <= '9');
        }
        lemma_number_is_not_negative(fewer);
        assert('0' <= s[s.len() - 1] <= '9');
    }
}

/// Nothing else is read as an `i64`.
pub proof fn law_nothing_else_is_an_integer(s: Seq<char>)
    requires
        !is_number(s),
        !(s.len() > 0 && (s[0] == '+' || s[0] == '-') && is_number(s.skip(1))),
    ensures
        text::i64_of(s) is None,
{
    if s.len() > 0 {
        let signed = s[0] == '-' || s[0] == '+';
        let body = if signed {
            s.skip(1)
        } else {
            s
        };
        if body.len() > 0 {
            let i = choose|i: int| 0 <= i < body.len() && !('0' <= #[trigger] body[i] <= '9');
            assert(!text::is_digit(body[i]));
        }
    }
}

} // verus!
