//! What one part of a cookie header does, and how headers are put together.

use vstd::prelude::*;

use crate::cookies;
use crate::text;
use crate::text_laws;

verus! {

/// Whether a text neither starts nor ends with white space.
pub open spec fn is_trimmed(s: Seq<char>) -> bool {
    s.len() > 0 ==> !text::white_space(s[0]) && !text::white_space(s.last())
}

/// A part of a header is a name, an equals sign and a value, each with white space around it that
/// does not count. The value is everything behind the first equals sign, further ones too.
pub proof fn law_cookies_are_read(
    name: Seq<char>,
    value: Seq<char>,
    before_name: Seq<char>,
    behind_name: Seq<char>,
    before_value: Seq<char>,
    behind_value: Seq<char>,
)
    requires
        name.len() > 0,
        is_trimmed(name),
        is_trimmed(value),
        text_laws::lacks(name, '='),
        text_laws::is_blank(before_name),
        text_laws::is_blank(behind_name),
        text_laws::is_blank(before_value),
        text_laws::is_blank(behind_value),
    ensures
        cookies::cookie_part(
            before_name + name + behind_name + seq!['='] + before_value + value + behind_value,
        ) == Some((name, value)),
{
    let none = Seq::<char>::empty();
    let part = before_name + name + behind_name + seq!['='] + before_value + value + behind_value;
    let front = name + behind_name;
    assert(text_laws::lacks(front, '=')) by {
        assert forall|i: int| 0 <= i < front.len() implies #[trigger] front[i] != '=' by {
            if i < name.len() {
                assert(front[i] == name[i]);
            } else {
                assert(front[i] == behind_name[i - name.len()]);
            }
        }
    }
    let (back, rest) = if value.len() > 0 {
        (before_value + value, behind_value)
    } else {
        (none, before_value + behind_value)
    };
    let body = front + seq!['='] + back;
    assert(text_laws::is_blank(rest)) by {
        assert forall|i: int| 0 <= i < rest.len() implies text::white_space(#[trigger] rest[i]) by {
            if value.len() == 0 {
                if i < before_value.len() {
                    assert(rest[i] == before_value[i]);
                } else {
                    assert(rest[i] == behind_value[i - before_value.len()]);
                }
            }
        }
    }
    assert(part =~= before_name + body + rest);
    assert(body[0] == name[0]);
    assert(body.last() == (if value.len() > 0 {
        value.last()
    } else {
        '='
    }));
    text_laws::law_trimming_takes_white_space_off_the_ends(before_name, body, rest);
    text_laws::law_cutting_at_the_first(front, '=', back);
    assert(front =~= none + name + behind_name);
    text_laws::law_trimming_takes_white_space_off_the_ends(none, name, behind_name);
    if value.len() > 0 {
        assert(back =~= before_value + value + none);
        text_laws::law_trimming_takes_white_space_off_the_ends(before_value, value, none);
    } else {
        assert(back =~= none + value + none);
        text_laws::law_trimming_takes_white_space_off_the_ends(none, value, none);
    }
}

/// What has no equals sign, or nothing but white space before the first one, is no cookie.
pub proof fn law_what_has_no_name_is_no_cookie(part: Seq<char>, front: Seq<char>, back: Seq<char>)
    requires
        text_laws::lacks(part, '='),
        text_laws::is_blank(front),
    ensures
        cookies::cookie_part(part) is None,
        cookies::cookie_part(front + seq!['='] + back) is None,
{
    let k = text::lemma_trim(part);
    let p = text::trim(part);
    assert(text_laws::lacks(p, '=')) by {
        assert forall|i: int| 0 <= i < p.len() implies #[trigger] p[i] != '=' by {
            assert(p[i] == part[k + i]);
        }
    }
    text_laws::law_cutting_at_the_first(p, '=', Seq::empty());
    let whole = front + seq!['='] + back;
    let m = text::lemma_trim(whole);
    let q = text::trim(whole);
    let n = front.len() as int;
    assert(whole[n] == '=');
    text_laws::law_trimming_leaves_what_is_said(whole);
    assert(text_laws::says_something(whole)) by {
        assert(!text::white_space(whole[n]));
    }
    assert(q[0] == whole[m]);
    if m < n {
        assert(whole[m] == front[m]);
    }
    assert(m == n) by {
        if m > n {
            assert(text::white_space(whole[n]));
        }
    }
    assert(q =~= Seq::<char>::empty() + seq!['='] + q.skip(1));
    text_laws::law_cutting_at_the_first(Seq::empty(), '=', q.skip(1));
    text::lemma_trim_blank(Seq::empty());
}

/// A cookie whose name is new comes at the end, and all others stay.
pub proof fn law_new_cookies_come_at_the_end(
    pairs: Seq<(Seq<char>, Seq<char>)>,
    part: Seq<char>,
    name: Seq<char>,
    value: Seq<char>,
)
    requires
        cookies::cookie_part(part) == Some((name, value)),
        forall|i: int| 0 <= i < pairs.len() ==> (#[trigger] pairs[i]).0 != name,
    ensures
        cookies::merge_part(pairs, part) == pairs.push((name, value)),
{
    cookies::lemma_place_is(pairs, name, pairs.len() as int);
}

/// A cookie whose name is there takes the place of the first one with that name, and all others
/// stay.
pub proof fn law_known_cookies_are_replaced(
    before: Seq<(Seq<char>, Seq<char>)>,
    name: Seq<char>,
    former: Seq<char>,
    behind: Seq<(Seq<char>, Seq<char>)>,
    part: Seq<char>,
    value: Seq<char>,
)
    requires
        cookies::cookie_part(part) == Some((name, value)),
        forall|i: int| 0 <= i < before.len() ==> (#[trigger] before[i]).0 != name,
    ensures
        cookies::merge_part(before + seq![(name, former)] + behind, part) == before + seq![
            (name, value),
        ] + behind,
{
    let pairs = before + seq![(name, former)] + behind;
    let k = before.len() as int;
    assert(pairs[k] == (name, former));
    assert forall|i: int| 0 <= i < k implies (#[trigger] pairs[i]).0 != name by {
        assert(pairs[i] == before[i]);
    }
    cookies::lemma_place_is(pairs, name, k);
    assert(pairs.update(k, (name, value)) =~= before + seq![(name, value)] + behind);
}

/// What is no cookie changes nothing, and the parts of a header, which semicolons separate, count
/// one after the other.
pub proof fn law_headers_are_read_part_by_part(
    pairs: Seq<(Seq<char>, Seq<char>)>,
    parts: Seq<Seq<char>>,
    part: Seq<char>,
)
    requires
        forall|i: int| 0 <= i < parts.len() ==> text_laws::lacks(#[trigger] parts[i], ';'),
    ensures
        cookies::cookie_part(part) is None ==> cookies::merge_part(pairs, part) == pairs,
        cookies::merge_parts(pairs, Seq::empty()) == pairs,
        cookies::merge_parts(pairs, parts.push(part)) == cookies::merge_part(
            cookies::merge_parts(pairs, parts),
            part,
        ),
        parts.len() > 0 ==> cookies::merge(pairs, text_laws::joined_by(parts, ';'))
            == cookies::merge_parts(pairs, parts),
{
    assert(parts.push(part).drop_last() =~= parts);
    if parts.len() > 0 {
        text_laws::law_splitting_undoes_joining(parts, ';');
    }
}

/// A header holds every cookie, its name and its value with an equals sign between them, and a
/// semicolon and a space between the cookies.
pub proof fn law_headers_are_written_cookie_by_cookie(
    pairs: Seq<(Seq<char>, Seq<char>)>,
    name: Seq<char>,
    value: Seq<char>,
)
    ensures
        cookies::joined(Seq::empty()).len() == 0,
        cookies::joined(seq![(name, value)]) == name + "="@ + value,
        pairs.len() > 0 ==> cookies::joined(pairs.push((name, value))) == cookies::joined(pairs)
            + "; "@ + (name + "="@ + value),
{
    assert(pairs.push((name, value)).drop_last() =~= pairs);
}

/// There is a header exactly where there is a cookie, for the platform as for the login service.
pub proof fn law_headers_are_there_for_cookies(
    pairs: Seq<(Seq<char>, Seq<char>)>,
    headers: Seq<Option<Seq<char>>>,
)
    ensures
        cookies::browser_result(pairs) == if pairs.len() == 0 {
            Err::<Seq<char>, Seq<char>>("没有找到登录 Cookie，请重新扫码"@)
        } else {
            Ok(cookies::joined(pairs))
        },
        cookies::login_cookies(headers) == if cookies::merge_headers(headers).len() == 0 {
            Err::<Seq<char>, Seq<char>>("缺少 jAccount Cookie，请刷新二维码"@)
        } else {
            Ok(cookies::joined(cookies::merge_headers(headers)))
        },
{
}

/// The headers for all addresses are merged, one after the other; an address without cookies adds
/// none.
pub proof fn law_all_headers_are_merged(headers: Seq<Option<Seq<char>>>, header: Seq<char>)
    ensures
        cookies::merge_headers(Seq::empty()).len() == 0,
        cookies::merge_headers(headers.push(None)) == cookies::merge_headers(headers),
        cookies::merge_headers(headers.push(Some(header))) == cookies::merge(
            cookies::merge_headers(headers),
            header,
        ),
{
    assert(headers.push(None).drop_last() =~= headers);
    assert(headers.push(Some(header)).drop_last() =~= headers);
}

/// The login page is asked for its cookies first, and then the pages of the login service and the
/// one from which it was entered.
pub proof fn law_these_addresses_are_asked(page: Seq<char>)
    ensures
        ({
            let asked = cookies::cookie_addresses(page);
            &&& asked.len() == 5
            &&& asked[0] == page
            &&& asked[1] == "https://jaccount.sjtu.edu.cn/jaccount/"@
            &&& asked[2] == "https://jaccount.sjtu.edu.cn/jaccount/jalogin"@
            &&& asked[3] == "https://jaccount.sjtu.edu.cn"@
            &&& asked[4] == "https://courses.sjtu.edu.cn/"@
        }),
{
}

/// What a session can send is one answer for each address, and each is one that the session can
/// give for that address.
pub proof fn law_every_address_is_asked(
    jar: reqwest::cookie::Jar,
    headers: Seq<Option<Seq<char>>>,
    addresses: Seq<Seq<char>>,
    i: int,
)
    requires
        cookies::can_be_sent(jar, headers, addresses),
    ensures
        headers.len() == addresses.len(),
        0 <= i < headers.len() ==> cookies::may_send(jar, addresses[i], headers[i]),
        0 <= i < headers.len() ==> (headers[i] matches Some(header) ==> forall|k: int|
            0 <= k < header.len() ==> (' ' <= #[trigger] header[k] <= '~' || header[k] == '\t')),
{
    if 0 <= i < headers.len() {
        if let Some(header) = headers[i] {
            assert(cookies::visible(header));
            assert forall|k: int| 0 <= k < header.len() implies (' ' <= #[trigger] header[k] <= '~'
                || header[k] == '\t') by {
                lemma_code(header[k]);
            }
        }
    }
}

proof fn lemma_code(c: char)
    ensures
        c as u32 == c as int,
{
}

} // verus!
