//! Cookie headers: reading them, merging them and writing them.

use vstd::prelude::*;

use crate::login_page;
use crate::navigation;
use crate::text;

verus! {

/// `reqwest::cookie::Jar`: the cookies of a session.
#[verifier::external_type_specification]
#[verifier::external_body]
pub struct ExJar(reqwest::cookie::Jar);

// ---------------------------------------------------------------------------------------------
// Reading and merging
// ---------------------------------------------------------------------------------------------

/// The name and the value of one part of a cookie header, where it has a name.
pub open spec fn cookie_part(part: Seq<char>) -> Option<(Seq<char>, Seq<char>)> {
    let p = text::trim(part);
    let name = text::trim(text::before(p, '='));
    let value = text::trim(text::behind(p, '='));
    if text::cut(p, '=') < p.len() && name.len() > 0 {
        Some((name, value))
    } else {
        None
    }
}

/// The place of the first pair with the given name; the number of pairs where there is none.
pub open spec fn place(pairs: Seq<(Seq<char>, Seq<char>)>, name: Seq<char>) -> nat
    decreases pairs.len(),
{
    if pairs.len() == 0 || pairs[0].0 == name {
        0
    } else {
        1 + place(pairs.skip(1), name)
    }
}

/// The pairs with one value set: in its place where the name is there, else at the end.
pub open spec fn set_value(
    pairs: Seq<(Seq<char>, Seq<char>)>,
    name: Seq<char>,
    value: Seq<char>,
) -> Seq<(Seq<char>, Seq<char>)> {
    if place(pairs, name) < pairs.len() {
        pairs.update(place(pairs, name) as int, (name, value))
    } else {
        pairs.push((name, value))
    }
}

/// The pairs after one part of a cookie header.
pub open spec fn merge_part(pairs: Seq<(Seq<char>, Seq<char>)>, part: Seq<char>) -> Seq<
    (Seq<char>, Seq<char>),
> {
    match cookie_part(part) {
        Some((name, value)) => set_value(pairs, name, value),
        None => pairs,
    }
}

/// The pairs after some parts of a cookie header, one after the other.
pub open spec fn merge_parts(
    pairs: Seq<(Seq<char>, Seq<char>)>,
    parts: Seq<Seq<char>>,
) -> Seq<(Seq<char>, Seq<char>)>
    decreases parts.len(),
{
    if parts.len() == 0 {
        pairs
    } else {
        merge_part(merge_parts(pairs, parts.drop_last()), parts.last())
    }
}

/// The pairs after a cookie header.
pub open spec fn merge(pairs: Seq<(Seq<char>, Seq<char>)>, header: Seq<char>) -> Seq<
    (Seq<char>, Seq<char>),
> {
    merge_parts(pairs, text::split(header, ';'))
}

pub(crate) proof fn lemma_place(pairs: Seq<(Seq<char>, Seq<char>)>, name: Seq<char>)
    ensures
        place(pairs, name) <= pairs.len(),
        place(pairs, name) < pairs.len() ==> pairs[place(pairs, name) as int].0 == name,
        forall|i: int| 0 <= i < place(pairs, name) ==> (#[trigger] pairs[i]).0 != name,
    decreases pairs.len(),
{
    if pairs.len() > 0 && pairs[0].0 != name {
        lemma_place(pairs.skip(1), name);
        assert forall|i: int| 0 <= i < place(pairs, name) implies (#[trigger] pairs[i]).0
            != name by {
            if i > 0 {
                assert(pairs.skip(1)[i - 1] == pairs[i]);
            }
        }
    }
}

pub(crate) proof fn lemma_place_is(pairs: Seq<(Seq<char>, Seq<char>)>, name: Seq<char>, k: int)
    requires
        0 <= k <= pairs.len(),
        k < pairs.len() ==> pairs[k].0 == name,
        forall|i: int| 0 <= i < k ==> (#[trigger] pairs[i]).0 != name,
    ensures
        place(pairs, name) == k,
{
    lemma_place(pairs, name);
    let m = place(pairs, name) as int;
    if m < k {
        assert(pairs[m].0 != name);
    } else if m > k {
        assert(pairs[k].0 != name);
    }
}

/// The place of the first pair with the given name; the number of pairs where there is none.
fn find_name(pairs: &Vec<(String, String)>, name: &str) -> (r: usize)
    ensures
        r == place(text::pair_views(pairs@), name@),
{
    let ghost all = text::pair_views(pairs@);
    let mut i: usize = 0;
    while i < pairs.len()
        invariant
            i <= pairs@.len(),
            all == text::pair_views(pairs@),
            forall|j: int| 0 <= j < i ==> (#[trigger] all[j]).0 != name@,
        decreases pairs@.len() - i,
    {
        assert(all[i as int].0 == pairs@[i as int].0@);
        if text::same_text(pairs[i].0.as_str(), name) {
            proof {
                lemma_place_is(all, name@, i as int);
            }
            return i;
        }
        i = i + 1;
    }
    proof {
        lemma_place_is(all, name@, i as int);
    }
    i
}

/// Merges one part of a cookie header into the pairs.
fn merge_one(existing: &mut Vec<(String, String)>, part: &str)
    ensures
        text::pair_views(final(existing)@) == merge_part(text::pair_views(old(existing)@), part@),
{
    let trimmed = text::trim_text(part);
    let Some(rest) = text::text_behind(trimmed.as_str(), '=') else {
        return ;
    };
    let first = text::text_before(trimmed.as_str(), '=');
    let name = text::trim_text(first.as_str());
    if name.as_str().is_empty() {
        return ;
    }
    let value = text::trim_text(rest.as_str());
    let ghost all = text::pair_views(existing@);
    let k = find_name(existing, name.as_str());
    proof {
        lemma_place(all, name@);
    }
    if k < existing.len() {
        existing.set(k, (name, value));
        assert(text::pair_views(existing@) == all.update(k as int, (name@, value@)));
    } else {
        existing.push((name, value));
        assert(text::pair_views(existing@) == all.push((name@, value@)));
    }
}

/// Merges a cookie header into the pairs: each of its cookies takes the place of the one with the
/// same name, or comes at the end.
pub fn merge_cookie_header(existing: &mut Vec<(String, String)>, header_value: &str)
    ensures
        text::pair_views(final(existing)@) == merge(
            text::pair_views(old(existing)@),
            header_value@,
        ),
{
    let parts = text::split_text(header_value, ';');
    let ghost all = text::views(parts@);
    let ghost start = text::pair_views(existing@);
    let mut i: usize = 0;
    assert(all.take(0) == Seq::<Seq<char>>::empty());
    while i < parts.len()
        invariant
            i <= parts@.len(),
            all == text::views(parts@),
            text::pair_views(existing@) == merge_parts(start, all.take(i as int)),
        decreases parts@.len() - i,
    {
        merge_one(existing, parts[i].as_str());
        assert(all.take(i + 1).drop_last() == all.take(i as int));
        assert(all.take(i + 1).last() == parts@[i as int]@);
        i = i + 1;
    }
    assert(all.take(parts@.len() as int) == all);
}

// ---------------------------------------------------------------------------------------------
// Writing
// ---------------------------------------------------------------------------------------------

/// One cookie of a header.
pub open spec fn pair_text(pair: (Seq<char>, Seq<char>)) -> Seq<char> {
    pair.0 + "="@ + pair.1
}

/// The header of some cookies.
pub open spec fn joined(pairs: Seq<(Seq<char>, Seq<char>)>) -> Seq<char>
    decreases pairs.len(),
{
    if pairs.len() == 0 {
        Seq::empty()
    } else if pairs.len() == 1 {
        pair_text(pairs[0])
    } else {
        joined(pairs.drop_last()) + "; "@ + pair_text(pairs.last())
    }
}

/// The header of some cookies.
pub fn join_cookies(pairs: &Vec<(String, String)>) -> (r: String)
    ensures
        r@ == joined(text::pair_views(pairs@)),
{
    let ghost all = text::pair_views(pairs@);
    let mut r: String = String::new();
    let mut i: usize = 0;
    assert(all.take(0) == Seq::<(Seq<char>, Seq<char>)>::empty());
    while i < pairs.len()
        invariant
            i <= pairs@.len(),
            all == text::pair_views(pairs@),
            r@ == joined(all.take(i as int)),
        decreases pairs@.len() - i,
    {
        let ghost done = r@;
        if i > 0 {
            r.append("; ");
        }
        r.append(pairs[i].0.as_str());
        r.append("=");
        r.append(pairs[i].1.as_str());
        assert(all.take(i + 1).drop_last() == all.take(i as int));
        assert(all.take(i + 1).last() == (pairs@[i as int].0@, pairs@[i as int].1@));
        assert(r@ == joined(all.take(i + 1)));
        i = i + 1;
    }
    assert(all.take(pairs@.len() as int) == all);
    r
}

/// The header of the cookies of the login window.
pub open spec fn browser_result(pairs: Seq<(Seq<char>, Seq<char>)>) -> Result<
    Seq<char>,
    Seq<char>,
> {
    if pairs.len() == 0 {
        Err("没有找到登录 Cookie，请重新扫码"@)
    } else {
        Ok(joined(pairs))
    }
}

/// The header of the cookies of the login window, or what the user is told where it has none.
pub fn browser_cookie_header(pairs: &Vec<(String, String)>) -> (r: Result<String, String>)
    ensures
        login_page::text_result(r) == browser_result(text::pair_views(pairs@)),
{
    if pairs.is_empty() {
        Err("没有找到登录 Cookie，请重新扫码".to_owned())
    } else {
        Ok(join_cookies(pairs))
    }
}

// ---------------------------------------------------------------------------------------------
// The cookies of the login service
// ---------------------------------------------------------------------------------------------

/// The characters that a header can carry as text: the visible ones of ASCII, the space and the
/// tab.
pub open spec fn visible(s: Seq<char>) -> bool {
    forall|i: int|
        0 <= i < s.len() ==> (0x20 <= (#[trigger] s[i]) as u32 <= 0x7e || s[i] as u32 == 0x9)
}

/// Whether a session, asked for the cookies that it sends to an address, can answer with a header,
/// or with none.
pub uninterp spec fn may_send(
    jar: reqwest::cookie::Jar,
    address: Seq<char>,
    header: Option<Seq<char>>,
) -> bool;

/// `reqwest::cookie::Jar::cookies` of an address that `url::Url::parse` reads, with
/// `HeaderValue::to_str`: the cookies that the session sends to the address, as a header, which is
/// one of those that `may_send` names. There are none for a text that is no address, and what there
/// is holds visible characters alone. Which cookies the session has is left open: they come from
/// the responses of the services, and they expire. The limit is that of reading an address; within
/// it the call panics only where another holder of the session has panicked while changing it.
#[verifier::external_body]
fn session_cookies(jar: &reqwest::cookie::Jar, address: &str) -> (r: Option<String>)
    requires
        vstd::utf8::encode_utf8(address@).len() <= navigation::ADDRESS_LIMIT,
    ensures
        may_send(*jar, address@, text::option_view(r)),
        navigation::url_of_text(address@) is Err ==> r is None,
        r matches Some(header) ==> visible(header@),
{
    let url = url::Url::parse(address).ok()?;
    let header = reqwest::cookie::CookieStore::cookies(jar, &url)?;
    header.to_str().ok().map(str::to_string)
}

/// The addresses whose cookies are sent to the login service.
pub open spec fn cookie_addresses(page_url: Seq<char>) -> Seq<Seq<char>> {
    seq![
        page_url,
        "https://jaccount.sjtu.edu.cn/jaccount/"@,
        "https://jaccount.sjtu.edu.cn/jaccount/jalogin"@,
        "https://jaccount.sjtu.edu.cn"@,
        "https://courses.sjtu.edu.cn/"@,
    ]
}

/// What optional headers hold.
pub open spec fn header_views(headers: Seq<Option<String>>) -> Seq<Option<Seq<char>>> {
    headers.map_values(|h: Option<String>| text::option_view(h))
}

/// The pairs after some headers, one after the other.
pub open spec fn merge_headers(headers: Seq<Option<Seq<char>>>) -> Seq<(Seq<char>, Seq<char>)>
    decreases headers.len(),
{
    if headers.len() == 0 {
        Seq::empty()
    } else {
        match headers.last() {
            Some(header) => merge(merge_headers(headers.drop_last()), header),
            None => merge_headers(headers.drop_last()),
        }
    }
}

/// The header for the login service that some headers come to.
pub open spec fn login_cookies(headers: Seq<Option<Seq<char>>>) -> Result<Seq<char>, Seq<char>> {
    let pairs = merge_headers(headers);
    if pairs.len() == 0 {
        Err("缺少 jAccount Cookie，请刷新二维码"@)
    } else {
        Ok(joined(pairs))
    }
}

/// Whether `headers` can be what a session sends to `addresses`.
pub open spec fn can_be_sent(
    jar: reqwest::cookie::Jar,
    headers: Seq<Option<Seq<char>>>,
    addresses: Seq<Seq<char>>,
) -> bool {
    &&& headers.len() == addresses.len()
    &&& forall|i: int|
        #![trigger headers[i]]
        0 <= i < headers.len() ==> {
            &&& may_send(jar, addresses[i], headers[i])
            &&& navigation::url_of_text(addresses[i]) is Err ==> headers[i] is None
            &&& headers[i] matches Some(header) ==> visible(header)
        }
}

/// The header for the login service that some headers come to, or what the user is told where they
/// hold no cookie.
pub fn login_cookie_header(headers: &Vec<Option<String>>) -> (r: Result<String, String>)
    ensures
        login_page::text_result(r) == login_cookies(header_views(headers@)),
{
    let ghost all = header_views(headers@);
    let mut pairs: Vec<(String, String)> = Vec::new();
    let mut i: usize = 0;
    assert(all.take(0) == Seq::<Option<Seq<char>>>::empty());
    assert(text::pair_views(pairs@) == Seq::<(Seq<char>, Seq<char>)>::empty());
    while i < headers.len()
        invariant
            i <= headers@.len(),
            all == header_views(headers@),
            text::pair_views(pairs@) == merge_headers(all.take(i as int)),
        decreases headers@.len() - i,
    {
        assert(all.take(i + 1).drop_last() == all.take(i as int));
        assert(all.take(i + 1).last() == text::option_view(headers@[i as int]));
        if let Some(header) = &headers[i] {
            merge_cookie_header(&mut pairs, header.as_str());
        }
        i = i + 1;
    }
    assert(all.take(headers@.len() as int) == all);
    assert(text::pair_views(pairs@).len() == pairs@.len());
    if pairs.is_empty() {
        Err("缺少 jAccount Cookie，请刷新二维码".to_owned())
    } else {
        Ok(join_cookies(&pairs))
    }
}

proof fn lemma_addresses_fit(page_url: Seq<char>)
    requires
        vstd::utf8::encode_utf8(page_url).len() <= navigation::ADDRESS_LIMIT,
    ensures
        forall|k: int|
            0 <= k < cookie_addresses(page_url).len() ==> vstd::utf8::encode_utf8(
                #[trigger] cookie_addresses(page_url)[k],
            ).len() <= navigation::ADDRESS_LIMIT,
{
    reveal_strlit("https://jaccount.sjtu.edu.cn/jaccount/");
    reveal_strlit("https://jaccount.sjtu.edu.cn/jaccount/jalogin");
    reveal_strlit("https://jaccount.sjtu.edu.cn");
    reveal_strlit("https://courses.sjtu.edu.cn/");
    text::lemma_encoding_is_bounded("https://jaccount.sjtu.edu.cn/jaccount/"@);
    text::lemma_encoding_is_bounded("https://jaccount.sjtu.edu.cn/jaccount/jalogin"@);
    text::lemma_encoding_is_bounded("https://jaccount.sjtu.edu.cn"@);
    text::lemma_encoding_is_bounded("https://courses.sjtu.edu.cn/"@);
}

/// The addresses whose cookies are sent to the login service.
fn address_list(page_url: &str) -> (r: Vec<String>)
    ensures
        text::views(r@) == cookie_addresses(page_url@),
{
    let mut r: Vec<String> = Vec::new();
    r.push(page_url.to_owned());
    r.push("https://jaccount.sjtu.edu.cn/jaccount/".to_owned());
    r.push("https://jaccount.sjtu.edu.cn/jaccount/jalogin".to_owned());
    r.push("https://jaccount.sjtu.edu.cn".to_owned());
    r.push("https://courses.sjtu.edu.cn/".to_owned());
    assert(text::views(r@) == cookie_addresses(page_url@));
    r
}

/// The header with which the login service is addressed: the cookies that the session sends to the
/// login page and to the service, each once. A header that comes out holds visible characters
/// alone, so that it can be sent.
pub fn jaccount_cookie_header(jar: &reqwest::cookie::Jar, page_url: &str) -> (r: Result<
    String,
    String,
>)
    requires
        vstd::utf8::encode_utf8(page_url@).len() <= navigation::ADDRESS_LIMIT,
    ensures
        exists|headers: Seq<Option<Seq<char>>>|
            #![trigger login_cookies(headers)]
            can_be_sent(*jar, headers, cookie_addresses(page_url@)) && login_page::text_result(r)
                == login_cookies(headers),
        r matches Ok(header) ==> visible(header@),
{
    let addresses = address_list(page_url);
    let ghost wanted = cookie_addresses(page_url@);
    let mut headers: Vec<Option<String>> = Vec::new();
    let mut i: usize = 0;
    proof {
        lemma_addresses_fit(page_url@);
    }
    while i < addresses.len()
        invariant
            i <= addresses@.len(),
            text::views(addresses@) == wanted,
            headers@.len() == i,
            forall|k: int|
                0 <= k < wanted.len() ==> vstd::utf8::encode_utf8(#[trigger] wanted[k]).len()
                    <= navigation::ADDRESS_LIMIT,
            can_be_sent(*jar, header_views(headers@), wanted.take(i as int)),
        decreases addresses@.len() - i,
    {
        let ghost before = header_views(headers@);
        assert(wanted[i as int] == addresses@[i as int]@);
        let header = session_cookies(jar, addresses[i].as_str());
        headers.push(header);
        let ghost now = header_views(headers@);
        assert(now == before.push(text::option_view(header)));
        assert forall|k: int| 0 <= k < now.len() implies {
            &&& may_send(*jar, wanted.take(i + 1)[k], #[trigger] now[k])
            &&& navigation::url_of_text(wanted.take(i + 1)[k]) is Err ==> now[k] is None
            &&& now[k] matches Some(h) ==> visible(h)
        } by {
            if k < i {
                assert(now[k] == before[k]);
                assert(wanted.take(i + 1)[k] == wanted.take(i as int)[k]);
            }
        }
        i = i + 1;
    }
    assert(wanted.len() == addresses@.len());
    assert(wanted.take(wanted.len() as int) == wanted);
    let r = login_cookie_header(&headers);
    proof {
        let sent = header_views(headers@);
        assert(can_be_sent(*jar, sent, wanted));
        assert(login_page::text_result(r) == login_cookies(sent));
        lemma_merge_headers_visible(sent);
        lemma_joined_visible(merge_headers(sent));
    }
    r
}

/// Whether all names and values hold visible characters alone.
pub open spec fn all_visible(pairs: Seq<(Seq<char>, Seq<char>)>) -> bool {
    forall|i: int| 0 <= i < pairs.len() ==> visible((#[trigger] pairs[i]).0) && visible(pairs[i].1)
}

proof fn lemma_visible_part(s: Seq<char>, from: int, to: int)
    requires
        visible(s),
        0 <= from <= to <= s.len(),
    ensures
        visible(s.subrange(from, to)),
{
    let part = s.subrange(from, to);
    assert forall|i: int| 0 <= i < part.len() implies (0x20 <= (#[trigger] part[i]) as u32 <= 0x7e
        || part[i] as u32 == 0x9) by {
        assert(part[i] == s[from + i]);
    }
}

proof fn lemma_trim_visible(s: Seq<char>)
    requires
        visible(s),
    ensures
        visible(text::trim(s)),
{
    let k = text::lemma_trim(s);
    lemma_visible_part(s, k, k + text::trim(s).len());
}

proof fn lemma_cut_visible(s: Seq<char>, c: char)
    requires
        visible(s),
    ensures
        visible(text::before(s, c)),
        visible(text::behind(s, c)),
{
    text::lemma_cut(s, c);
    let k = text::cut(s, c) as int;
    lemma_visible_part(s, 0, k);
    assert(text::before(s, c) == s.subrange(0, k));
    if k < s.len() {
        lemma_visible_part(s, k + 1, s.len() as int);
        assert(text::behind(s, c) == s.subrange(k + 1, s.len() as int));
    }
}

proof fn lemma_split_visible(s: Seq<char>, c: char)
    requires
        visible(s),
    ensures
        forall|i: int| 0 <= i < text::split(s, c).len() ==> visible(#[trigger] text::split(s, c)[i]),
    decreases s.len(),
{
    lemma_cut_visible(s, c);
    text::lemma_cut(s, c);
    if text::cut(s, c) < s.len() {
        let rest = text::behind(s, c);
        lemma_split_visible(rest, c);
        let parts = text::split(s, c);
        assert forall|i: int| 0 <= i < parts.len() implies visible(#[trigger] parts[i]) by {
            if i > 0 {
                assert(parts[i] == text::split(rest, c)[i - 1]);
            }
        }
    }
}

proof fn lemma_merge_part_visible(pairs: Seq<(Seq<char>, Seq<char>)>, part: Seq<char>)
    requires
        all_visible(pairs),
        visible(part),
    ensures
        all_visible(merge_part(pairs, part)),
{
    let p = text::trim(part);
    lemma_trim_visible(part);
    lemma_cut_visible(p, '=');
    lemma_trim_visible(text::before(p, '='));
    lemma_trim_visible(text::behind(p, '='));
    let after = merge_part(pairs, part);
    assert forall|i: int| 0 <= i < after.len() implies visible((#[trigger] after[i]).0) && visible(
        after[i].1,
    ) by {
        match cookie_part(part) {
            Some((name, value)) => {
                if after[i] != (name, value) {
                    assert(after[i] == pairs[i]);
                }
            },
            None => {},
        }
    }
}

proof fn lemma_merge_parts_visible(pairs: Seq<(Seq<char>, Seq<char>)>, parts: Seq<Seq<char>>)
    requires
        all_visible(pairs),
        forall|i: int| 0 <= i < parts.len() ==> visible(#[trigger] parts[i]),
    ensures
        all_visible(merge_parts(pairs, parts)),
    decreases parts.len(),
{
    if parts.len() > 0 {
        let fewer = parts.drop_last();
        assert forall|i: int| 0 <= i < fewer.len() implies visible(#[trigger] fewer[i]) by {
            assert(fewer[i] == parts[i]);
        }
        lemma_merge_parts_visible(pairs, fewer);
        assert(visible(parts[parts.len() - 1]));
        lemma_merge_part_visible(merge_parts(pairs, fewer), parts.last());
    }
}

proof fn lemma_merge_headers_visible(headers: Seq<Option<Seq<char>>>)
    requires
        forall|i: int|
            #![trigger headers[i]]
            0 <= i < headers.len() ==> (headers[i] matches Some(h) ==> visible(h)),
    ensures
        all_visible(merge_headers(headers)),
    decreases headers.len(),
{
    if headers.len() > 0 {
        let fewer = headers.drop_last();
        assert forall|i: int|
            #![trigger fewer[i]]
            0 <= i < fewer.len() implies (fewer[i] matches Some(h) ==> visible(h)) by {
            assert(fewer[i] == headers[i]);
        }
        lemma_merge_headers_visible(fewer);
        assert(headers.last() == headers[headers.len() - 1]);
        match headers.last() {
            Some(header) => {
                lemma_split_visible(header, ';');
                lemma_merge_parts_visible(merge_headers(fewer), text::split(header, ';'));
            },
            None => {},
        }
    }
}

proof fn lemma_joined_visible(pairs: Seq<(Seq<char>, Seq<char>)>)
    requires
        all_visible(pairs),
    ensures
        visible(joined(pairs)),
    decreases pairs.len(),
{
    reveal_strlit("=");
    reveal_strlit("; ");
    assert("="@.len() == 1 && "="@[0] == '=');
    assert("; "@.len() == 2 && "; "@[0] == ';' && "; "@[1] == ' ');
    if pairs.len() > 0 {
        let last = pairs.last();
        assert(last == pairs[pairs.len() - 1]);
        let t = pair_text(last);
        assert forall|i: int| 0 <= i < t.len() implies (0x20 <= (#[trigger] t[i]) as u32 <= 0x7e
            || t[i] as u32 == 0x9) by {
            if i < last.0.len() {
                assert(t[i] == last.0[i]);
            } else if i > last.0.len() {
                assert(t[i] == last.1[i - last.0.len() - 1]);
            }
        }
        if pairs.len() > 1 {
            let fewer = pairs.drop_last();
            assert forall|i: int| 0 <= i < fewer.len() implies visible((#[trigger] fewer[i]).0)
                && visible(fewer[i].1) by {
                assert(fewer[i] == pairs[i]);
            }
            lemma_joined_visible(fewer);
            let a = joined(fewer);
            let whole = joined(pairs);
            assert forall|i: int| 0 <= i < whole.len() implies (0x20 <= (#[trigger] whole[i]) as u32
                <= 0x7e || whole[i] as u32 == 0x9) by {
                if i < a.len() {
                    assert(whole[i] == a[i]);
                } else if i >= a.len() + 2 {
                    assert(whole[i] == t[i - a.len() - 2]);
                }
            }
        }
    }
}

} // verus!
