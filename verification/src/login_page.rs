//! What the login page says: the identifier under which the scan is announced.

use vstd::prelude::*;

use crate::text;

verus! {

/// How many bytes of a page are read at most.
pub const PAGE_LIMIT: usize = 0x2aaa_aaaa;

/// The value of the attribute `attribute` of the first element of the page `html` that matches
/// the CSS selector `selector`: `None` where no element matches or the element has no such
/// attribute, and the text of the error where the selector is none.
pub uninterp spec fn attribute_of_first(
    html: Seq<char>,
    selector: Seq<char>,
    attribute: Seq<char>,
) -> Result<Option<Seq<char>>, Seq<char>>;

/// What a search for an attribute gives.
pub open spec fn search_view(r: Result<Option<String>, String>) -> Result<
    Option<Seq<char>>,
    Seq<char>,
> {
    match r {
        Ok(found) => Ok(text::option_view(found)),
        Err(error) => Err(error@),
    }
}

/// `scraper`'s `Html::parse_document`, `Selector::parse`, `Html::select` and `Element::attr`: the
/// attribute of the first element that matches the selector, in the order in which the parser makes
/// the elements. It is the function `attribute_of_first` of the page, the selector and the attribute's name. The page
/// parser counts the bytes of a text in 32 bits and makes room for them in powers of two, and a
/// byte of the page (a NUL) can become three, hence the limit. The selector parser calls itself
/// for each nested selector without a limit, hence the one selector.
#[verifier::external_body]
pub(crate) fn search_attribute(html: &str, selector: &str, attribute: &str) -> (r: Result<
    Option<String>,
    String,
>)
    requires
        vstd::utf8::encode_utf8(html@).len() <= PAGE_LIMIT,
        selector@ == "a#firefox_link"@,
    ensures
        search_view(r) == attribute_of_first(html@, selector@, attribute@),
{
    let document = scraper::Html::parse_document(html);
    match scraper::Selector::parse(selector) {
        Ok(selector) => match document.select(&selector).next() {
            Some(node) => Ok(node.value().attr(attribute).map(str::to_string)),
            None => Ok(None),
        },
        Err(error) => Err(error.to_string()),
    }
}

/// The identifier in the address of the login entry: what follows `uuid=` up to the next `&`, or
/// where that is empty or missing, what follows the last `=` up to the next `&`.
pub open spec fn uuid_of(href: Seq<char>) -> Option<Seq<char>> {
    let named = match text::find(href, "uuid="@) {
        Some(i) => text::before(href.skip(i as int + 5), '&'),
        None => Seq::<char>::empty(),
    };
    let last = text::before(text::behind_last(href, '='), '&');
    if named.len() > 0 {
        Some(named)
    } else if last.len() > 0 {
        Some(last)
    } else {
        None
    }
}

/// The identifier in the address of the login entry, or what the user is told where there is none.
pub open spec fn uuid_result(href: Seq<char>) -> Result<Seq<char>, Seq<char>> {
    match uuid_of(href) {
        Some(uuid) => Ok(uuid),
        None => Err("无法从登录页解析 uuid"@),
    }
}

/// What a result with texts holds.
pub open spec fn text_result(r: Result<String, String>) -> Result<Seq<char>, Seq<char>> {
    match r {
        Ok(t) => Ok(t@),
        Err(message) => Err(message@),
    }
}

/// The identifier in the address of the login entry.
pub fn uuid_from_href(href: &str) -> (r: Result<String, String>)
    ensures
        text_result(r) == uuid_result(href@),
{
    proof {
        reveal_strlit("uuid=");
        assert("uuid="@.len() == 5);
    }
    if let Some(i) = text::find_text(href, "uuid=") {
        let chars = text::chars_of(href);
        let n: usize = chars.len();
        let k = text::find_char(&chars, i + 5, n, '&');
        let ghost rest = href@.skip(i + 5);
        assert(chars@.subrange(i + 5, n as int) == rest);
        assert(chars@.subrange(i + 5, k as int) == text::before(rest, '&')) by {
            text::lemma_cut(rest, '&');
        }
        if k > i + 5 {
            return Ok(text::text_of(&chars, i + 5, k));
        }
    }
    let tail = text::text_behind_last(href, '=');
    let last = text::text_before(tail.as_str(), '&');
    if last.as_str().is_empty() {
        Err("无法从登录页解析 uuid".to_owned())
    } else {
        Ok(last)
    }
}

/// What the search for the login entry comes to.
pub open spec fn entry_result(found: Result<Option<Seq<char>>, Seq<char>>) -> Result<
    Seq<char>,
    Seq<char>,
> {
    match found {
        Ok(Some(href)) => uuid_result(href),
        Ok(None) => Err("未找到 jAccount 登录入口，页面结构可能已变化"@),
        Err(error) => Err(error),
    }
}

/// The identifier in what the search for the address of the login entry found.
pub fn uuid_from_entry(found: Result<Option<String>, String>) -> (r: Result<String, String>)
    ensures
        text_result(r) == entry_result(search_view(found)),
{
    match found {
        Ok(Some(href)) => uuid_from_href(href.as_str()),
        Ok(None) => Err("未找到 jAccount 登录入口，页面结构可能已变化".to_owned()),
        Err(error) => Err(error),
    }
}

/// The identifier on the login page.
pub open spec fn page_uuid(html: Seq<char>) -> Result<Seq<char>, Seq<char>> {
    entry_result(attribute_of_first(html, "a#firefox_link"@, "href"@))
}

/// The identifier on the login page under which the scan is announced.
pub fn extract_uuid(html: &str) -> (r: Result<String, String>)
    requires
        vstd::utf8::encode_utf8(html@).len() <= PAGE_LIMIT,
    ensures
        text_result(r) == page_uuid(html@),
{
    uuid_from_entry(search_attribute(html, "a#firefox_link", "href"))
}

// ---------------------------------------------------------------------------------------------
// Laws
// ---------------------------------------------------------------------------------------------

/// An identifier that is found is not empty and holds no `&`.
pub proof fn law_uuid_is_clean(href: Seq<char>)
    requires
        uuid_of(href) is Some,
    ensures
        uuid_of(href)->0.len() > 0,
        !uuid_of(href)->0.contains('&'),
{
    match text::find(href, "uuid="@) {
        Some(i) => {
            text::lemma_cut(href.skip(i as int + 5), '&');
        },
        None => {},
    }
    text::lemma_cut(text::behind_last(href, '='), '&');
}

/// The identifier is found wherever the address names it, whatever stands before and behind it.
pub proof fn law_named_uuid_is_found(head: Seq<char>, uuid: Seq<char>, tail: Seq<char>)
    requires
        text::find(head + "uuid="@ + uuid + tail, "uuid="@) == Some(head.len()),
        uuid.len() > 0,
        !uuid.contains('&'),
        tail.len() > 0 ==> tail[0] == '&',
    ensures
        uuid_of(head + "uuid="@ + uuid + tail) == Some(uuid),
{
    reveal_strlit("uuid=");
    assert("uuid="@.len() == 5);
    let href = head + "uuid="@ + uuid + tail;
    let rest = href.skip(head.len() as int + 5);
    assert(rest == uuid + tail);
    assert forall|i: int| 0 <= i < uuid.len() implies #[trigger] rest[i] != '&' by {
        assert(uuid.contains(uuid[i]));
    }
    text::lemma_cut_is(rest, '&', uuid.len() as int);
    assert(text::before(rest, '&') == uuid);
}

} // verus!
