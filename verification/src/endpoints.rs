//! The addresses of the services and the requests that are built from them.

use vstd::prelude::*;

use crate::text;

verus! {

pub const CANVAS_ORIGIN: &'static str = "https://oc.sjtu.edu.cn";

pub const CANVAS_LOGIN_URL: &'static str = "https://oc.sjtu.edu.cn/login/openid_connect";

pub const COURSES_URL: &'static str = "https://oc.sjtu.edu.cn/api/v1/courses";

pub const LOGIN_INIT_URL: &'static str =
    "https://courses.sjtu.edu.cn/app/oauth/2.0/login?login_type=outer";

pub const JACCOUNT_ORIGIN: &'static str = "https://jaccount.sjtu.edu.cn";

pub const JACCOUNT_QR_URL: &'static str = "https://jaccount.sjtu.edu.cn/jaccount/qrcode";

pub const JACCOUNT_EXPRESS_URL: &'static str =
    "https://jaccount.sjtu.edu.cn/jaccount/expresslogin";

pub const VIDEO_ORIGIN: &'static str = "https://v.sjtu.edu.cn";

/// The page of the video service, without a token.
pub const VIDEO_PAGE_URL: &'static str =
    "https://v.sjtu.edu.cn/jy-application-canvas-sjtu-ui/";

pub const TOKEN_EXCHANGE_URL: &'static str =
    "https://v.sjtu.edu.cn/jy-application-canvas-sjtu/lti3/getAccessTokenByTokenId";

pub const LESSON_LIST_URL: &'static str =
    "https://v.sjtu.edu.cn/jy-application-canvas-sjtu/directOnDemandPlay/findVodVideoList";

pub const VIDEO_DETAIL_URL: &'static str =
    "https://v.sjtu.edu.cn/jy-application-canvas-sjtu/directOnDemandPlay/getVodVideoInfos";

pub const SUBTITLE_URL: &'static str =
    "https://v.sjtu.edu.cn/jy-application-canvas-sjtu/transfer/translate/detail";

/// How the application names itself to the services.
pub const USER_AGENT: &'static str = "CanvasPocket/0.1";

/// The message that asks the login service for a new QR code.
pub const QR_REFRESH_MESSAGE: &'static str = "{ \"type\": \"UPDATE_QR_CODE\" }";

// ---------------------------------------------------------------------------------------------
// URL encoding
// ---------------------------------------------------------------------------------------------

/// The bytes that stand for themselves in an URL-encoded text: letters and digits of ASCII, and the
/// characters `-`, `.`, `_` and `~`.
pub open spec fn unreserved(b: u8) -> bool {
    ||| 0x30 <= b <= 0x39
    ||| 0x41 <= b <= 0x5a
    ||| 0x61 <= b <= 0x7a
    ||| b == 0x2d
    ||| b == 0x2e
    ||| b == 0x5f
    ||| b == 0x7e
}

/// A hexadecimal digit in upper case.
pub open spec fn hex_char(d: u8) -> char {
    if d < 10 {
        (0x30 + d) as char
    } else {
        (0x37 + d) as char
    }
}

/// One byte in an URL-encoded text: itself, or a percent sign and its two hexadecimal digits.
pub open spec fn encoded_byte(b: u8) -> Seq<char> {
    if unreserved(b) {
        seq![b as char]
    } else {
        seq!['%', hex_char(b / 16), hex_char(b % 16)]
    }
}

/// Some bytes in an URL-encoded text.
pub open spec fn encoded_bytes(bytes: Seq<u8>) -> Seq<char>
    decreases bytes.len(),
{
    if bytes.len() == 0 {
        Seq::empty()
    } else {
        encoded_bytes(bytes.drop_last()) + encoded_byte(bytes.last())
    }
}

/// A text, URL-encoded by the bytes of its UTF-8 form.
pub open spec fn url_encoded(s: Seq<char>) -> Seq<char> {
    encoded_bytes(vstd::utf8::encode_utf8(s))
}

fn hex_of(d: u8) -> (r: char)
    requires
        d < 16,
    ensures
        r == hex_char(d),
{
    if d < 10 {
        (0x30 + d) as char
    } else {
        (0x37 + d) as char
    }
}

fn push_encoded(out: &mut String, b: u8)
    ensures
        final(out)@ == old(out)@ + encoded_byte(b),
{
    if (0x30 <= b && b <= 0x39) || (0x41 <= b && b <= 0x5a) || (0x61 <= b && b <= 0x7a) || b == 0x2d
        || b == 0x2e || b == 0x5f || b == 0x7e {
        out.push(b as char);
    } else {
        out.push('%');
        out.push(hex_of(b / 16));
        out.push(hex_of(b % 16));
    }
    assert(out@ == old(out)@ + encoded_byte(b));
}

/// A text, URL-encoded.
pub fn url_encode(s: &str) -> (r: String)
    ensures
        r@ == url_encoded(s@),
{
    let bytes = s.as_bytes();
    let mut r: String = String::new();
    let mut i: usize = 0;
    assert(bytes@.take(0) == Seq::<u8>::empty());
    while i < bytes.len()
        invariant
            i <= bytes@.len(),
            r@ == encoded_bytes(bytes@.take(i as int)),
        decreases bytes@.len() - i,
    {
        push_encoded(&mut r, bytes[i]);
        assert(bytes@.take(i + 1).drop_last() == bytes@.take(i as int));
        i = i + 1;
    }
    assert(bytes@.take(bytes@.len() as int) == bytes@);
    r
}

/// The last byte can be read from the end of an URL-encoded text.
proof fn lemma_last_byte(a: Seq<u8>, b: Seq<u8>)
    requires
        a.len() > 0,
        b.len() > 0,
        encoded_bytes(a) == encoded_bytes(b),
    ensures
        a.last() == b.last(),
        encoded_bytes(a.drop_last()) == encoded_bytes(b.drop_last()),
{
    let x = encoded_byte(a.last());
    let y = encoded_byte(b.last());
    let s = encoded_bytes(a);
    let t = encoded_bytes(b);
    lemma_no_percent_at_end(a.drop_last());
    lemma_no_percent_at_end(b.drop_last());
    assert(s[s.len() - 1] == x.last());
    assert(t[t.len() - 1] == y.last());
    if x.len() == 3 {
        assert(s[s.len() - 3] == '%');
        assert(s[s.len() - 2] == x[1]);
    }
    if y.len() == 3 {
        assert(t[t.len() - 3] == '%');
        assert(t[t.len() - 2] == y[1]);
    }
    if x.len() == 1 && y.len() == 3 {
        let rest = encoded_bytes(a.drop_last());
        assert(s[s.len() - 2] == rest[rest.len() - 1]);
        assert(s[s.len() - 3] == rest[rest.len() - 2]);
    }
    if x.len() == 3 && y.len() == 1 {
        let rest = encoded_bytes(b.drop_last());
        assert(t[t.len() - 2] == rest[rest.len() - 1]);
        assert(t[t.len() - 3] == rest[rest.len() - 2]);
    }
    assert(x.len() == y.len());
    assert(a.last() == b.last()) by {
        if x.len() == 3 {
            lemma_hex_chars(a.last() / 16, b.last() / 16);
            lemma_hex_chars(a.last() % 16, b.last() % 16);
        }
    }
    assert(s.take(s.len() - x.len()) == encoded_bytes(a.drop_last()));
    assert(t.take(t.len() - y.len()) == encoded_bytes(b.drop_last()));
}

proof fn lemma_hex_chars(d: u8, e: u8)
    requires
        d < 16,
        e < 16,
        hex_char(d) == hex_char(e),
    ensures
        d == e,
{
}

/// A percent sign is always followed by two digits.
proof fn lemma_no_percent_at_end(bytes: Seq<u8>)
    ensures
        ({
            let s = encoded_bytes(bytes);
            &&& s.len() > 0 ==> s[s.len() - 1] != '%'
            &&& s.len() > 1 ==> s[s.len() - 2] != '%'
        }),
    decreases bytes.len(),
{
    if bytes.len() > 0 {
        lemma_no_percent_at_end(bytes.drop_last());
        let s = encoded_bytes(bytes);
        let front = encoded_bytes(bytes.drop_last());
        let x = encoded_byte(bytes.last());
        assert(s[s.len() - 1] == x.last());
        if x.len() == 3 {
            assert(s[s.len() - 2] == x[1]);
        } else if s.len() > 1 {
            assert(s[s.len() - 2] == front[front.len() - 1]);
        }
    }
}

proof fn lemma_encoded_bytes_differ(a: Seq<u8>, b: Seq<u8>)
    requires
        encoded_bytes(a) == encoded_bytes(b),
    ensures
        a == b,
    decreases a.len(),
{
    if a.len() > 0 && b.len() > 0 {
        lemma_last_byte(a, b);
        lemma_encoded_bytes_differ(a.drop_last(), b.drop_last());
        assert(a == a.drop_last().push(a.last()));
        assert(b == b.drop_last().push(b.last()));
    } else if a.len() > 0 {
        assert(encoded_bytes(a).len() >= encoded_byte(a.last()).len());
    } else if b.len() > 0 {
        assert(encoded_bytes(b).len() >= encoded_byte(b.last()).len());
    } else {
        assert(a == b);
    }
}

/// Different texts are encoded differently.
pub proof fn law_encoded_texts_differ(a: Seq<char>, b: Seq<char>)
    requires
        url_encoded(a) == url_encoded(b),
    ensures
        a == b,
{
    lemma_encoded_bytes_differ(vstd::utf8::encode_utf8(a), vstd::utf8::encode_utf8(b));
    vstd::utf8::encode_utf8_decode_utf8(a);
    vstd::utf8::encode_utf8_decode_utf8(b);
}

// ---------------------------------------------------------------------------------------------
// Base64
// ---------------------------------------------------------------------------------------------

/// The character of the standard Base64 alphabet for six bits.
pub open spec fn base64_char(bits: int) -> char {
    if bits < 26 {
        (0x41 + bits) as char
    } else if bits < 52 {
        (0x61 + bits - 26) as char
    } else if bits < 62 {
        (0x30 + bits - 52) as char
    } else if bits == 62 {
        '+'
    } else {
        '/'
    }
}

/// The four characters that stand for up to three bytes, with padding for those that are missing.
pub open spec fn base64_group(bytes: Seq<u8>) -> Seq<char> {
    let a = bytes[0] as int;
    let b = if bytes.len() > 1 {
        bytes[1] as int
    } else {
        0
    };
    let c = if bytes.len() > 2 {
        bytes[2] as int
    } else {
        0
    };
    seq![
        base64_char(a / 4),
        base64_char(a % 4 * 16 + b / 16),
        if bytes.len() > 1 {
            base64_char(b % 16 * 4 + c / 64)
        } else {
            '='
        },
        if bytes.len() > 2 {
            base64_char(c % 64)
        } else {
            '='
        },
    ]
}

/// The text of some bytes in the standard Base64 alphabet, with padding.
pub open spec fn base64_text(bytes: Seq<u8>) -> Seq<char>
    decreases bytes.len(),
{
    if bytes.len() == 0 {
        Seq::empty()
    } else if bytes.len() <= 3 {
        base64_group(bytes)
    } else {
        base64_group(bytes.take(3)) + base64_text(bytes.skip(3))
    }
}

/// `base64`'s `Engine::encode` of the engine `STANDARD`: the text of the bytes in the standard
/// alphabet, with padding.
#[verifier::external_body]
pub(crate) fn base64_encode(bytes: &[u8]) -> (r: String)
    ensures
        r@ == base64_text(bytes@),
{
    base64::Engine::encode(&base64::engine::general_purpose::STANDARD, bytes)
}

proof fn lemma_base64_chars(x: int, y: int)
    requires
        0 <= x < 64,
        0 <= y < 64,
    ensures
        base64_char(x) == base64_char(y) ==> x == y,
        base64_char(x) != '=',
{
}

proof fn lemma_groups_differ(a: Seq<u8>, b: Seq<u8>)
    requires
        1 <= a.len() <= 3,
        1 <= b.len() <= 3,
        base64_group(a) == base64_group(b),
    ensures
        a == b,
{
    let s = base64_group(a);
    let t = base64_group(b);
    let a0 = a[0] as int;
    let a1 = if a.len() > 1 {
        a[1] as int
    } else {
        0
    };
    let a2 = if a.len() > 2 {
        a[2] as int
    } else {
        0
    };
    let b0 = b[0] as int;
    let b1 = if b.len() > 1 {
        b[1] as int
    } else {
        0
    };
    let b2 = if b.len() > 2 {
        b[2] as int
    } else {
        0
    };
    lemma_base64_chars(a1 % 16 * 4 + a2 / 64, b1 % 16 * 4 + b2 / 64);
    lemma_base64_chars(b1 % 16 * 4 + b2 / 64, a1 % 16 * 4 + a2 / 64);
    lemma_base64_chars(a2 % 64, b2 % 64);
    lemma_base64_chars(b2 % 64, a2 % 64);
    assert(s[2] == t[2]);
    assert(s[3] == t[3]);
    assert(a.len() == b.len());
    assert(s[0] == t[0]);
    lemma_base64_chars(a0 / 4, b0 / 4);
    assert(s[1] == t[1]);
    lemma_base64_chars(a0 % 4 * 16 + a1 / 16, b0 % 4 * 16 + b1 / 16);
    assert(a0 == b0);
    assert(a1 == b1);
    assert(a2 == b2);
    assert(a =~= b);
}

proof fn lemma_base64_texts_differ(a: Seq<u8>, b: Seq<u8>)
    requires
        base64_text(a) == base64_text(b),
    ensures
        a == b,
    decreases a.len(),
{
    let s = base64_text(a);
    let t = base64_text(b);
    if a.len() == 0 || b.len() == 0 {
        assert(a.len() > 0 ==> s.len() >= 4);
        assert(b.len() > 0 ==> t.len() >= 4);
        assert(a =~= b);
    } else {
        let x = if a.len() <= 3 {
            a
        } else {
            a.take(3)
        };
        let y = if b.len() <= 3 {
            b
        } else {
            b.take(3)
        };
        assert(s.take(4) == base64_group(x));
        assert(t.take(4) == base64_group(y));
        lemma_groups_differ(x, y);
        if a.len() > 3 {
            assert(s.skip(4) == base64_text(a.skip(3)));
        } else {
            assert(s.skip(4).len() == 0);
        }
        if b.len() > 3 {
            assert(t.skip(4) == base64_text(b.skip(3)));
        } else {
            assert(t.skip(4).len() == 0);
        }
        if a.len() > 3 && b.len() > 3 {
            lemma_base64_texts_differ(a.skip(3), b.skip(3));
            assert(a == x + a.skip(3));
            assert(b == y + b.skip(3));
        } else if a.len() > 3 {
            assert(base64_text(a.skip(3)).len() >= 4);
        } else if b.len() > 3 {
            assert(base64_text(b.skip(3)).len() >= 4);
        }
    }
}

// ---------------------------------------------------------------------------------------------
// Addresses and headers
// ---------------------------------------------------------------------------------------------

/// The page of a course from which the video service is entered.
pub open spec fn lti_launch(course_id: nat) -> Seq<char> {
    "https://oc.sjtu.edu.cn/courses/"@ + text::decimal(course_id)
        + "/external_tools/8329?display=borderless"@
}

/// The page of a course from which the video service is entered.
pub fn lti_launch_url(course_id: u64) -> (r: String)
    ensures
        r@ == lti_launch(course_id as nat),
{
    let mut r: String = "https://oc.sjtu.edu.cn/courses/".to_owned();
    text::push_decimal(&mut r, course_id);
    r.append("/external_tools/8329?display=borderless");
    r
}

/// The channel on which the login service announces QR codes and the scan for one login page.
pub open spec fn qr_channel(uuid: Seq<char>) -> Seq<char> {
    "wss://jaccount.sjtu.edu.cn/jaccount/sub/"@ + uuid
}

/// The channel on which the login service announces QR codes and the scan for one login page.
pub fn qr_channel_url(uuid: &str) -> (r: String)
    ensures
        r@ == qr_channel(uuid@),
{
    let mut r: String = "wss://jaccount.sjtu.edu.cn/jaccount/sub/".to_owned();
    r.append(uuid);
    r
}

/// The official address of one video track, which names the track by its Base64 text.
pub open spec fn official_download(track_id: Seq<char>) -> Seq<char> {
    "https://v.sjtu.edu.cn/jy-application-canvas-sjtu/directOnDemandPlay/downloadVideo?id="@
        + base64_text(vstd::utf8::encode_utf8(track_id))
}

/// The official address of one video track.
pub fn official_download_url(track_id: &str) -> (r: String)
    ensures
        r@ == official_download(track_id@),
{
    let encoded = base64_encode(track_id.as_bytes());
    let mut r: String =
        "https://v.sjtu.edu.cn/jy-application-canvas-sjtu/directOnDemandPlay/downloadVideo?id=".to_owned();
    r.append(encoded.as_str());
    r
}

/// Different tracks have different official addresses.
pub proof fn law_tracks_have_their_own_addresses(first: Seq<char>, second: Seq<char>)
    requires
        official_download(first) == official_download(second),
    ensures
        first == second,
{
    let front =
        "https://v.sjtu.edu.cn/jy-application-canvas-sjtu/directOnDemandPlay/downloadVideo?id="@;
    let a = vstd::utf8::encode_utf8(first);
    let b = vstd::utf8::encode_utf8(second);
    assert(official_download(first).skip(front.len() as int) == base64_text(a));
    assert(official_download(second).skip(front.len() as int) == base64_text(b));
    lemma_base64_texts_differ(a, b);
    vstd::utf8::encode_utf8_decode_utf8(first);
    vstd::utf8::encode_utf8_decode_utf8(second);
}

/// The picture of a QR code as it is handed to the user interface: its bytes in Base64.
pub fn qr_code_text(image: &[u8]) -> (r: String)
    ensures
        r@ == base64_text(image@),
{
    base64_encode(image)
}

/// The header that asks for what follows the first `existing` bytes.
pub open spec fn range_from(existing: nat) -> Seq<char> {
    "bytes="@ + text::decimal(existing) + "-"@
}

/// The header that asks for what follows the first `existing` bytes.
pub fn range_header(existing: u64) -> (r: String)
    ensures
        r@ == range_from(existing as nat),
{
    let mut r: String = "bytes=".to_owned();
    text::push_decimal(&mut r, existing);
    r.append("-");
    r
}

} // verus!
