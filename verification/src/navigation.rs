//! Where the login window may go, and what the pages that it shows mean.

use vstd::prelude::*;

use crate::text;

verus! {

/// How many bytes of an address are read at most.
pub const ADDRESS_LIMIT: usize = 0x0100_0000;

/// What is read of the address of a page.
#[derive(Clone, Debug)]
pub struct WebUrl {
    pub host: Option<String>,
    pub path: String,
    pub fragment: Option<String>,
}

/// What a [`WebUrl`] holds.
pub struct WebUrlView {
    pub host: Option<Seq<char>>,
    pub path: Seq<char>,
    pub fragment: Option<Seq<char>>,
}

impl View for WebUrl {
    type V = WebUrlView;

    open spec fn view(&self) -> WebUrlView {
        WebUrlView {
            host: text::option_view(self.host),
            path: self.path@,
            fragment: text::option_view(self.fragment),
        }
    }
}

/// Host, path and fragment of the address that a text stands for, or the text of the error.
pub uninterp spec fn url_of_text(text: Seq<char>) -> Result<WebUrlView, Seq<char>>;

/// `url::Url::parse` with the accessors `host_str`, `path` and `fragment`: the parts of the
/// address that a text stands for, or the text of the error. They are the function `url_of_text`
/// of the text. The parser counts the bytes of an address in 32 bits and can make several bytes of
/// one, by percent-encoding and in the name of the host, hence the limit.
#[verifier::external_body]
pub(crate) fn parse_url(text: &str) -> (r: Result<WebUrl, String>)
    requires
        vstd::utf8::encode_utf8(text@).len() <= ADDRESS_LIMIT,
    ensures
        match r {
            Ok(url) => url_of_text(text@) == Ok::<WebUrlView, Seq<char>>(url@),
            Err(error) => url_of_text(text@) == Err::<WebUrlView, Seq<char>>(error@),
        },
{
    match url::Url::parse(text) {
        Ok(url) => Ok(
            WebUrl {
                host: url.host_str().map(str::to_string),
                path: url.path().to_string(),
                fragment: url.fragment().map(str::to_string),
            },
        ),
        Err(error) => Err(error.to_string()),
    }
}

impl WebUrl {
    /// The address that a text stands for, or the text of the error.
    pub fn parse(text: &str) -> (r: Result<WebUrl, String>)
        requires
            vstd::utf8::encode_utf8(text@).len() <= ADDRESS_LIMIT,
        ensures
            match r {
                Ok(url) => url_of_text(text@) == Ok::<WebUrlView, Seq<char>>(url@),
                Err(error) => url_of_text(text@) == Err::<WebUrlView, Seq<char>>(error@),
            },
    {
        parse_url(text)
    }

    /// Whether the address is on the given host.
    pub fn is_on(&self, host: &str) -> (r: bool)
        ensures
            r == (self@.host == Some(host@)),
    {
        match &self.host {
            Some(own) => text::same_text(own.as_str(), host),
            None => false,
        }
    }
}

/// The addresses that the login window may show.
pub open spec fn is_allowed(url: WebUrlView) -> bool {
    ||| url.host == Some("oc.sjtu.edu.cn"@)
    ||| url.host == Some("jaccount.sjtu.edu.cn"@)
    ||| url.host == Some("v.sjtu.edu.cn"@)
}

/// Whether the login window may show an address.
pub fn allowed_navigation(url: &WebUrl) -> (r: bool)
    ensures
        r == is_allowed(url@),
{
    url.is_on("oc.sjtu.edu.cn") || url.is_on("jaccount.sjtu.edu.cn") || url.is_on("v.sjtu.edu.cn")
}

/// How far a login has come.
#[derive(Clone, Debug)]
pub struct AuthStatus {
    pub phase: &'static str,
    pub message: String,
}

/// What an [`AuthStatus`] holds.
pub struct AuthStatusView {
    pub phase: Seq<char>,
    pub message: Seq<char>,
}

impl View for AuthStatus {
    type V = AuthStatusView;

    open spec fn view(&self) -> AuthStatusView {
        AuthStatusView { phase: self.phase@, message: self.message@ }
    }
}

impl AuthStatus {
    /// The status with the given phase and message.
    pub fn new(phase: &'static str, message: &str) -> (r: AuthStatus)
        ensures
            r@ == (AuthStatusView { phase: phase@, message: message@ }),
    {
        AuthStatus { phase, message: message.to_owned() }
    }
}

/// How far the login has come when the login window shows an address.
pub open spec fn auth_status_of(url: WebUrlView) -> AuthStatusView {
    if url.host == Some("jaccount.sjtu.edu.cn"@) {
        AuthStatusView { phase: "qr-login"@, message: "请使用交我办扫码"@ }
    } else if url.host == Some("oc.sjtu.edu.cn"@) && text::find(url.path, "/login"@) is None {
        AuthStatusView { phase: "authorized"@, message: "Canvas 已连接"@ }
    } else if url.host == Some("oc.sjtu.edu.cn"@) {
        AuthStatusView { phase: "canvas-login"@, message: "正在进入 jAccount"@ }
    } else if url.host == Some("v.sjtu.edu.cn"@) {
        AuthStatusView { phase: "authorized"@, message: "课堂视频已授权"@ }
    } else {
        AuthStatusView { phase: "error"@, message: "登录跳转到了未允许的地址"@ }
    }
}

/// How far the login has come when the login window shows an address.
pub fn classify_auth_url(url: &WebUrl) -> (r: AuthStatus)
    ensures
        r@ == auth_status_of(url@),
{
    if url.is_on("jaccount.sjtu.edu.cn") {
        AuthStatus::new("qr-login", "请使用交我办扫码")
    } else if url.is_on("oc.sjtu.edu.cn") {
        if text::find_text(url.path.as_str(), "/login").is_none() {
            AuthStatus::new("authorized", "Canvas 已连接")
        } else {
            AuthStatus::new("canvas-login", "正在进入 jAccount")
        }
    } else if url.is_on("v.sjtu.edu.cn") {
        AuthStatus::new("authorized", "课堂视频已授权")
    } else {
        AuthStatus::new("error", "登录跳转到了未允许的地址")
    }
}

/// How far the login has come when the login window is hidden and its address is not known.
pub fn hidden_window_status() -> (r: AuthStatus)
    ensures
        r@ == (AuthStatusView {
            phase: "canvas-login"@,
            message: "登录窗口已隐藏，可随时重新打开"@,
        }),
{
    AuthStatus::new("canvas-login", "登录窗口已隐藏，可随时重新打开")
}

/// The names and values of a text in the form `application/x-www-form-urlencoded`, decoded.
pub uninterp spec fn form_pairs(query: Seq<char>) -> Seq<(Seq<char>, Seq<char>)>;

/// `url::form_urlencoded::parse`: the decoded names and values of a query, in order. They are
/// the function `form_pairs` of the query.
#[verifier::external_body]
pub(crate) fn parse_form(query: &str) -> (r: Vec<(String, String)>)
    ensures
        text::pair_views(r@) == form_pairs(query@),
{
    url::form_urlencoded::parse(query.as_bytes()).into_owned().collect()
}

/// The value of the first pair with the given name.
pub open spec fn first_value(pairs: Seq<(Seq<char>, Seq<char>)>, name: Seq<char>) -> Option<
    Seq<char>,
>
    decreases pairs.len(),
{
    if pairs.len() == 0 {
        None
    } else if pairs[0].0 == name {
        Some(pairs[0].1)
    } else {
        first_value(pairs.skip(1), name)
    }
}

/// The value of the first pair with the given name.
pub fn value_named(pairs: &Vec<(String, String)>, name: &str) -> (r: Option<String>)
    ensures
        text::option_view(r) == first_value(text::pair_views(pairs@), name@),
{
    let ghost all = text::pair_views(pairs@);
    let mut i: usize = 0;
    assert(all.skip(0) == all);
    while i < pairs.len()
        invariant
            i <= pairs@.len(),
            all == text::pair_views(pairs@),
            first_value(all, name@) == first_value(all.skip(i as int), name@),
        decreases pairs@.len() - i,
    {
        assert(all.skip(i as int)[0] == all[i as int]);
        if text::same_text(pairs[i].0.as_str(), name) {
            return Some(pairs[i].1.clone());
        }
        assert(all.skip(i as int).skip(1) == all.skip(i + 1));
        i = i + 1;
    }
    None
}

/// The part of the address of the video service that carries the token: what follows the
/// question mark of the fragment.
pub open spec fn token_query(url: WebUrlView) -> Option<Seq<char>> {
    match url.fragment {
        Some(fragment) => if url.host == Some("v.sjtu.edu.cn"@) && text::cut(fragment, '?')
            < fragment.len() {
            Some(text::behind(fragment, '?'))
        } else {
            None
        },
        None => None,
    }
}

/// The token with which the video service is entered, where the address carries one.
pub open spec fn token_of(url: WebUrlView) -> Option<Seq<char>> {
    match token_query(url) {
        Some(query) => first_value(form_pairs(query), "tokenId"@),
        None => None,
    }
}

/// The token with which the video service is entered, where the address carries one.
pub fn token_from_video_url(url: &WebUrl) -> (r: Option<String>)
    ensures
        text::option_view(r) == token_of(url@),
{
    if !url.is_on("v.sjtu.edu.cn") {
        return None;
    }
    if let Some(fragment) = &url.fragment {
        if let Some(query) = text::text_behind(fragment.as_str(), '?') {
            let pairs = parse_form(query.as_str());
            return value_named(&pairs, "tokenId");
        }
    }
    None
}

/// For how long the address of the video service is waited for, in nanoseconds.
pub const TOKEN_WAIT_NANOS: u128 = 35_000_000_000;

/// What is to be done while the login window is on its way to the video service.
#[derive(Clone, Debug)]
pub enum TokenPoll {
    Failed(String),
    Found(String),
    Wait,
}

/// What a [`TokenPoll`] holds.
pub enum TokenPollView {
    Failed(Seq<char>),
    Found(Seq<char>),
    Wait,
}

impl View for TokenPoll {
    type V = TokenPollView;

    open spec fn view(&self) -> TokenPollView {
        match self {
            TokenPoll::Failed(message) => TokenPollView::Failed(message@),
            TokenPoll::Found(token) => TokenPollView::Found(token@),
            TokenPoll::Wait => TokenPollView::Wait,
        }
    }
}

/// What a reading of the window's address holds.
pub open spec fn reading_view(current: Result<WebUrl, String>) -> Result<WebUrlView, Seq<char>> {
    match current {
        Ok(url) => Ok(url@),
        Err(message) => Err(message@),
    }
}

/// What is to be done after `elapsed` nanoseconds: to give up once the time is over, before the
/// address is looked at; to report that the address cannot be read; or to wait until it carries
/// a token.
pub open spec fn poll_result(elapsed: u128, current: Result<WebUrlView, Seq<char>>) -> TokenPollView {
    if elapsed > TOKEN_WAIT_NANOS {
        TokenPollView::Failed("课堂视频授权超时，请重新选择课程"@)
    } else {
        match current {
            Err(message) => TokenPollView::Failed(message),
            Ok(url) => match token_of(url) {
                Some(token) => TokenPollView::Found(token),
                None => TokenPollView::Wait,
            },
        }
    }
}

/// What is to be done after `elapsed` nanoseconds of waiting for the video service, when the
/// login window is at `current`.
pub fn poll_for_token(elapsed: u128, current: Result<WebUrl, String>) -> (r: TokenPoll)
    ensures
        r@ == poll_result(elapsed, reading_view(current)),
{
    if elapsed > TOKEN_WAIT_NANOS {
        TokenPoll::Failed("课堂视频授权超时，请重新选择课程".to_owned())
    } else {
        match current {
            Err(message) => TokenPoll::Failed(message),
            Ok(url) => match token_from_video_url(&url) {
                Some(token) => TokenPoll::Found(token),
                None => TokenPoll::Wait,
            },
        }
    }
}

// ---------------------------------------------------------------------------------------------
// Laws
// ---------------------------------------------------------------------------------------------

/// The phases of a login have different names.
pub(crate) proof fn lemma_phase_names()
    ensures
        "error"@.len() == 5,
        "qr-login"@.len() == 8,
        "authorized"@.len() == 10,
        "canvas-login"@.len() == 12,
{
    reveal_strlit("error");
    reveal_strlit("qr-login");
    reveal_strlit("authorized");
    reveal_strlit("canvas-login");
}

/// The hosts of the services have different names.
proof fn lemma_hosts()
    ensures
        "oc.sjtu.edu.cn"@.len() == 14,
        "jaccount.sjtu.edu.cn"@.len() == 20,
        "v.sjtu.edu.cn"@.len() == 13,
{
    reveal_strlit("oc.sjtu.edu.cn");
    reveal_strlit("jaccount.sjtu.edu.cn");
    reveal_strlit("v.sjtu.edu.cn");
}

/// The login window may show an address exactly where that address is not an error of the login.
pub proof fn law_allowed_means_no_error(url: WebUrlView)
    ensures
        is_allowed(url) <==> auth_status_of(url).phase != "error"@,
{
    lemma_phase_names();
}

/// The four stages of a login (the platform's login page, the scan, the platform itself and the
/// video service) are told apart by what is reported of them.
pub proof fn law_stages_are_told_apart(a: WebUrlView, b: WebUrlView)
    requires
        is_allowed(a),
        is_allowed(b),
        auth_status_of(a) == auth_status_of(b),
    ensures
        a.host == b.host,
        a.host == Some("oc.sjtu.edu.cn"@) ==> (text::find(a.path, "/login"@) is None) == (text::find(
            b.path,
            "/login"@,
        ) is None),
{
    lemma_phase_names();
    reveal_strlit("Canvas 已连接");
    assert("Canvas 已连接"@.len() == 10);
    reveal_strlit("课堂视频已授权");
    assert("课堂视频已授权"@.len() == 7);
    lemma_hosts();
}

/// A token is only taken from the video service, where the login counts as authorized.
pub proof fn law_token_comes_from_the_video_service(url: WebUrlView)
    requires
        token_of(url) is Some,
    ensures
        is_allowed(url),
        auth_status_of(url) == (AuthStatusView {
            phase: "authorized"@,
            message: "课堂视频已授权"@,
        }),
{
    lemma_hosts();
}

/// Once the time is over, no address leads to a token, and before that no address that carries
/// one is passed over.
pub proof fn law_waiting_ends(elapsed: u128, url: WebUrlView)
    ensures
        elapsed > TOKEN_WAIT_NANOS ==> poll_result(elapsed, Ok(url)) is Failed,
        elapsed <= TOKEN_WAIT_NANOS && token_of(url) is Some ==> poll_result(elapsed, Ok(url))
            == TokenPollView::Found(token_of(url)->0),
{
}

} // verus!
