use canvas_pocket::cookies;

fn pairs(list: &[(&str, &str)]) -> Vec<(String, String)> {
    list.iter().map(|(name, value)| (name.to_string(), value.to_string())).collect()
}

fn merged(start: &[(&str, &str)], header: &str) -> Vec<(String, String)> {
    let mut all = pairs(start);
    cookies::merge_cookie_header(&mut all, header);
    all
}

#[test]
fn cookies_are_merged() {
    assert_eq!(merged(&[], "a=1; b=2"), pairs(&[("a", "1"), ("b", "2")]));
    assert_eq!(
        merged(&[("a", "1"), ("b", "2")], "b=3; c=4"),
        pairs(&[("a", "1"), ("b", "3"), ("c", "4")])
    );
}

#[test]
fn parts_that_are_no_cookies_are_skipped() {
    assert_eq!(merged(&[], ""), pairs(&[]));
    assert_eq!(merged(&[], " ; ;plain;=x; = ;a="), pairs(&[("a", "")]));
    assert_eq!(merged(&[], " a = b = c "), pairs(&[("a", "b = c")]));
}

#[test]
fn the_last_value_counts_and_the_first_place_stays() {
    assert_eq!(merged(&[], "a=1; b=2; a=3"), pairs(&[("a", "3"), ("b", "2")]));
}

#[test]
fn merging_twice_is_merging_once() {
    let header = "a=1; b=2; a=3; c";
    let once = merged(&[("b", "0")], header);
    let mut twice = once.clone();
    cookies::merge_cookie_header(&mut twice, header);
    assert_eq!(once, twice);
}

#[test]
fn cookies_are_written_and_read_back() {
    let all = pairs(&[("a", "1"), ("b", "x=y"), ("c", "")]);
    let header = cookies::join_cookies(&all);
    assert_eq!(header, "a=1; b=x=y; c=");
    assert_eq!(merged(&[], &header), all);
    assert_eq!(cookies::join_cookies(&pairs(&[])), "");
}

#[test]
fn the_browser_needs_cookies() {
    assert_eq!(
        cookies::browser_cookie_header(&pairs(&[])),
        Err("没有找到登录 Cookie，请重新扫码".to_string())
    );
    assert_eq!(
        cookies::browser_cookie_header(&pairs(&[("a", "1"), ("b", "2")])),
        Ok("a=1; b=2".to_string())
    );
}

#[test]
fn headers_of_several_addresses_are_joined() {
    let headers = vec![Some("a=1; b=2".to_string()), None, Some("b=3".to_string())];
    assert_eq!(cookies::login_cookie_header(&headers), Ok("a=1; b=3".to_string()));
    assert_eq!(
        cookies::login_cookie_header(&vec![None, Some("x".to_string())]),
        Err("缺少 jAccount Cookie，请刷新二维码".to_string())
    );
}

#[test]
fn cookies_of_the_session_are_sent() {
    let jar = reqwest::cookie::Jar::default();
    let page = "https://jaccount.sjtu.edu.cn/jaccount/jalogin?sid=1";
    assert_eq!(
        cookies::jaccount_cookie_header(&jar, page),
        Err("缺少 jAccount Cookie，请刷新二维码".to_string())
    );
    jar.add_cookie_str("JASessionID=abc; Path=/jaccount", &url::Url::parse(page).unwrap());
    jar.add_cookie_str("other=1", &url::Url::parse("https://example.com/").unwrap());
    jar.add_cookie_str("c=2; Path=/", &url::Url::parse("https://courses.sjtu.edu.cn/").unwrap());
    assert_eq!(
        cookies::jaccount_cookie_header(&jar, page),
        Ok("JASessionID=abc; c=2".to_string())
    );
    assert_eq!(
        cookies::jaccount_cookie_header(&jar, "no address"),
        Ok("JASessionID=abc; c=2".to_string())
    );
}
