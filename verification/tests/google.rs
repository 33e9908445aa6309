use photo_scraper::google::{
    blocked_message, blocks_search, google_search_url, image_on_page, pick_result, urlencode,
    SearchError,
};

#[test]
fn queries_are_encoded() {
    assert_eq!(urlencode("Ardie Savea"), "Ardie+Savea");
    assert_eq!(urlencode("a-b_c.d~e"), "a-b_c.d~e");
    assert_eq!(urlencode("a&b=c+d%"), "a%26b%3Dc%2Bd%25");
    assert_eq!(urlencode("é"), "%C3%A9");
    assert_eq!(urlencode("\n/"), "%0A%2F");
    assert_eq!(urlencode(""), "");
}

#[test]
fn different_texts_are_encoded_differently() {
    let texts = ["a b", "a+b", "a%20b", "a%2Bb", "é", "%C3%A9"];
    for (i, a) in texts.iter().enumerate() {
        for b in &texts[i + 1..] {
            assert_ne!(urlencode(a), urlencode(b));
        }
    }
}

#[test]
fn the_search_has_its_address() {
    assert_eq!(
        google_search_url("A Fiji rugby"),
        "https://www.google.com/search?q=A+Fiji+rugby&tbm=isch&safe=active",
    );
}

#[test]
fn blocking_pages_are_recognised() {
    for page in [
        "<p>Our systems have detected unusual traffic from you",
        "href=/sorry/index?q=1",
        "https://consent.google.com/x",
    ] {
        assert!(blocks_search(page));
        assert!(matches!(image_on_page(page), Err(SearchError::Blocked)));
    }
    assert!(!blocks_search("<html>"));
    assert_eq!(blocked_message(), "blocked by Google (CAPTCHA/consent page)");
}

#[test]
fn the_first_result_is_picked() {
    let urls: Vec<String> = [
        "https://www.gstatic.com/a.png",
        "https://google.com/images/b.png",
        "https://x.org/logo.png",
        "https://x.org/favicon.png",
        "https://x.org/c.png",
        "https://x.org/d.png",
    ]
    .iter()
    .map(|s| s.to_string())
    .collect();
    assert_eq!(pick_result(&urls).as_deref(), Some("https://x.org/c.png"));
    assert_eq!(pick_result(&urls[..4].to_vec()), None);
    assert_eq!(pick_result(&Vec::new()), None);
}

#[test]
fn images_are_found_on_a_page() {
    let page = "src=\"https://encrypted.gstatic.com/i.jpg\" [\"http://x.org/p/a.jpeg\",1] \
                \"https://y.org/b.webp\"";
    assert_eq!(image_on_page(page).unwrap().as_deref(), Some("http://x.org/p/a.jpeg"));
    let lazy = "https://x.org/a.jpg.png";
    assert_eq!(image_on_page(lazy).unwrap().as_deref(), Some("https://x.org/a.jpg"));
    assert_eq!(image_on_page("https://x.org/a b.png").unwrap(), None);
    assert_eq!(image_on_page("https://x.org/a.PNG").unwrap(), None);
    assert_eq!(image_on_page("").unwrap(), None);
    assert_eq!(image_on_page("ftp://x.org/a.png").unwrap(), None);
}
