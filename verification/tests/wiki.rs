use photo_scraper::wiki::{
    looks_like_json, page_image_params, search_params, search_title, PageImagePage, PageImageQuery,
    PageImageResponse, SearchQuery, SearchResponse, SearchResult, Thumbnail,
};

fn page(source: Option<&str>) -> PageImagePage {
    PageImagePage { thumbnail: source.map(|s| Thumbnail { source: s.to_string() }) }
}

#[test]
fn searches_ask_for_one_page() {
    let params = search_params("A rugby union player");
    let expected = [
        ("action", "query"),
        ("list", "search"),
        ("srsearch", "A rugby union player"),
        ("srlimit", "1"),
        ("format", "json"),
    ];
    assert_eq!(params.len(), expected.len());
    for (got, want) in params.iter().zip(expected) {
        assert_eq!((got.0, got.1.as_str()), want);
    }
}

#[test]
fn image_requests_name_the_page_and_the_width() {
    let params = page_image_params("Ardie Savea", 400);
    let expected = [
        ("action", "query"),
        ("titles", "Ardie Savea"),
        ("prop", "pageimages"),
        ("piprop", "thumbnail"),
        ("pithumbsize", "400"),
        ("format", "json"),
    ];
    assert_eq!(params.len(), expected.len());
    for (got, want) in params.iter().zip(expected) {
        assert_eq!((got.0, got.1.as_str()), want);
    }
}

#[test]
fn answers_begin_like_objects() {
    assert!(looks_like_json("{}"));
    assert!(looks_like_json(" \n\t{\"a\":1}"));
    assert!(!looks_like_json("<html>"));
    assert!(!looks_like_json("[{}]"));
    assert!(!looks_like_json("  "));
    assert!(!looks_like_json(""));
}

#[test]
fn the_first_title_is_taken() {
    let hits = |titles: &[&str]| SearchResponse {
        query: Some(SearchQuery {
            search: titles.iter().map(|t| SearchResult { title: t.to_string() }).collect(),
        }),
    };
    assert_eq!(hits(&["A", "B"]).into_title().as_deref(), Some("A"));
    assert_eq!(hits(&[]).into_title(), None);
    assert_eq!(SearchResponse { query: None }.into_title(), None);
}

#[test]
fn the_first_image_is_taken() {
    let answer = |pages: Vec<PageImagePage>| PageImageResponse {
        query: Some(PageImageQuery { pages }),
    };
    let found = answer(vec![page(None), page(Some("u")), page(Some("v"))]).into_image();
    assert_eq!(found.as_deref(), Some("u"));
    assert_eq!(answer(vec![page(None)]).into_image(), None);
    assert_eq!(answer(Vec::new()).into_image(), None);
    assert_eq!(PageImageResponse { query: None }.into_image(), None);
}

#[test]
fn an_answer_gives_a_title_or_an_error() {
    let hit = || SearchResponse {
        query: Some(SearchQuery { search: vec![SearchResult { title: "A".to_string() }] }),
    };
    assert_eq!(search_title("{}", Ok(hit())), Ok(Some("A".to_string())));
    assert_eq!(search_title("{", Err("bad".to_string())), Err("bad".to_string()));
    assert_eq!(search_title("<html>", Err("bad".to_string())), Ok(None));
    assert_eq!(search_title("<html>", Ok(hit())), Ok(None));
    assert_eq!(search_title(" {}", Ok(SearchResponse { query: None })), Ok(None));
}
