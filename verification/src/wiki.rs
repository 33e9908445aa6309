//! Requests to the MediaWiki API, and what its answers say.

use crate::report::text_of;
use crate::text::{
    chars_of, decimal, decimal_text, is_white_space, trimmed_start, trimming_the_start, white_space,
};
use vstd::prelude::*;

verus! {

/// The query parameters of a request, as text.
pub open spec fn pairs(params: Seq<(&'static str, String)>) -> Seq<(Seq<char>, Seq<char>)> {
    Seq::new(params.len(), |i: int| (params[i].0@, params[i].1@))
}

/// The parameters of a search for the one page that matches a query best.
pub fn search_params(query: &str) -> (out: Vec<(&'static str, String)>)
    ensures
        pairs(out@) == seq![
            ("action"@, "query"@),
            ("list"@, "search"@),
            ("srsearch"@, query@),
            ("srlimit"@, "1"@),
            ("format"@, "json"@),
        ],
{
    let mut out: Vec<(&'static str, String)> = Vec::new();
    out.push(("action", "query".to_owned()));
    out.push(("list", "search".to_owned()));
    out.push(("srsearch", query.to_owned()));
    out.push(("srlimit", "1".to_owned()));
    out.push(("format", "json".to_owned()));
    out
}

/// The parameters of a request for a page's main image, scaled to a width in pixels.
pub fn page_image_params(title: &str, thumb_size: u32) -> (out: Vec<(&'static str, String)>)
    ensures
        pairs(out@) == seq![
            ("action"@, "query"@),
            ("titles"@, title@),
            ("prop"@, "pageimages"@),
            ("piprop"@, "thumbnail"@),
            ("pithumbsize"@, decimal(thumb_size as nat)),
            ("format"@, "json"@),
        ],
{
    let mut out: Vec<(&'static str, String)> = Vec::new();
    out.push(("action", "query".to_owned()));
    out.push(("titles", title.to_owned()));
    out.push(("prop", "pageimages".to_owned()));
    out.push(("piprop", "thumbnail".to_owned()));
    out.push(("pithumbsize", decimal_text(thumb_size)));
    out.push(("format", "json".to_owned()));
    out
}

/// Whether an answer begins like a JSON object, white space aside.
pub open spec fn is_json_object_start(answer: Seq<char>) -> bool {
    trimmed_start(answer).len() > 0 && trimmed_start(answer)[0] == '{'
}

/// Whether an answer begins like a JSON object, white space aside.
pub fn looks_like_json(answer: &str) -> (yes: bool)
    ensures
        yes == is_json_object_start(answer@),
{
    let chars = chars_of(answer);
    let mut from: usize = 0;
    assert(answer@.skip(0) =~= answer@);
    while from < chars.len() && white_space(chars[from])
        invariant
            from <= chars@.len(),
            chars@ == answer@,
            trimmed_start(answer@) == trimmed_start(answer@.skip(from as int)),
        decreases chars@.len() - from,
    {
        assert(answer@.skip(from as int).drop_first() =~= answer@.skip(from + 1));
        from = from + 1;
    }
    from < chars.len() && chars[from] == '{'
}

/// The answer to a search.
#[derive(Debug)]
pub struct SearchResponse {
    pub query: Option<SearchQuery>,
}

/// The results of a search, best first.
#[derive(Debug)]
pub struct SearchQuery {
    pub search: Vec<SearchResult>,
}

/// A page that a search found.
#[derive(Debug)]
pub struct SearchResult {
    pub title: String,
}

impl SearchResponse {
    /// The title of the first page found.
    pub open spec fn first_title(self) -> Option<Seq<char>> {
        match self.query {
            Some(query) => if query.search@.len() > 0 {
                Some(query.search@[0].title@)
            } else {
                None
            },
            None => None,
        }
    }

    /// Takes the title of the first page found.
    pub fn into_title(self) -> (out: Option<String>)
        ensures
            text_of(out) == self.first_title(),
    {
        match self.query {
            Some(query) => if query.search.len() > 0 {
                Some(query.search[0].title.clone())
            } else {
                None
            },
            None => None,
        }
    }
}

/// The title that the answer to a search gives, from its text and from what that text was
/// read as. A text that does not begin like a JSON object gives none, however it was read;
/// else a text that could not be read is an error.
pub fn search_title(text: &str, parsed: Result<SearchResponse, String>) -> (out: Result<
    Option<String>,
    String,
>)
    ensures
        !is_json_object_start(text@) ==> out == Ok::<Option<String>, String>(None),
        is_json_object_start(text@) ==> match parsed {
            Ok(response) => out matches Ok(title) && text_of(title) == response.first_title(),
            Err(e) => out == Err::<Option<String>, String>(e),
        },
{
    if !looks_like_json(text) {
        return Ok(None);
    }
    match parsed {
        Ok(response) => Ok(response.into_title()),
        Err(e) => Err(e),
    }
}

/// The answer to a request for a page's main image.
#[derive(Debug)]
pub struct PageImageResponse {
    pub query: Option<PageImageQuery>,
}

/// The pages that an answer is about, in the order in which they are looked through.
#[derive(Debug)]
pub struct PageImageQuery {
    pub pages: Vec<PageImagePage>,
}

/// A page, with its main image where it has one.
#[derive(Debug)]
pub struct PageImagePage {
    pub thumbnail: Option<Thumbnail>,
}

/// An image scaled to the requested width.
#[derive(Debug)]
pub struct Thumbnail {
    pub source: String,
}

/// The URL of the first image among the pages.
pub open spec fn first_source(pages: Seq<PageImagePage>) -> Option<Seq<char>>
    decreases pages.len(),
{
    if pages.len() == 0 {
        None
    } else {
        match pages.first().thumbnail {
            Some(thumbnail) => Some(thumbnail.source@),
            None => first_source(pages.drop_first()),
        }
    }
}

/// An image is found exactly where some page has one, whatever the order of the pages, and
/// it is the image of one of them.
pub proof fn source_is_of_a_page(pages: Seq<PageImagePage>)
    ensures
        first_source(pages) is Some <==> exists|i: int|
            0 <= i < pages.len() && (#[trigger] pages[i]).thumbnail is Some,
        first_source(pages) matches Some(url) ==> exists|i: int|
            {
                &&& 0 <= i < pages.len()
                &&& (#[trigger] pages[i]).thumbnail matches Some(thumbnail)
                &&& thumbnail.source@ == url
            },
    decreases pages.len(),
{
    if pages.len() > 0 {
        assert(pages[0] == pages.first());
        let rest = pages.drop_first();
        if pages.first().thumbnail is None {
            source_is_of_a_page(rest);
            assert forall|i: int| 0 <= i < rest.len() implies pages[i + 1]
                == #[trigger] rest[i] by {}
            assert forall|i: int|
                0 <= i < pages.len() && (#[trigger] pages[i]).thumbnail is Some implies exists|
                k: int,
            | 0 <= k < rest.len() && (#[trigger] rest[k]).thumbnail is Some by {
                assert(rest[i - 1] == pages[i]);
            }
        }
    }
}

impl PageImageResponse {
    /// The URL of the first image among the answer's pages.
    pub open spec fn first_image(self) -> Option<Seq<char>> {
        match self.query {
            Some(query) => first_source(query.pages@),
            None => None,
        }
    }

    /// Takes the URL of the first image among the answer's pages.
    pub fn into_image(self) -> (out: Option<String>)
        ensures
            text_of(out) == self.first_image(),
    {
        let pages = match self.query {
            Some(query) => query.pages,
            None => return None,
        };
        let mut i: usize = 0;
        assert(pages@.skip(0) =~= pages@);
        while i < pages.len()
            invariant
                i <= pages@.len(),
                self.first_image() == first_source(pages@.skip(i as int)),
            decreases pages@.len() - i,
        {
            let ghost rest = pages@.skip(i as int);
            assert(rest.first() == pages@[i as int]);
            assert(rest.drop_first() =~= pages@.skip(i + 1));
            match &pages[i].thumbnail {
                Some(thumbnail) => return Some(thumbnail.source.clone()),
                None => {},
            }
            i = i + 1;
        }
        None
    }
}

/// An answer begins like a JSON object exactly where an opening brace stands in it with
/// nothing but white space before it.
pub proof fn brace_behind_white_space(answer: Seq<char>)
    ensures
        is_json_object_start(answer) <==> exists|at: int|
            {
                &&& 0 <= at < answer.len()
                &&& (#[trigger] answer[at]) as int == 123
                &&& forall|i: int| 0 <= i < at ==> is_white_space(#[trigger] answer[i])
            },
{
    trimming_the_start(answer);
    let rest = trimmed_start(answer);
    let cut = answer.len() - rest.len();
    if rest.len() > 0 {
        assert(rest[0] == answer[cut]);
    }
    assert(!is_white_space('{'));
    if exists|at: int|
        {
            &&& 0 <= at < answer.len()
            &&& (#[trigger] answer[at]) as int == 123
            &&& forall|i: int| 0 <= i < at ==> is_white_space(#[trigger] answer[i])
        } {
        let at = choose|at: int|
            {
                &&& 0 <= at < answer.len()
                &&& (#[trigger] answer[at]) as int == 123
                &&& forall|i: int| 0 <= i < at ==> is_white_space(#[trigger] answer[i])
            };
        assert(answer[at] == '{');
        if cut < at {
            assert(is_white_space(answer[cut]));
        } else if at < cut {
            assert(is_white_space(answer[at]));
        }
    }
}

/// The title of an answer is that of the first page found, and there is none exactly where
/// no page was found or the answer tells of no search.
pub proof fn title_is_of_the_first_page(response: SearchResponse)
    ensures
        response.query is None ==> response.first_title() is None,
        response.query matches Some(query) ==> {
            &&& query.search@.len() == 0 ==> response.first_title() is None
            &&& query.search@.len() > 0 ==> response.first_title() == Some(
                query.search@[0].title@,
            )
        },
{
}

/// The image of an answer is that of the first page that has one.
pub proof fn image_is_of_the_first_page_with_one(response: PageImageResponse, at: int)
    ensures
        response.query is None ==> response.first_image() is None,
        response.query matches Some(query) ==> {
            &&& (0 <= at < query.pages@.len() && query.pages@[at].thumbnail is Some && forall|
                i: int,
            | 0 <= i < at ==> (#[trigger] query.pages@[i]).thumbnail is None)
                ==> response.first_image() == Some(query.pages@[at].thumbnail->0.source@)
            &&& (forall|i: int|
                0 <= i < query.pages@.len() ==> (#[trigger] query.pages@[i]).thumbnail is None)
                ==> response.first_image() is None
        },
{
    if response.query is Some {
        let pages = response.query->0.pages@;
        source_is_of_a_page(pages);
        if 0 <= at < pages.len() && pages[at].thumbnail is Some && forall|i: int|
            0 <= i < at ==> (#[trigger] pages[i]).thumbnail is None {
            first_source_at(pages, at);
        }
    }
}

proof fn first_source_at(pages: Seq<PageImagePage>, at: int)
    requires
        0 <= at < pages.len(),
        pages[at].thumbnail is Some,
        forall|i: int| 0 <= i < at ==> (#[trigger] pages[i]).thumbnail is None,
    ensures
        first_source(pages) == Some(pages[at].thumbnail->0.source@),
    decreases at,
{
    assert(pages[0] == pages.first());
    if at > 0 {
        let rest = pages.drop_first();
        assert forall|i: int| 0 <= i < at - 1 implies (#[trigger] rest[i]).thumbnail is None by {
            assert(rest[i] == pages[i + 1]);
        }
        first_source_at(rest, at - 1);
    }
}

/// The parameters of a request are shown as they are, in order.
pub proof fn pairs_show_the_parameters(params: Seq<(&'static str, String)>)
    ensures
        pairs(params).len() == params.len(),
        forall|i: int|
            0 <= i < params.len() ==> pairs(params)[i] == ((#[trigger] params[i]).0@, params[i].1@),
{
}

} // verus!
