//! Image search: the address of a results page, and the image that one offers.

use crate::text::{contains, has_part, part_stands_between, texts};
use vstd::prelude::*;
use vstd::utf8::{encode_utf8, encode_utf8_decode_utf8};

verus! {

/// Whether a byte stands for itself in a query: an ASCII letter or digit, or one of `-_.~`.
pub open spec fn is_unreserved(b: u8) -> bool {
    ||| 0x41 <= b <= 0x5a
    ||| 0x61 <= b <= 0x7a
    ||| 0x30 <= b <= 0x39
    ||| b == 0x2d
    ||| b == 0x5f
    ||| b == 0x2e
    ||| b == 0x7e
}

/// The hexadecimal digit, a capital from ten on, that writes down a number below sixteen.
pub open spec fn hex_digit(n: u8) -> char {
    if n < 10 {
        (0x30 + n) as char
    } else {
        (0x37 + n) as char
    }
}

/// How one byte is written in a query.
pub open spec fn encoded_byte(b: u8) -> Seq<char> {
    if is_unreserved(b) {
        seq![b as char]
    } else if b == 0x20 {
        seq!['+']
    } else {
        seq!['%', hex_digit(b / 16), hex_digit(b % 16)]
    }
}

/// How a run of bytes is written in a query.
pub open spec fn encoded(bytes: Seq<u8>) -> Seq<char>
    decreases bytes.len(),
{
    if bytes.len() == 0 {
        Seq::empty()
    } else {
        encoded(bytes.drop_last()) + encoded_byte(bytes.last())
    }
}

fn hex(n: u8) -> (c: char)
    requires
        n < 16,
    ensures
        c == hex_digit(n),
{
    if n < 10 {
        (0x30 + n) as char
    } else {
        (0x37 + n) as char
    }
}

/// Writes a text for use in a query: byte by byte of its UTF-8 form, spaces as plus signs,
/// and whatever is not unreserved as a percent sign and two hexadecimal digits.
pub fn urlencode(s: &str) -> (out: String)
    ensures
        out@ == encoded(encode_utf8(s@)),
{
    let bytes = s.as_bytes();
    let mut out = String::new();
    let mut i: usize = 0;
    while i < bytes.len()
        invariant
            i <= bytes@.len(),
            out@ == encoded(bytes@.take(i as int)),
        decreases bytes@.len() - i,
    {
        let b: u8 = bytes[i];
        let ghost before = out@;
        if (0x41 <= b && b <= 0x5a) || (0x61 <= b && b <= 0x7a) || (0x30 <= b && b <= 0x39) || b
            == 0x2d || b == 0x5f || b == 0x2e || b == 0x7e {
            out.push(b as char);
        } else if b == 0x20 {
            out.push('+');
        } else {
            out.push('%');
            out.push(hex(b / 16));
            out.push(hex(b % 16));
        }
        assert(out@ =~= before + encoded_byte(b));
        assert(bytes@.take(i + 1).drop_last() =~= bytes@.take(i as int));
        i = i + 1;
    }
    assert(bytes@.take(i as int) =~= bytes@);
    out
}

/// The number below sixteen that a hexadecimal digit writes down.
pub open spec fn hex_value(c: char) -> u8 {
    if c <= '9' {
        (c as u8 - 0x30) as u8
    } else {
        (c as u8 - 0x37) as u8
    }
}

/// The bytes that a query stands for.
pub open spec fn decoded(query: Seq<char>) -> Seq<u8>
    decreases query.len(),
{
    if query.len() == 0 {
        Seq::empty()
    } else if query[0] == '%' && query.len() >= 3 {
        seq![(hex_value(query[1]) * 16 + hex_value(query[2])) as u8] + decoded(query.skip(3))
    } else if query[0] == '+' {
        seq![0x20u8] + decoded(query.skip(1))
    } else {
        seq![query[0] as u8] + decoded(query.skip(1))
    }
}

/// Decoding a query gives back the bytes that it was written for.
pub proof fn encoded_reads_back(bytes: Seq<u8>)
    ensures
        decoded(encoded(bytes)) == bytes,
{
    encoded_then(bytes, Seq::empty());
    assert(encoded(bytes) + Seq::<char>::empty() =~= encoded(bytes));
    assert(bytes + decoded(Seq::<char>::empty()) =~= bytes);
}

proof fn encoded_then(bytes: Seq<u8>, tail: Seq<char>)
    ensures
        decoded(encoded(bytes) + tail) == bytes + decoded(tail),
    decreases bytes.len(),
{
    if bytes.len() == 0 {
        assert(encoded(bytes) + tail =~= tail);
        assert(bytes + decoded(tail) =~= decoded(tail));
    } else {
        let last = bytes.last();
        let code = encoded_byte(last);
        encoded_then(bytes.drop_last(), code + tail);
        assert(encoded(bytes) + tail =~= encoded(bytes.drop_last()) + (code + tail));
        assert((code + tail).skip(code.len() as int) =~= tail);
        assert(decoded(code + tail) =~= seq![last] + decoded(tail));
        assert(bytes.drop_last() + (seq![last] + decoded(tail)) =~= bytes + decoded(tail));
    }
}

/// Different texts are written differently.
pub proof fn urlencode_is_injective(a: Seq<char>, b: Seq<char>)
    requires
        encoded(encode_utf8(a)) == encoded(encode_utf8(b)),
    ensures
        a == b,
{
    encoded_reads_back(encode_utf8(a));
    encoded_reads_back(encode_utf8(b));
    encode_utf8_decode_utf8(a);
    encode_utf8_decode_utf8(b);
}

/// Whether a character may stand in a query: it is unreserved, a plus or a percent sign.
pub open spec fn is_query_char(c: char) -> bool {
    ||| (c as u32) < 128 && is_unreserved(c as u8)
    ||| c == '+'
    ||| c == '%'
}

/// A text written for a query holds no character that could end the query.
pub proof fn encoded_is_query(bytes: Seq<u8>)
    ensures
        forall|i: int|
            0 <= i < encoded(bytes).len() ==> is_query_char(#[trigger] encoded(bytes)[i]),
    decreases bytes.len(),
{
    if bytes.len() > 0 {
        encoded_is_query(bytes.drop_last());
        let head = encoded(bytes.drop_last());
        assert forall|i: int| 0 <= i < encoded(bytes).len() implies is_query_char(
            #[trigger] encoded(bytes)[i],
        ) by {
            if i < head.len() {
                assert(encoded(bytes)[i] == head[i]);
            } else {
                assert(encoded(bytes)[i] == encoded_byte(bytes.last())[i - head.len()]);
            }
        }
    }
}

/// The address of the results page for a query.
pub open spec fn search_url(query: Seq<char>) -> Seq<char> {
    "https://www.google.com/search?q="@ + encoded(encode_utf8(query))
        + "&tbm=isch&safe=active"@
}

/// The address of the image results page for a query.
pub fn google_search_url(query: &str) -> (out: String)
    ensures
        out@ == search_url(query@),
{
    let mut out = "https://www.google.com/search?q=".to_owned();
    out.append(&urlencode(query));
    out.append("&tbm=isch&safe=active");
    out
}

/// Whether a page turns the search away instead of answering it.
pub open spec fn is_blocked(page: Seq<char>) -> bool {
    ||| has_part(page, "Our systems have detected unusual traffic"@)
    ||| has_part(page, "/sorry/index"@)
    ||| has_part(page, "consent.google.com"@)
}

/// Whether a page turns the search away instead of answering it.
pub fn blocks_search(page: &str) -> (yes: bool)
    ensures
        yes == is_blocked(page@),
{
    contains(page, "Our systems have detected unusual traffic") || contains(page, "/sorry/index")
        || contains(page, "consent.google.com")
}

/// Whether an image URL belongs to the results page itself rather than to a result.
pub open spec fn is_furniture(url: Seq<char>) -> bool {
    ||| has_part(url, "gstatic.com"@)
    ||| has_part(url, "google.com/images"@)
    ||| has_part(url, "/logo"@)
    ||| has_part(url, "favicon"@)
}

/// The first of the URLs that belongs to a result.
pub open spec fn first_result(urls: Seq<Seq<char>>) -> Option<Seq<char>>
    decreases urls.len(),
{
    if urls.len() == 0 {
        None
    } else if is_furniture(urls.first()) {
        first_result(urls.drop_first())
    } else {
        Some(urls.first())
    }
}

/// Picks the first of the URLs that belongs to a result.
pub fn pick_result(urls: &Vec<String>) -> (out: Option<String>)
    ensures
        out is Some <==> first_result(texts(urls@)) is Some,
        out matches Some(url) ==> first_result(texts(urls@)) == Some(url@),
{
    let ghost all = texts(urls@);
    let mut i: usize = 0;
    assert(all.skip(0) =~= all);
    while i < urls.len()
        invariant
            i <= urls@.len(),
            all == texts(urls@),
            first_result(all) == first_result(all.skip(i as int)),
        decreases urls@.len() - i,
    {
        let ghost rest = all.skip(i as int);
        assert(rest.first() == urls@[i as int]@);
        let url = &urls[i];
        let furniture: bool = contains(url, "gstatic.com") || contains(url, "google.com/images")
            || contains(url, "/logo") || contains(url, "favicon");
        if !furniture {
            return Some(url.clone());
        }
        assert(rest.drop_first() =~= all.skip(i + 1));
        i = i + 1;
    }
    None
}

/// A picked URL is one of the candidates, belongs to a result, and every candidate before it
/// belongs to the page; where none is picked, all of them do.
pub proof fn first_result_is_first(urls: Seq<Seq<char>>)
    ensures
        match first_result(urls) {
            Some(url) => exists|i: int|
                {
                    &&& 0 <= i < urls.len()
                    &&& #[trigger] urls[i] == url
                    &&& !is_furniture(url)
                    &&& forall|k: int| 0 <= k < i ==> is_furniture(#[trigger] urls[k])
                },
            None => forall|k: int| 0 <= k < urls.len() ==> is_furniture(#[trigger] urls[k]),
        },
    decreases urls.len(),
{
    if urls.len() > 0 {
        let rest = urls.drop_first();
        if is_furniture(urls.first()) {
            first_result_is_first(rest);
            match first_result(urls) {
                Some(url) => {
                    let i = choose|i: int|
                        {
                            &&& 0 <= i < rest.len()
                            &&& #[trigger] rest[i] == url
                            &&& !is_furniture(url)
                            &&& forall|k: int| 0 <= k < i ==> is_furniture(#[trigger] rest[k])
                        };
                    assert(urls[i + 1] == url);
                    assert forall|k: int| 0 <= k < i + 1 implies is_furniture(
                        #[trigger] urls[k],
                    ) by {
                        if k > 0 {
                            assert(rest[k - 1] == urls[k]);
                        }
                    }
                },
                None => {
                    assert forall|k: int| 0 <= k < urls.len() implies is_furniture(
                        #[trigger] urls[k],
                    ) by {
                        if k > 0 {
                            assert(rest[k - 1] == urls[k]);
                        }
                    }
                },
            }
        } else {
            assert(urls[0] == urls.first());
        }
    }
}

/// A pattern that does not compile, as the `regex` crate reports it.
#[verifier::external_type_specification]
#[verifier::external_body]
pub struct RegexErrorSpec(regex::Error);

/// The successive non-overlapping matches of a pattern in a text, as `Regex::find_iter` of
/// the `regex` crate yields them; `None` where the pattern does not compile.
pub uninterp spec fn regex_matches(pattern: Seq<char>, text: Seq<char>) -> Option<Seq<Seq<char>>>;

/// The pattern of an image URL on a results page: a scheme, then as little as possible
/// without quotes or spaces up to a dot and an image extension.
pub open spec fn image_url_pattern() -> Seq<char> {
    "https?://[^\" ]+?\\.(?:jpg|jpeg|png|webp)"@
}

/// Whether a text has the shape of an image URL.
pub open spec fn is_image_url(url: Seq<char>) -> bool {
    &&& "http://"@.is_prefix_of(url) || "https://"@.is_prefix_of(url)
    &&& {
        ||| ".jpg"@.is_suffix_of(url)
        ||| ".jpeg"@.is_suffix_of(url)
        ||| ".png"@.is_suffix_of(url)
        ||| ".webp"@.is_suffix_of(url)
    }
    &&& !url.contains('"')
    &&& !url.contains(' ')
}

/// Compiles a pattern by `regex::Regex::new` and collects what `Regex::find_iter` finds in a
/// text. The matches are a function of the two; each is a part of the text. Where the pattern
/// does not compile, the compiler's error comes back. The image URL pattern compiles, and each
/// of its matches has the shape of an image URL.
#[verifier::external_body]
fn find_all(pattern: &str, text: &str) -> (out: Result<Vec<String>, regex::Error>)
    ensures
        out is Ok <==> regex_matches(pattern@, text@) is Some,
        pattern@ == image_url_pattern() ==> out is Ok,
        out matches Ok(found) ==> {
            &&& Some(texts(found@)) == regex_matches(pattern@, text@)
            &&& forall|i: int| 0 <= i < found@.len() ==> has_part(text@, #[trigger] found@[i]@)
            &&& pattern@ == image_url_pattern() ==> forall|i: int|
                0 <= i < found@.len() ==> is_image_url(#[trigger] found@[i]@)
        },
{
    let regex = regex::Regex::new(pattern)?;
    Ok(regex.find_iter(text).map(|found| found.as_str().to_string()).collect())
}

/// Why an image search gave no answer.
#[derive(Debug)]
pub enum SearchError {
    /// The page turns the search away.
    Blocked,
}

/// What is said of a search that was turned away.
pub fn blocked_message() -> (out: &'static str)
    ensures
        out@ == "blocked by Google (CAPTCHA/consent page)"@,
{
    "blocked by Google (CAPTCHA/consent page)"
}

/// The first image URL on a results page that belongs to a result, unless the page turns the
/// search away.
pub fn image_on_page(page: &str) -> (out: Result<Option<String>, SearchError>)
    ensures
        out is Err <==> is_blocked(page@),
        out is Err <==> has_part(page@, "Our systems have detected unusual traffic"@) || has_part(
            page@,
            "/sorry/index"@,
        ) || has_part(page@, "consent.google.com"@),
        out matches Ok(image) ==> {
            &&& regex_matches(image_url_pattern(), page@) is Some
            &&& image is Some <==> first_result(
                regex_matches(image_url_pattern(), page@)->0,
            ) is Some
            &&& image matches Some(url) ==> {
                &&& first_result(regex_matches(image_url_pattern(), page@)->0) == Some(url@)
                &&& has_part(page@, url@)
                &&& is_image_url(url@)
                &&& !is_furniture(url@)
            }
        },
{
    if blocks_search(page) {
        return Err(SearchError::Blocked);
    }
    let urls = match find_all("https?://[^\" ]+?\\.(?:jpg|jpeg|png|webp)", page) {
        Ok(urls) => urls,
        Err(_) => {
            assert(false);
            Vec::new()
        },
    };
    let image = pick_result(&urls);
    proof {
        first_result_is_first(texts(urls@));
    }
    Ok(image)
}

/// A query is written byte by byte, each on its own.
pub proof fn encoded_byte_by_byte(a: Seq<u8>, b: Seq<u8>)
    ensures
        encoded(a + b) == encoded(a) + encoded(b),
    decreases b.len(),
{
    if b.len() == 0 {
        assert(a + b =~= a);
        assert(encoded(a) + encoded(b) =~= encoded(a));
    } else {
        encoded_byte_by_byte(a, b.drop_last());
        assert((a + b).drop_last() =~= a + b.drop_last());
        assert(encoded(a) + (encoded(b.drop_last()) + encoded_byte(b.last())) =~= encoded(a)
            + encoded(b.drop_last()) + encoded_byte(b.last()));
    }
}

/// How one byte is written, by number: ASCII letters, digits and `-_.~` as themselves, the
/// space as a plus sign, and any other byte as a percent sign and two hexadecimal digits with
/// capitals, the high one first.
pub proof fn encoded_by_number(b: u8)
    ensures
        ({
            let code = encoded(seq![b]);
            let plain = 65 <= b <= 90 || 97 <= b <= 122 || 48 <= b <= 57 || b == 45 || b == 95 || b
                == 46 || b == 126;
            &&& plain ==> code.len() == 1 && code[0] as int == b as int
            &&& b == 32 ==> code.len() == 1 && code[0] as int == 43
            &&& !plain && b != 32 ==> {
                let high = if code[1] as int <= 57 {
                    code[1] as int - 48
                } else {
                    code[1] as int - 55
                };
                let low = if code[2] as int <= 57 {
                    code[2] as int - 48
                } else {
                    code[2] as int - 55
                };
                &&& code.len() == 3
                &&& code[0] as int == 37
                &&& 48 <= code[1] as int <= 57 || 65 <= code[1] as int <= 70
                &&& 48 <= code[2] as int <= 57 || 65 <= code[2] as int <= 70
                &&& high * 16 + low == b
            }
        }),
        encoded(Seq::<u8>::empty()).len() == 0,
{
    let one = seq![b];
    assert(one.drop_last() =~= Seq::empty());
    assert(encoded(one.drop_last()) =~= Seq::<char>::empty());
    assert(encoded(one) =~= encoded_byte(b));
}

/// The search address is made of the query's encoding and two fixed parts: an image search
/// with safe results.
pub proof fn search_url_is_fixed_around_query(query: Seq<char>)
    ensures
        search_url(query) == "https://www.google.com/search?q="@ + encoded(encode_utf8(query))
            + "&tbm=isch&safe=active"@,
{
}

/// A page turns the search away exactly where it holds one of three texts: the notice of
/// unusual traffic, the address of the block page, or that of the consent page. A page that
/// holds none of them is an answer.
pub proof fn blocked_by_three_texts(page: Seq<char>)
    ensures
        is_blocked(page) <==> {
            ||| has_part(page, "Our systems have detected unusual traffic"@)
            ||| has_part(page, "/sorry/index"@)
            ||| has_part(page, "consent.google.com"@)
        },
        (forall|before: Seq<char>, after: Seq<char>|
            {
                &&& #[trigger] (before + "Our systems have detected unusual traffic"@ + after)
                    != page
                &&& before + "/sorry/index"@ + after != page
                &&& before + "consent.google.com"@ + after != page
            }) ==> !is_blocked(page),
{
    part_stands_between(page, "Our systems have detected unusual traffic"@);
    part_stands_between(page, "/sorry/index"@);
    part_stands_between(page, "consent.google.com"@);
    if forall|before: Seq<char>, after: Seq<char>|
        {
            &&& #[trigger] (before + "Our systems have detected unusual traffic"@ + after) != page
            &&& before + "/sorry/index"@ + after != page
            &&& before + "consent.google.com"@ + after != page
        } {
        if is_blocked(page) {
            if has_part(page, "/sorry/index"@) {
                let (before, after) = choose|before: Seq<char>, after: Seq<char>|
                    #[trigger] (before + "/sorry/index"@ + after) == page;
                let other = before + "Our systems have detected unusual traffic"@ + after;
                assert(other != page);
            } else if has_part(page, "consent.google.com"@) {
                let (before, after) = choose|before: Seq<char>, after: Seq<char>|
                    #[trigger] (before + "consent.google.com"@ + after) == page;
                let other = before + "Our systems have detected unusual traffic"@ + after;
                assert(other != page);
            }
        }
    }
}

/// An image belongs to the page itself exactly where its URL holds one of four texts.
pub proof fn furniture_by_four_texts(url: Seq<char>)
    ensures
        is_furniture(url) <==> {
            ||| has_part(url, "gstatic.com"@)
            ||| has_part(url, "google.com/images"@)
            ||| has_part(url, "/logo"@)
            ||| has_part(url, "favicon"@)
        },
{
}

/// The image picked from a page: candidates of the page itself are passed over, and the first
/// other one is taken, whatever follows it.
pub proof fn candidates_are_passed_over_in_turn(url: Seq<char>, more: Seq<Seq<char>>)
    ensures
        first_result(Seq::<Seq<char>>::empty()) is None,
        has_part(url, "gstatic.com"@) || has_part(url, "google.com/images"@) || has_part(
            url,
            "/logo"@,
        ) || has_part(url, "favicon"@) ==> first_result(seq![url] + more) == first_result(more),
        !has_part(url, "gstatic.com"@) && !has_part(url, "google.com/images"@) && !has_part(
            url,
            "/logo"@,
        ) && !has_part(url, "favicon"@) ==> first_result(seq![url] + more) == Some(url),
{
    let urls = seq![url] + more;
    assert(urls.first() == url);
    assert(urls.drop_first() =~= more);
}

/// The pattern by which image URLs are found takes either scheme and any of the four image
/// extensions, and stops at quotes and spaces.
pub proof fn pattern_is_fixed()
    ensures
        image_url_pattern() == "https?://[^\" ]+?\\.(?:jpg|jpeg|png|webp)"@,
{
}

} // verus!
