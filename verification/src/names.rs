//! File names for the photos.

use crate::report::text_of;
use crate::text::{
    chars_of, ends_with, is_white_space, replaced, same_text, trim_bounds, trimmed, trimmed_end,
    trimmed_start, trimming_leaves_the_middle,
};
use vstd::prelude::*;
use vstd::utf8::is_ascii_chars;

verus! {

/// Whether a character is kept in a file name: an ASCII letter or digit, a hyphen, an
/// underscore or a space.
pub open spec fn is_kept(c: char) -> bool {
    ||| 'a' <= c && c <= 'z'
    ||| 'A' <= c && c <= 'Z'
    ||| '0' <= c && c <= '9'
    ||| c == '-'
    ||| c == '_'
    ||| c == ' '
}

fn kept(c: char) -> (yes: bool)
    ensures
        yes == is_kept(c),
{
    ('a' <= c && c <= 'z') || ('A' <= c && c <= 'Z') || ('0' <= c && c <= '9') || c == '-' || c
        == '_' || c == ' '
}

/// The text with an underscore for every character that is not kept.
pub open spec fn masked(s: Seq<char>) -> Seq<char> {
    Seq::new(
        s.len(),
        |i: int|
            if is_kept(s[i]) {
                s[i]
            } else {
                '_'
            },
    )
}

/// The file name that stands for a text: masked, trimmed, and with underscores for spaces.
pub open spec fn safe_name(s: Seq<char>) -> Seq<char> {
    replaced(trimmed(masked(s)), ' ', '_')
}

/// Make a string safe to use as a filename / directory component.
pub fn sanitize_filename(s: &str) -> (out: String)
    ensures
        out@ == safe_name(s@),
{
    let chars = chars_of(s);
    let mut mask: Vec<char> = Vec::new();
    let mut i: usize = 0;
    while i < chars.len()
        invariant
            i <= chars@.len(),
            mask@ == masked(chars@).take(i as int),
        decreases chars@.len() - i,
    {
        let c = chars[i];
        mask.push(
            if kept(c) {
                c
            } else {
                '_'
            },
        );
        i = i + 1;
        assert(mask@ =~= masked(chars@).take(i as int));
    }
    assert(mask@ =~= masked(s@));
    let bounds: (usize, usize) = trim_bounds(&mask, 0, mask.len());
    assert(mask@.subrange(0, mask@.len() as int) =~= mask@);
    let ghost core = mask@.subrange(bounds.0 as int, bounds.1 as int);
    let mut out = String::new();
    let mut j: usize = bounds.0;
    while j < bounds.1
        invariant
            bounds.0 <= j <= bounds.1 <= mask@.len(),
            core == mask@.subrange(bounds.0 as int, bounds.1 as int),
            out@ == replaced(core, ' ', '_').take(j - bounds.0),
        decreases bounds.1 - j,
    {
        let c = mask[j];
        assert(c == core[j - bounds.0]);
        out.push(
            if c == ' ' {
                '_'
            } else {
                c
            },
        );
        j = j + 1;
        assert(out@ =~= replaced(core, ' ', '_').take(j - bounds.0));
    }
    assert(out@ =~= replaced(core, ' ', '_'));
    out
}

/// A file name holds nothing but ASCII letters and digits, hyphens and underscores: no path
/// separator, no dot, no space.
pub proof fn safe_name_is_safe(s: Seq<char>)
    ensures
        safe_name(s).len() <= s.len(),
        forall|i: int|
            0 <= i < safe_name(s).len() ==> {
                &&& is_kept(#[trigger] safe_name(s)[i])
                &&& safe_name(s)[i] != ' '
            },
{
    trimmed_is_part(masked(s));
}

/// What is left of a text once it is trimmed is a run of its characters.
proof fn trimmed_is_part(s: Seq<char>)
    ensures
        exists|from: int, to: int|
            0 <= from <= to <= s.len() && trimmed(s) == #[trigger] s.subrange(from, to),
{
    let head = trimmed_start(s);
    trimmed_start_is_part(s);
    let from = choose|from: int|
        0 <= from <= s.len() && head == #[trigger] s.subrange(from, s.len() as int);
    trimmed_end_is_part(head);
    let to = choose|to: int|
        0 <= to <= head.len() && trimmed_end(head) == #[trigger] head.subrange(0, to);
    assert(head.subrange(0, to) =~= s.subrange(from, from + to));
}

proof fn trimmed_start_is_part(s: Seq<char>)
    ensures
        exists|from: int|
            0 <= from <= s.len() && trimmed_start(s) == #[trigger] s.subrange(from, s.len() as int),
    decreases s.len(),
{
    if s.len() > 0 && is_white_space(s.first()) {
        let rest = s.drop_first();
        trimmed_start_is_part(rest);
        let from = choose|from: int|
            0 <= from <= rest.len() && trimmed_start(rest) == #[trigger] rest.subrange(
                from,
                rest.len() as int,
            );
        assert(rest.subrange(from, rest.len() as int) =~= s.subrange(from + 1, s.len() as int));
    } else {
        assert(s.subrange(0, s.len() as int) =~= s);
    }
}

proof fn trimmed_end_is_part(s: Seq<char>)
    ensures
        exists|to: int| 0 <= to <= s.len() && trimmed_end(s) == #[trigger] s.subrange(0, to),
    decreases s.len(),
{
    if s.len() > 0 && is_white_space(s.last()) {
        let rest = s.drop_last();
        trimmed_end_is_part(rest);
        let to = choose|to: int|
            0 <= to <= rest.len() && trimmed_end(rest) == #[trigger] rest.subrange(0, to);
        assert(rest.subrange(0, to) =~= s.subrange(0, to));
    } else {
        assert(s.subrange(0, s.len() as int) =~= s);
    }
}

/// Sanitizing a file name a second time changes nothing.
pub proof fn safe_name_is_stable(s: Seq<char>)
    ensures
        safe_name(safe_name(s)) == safe_name(s),
{
    let name = safe_name(s);
    safe_name_is_safe(s);
    assert(masked(name) =~= name);
    assert(trimmed(name) == name);
    assert(replaced(name, ' ', '_') =~= name);
}

/// `str::to_lowercase` applied to a text.
pub uninterp spec fn lowercase(s: Seq<char>) -> Seq<char>;

/// The text with the ASCII capital letters replaced by small ones.
pub open spec fn ascii_lowercase(s: Seq<char>) -> Seq<char> {
    Seq::new(
        s.len(),
        |i: int|
            if 'A' <= s[i] && s[i] <= 'Z' {
                (s[i] as u32 + 32) as char
            } else {
                s[i]
            },
    )
}

/// Calls `str::to_lowercase`. Of a text that is all ASCII, it is also said what comes out:
/// the letters `A` to `Z` become `a` to `z`, and the rest stays.
#[verifier::external_body]
fn lowercase_text(s: &str) -> (out: String)
    ensures
        out@ == lowercase(s@),
        is_ascii_chars(s@) ==> out@ == ascii_lowercase(s@),
{
    s.to_lowercase()
}

/// The extension under which an image is saved, by the end of its URL in small letters.
pub open spec fn extension(lower: Seq<char>) -> Seq<char> {
    if ".png"@.is_suffix_of(lower) {
        "png"@
    } else if ".webp"@.is_suffix_of(lower) {
        "webp"@
    } else if ".gif"@.is_suffix_of(lower) {
        "gif"@
    } else {
        "jpg"@
    }
}

/// The extension under which to save the image behind a URL written in small letters.
pub fn extension_of_lowercase(lower: &str) -> (ext: &'static str)
    ensures
        ext@ == extension(lower@),
{
    if ends_with(lower, ".png") {
        "png"
    } else if ends_with(lower, ".webp") {
        "webp"
    } else if ends_with(lower, ".gif") {
        "gif"
    } else {
        "jpg"
    }
}

/// The extension under which to save the image behind a URL, whatever its letters' case.
pub fn guess_extension(url: &str) -> (ext: &'static str)
    ensures
        ext@ == extension(lowercase(url@)),
        is_ascii_chars(url@) ==> ext@ == extension(ascii_lowercase(url@)),
{
    let lower = lowercase_text(url);
    extension_of_lowercase(&lower)
}

/// A photo's place below the output directory.
#[derive(Debug)]
pub struct PhotoFile {
    pub dir: String,
    pub file: String,
}

/// The name of a player's photo with the given extension.
pub open spec fn photo_name(player: Seq<char>, ext: Seq<char>) -> Seq<char> {
    safe_name(player) + "."@ + ext
}

/// The name of a player's photo with the given extension.
pub fn photo_file_name(player: &str, ext: &str) -> (out: String)
    ensures
        out@ == photo_name(player@, ext@),
{
    let mut out = sanitize_filename(player);
    out.append(".");
    out.append(ext);
    out
}

/// Where a player's photo with the given extension is kept.
pub fn photo_file(team: &str, player: &str, ext: &str) -> (out: PhotoFile)
    ensures
        out.dir@ == safe_name(team@),
        out.file@ == photo_name(player@, ext@),
{
    PhotoFile { dir: sanitize_filename(team), file: photo_file_name(player, ext) }
}

/// The extensions under which a photo can be saved.
pub open spec fn saved_extensions() -> Seq<Seq<char>> {
    seq!["jpg"@, "png"@, "webp"@, "gif"@]
}

/// Tells the extensions other than the given one.
pub open spec fn other_than(first: Seq<char>) -> spec_fn(Seq<char>) -> bool {
    |ext: Seq<char>| ext != first
}

/// The extensions under which to look for a photo, the likeliest first.
pub open spec fn extensions_to_try(first: Seq<char>) -> Seq<Seq<char>> {
    seq![first] + saved_extensions().filter(other_than(first))
}

/// Wherever a photo was saved, by whatever URL, its extension is among those to look under.
pub proof fn saved_extension_is_tried(lower: Seq<char>, first: Seq<char>)
    ensures
        extensions_to_try(first).contains(extension(lower)),
{
    let wanted = extension(lower);
    let all = saved_extensions();
    let other = other_than(first);
    let tried = extensions_to_try(first);
    if wanted == first {
        assert(tried[0] == wanted);
    } else {
        let i = if wanted == all[0] {
            0int
        } else if wanted == all[1] {
            1
        } else if wanted == all[2] {
            2
        } else {
            3
        };
        assert(all[i] == wanted);
        all.lemma_filter_contains(other, i);
        let at = choose|at: int|
            0 <= at < all.filter(other).len() && all.filter(other)[at] == wanted;
        assert(tried[at + 1] == wanted);
    }
}

/// Where a player's photo may be kept, one place for each extension to look under.
pub fn photo_candidates(team: &str, player: &str, first: &str) -> (out: Vec<PhotoFile>)
    ensures
        out@.len() == extensions_to_try(first@).len(),
        forall|i: int|
            0 <= i < out@.len() ==> {
                &&& (#[trigger] out@[i]).dir@ == safe_name(team@)
                &&& out@[i].file@ == photo_name(player@, extensions_to_try(first@)[i])
            },
{
    let mut known: Vec<&str> = Vec::new();
    known.push("jpg");
    known.push("png");
    known.push("webp");
    known.push("gif");
    let ghost other = other_than(first@);
    let ghost mut tried = seq![first@];
    let mut out: Vec<PhotoFile> = Vec::new();
    out.push(photo_file(team, player, first));
    let mut i: usize = 0;
    proof {
        reveal(Seq::filter);
        assert(tried =~= seq![first@] + saved_extensions().take(0).filter(other));
    }
    while i < known.len()
        invariant
            i <= known@.len() == 4,
            forall|k: int| 0 <= k < 4 ==> (#[trigger] known@[k])@ == saved_extensions()[k],
            other == other_than(first@),
            tried == seq![first@] + saved_extensions().take(i as int).filter(other),
            out@.len() == tried.len(),
            forall|k: int|
                0 <= k < out@.len() ==> {
                    &&& (#[trigger] out@[k]).dir@ == safe_name(team@)
                    &&& out@[k].file@ == photo_name(player@, tried[k])
                },
        decreases known@.len() - i,
    {
        let ext = known[i];
        proof {
            reveal(Seq::filter);
            assert(saved_extensions().take(i + 1).drop_last() =~= saved_extensions().take(
                i as int,
            ));
        }
        if !same_text(ext, first) {
            out.push(photo_file(team, player, ext));
            proof {
                tried = tried.push(ext@);
            }
        }
        i = i + 1;
        assert(tried =~= seq![first@] + saved_extensions().take(i as int).filter(other));
    }
    assert(saved_extensions().take(4) =~= saved_extensions());
    out
}

/// The paths of a list, as text.
pub open spec fn path_texts(paths: Seq<Option<String>>) -> Seq<Option<Seq<char>>> {
    Seq::new(paths.len(), |i: int| text_of(paths[i]))
}

/// The first path that is there.
pub open spec fn first_path(paths: Seq<Option<Seq<char>>>) -> Option<Seq<char>>
    decreases paths.len(),
{
    if paths.len() == 0 {
        None
    } else if paths.first() is Some {
        paths.first()
    } else {
        first_path(paths.drop_first())
    }
}

/// A path is found exactly where one of the paths is there, and it is one of them.
pub proof fn first_path_is_of_the_paths(paths: Seq<Option<Seq<char>>>)
    ensures
        first_path(paths) is Some <==> exists|i: int|
            0 <= i < paths.len() && (#[trigger] paths[i]) is Some,
        first_path(paths) is Some ==> paths.contains(first_path(paths)),
    decreases paths.len(),
{
    if paths.len() > 0 {
        assert(paths[0] == paths.first());
        let rest = paths.drop_first();
        if paths.first() is None {
            first_path_is_of_the_paths(rest);
            assert forall|i: int| 0 <= i < rest.len() implies paths[i + 1]
                == #[trigger] rest[i] by {}
            assert forall|i: int|
                0 <= i < paths.len() && (#[trigger] paths[i]) is Some implies exists|
                k: int,
            | 0 <= k < rest.len() && (#[trigger] rest[k]) is Some by {
                assert(rest[i - 1] == paths[i]);
            }
            if first_path(rest) is Some {
                let k = choose|k: int| 0 <= k < rest.len() && rest[k] == first_path(rest);
                assert(paths[k + 1] == first_path(paths));
            }
        }
    }
}

/// Takes the first path that is there.
pub fn first_of(paths: Vec<Option<String>>) -> (out: Option<String>)
    ensures
        text_of(out) == first_path(path_texts(paths@)),
{
    let ghost all = path_texts(paths@);
    let mut i: usize = 0;
    assert(all.skip(0) =~= all);
    while i < paths.len()
        invariant
            i <= paths@.len(),
            all == path_texts(paths@),
            first_path(all) == first_path(all.skip(i as int)),
        decreases paths@.len() - i,
    {
        let ghost rest = all.skip(i as int);
        assert(rest.first() == text_of(paths@[i as int]));
        assert(rest.drop_first() =~= all.skip(i + 1));
        match &paths[i] {
            Some(path) => return Some(path.clone()),
            None => {},
        }
        i = i + 1;
    }
    None
}

/// A safe name, character by character. The spaces at either end of a text are left out; of
/// what stands between, ASCII letters and digits, hyphens and underscores stay as they are,
/// and every other character, spaces among them, becomes an underscore.
pub proof fn safe_name_by_character(s: Seq<char>)
    ensures
        exists|from: int, to: int|
            {
                &&& 0 <= from <= to <= s.len()
                &&& #[trigger] s.subrange(from, to).len() == safe_name(s).len()
                &&& forall|i: int| 0 <= i < from ==> (#[trigger] s[i]) as int == 32
                &&& forall|i: int| to <= i < s.len() ==> (#[trigger] s[i]) as int == 32
                &&& from < to ==> s[from] as int != 32 && s[to - 1] as int != 32
                &&& forall|i: int|
                    0 <= i < to - from ==> {
                        let c = s[from + i] as int;
                        let stays = 97 <= c <= 122 || 65 <= c <= 90 || 48 <= c <= 57 || c == 45 || c
                            == 95;
                        (#[trigger] safe_name(s)[i]) as int == if stays {
                            c
                        } else {
                            95
                        }
                    }
            },
{
    let mask = masked(s);
    trimming_leaves_the_middle(mask);
    let (from, to) = choose|from: int, to: int|
        {
            &&& 0 <= from <= to <= mask.len()
            &&& trimmed(mask) == #[trigger] mask.subrange(from, to)
            &&& forall|i: int| 0 <= i < from ==> is_white_space(#[trigger] mask[i])
            &&& forall|i: int| to <= i < mask.len() ==> is_white_space(#[trigger] mask[i])
        };
    assert(s.subrange(from, to).len() == safe_name(s).len());
    assert forall|i: int| 0 <= i < from implies (#[trigger] s[i]) as int == 32 by {
        assert(is_white_space(mask[i]));
    }
    assert forall|i: int| to <= i < s.len() implies (#[trigger] s[i]) as int == 32 by {
        assert(is_white_space(mask[i]));
    }
    if from < to {
        assert(trimmed(mask)[0] == mask[from]);
        assert(trimmed(mask).last() == mask[to - 1]);
    }
    assert forall|i: int| 0 <= i < to - from implies {
        let c = s[from + i] as int;
        let stays = 97 <= c <= 122 || 65 <= c <= 90 || 48 <= c <= 57 || c == 45 || c == 95;
        (#[trigger] safe_name(s)[i]) as int == if stays {
            c
        } else {
            95
        }
    } by {
        assert(trimmed(mask)[i] == mask[from + i]);
    }
}

/// The extension of a photo goes by the end of its URL in small letters, and by nothing else:
/// `png`, `webp` and `gif` come exactly where the URL ends with a dot and that extension, and
/// `jpg` everywhere else.
pub proof fn extension_goes_by_the_end(lower: Seq<char>)
    ensures
        ".png"@.is_suffix_of(lower) <==> extension(lower) == "png"@,
        ".webp"@.is_suffix_of(lower) <==> extension(lower) == "webp"@,
        ".gif"@.is_suffix_of(lower) <==> extension(lower) == "gif"@,
        !".png"@.is_suffix_of(lower) && !".webp"@.is_suffix_of(lower) && !".gif"@.is_suffix_of(
            lower,
        ) <==> extension(lower) == "jpg"@,
        ".jpg"@.is_suffix_of(lower) ==> extension(lower) == "jpg"@,
        ".jpeg"@.is_suffix_of(lower) ==> extension(lower) == "jpg"@,
{
    extensions_differ();
    reveal_strlit(".png");
    reveal_strlit(".webp");
    reveal_strlit(".gif");
    reveal_strlit(".jpg");
    reveal_strlit(".jpeg");
    let n = lower.len() as int;
    if ".png"@.is_suffix_of(lower) {
        assert(".png"@[3] == lower.subrange(n - 4, n)[3]);
    }
    if ".webp"@.is_suffix_of(lower) {
        assert(".webp"@[4] == lower.subrange(n - 5, n)[4]);
        assert(".webp"@[3] == lower.subrange(n - 5, n)[3]);
    }
    if ".gif"@.is_suffix_of(lower) {
        assert(".gif"@[3] == lower.subrange(n - 4, n)[3]);
    }
    if ".jpg"@.is_suffix_of(lower) {
        assert(".jpg"@[3] == lower.subrange(n - 4, n)[3]);
        assert(".jpg"@[2] == lower.subrange(n - 4, n)[2]);
        if ".png"@.is_suffix_of(lower) {
            assert(".png"@[2] == lower.subrange(n - 4, n)[2]);
        }
    }
    if ".jpeg"@.is_suffix_of(lower) {
        assert(".jpeg"@[4] == lower.subrange(n - 5, n)[4]);
        assert(".jpeg"@[3] == lower.subrange(n - 5, n)[3]);
        if ".png"@.is_suffix_of(lower) {
            assert(".png"@[2] == lower.subrange(n - 4, n)[2]);
            assert(lower.subrange(n - 4, n)[2] == lower.subrange(n - 5, n)[3]);
        }
    }
}

proof fn extensions_differ()
    ensures
        "png"@ != "webp"@ && "png"@ != "gif"@ && "png"@ != "jpg"@,
        "webp"@ != "gif"@ && "webp"@ != "jpg"@ && "gif"@ != "jpg"@,
{
    reveal_strlit("png");
    reveal_strlit("webp");
    reveal_strlit("gif");
    reveal_strlit("jpg");
    assert("png"@[0] == 'p');
    assert("webp"@[0] == 'w');
    assert("gif"@[0] == 'g');
    assert("jpg"@[0] == 'j');
}

/// Small letters in ASCII, by number: the letters from `A` to `Z` move by thirty-two, and all
/// else stays.
pub proof fn ascii_lowercase_by_number(s: Seq<char>, i: int)
    requires
        0 <= i < s.len(),
    ensures
        ascii_lowercase(s).len() == s.len(),
        65 <= s[i] as int <= 90 ==> ascii_lowercase(s)[i] as int == s[i] as int + 32,
        !(65 <= s[i] as int <= 90) ==> ascii_lowercase(s)[i] == s[i],
{
}

/// A photo's name is the player's safe name, a dot and the extension.
pub proof fn photo_name_has_three_parts(player: Seq<char>, ext: Seq<char>)
    ensures
        photo_name(player, ext) == safe_name(player) + seq!['.'] + ext,
{
    reveal_strlit(".");
    assert("."@ =~= seq!['.']);
}

/// A photo is looked for under the likeliest extension first, then under each of `jpg`, `png`,
/// `webp` and `gif`, under none of them twice, and under no other.
pub proof fn extensions_are_tried_once(first: Seq<char>)
    ensures
        extensions_to_try(first)[0] == first,
        extensions_to_try(first).no_duplicates(),
        extensions_to_try(first).contains("jpg"@),
        extensions_to_try(first).contains("png"@),
        extensions_to_try(first).contains("webp"@),
        extensions_to_try(first).contains("gif"@),
        forall|ext: Seq<char>| #[trigger]
            extensions_to_try(first).contains(ext) ==> ext == first || ext == "jpg"@ || ext
                == "png"@ || ext == "webp"@ || ext == "gif"@,
{
    let all = saved_extensions();
    let other = other_than(first);
    let tried = extensions_to_try(first);
    let kept = all.filter(other);
    extensions_differ();
    reveal_with_fuel(Seq::filter, 6);
    assert(all.drop_last() =~= seq!["jpg"@, "png"@, "webp"@]);
    assert(all.drop_last().drop_last() =~= seq!["jpg"@, "png"@]);
    assert(all.drop_last().drop_last().drop_last() =~= seq!["jpg"@]);
    assert(all.drop_last().drop_last().drop_last().drop_last() =~= Seq::empty());
    assert(tried =~= seq![first] + kept);
    assert forall|at: int| 0 <= at < 4 implies tried.contains(#[trigger] all[at]) by {
        if all[at] == first {
            assert(tried[0] == all[at]);
        } else {
            all.lemma_filter_contains(other, at);
            let k = choose|k: int| 0 <= k < kept.len() && kept[k] == all[at];
            assert(tried[k + 1] == all[at]);
        }
    }
    assert(tried.contains(all[0]) && tried.contains(all[1]) && tried.contains(all[2])
        && tried.contains(all[3]));
}

/// The path taken is the first that is there.
pub proof fn earlier_paths_are_missing(paths: Seq<Option<Seq<char>>>, at: int)
    requires
        0 <= at < paths.len(),
        paths[at] is Some,
        forall|i: int| 0 <= i < at ==> (#[trigger] paths[i]) is None,
    ensures
        first_path(paths) == paths[at],
    decreases at,
{
    assert(paths[0] == paths.first());
    if at > 0 {
        let rest = paths.drop_first();
        assert forall|i: int| 0 <= i < at - 1 implies (#[trigger] rest[i]) is None by {
            assert(rest[i] == paths[i + 1]);
        }
        earlier_paths_are_missing(rest, at - 1);
    }
}

/// The paths of a list are shown as they are, in order.
pub proof fn path_texts_show_the_paths(paths: Seq<Option<String>>)
    ensures
        path_texts(paths).len() == paths.len(),
        forall|i: int|
            0 <= i < paths.len() ==> path_texts(paths)[i] == match #[trigger] paths[i] {
                Some(path) => Some(path@),
                None => None,
            },
{
}

/// Behind the likeliest extension, the others are tried in a fixed order: `jpg`, `png`, `webp`
/// and `gif`, without the one that was tried first.
pub proof fn extensions_are_tried_in_order(first: Seq<char>)
    ensures
        ({
            let tried = extensions_to_try(first);
            let jpg = "jpg"@;
            let png = "png"@;
            let webp = "webp"@;
            let gif = "gif"@;
            &&& first == jpg ==> tried == seq![jpg, png, webp, gif]
            &&& first == png ==> tried == seq![png, jpg, webp, gif]
            &&& first == webp ==> tried == seq![webp, jpg, png, gif]
            &&& first == gif ==> tried == seq![gif, jpg, png, webp]
            &&& first != jpg && first != png && first != webp && first != gif ==> tried == seq![
                first,
                jpg,
                png,
                webp,
                gif,
            ]
        }),
{
    let all = saved_extensions();
    let other = other_than(first);
    extensions_differ();
    reveal(Seq::filter);
    let three = seq!["jpg"@, "png"@, "webp"@];
    let two = seq!["jpg"@, "png"@];
    let one = seq!["jpg"@];
    assert(all.drop_last() =~= three);
    assert(three.drop_last() =~= two);
    assert(two.drop_last() =~= one);
    assert(one.drop_last() =~= Seq::empty());
    assert(one.drop_last().filter(other) =~= Seq::empty());
    assert(one.filter(other) =~= if first == "jpg"@ {
        Seq::empty()
    } else {
        one
    });
    assert(two.filter(other) == if first == "png"@ {
        one.filter(other)
    } else {
        one.filter(other).push("png"@)
    });
    assert(three.filter(other) == if first == "webp"@ {
        two.filter(other)
    } else {
        two.filter(other).push("webp"@)
    });
    assert(all.filter(other) == if first == "gif"@ {
        three.filter(other)
    } else {
        three.filter(other).push("gif"@)
    });
}

} // verus!
