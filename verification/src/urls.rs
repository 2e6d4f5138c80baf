//! Recognising media URLs by their file extension.
use vstd::prelude::*;
use vstd::utf8::*;
use crate::text::{
    chars_of, first_of2, index_of_either, has_prefix, before_first, after_last,
    ascii_lower_seq, lower_ascii_vec, take_before_first, take_after_last, seq_eq,
    seq_starts_with,
};

verus! {

broadcast use {encode_utf8_valid_utf8, is_char_boundary_start_end_of_seq};

pub open spec fn ascii_lower_byte(b: u8) -> u8 {
    if 65 <= b <= 90 {
        (b + 32) as u8
    } else {
        b
    }
}

/// Byte-wise equality up to ASCII case (`str::eq_ignore_ascii_case`).
pub open spec fn bytes_eq_ignore_case(a: Seq<u8>, b: Seq<u8>) -> bool {
    a.len() == b.len() && forall|i: int|
        0 <= i < a.len() ==> ascii_lower_byte(#[trigger] a[i]) == ascii_lower_byte(b[i])
}

/// Whether `haystack` ends with `needle`, ignoring ASCII case: false when
/// `needle` is longer, or when the tail of `haystack` of the same byte length
/// does not start on a character boundary.
pub open spec fn ends_with_ci(haystack: Seq<char>, needle: Seq<char>) -> bool {
    let h = encode_utf8(haystack);
    let n = encode_utf8(needle);
    h.len() >= n.len() && is_char_boundary(h, h.len() - n.len()) && bytes_eq_ignore_case(
        h.skip(h.len() - n.len()),
        n,
    )
}

fn lower_byte(b: u8) -> (res: u8)
    ensures
        res == ascii_lower_byte(b),
{
    if 65 <= b && b <= 90 {
        b + 32
    } else {
        b
    }
}

/// Case-insensitive (ASCII) suffix test on byte lengths.
pub fn ends_with(haystack: &str, needle: &str) -> (res: bool)
    ensures
        res == ends_with_ci(haystack@, needle@),
{
    let h = haystack.as_bytes();
    let n = needle.as_bytes();
    if h.len() < n.len() {
        return false;
    }
    let off = h.len() - n.len();
    assert(h@ == encode_utf8(haystack@));
    assert(n@ == encode_utf8(needle@));
    if !haystack.is_char_boundary(off) {
        assert(!is_char_boundary(encode_utf8(haystack@), off as int));
        assert(!ends_with_ci(haystack@, needle@));
        return false;
    }
    let mut i: usize = 0;
    while i < n.len()
        invariant
            h.len() == off + n.len(),
            h@ == encode_utf8(haystack@),
            n@ == encode_utf8(needle@),
            is_char_boundary(h@, off as int),
            i <= n.len(),
            forall|j: int| 0 <= j < i ==> ascii_lower_byte(h@[off + j]) == ascii_lower_byte(n@[j]),
        decreases n.len() - i,
    {
        if lower_byte(h[off + i]) != lower_byte(n[i]) {
            assert(h@.skip(off as int)[i as int] == h@[off + i]);
            return false;
        }
        i = i + 1;
    }
    assert forall|j: int| 0 <= j < n@.len() implies ascii_lower_byte(
        #[trigger] h@.skip(off as int)[j],
    ) == ascii_lower_byte(n@[j]) by {
        assert(h@.skip(off as int)[j] == h@[off + j]);
    }
    true
}

/// `url` up to its first `?` or `#`.
pub open spec fn strip_query_spec(url: Seq<char>) -> Seq<char> {
    url.take(first_of2(url, '?', '#'))
}

/// Drops the query string and fragment of a URL.
pub fn strip_querystring(url: &str) -> (res: &str)
    ensures
        res@ == strip_query_spec(url@),
{
    let v = chars_of(url);
    let end = index_of_either(&v, '?', '#');
    url.substring_char(0, end)
}

pub open spec fn is_video_spec(url: Seq<char>) -> bool {
    let u = strip_query_spec(url);
    ends_with_ci(u, "mp4"@) || ends_with_ci(u, "mov"@)
}

/// Whether a URL names a video by its extension.
pub fn is_video(url: &str) -> (res: bool)
    ensures
        res == is_video_spec(url@),
{
    let u = strip_querystring(url);
    ends_with(u, "mp4") || ends_with(u, "mov")
}

pub open spec fn image_exts() -> Seq<Seq<char>> {
    seq!["jpg"@, "jpeg"@, "png"@, "gif"@, "webp"@, "svg"@, "avif"@, "bmp"@, "ico"@, "apng"@]
}

pub open spec fn is_image_spec(url: Seq<char>) -> bool {
    let u = strip_query_spec(url);
    exists|i: int| 0 <= i < image_exts().len() && ends_with_ci(u, #[trigger] image_exts()[i])
}

/// Whether a URL names an image by its extension.
pub fn is_image(url: &str) -> (res: bool)
    ensures
        res == is_image_spec(url@),
{
    let u = strip_querystring(url);
    let exts = ["jpg", "jpeg", "png", "gif", "webp", "svg", "avif", "bmp", "ico", "apng"];
    assert(exts@.map_values(|e: &str| e@) =~= image_exts());
    let mut i: usize = 0;
    while i < 10
        invariant
            i <= 10,
            exts@.map_values(|e: &str| e@) == image_exts(),
            u@ == strip_query_spec(url@),
            forall|j: int| 0 <= j < i ==> !ends_with_ci(u@, #[trigger] image_exts()[j]),
        decreases 10 - i,
    {
        assert(exts@.map_values(|e: &str| e@)[i as int] == exts[i as int]@);
        if ends_with(u, exts[i]) {
            return true;
        }
        i = i + 1;
    }
    false
}

pub open spec fn image_url_exts() -> Seq<Seq<char>> {
    seq!["png"@, "jpg"@, "jpeg"@, "gif"@, "webp"@, "bmp"@, "avif"@, "jfif"@]
}

/// An http(s) URL whose path, lowercased and without query or fragment,
/// ends in a known image extension after its last dot.
pub open spec fn is_image_url_spec(url: Seq<char>) -> bool {
    (has_prefix(url, "http://"@) || has_prefix(url, "https://"@)) && {
        let trimmed = ascii_lower_seq(before_first(before_first(url, '#'), '?'));
        image_url_exts().contains(after_last(trimmed, '.'))
    }
}

/// Whether a note URL should be shown as an image.
pub fn is_image_url(url: &str) -> (res: bool)
    ensures
        res == is_image_url_spec(url@),
{
    let v = chars_of(url);
    let http = chars_of("http://");
    let https = chars_of("https://");
    if !(seq_starts_with(&v, &http) || seq_starts_with(&v, &https)) {
        return false;
    }
    let no_frag = take_before_first(&v, '#');
    let no_query = take_before_first(&no_frag, '?');
    let lowered = lower_ascii_vec(&no_query);
    let ext = take_after_last(&lowered, '.');
    let exts = ["png", "jpg", "jpeg", "gif", "webp", "bmp", "avif", "jfif"];
    assert(exts@.map_values(|e: &str| e@) =~= image_url_exts());
    let mut i: usize = 0;
    while i < 8
        invariant
            i <= 8,
            exts@.map_values(|e: &str| e@) == image_url_exts(),
            forall|j: int| 0 <= j < i ==> image_url_exts()[j] != ext@,
            ext@ == after_last(ascii_lower_seq(before_first(before_first(url@, '#'), '?')), '.'),
            has_prefix(url@, "http://"@) || has_prefix(url@, "https://"@),
        decreases 8 - i,
    {
        assert(exts@.map_values(|e: &str| e@)[i as int] == exts[i as int]@);
        let e = chars_of(exts[i]);
        if seq_eq(&ext, &e) {
            assert(image_url_exts()[i as int] == ext@);
            assert(image_url_exts().contains(ext@));
            return true;
        }
        i = i + 1;
    }
    false
}

} // verus!
