//! Escaping for HTML text, HTML attributes and JSON strings, and hex
//! encoding, through the crates that the server uses for them.
use vstd::prelude::*;
use crate::text::flat_map;

verus! {

pub open spec fn html_text_char(c: char) -> Seq<char> {
    if c == '&' {
        "&amp;"@
    } else if c == '<' {
        "&lt;"@
    } else if c == '>' {
        "&gt;"@
    } else {
        seq![c]
    }
}

pub open spec fn html_attr_char(c: char) -> Seq<char> {
    if c == '"' {
        "&quot;"@
    } else {
        html_text_char(c)
    }
}

/// `s` escaped for use as HTML text: `&`, `<` and `>` become entities.
pub open spec fn esc_text(s: Seq<char>) -> Seq<char> {
    flat_map(s, |c: char| html_text_char(c))
}

/// `s` escaped for a double-quoted HTML attribute: `&`, `<`, `>` and `"`
/// become entities.
pub open spec fn esc_attr(s: Seq<char>) -> Seq<char> {
    flat_map(s, |c: char| html_attr_char(c))
}

/// `html_escape::encode_text`: replaces `&`, `<` and `>` with `&amp;`,
/// `&lt;` and `&gt;` and keeps every other character.
#[verifier::external_body]
pub(crate) fn encode_text(s: &str) -> (res: String)
    ensures
        res@ == esc_text(s@),
{
    html_escape::encode_text(s).into_owned()
}

/// `html_escape::encode_double_quoted_attribute`: replaces `&`, `<`, `>`
/// and `"` with `&amp;`, `&lt;`, `&gt;` and `&quot;` and keeps every other
/// character.
#[verifier::external_body]
pub(crate) fn encode_double_quoted_attribute(s: &str) -> (res: String)
    ensures
        res@ == esc_attr(s@),
{
    html_escape::encode_double_quoted_attribute(s).into_owned()
}

pub open spec fn hex_lower_digit(n: int) -> char {
    if n < 10 {
        (('0' as int) + n) as char
    } else {
        (('a' as int) + n - 10) as char
    }
}

pub open spec fn json_char(c: char) -> Seq<char> {
    if c == '"' {
        "\\\""@
    } else if c == '\\' {
        "\\\\"@
    } else if c == '\u{8}' {
        "\\b"@
    } else if c == '\t' {
        "\\t"@
    } else if c == '\n' {
        "\\n"@
    } else if c == '\u{c}' {
        "\\f"@
    } else if c == '\r' {
        "\\r"@
    } else if (c as u32) < 0x20 {
        "\\u00"@ + seq![hex_lower_digit((c as int) / 16), hex_lower_digit((c as int) % 16)]
    } else {
        seq![c]
    }
}

/// A JSON string literal for `s`.
pub open spec fn json_quote_spec(s: Seq<char>) -> Seq<char> {
    "\""@ + flat_map(s, |c: char| json_char(c)) + "\""@
}

/// `serde_json::to_string` of a string slice: a quoted JSON string in which
/// `"` and `\` are escaped with a backslash, the control characters with
/// short forms use them (`\b \t \n \f \r`), the other characters below
/// U+0020 are written `\u00xx` with lowercase hex digits, and every other
/// character stands as it is. Serialising a string slice into memory does not
/// fail; the empty string stands in the unreachable error case.
#[verifier::external_body]
pub(crate) fn json_quote(s: &str) -> (res: String)
    ensures
        res@ == json_quote_spec(s@),
{
    serde_json::to_string(s).unwrap_or_default()
}

pub open spec fn byte_hex(b: u8) -> Seq<char> {
    seq![hex_lower_digit((b / 16) as int), hex_lower_digit((b % 16) as int)]
}

/// The lowercase hex encoding of `bytes`, two characters per byte.
pub open spec fn hex_spec(bytes: Seq<u8>) -> Seq<char>
    decreases bytes.len(),
{
    if bytes.len() == 0 {
        Seq::empty()
    } else {
        hex_spec(bytes.drop_last()) + byte_hex(bytes.last())
    }
}

/// `hex::encode`: two lowercase hex digits per byte, in order.
#[verifier::external_body]
pub(crate) fn hex_encode(bytes: &[u8]) -> (res: String)
    ensures
        res@ == hex_spec(bytes@),
{
    hex::encode(bytes)
}

pub open spec fn is_hex_digit(c: char) -> bool {
    ('0' <= c <= '9') || ('a' <= c <= 'f') || ('A' <= c <= 'F')
}

pub open spec fn hex_val(c: char) -> int {
    if '0' <= c <= '9' {
        (c as int) - ('0' as int)
    } else if 'a' <= c <= 'f' {
        (c as int) - ('a' as int) + 10
    } else {
        (c as int) - ('A' as int) + 10
    }
}

/// What `hex::decode` gives: the bytes of an even-length string of hex
/// digits (either case), else nothing.
pub open spec fn hex_decode_spec(s: Seq<char>) -> Option<Seq<u8>> {
    if s.len() % 2 == 0 && (forall|i: int| 0 <= i < s.len() ==> #[trigger] is_hex_digit(s[i])) {
        Some(
            Seq::new(
                (s.len() / 2) as nat,
                |i: int| (hex_val(s[2 * i]) * 16 + hex_val(s[2 * i + 1])) as u8,
            ),
        )
    } else {
        None
    }
}

/// `hex::decode`: the bytes of an even-length string of hex digits of
/// either case; an error (here `None`) for an odd length or any other
/// character.
#[verifier::external_body]
pub(crate) fn hex_decode(s: &str) -> (res: Option<Vec<u8>>)
    ensures
        match res {
            Some(v) => hex_decode_spec(s@) == Some(v@),
            None => hex_decode_spec(s@) is None,
        },
{
    hex::decode(s).ok()
}

/// The 32 bytes that a 64-digit hex string stands for.
pub open spec fn hex32_spec(s: Seq<char>) -> Option<Seq<u8>> {
    match hex_decode_spec(s) {
        Some(b) => if b.len() == 32 {
            Some(b)
        } else {
            None
        },
        None => None,
    }
}

/// Decodes hex into exactly 32 bytes (`hex::decode` then `try_into`).
pub fn decode_hex32(s: &str) -> (res: Option<[u8; 32]>)
    ensures
        match res {
            Some(a) => hex32_spec(s@) == Some(a@),
            None => hex32_spec(s@) is None,
        },
{
    match hex_decode(s) {
        Some(v) => {
            if v.len() == 32 {
                let mut out = [0u8; 32];
                let mut i: usize = 0;
                while i < 32
                    invariant
                        v.len() == 32,
                        i <= 32,
                        forall|j: int| 0 <= j < i ==> out@[j] == v@[j],
                    decreases 32 - i,
                {
                    out[i] = v[i];
                    i = i + 1;
                }
                assert(out@ =~= v@);
                Some(out)
            } else {
                None
            }
        },
        None => None,
    }
}


proof fn lemma_esc_text_chars(s: Seq<char>)
    ensures
        forall|i: int| 0 <= i < esc_text(s).len() ==> #[trigger] esc_text(s)[i] != '<' && esc_text(s)[i] != '>',
    decreases s.len(),
{
    reveal_strlit("&amp;");
    reveal_strlit("&lt;");
    reveal_strlit("&gt;");
    if s.len() > 0 {
        lemma_esc_text_chars(s.drop_last());
        let prev = esc_text(s.drop_last());
        let tail = html_text_char(s.last());
        assert(esc_text(s) == prev + tail);
        assert forall|i: int| 0 <= i < esc_text(s).len() implies #[trigger] esc_text(s)[i] != '<' && esc_text(s)[i] != '>' by {
            if i < prev.len() {
                assert(esc_text(s)[i] == prev[i]);
            } else {
                assert(esc_text(s)[i] == tail[i - prev.len()]);
            }
        }
    }
}

/// Escaped HTML text holds no `<` or `>`, so it cannot open or close a
/// tag; an escaped attribute value holds no `"` either, so it cannot end
/// the attribute.
pub proof fn lemma_escaped_is_inert(s: Seq<char>)
    ensures
        forall|i: int| 0 <= i < esc_text(s).len() ==> #[trigger] esc_text(s)[i] != '<' && esc_text(s)[i] != '>',
        forall|i: int|
            0 <= i < esc_attr(s).len() ==> #[trigger] esc_attr(s)[i] != '<' && esc_attr(s)[i] != '>'
                && esc_attr(s)[i] != '"',
    decreases s.len(),
{
    lemma_esc_text_chars(s);
    reveal_strlit("&amp;");
    reveal_strlit("&lt;");
    reveal_strlit("&gt;");
    reveal_strlit("&quot;");
    if s.len() > 0 {
        lemma_escaped_is_inert(s.drop_last());
        let prev = esc_attr(s.drop_last());
        let tail = html_attr_char(s.last());
        assert(esc_attr(s) == prev + tail);
        assert forall|i: int| 0 <= i < esc_attr(s).len() implies #[trigger] esc_attr(s)[i] != '<'
            && esc_attr(s)[i] != '>' && esc_attr(s)[i] != '"' by {
            if i < prev.len() {
                assert(esc_attr(s)[i] == prev[i]);
            } else {
                assert(esc_attr(s)[i] == tail[i - prev.len()]);
            }
        }
    }
}

} // verus!
