//! Shortening text to a byte budget without splitting a character.
use vstd::prelude::*;
use vstd::utf8::*;
use crate::text::has_prefix;

verus! {

broadcast use {
    encode_utf8_valid_utf8,
    encode_utf8_decode_utf8,
    is_char_boundary_iff_not_is_continuation_byte,
    is_char_boundary_start_end_of_seq,
};

/// The number of bytes kept when abbreviating
pub const ABBREV_SIZE: usize = 10;

/// A byte starts a UTF-8 encoded character (or is ASCII) exactly when it is
/// not a continuation byte, i.e. `b < 128 || b >= 192`.
pub fn is_utf8_char_boundary(c: u8) -> (res: bool)
    ensures
        res == (c < 128 || c >= 192),
{
    let r = (c as i8) >= -0x40;
    assert(((c as i8) >= -0x40) == (c < 128 || c >= 192)) by (bit_vector);
    r
}

/// The largest character boundary of `b` at or below `i`; the length of
/// `b` when `i` is past its end.
pub open spec fn floor_cb(b: Seq<u8>, i: int) -> int
    decreases i,
{
    if i >= b.len() {
        b.len() as int
    } else if i <= 0 {
        0
    } else if is_char_boundary(b, i) {
        i
    } else {
        floor_cb(b, i - 1)
    }
}

pub proof fn lemma_floor_cb(b: Seq<u8>, i: int)
    requires
        valid_utf8(b),
        i >= 0,
    ensures
        0 <= floor_cb(b, i) <= b.len(),
        is_char_boundary(b, floor_cb(b, i)),
        i < b.len() ==> floor_cb(b, i) <= i,
        forall|j: int| floor_cb(b, i) < j <= i && j < b.len() ==> !is_char_boundary(b, j),
    decreases i,
{
    if i >= b.len() {
    } else if i <= 0 {
    } else if is_char_boundary(b, i) {
    } else {
        lemma_floor_cb(b, i - 1);
    }
}

/// `s` cut to its longest prefix whose UTF-8 encoding fits in `n` bytes
/// (the whole of `s` when its encoding is no longer than `n`).
pub open spec fn abbrev_prefix(s: Seq<char>, n: int) -> Seq<char> {
    decode_utf8(encode_utf8(s).subrange(0, floor_cb(encode_utf8(s), n)))
}

/// What `abbrev_str` gives for `name`.
pub open spec fn abbrev_spec(name: Seq<char>) -> Seq<char> {
    if encode_utf8(name).len() > ABBREV_SIZE {
        abbrev_prefix(name, ABBREV_SIZE as int) + "..."@
    } else {
        name
    }
}

pub proof fn lemma_abbrev_prefix_is_prefix(s: Seq<char>, n: int)
    requires
        n >= 0,
    ensures
        has_prefix(s, abbrev_prefix(s, n)),
        encode_utf8(abbrev_prefix(s, n)).len() <= n || abbrev_prefix(s, n) == s,
{
    let b = encode_utf8(s);
    lemma_floor_cb(b, n);
    let k = floor_cb(b, n);
    decode_utf8_split(b, k);
    valid_utf8_split(b, k);
    let p = decode_utf8(b.subrange(0, k));
    assert(decode_utf8(b) == s);
    assert(s == p + decode_utf8(b.subrange(k, b.len() as int)));
    assert(s.take(p.len() as int) =~= p);
    decode_utf8_encode_utf8(b.subrange(0, k));
    if k == b.len() {
        assert(b.subrange(0, k) =~= b);
    }
}

/// Below a boundary `k`, the boundaries of `b` and of its first `k` bytes
/// agree, so the floor boundaries agree too.
proof fn lemma_floor_cb_prefix(b: Seq<u8>, k: int, i: int)
    requires
        valid_utf8(b),
        is_char_boundary(b, k),
        0 <= i < k <= b.len(),
    ensures
        floor_cb(b.subrange(0, k), i) == floor_cb(b, i),
    decreases i,
{
    let c = b.subrange(0, k);
    valid_utf8_split(b, k);
    if i > 0 {
        is_char_boundary_iff_not_is_continuation_byte(b, i);
        is_char_boundary_iff_not_is_continuation_byte(c, i);
        assert(c[i] == b[i]);
        if !is_char_boundary(b, i) {
            lemma_floor_cb_prefix(b, k, i - 1);
        }
    }
}

/// Between the floor boundary of `a` and `a` itself there is no boundary,
/// so every index in that range has the same floor boundary.
proof fn lemma_floor_cb_between(b: Seq<u8>, a: int, i: int)
    requires
        valid_utf8(b),
        0 <= i <= a,
        floor_cb(b, a) <= i,
    ensures
        floor_cb(b, i) == floor_cb(b, a),
    decreases i,
{
    lemma_floor_cb(b, a);
    if i >= b.len() {
    } else if i <= 0 {
    } else if is_char_boundary(b, i) {
    } else {
        lemma_floor_cb_between(b, a, i - 1);
    }
}

proof fn lemma_abbrev_prefix_twice_eq(s: Seq<char>, a: int, b: int)
    requires
        a >= 0,
        b >= 0,
    ensures
        abbrev_prefix(abbrev_prefix(s, a), b) == abbrev_prefix(s, if a <= b { a } else { b }),
{
    let bs = encode_utf8(s);
    lemma_floor_cb(bs, a);
    let ka = floor_cb(bs, a);
    let c = bs.subrange(0, ka);
    valid_utf8_split(bs, ka);
    decode_utf8_encode_utf8(c);
    let p = decode_utf8(c);
    assert(abbrev_prefix(s, a) == p);
    assert(encode_utf8(p) == c);
    if b >= ka {
        assert(floor_cb(c, b) == c.len());
        if b < a {
            lemma_floor_cb_between(bs, a, b);
        }
        assert(c.subrange(0, c.len() as int) =~= bs.subrange(0, ka));
    } else {
        lemma_floor_cb_prefix(bs, ka, b);
        lemma_floor_cb(bs, b);
        assert(c.subrange(0, floor_cb(c, b)) =~= bs.subrange(0, floor_cb(bs, b)));
    }
}

/// Abbreviating an abbreviation is the same as abbreviating once, to the
/// smaller budget; in particular abbreviating twice to the same budget
/// changes nothing, and a shorter budget gives a prefix of a longer one.
pub proof fn lemma_abbrev_prefix_twice(s: Seq<char>, a: int, b: int)
    requires
        a >= 0,
        b >= 0,
    ensures
        abbrev_prefix(abbrev_prefix(s, a), b) == abbrev_prefix(s, if a <= b { a } else { b }),
        a <= b ==> has_prefix(abbrev_prefix(s, b), abbrev_prefix(s, a)),
{
    lemma_abbrev_prefix_twice_eq(s, a, b);
    lemma_abbrev_prefix_twice_eq(s, b, a);
    lemma_abbrev_prefix_is_prefix(abbrev_prefix(s, b), a);
}

/// The largest character boundary of `s` at or below byte `index`
/// (`s.len()` when `index` is past the end).
pub fn floor_char_boundary(s: &str, index: usize) -> (res: usize)
    ensures
        res as int == floor_cb(encode_utf8(s@), index as int),
        res <= encode_utf8(s@).len(),
        is_char_boundary(encode_utf8(s@), res as int),
{
    let bytes = s.as_bytes();
    proof {
        lemma_floor_cb(encode_utf8(s@), index as int);
    }
    if index >= bytes.len() {
        return bytes.len();
    }
    let mut i = index;
    while !is_utf8_char_boundary(bytes[i])
        invariant
            bytes@ == encode_utf8(s@),
            valid_utf8(bytes@),
            index < bytes@.len(),
            i <= index,
            floor_cb(bytes@, i as int) == floor_cb(bytes@, index as int),
        decreases i,
    {
        assert(is_char_boundary(bytes@, 0));
        proof { is_char_boundary_iff_not_is_continuation_byte(bytes@, i as int); }
        assert(is_continuation_byte(bytes@[i as int]));
        assert(!is_char_boundary(bytes@, i as int));
        assert(i != 0);
        i = i - 1;
    }
    proof {
        is_char_boundary_iff_not_is_continuation_byte(bytes@, i as int);
    }
    assert(is_char_boundary(bytes@, i as int));
    i
}

/// The longest prefix of `text` whose encoding fits in `len` bytes.
pub fn abbreviate(text: &str, len: usize) -> (res: &str)
    ensures
        res@ == abbrev_prefix(text@, len as int),
        has_prefix(text@, res@),
{
    let closest = floor_char_boundary(text, len);
    let (head, _tail) = text.split_at(closest);
    proof {
        let b = encode_utf8(text@);
        assert(encode_utf8(head@) == b.subrange(0, closest as int));
        assert(decode_utf8(encode_utf8(head@)) == head@);
        lemma_abbrev_prefix_is_prefix(text@, len as int);
    }
    head
}

/// A short form of `name`: its first ten bytes' worth of characters and
/// `...` when it is longer than ten bytes, else `name` itself.
pub fn abbrev_str(name: &str) -> (res: String)
    ensures
        res@ == abbrev_spec(name@),
{
    let n = name.as_bytes().len();
    assert(n == encode_utf8(name@).len());
    if n > ABBREV_SIZE {
        let mut r = abbreviate(name, ABBREV_SIZE).to_owned();
        r.append("...");
        r
    } else {
        name.to_owned()
    }
}

} // verus!
