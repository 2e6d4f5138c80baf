//! Sitemap and robots.txt text: XML escaping, calendar dates, and the
//! document layout, computed from plain values that the server gathers.
use vstd::prelude::*;
use crate::text::{flat_map, lemma_flat_map_push, lemma_flat_map_front, has_prefix, push_char, decimal, digit_char, zero_pad, push_padded, push_decimal};
use crate::note::{TagItem, NoteData, tag_str, get_str, tag_str_is};
use crate::nip19::{note_bech32, spec_note_bech32, npub_bech32, spec_npub_bech32, naddr_bech32, spec_naddr_bech32};

verus! {

/// Maximum URLs per sitemap query (the XML sitemap standard allows 50,000)
pub const MAX_SITEMAP_URLS: u64 = 10000;

/// Lookback period for sitemap entries, in days
pub const SITEMAP_LOOKBACK_DAYS: u64 = 90;

/// The base URL used when none is configured
pub const DEFAULT_BASE_URL: &'static str = "https://damus.io";

pub open spec fn xml_char(c: char) -> Seq<char> {
    if c == '&' {
        "&amp;"@
    } else if c == '<' {
        "&lt;"@
    } else if c == '>' {
        "&gt;"@
    } else if c == '"' {
        "&quot;"@
    } else if c == '\'' {
        "&apos;"@
    } else {
        seq![c]
    }
}

/// `s` with the five XML special characters replaced by entities.
pub open spec fn xml_escape_spec(s: Seq<char>) -> Seq<char> {
    flat_map(s, |c: char| xml_char(c))
}

/// Escapes the special XML characters of `s`.
pub fn xml_escape(s: &str) -> (res: String)
    ensures
        res@ == xml_escape_spec(s@),
{
    let mut result = String::new();
    let ghost f = |c: char| xml_char(c);
    let ghost chars = s@;
    for c in it: s.chars()
        invariant
            f == (|c: char| xml_char(c)),
            it.seq() == chars,
            result@ == flat_map(it.seq().take(it.index() as int), f),
    {
        proof {
            lemma_flat_map_push(it.seq().take(it.index() as int), c, f);
        }
        assert(it.seq().take(it.index() + 1) =~= it.seq().take(it.index() as int).push(c));
        if c == '&' {
            result.append("&amp;");
        } else if c == '<' {
            result.append("&lt;");
        } else if c == '>' {
            result.append("&gt;");
        } else if c == '"' {
            result.append("&quot;");
        } else if c == '\'' {
            result.append("&apos;");
        } else {
            push_char(&mut result, c);
        }
    }
    assert(chars.take(chars.len() as int) =~= chars);
    result
}

/// The five entities `xml_escape` writes, as character sequences.
pub open spec fn amp_entity() -> Seq<char> {
    seq!['&', 'a', 'm', 'p', ';']
}

pub open spec fn lt_entity() -> Seq<char> {
    seq!['&', 'l', 't', ';']
}

pub open spec fn gt_entity() -> Seq<char> {
    seq!['&', 'g', 't', ';']
}

pub open spec fn quot_entity() -> Seq<char> {
    seq!['&', 'q', 'u', 'o', 't', ';']
}

pub open spec fn apos_entity() -> Seq<char> {
    seq!['&', 'a', 'p', 'o', 's', ';']
}

/// One left-to-right pass that turns the five XML entities back into their
/// characters and keeps every other character.
pub open spec fn xml_unescape(s: Seq<char>) -> Seq<char>
    decreases s.len(),
{
    if s.len() == 0 {
        Seq::empty()
    } else if has_prefix(s, amp_entity()) {
        seq!['&'] + xml_unescape(s.skip(5))
    } else if has_prefix(s, lt_entity()) {
        seq!['<'] + xml_unescape(s.skip(4))
    } else if has_prefix(s, gt_entity()) {
        seq!['>'] + xml_unescape(s.skip(4))
    } else if has_prefix(s, quot_entity()) {
        seq!['"'] + xml_unescape(s.skip(6))
    } else if has_prefix(s, apos_entity()) {
        seq!['\''] + xml_unescape(s.skip(6))
    } else {
        seq![s[0]] + xml_unescape(s.drop_first())
    }
}

proof fn lemma_xml_char_entities(c: char)
    ensures
        c == '&' ==> xml_char(c) == amp_entity(),
        c == '<' ==> xml_char(c) == lt_entity(),
        c == '>' ==> xml_char(c) == gt_entity(),
        c == '"' ==> xml_char(c) == quot_entity(),
        c == '\'' ==> xml_char(c) == apos_entity(),
{
    reveal_strlit("&amp;");
    reveal_strlit("&lt;");
    reveal_strlit("&gt;");
    reveal_strlit("&quot;");
    reveal_strlit("&apos;");
    assert("&amp;"@ =~= amp_entity());
    assert("&lt;"@ =~= lt_entity());
    assert("&gt;"@ =~= gt_entity());
    assert("&quot;"@ =~= quot_entity());
    assert("&apos;"@ =~= apos_entity());
}

/// Escaped XML holds none of `<`, `>`, `"` and `'`, and un-escaping it
/// gives the text back.
pub proof fn lemma_xml_escape_round_trip(s: Seq<char>)
    ensures
        xml_unescape(xml_escape_spec(s)) == s,
        forall|i: int|
            0 <= i < xml_escape_spec(s).len() ==> #[trigger] xml_escape_spec(s)[i] != '<'
                && xml_escape_spec(s)[i] != '>' && xml_escape_spec(s)[i] != '"'
                && xml_escape_spec(s)[i] != '\'',
    decreases s.len(),
{
    let f = |c: char| xml_char(c);
    if s.len() == 0 {
        assert(xml_escape_spec(s) =~= Seq::<char>::empty());
    } else {
        let c = s[0];
        let rest = s.drop_first();
        lemma_xml_escape_round_trip(rest);
        lemma_flat_map_front(s, f);
        lemma_xml_char_entities(c);
        let e = xml_char(c);
        let t = e + xml_escape_spec(rest);
        assert(xml_escape_spec(s) == t);
        assert(t.skip(e.len() as int) =~= xml_escape_spec(rest));
        assert(t.take(e.len() as int) =~= e);
        if c == '&' {
            assert(has_prefix(t, amp_entity()));
        } else if c == '<' {
            assert(t[1] == 'l');
            assert(!has_prefix(t, amp_entity()));
            assert(has_prefix(t, lt_entity()));
        } else if c == '>' {
            assert(t[1] == 'g');
            assert(!has_prefix(t, amp_entity()));
            assert(!has_prefix(t, lt_entity()));
            assert(has_prefix(t, gt_entity()));
        } else if c == '"' {
            assert(t[1] == 'q');
            assert(!has_prefix(t, amp_entity()));
            assert(!has_prefix(t, lt_entity()));
            assert(!has_prefix(t, gt_entity()));
            assert(has_prefix(t, quot_entity()));
        } else if c == '\'' {
            assert(t[1] == 'a' && t[2] == 'p');
            assert(!has_prefix(t, amp_entity()));
            assert(!has_prefix(t, lt_entity()));
            assert(!has_prefix(t, gt_entity()));
            assert(!has_prefix(t, quot_entity()));
            assert(has_prefix(t, apos_entity()));
        } else {
            assert(e == seq![c]);
            assert(t[0] == c);
            assert(!has_prefix(t, amp_entity()));
            assert(!has_prefix(t, lt_entity()));
            assert(!has_prefix(t, gt_entity()));
            assert(!has_prefix(t, quot_entity()));
            assert(!has_prefix(t, apos_entity()));
            assert(t.drop_first() =~= xml_escape_spec(rest));
        }
        assert(seq![c] + rest =~= s);
        assert forall|i: int| 0 <= i < t.len() implies #[trigger] t[i] != '<' && t[i] != '>'
            && t[i] != '"' && t[i] != '\'' by {
            if i >= e.len() {
                assert(t[i] == xml_escape_spec(rest)[i - e.len()]);
            }
        }
    }
}

// ---------------------------------------------------------------------
// Calendar
// ---------------------------------------------------------------------

pub open spec fn leap(year: int) -> bool {
    (year % 4 == 0 && year % 100 != 0) || year % 400 == 0
}

/// Gregorian leap years: divisible by 4 and not by 100, or divisible by 400.
pub fn is_leap_year(year: i32) -> (res: bool)
    ensures
        res == leap(year as int),
{
    (year % 4 == 0 && year % 100 != 0) || (year % 400 == 0)
}

pub open spec fn days_in_year(year: int) -> int {
    if leap(year) {
        366
    } else {
        365
    }
}

/// Walks whole years forward from `year`: the year in which day number
/// `days` (counted from the first day of `year`) falls, and the day number
/// within that year.
pub open spec fn year_walk(year: int, days: int) -> (int, int)
    decreases days,
{
    if days < days_in_year(year) || days < 0 {
        (year, days)
    } else {
        year_walk(year + 1, days - days_in_year(year))
    }
}

pub open spec fn month_lengths(is_leap: bool) -> Seq<int> {
    seq![31, if is_leap { 29 } else { 28 }, 31, 30, 31, 30, 31, 31, 30, 31, 30, 31]
}

/// Walks months forward from month index `k` of a year: the month number
/// (1-based) in which day `rem` falls, and the day number within it.
pub open spec fn month_walk(lengths: Seq<int>, k: int, rem: int) -> (int, int)
    decreases 12 - k,
{
    if k >= 12 || k < 0 || rem < lengths[k] {
        (k + 1, rem)
    } else {
        month_walk(lengths, k + 1, rem - lengths[k])
    }
}

/// `{:02}` of a 32-bit integer: zero padded when not negative, else the
/// minus sign and the digits.
pub open spec fn pad2_i32(v: int) -> Seq<char> {
    if v >= 0 {
        zero_pad(decimal(v as nat), 2)
    } else {
        "-"@ + decimal((-v) as nat)
    }
}

/// The `YYYY-MM-DD` text for a Unix timestamp. The day count since the
/// epoch is taken as a 32-bit number, as the server computes it.
pub open spec fn lastmod_spec(timestamp: u64) -> Seq<char> {
    let (year, month, day) = lastmod_date(timestamp);
    zero_pad(decimal(year as nat), 4) + "-"@ + zero_pad(decimal(month as nat), 2) + "-"@
        + pad2_i32(day)
}

/// The calendar date (year, month, day of the month) of day number `days`
/// counted from 1970-01-01.
pub open spec fn civil_date(days: int) -> (int, int, int) {
    let (year, rem) = year_walk(1970, days);
    let (month, rem2) = month_walk(month_lengths(leap(year)), 0, rem);
    (year, month, rem2 + 1)
}

/// The date that `format_lastmod` writes for a timestamp: that of its day
/// count, taken as a 32-bit number.
pub open spec fn lastmod_date(timestamp: u64) -> (int, int, int) {
    civil_date(((timestamp / 86400) as i32) as int)
}

proof fn lemma_year_walk(year: int, days: int)
    requires
        year >= 1970,
        days >= 0,
    ensures
        year_walk(year, days).0 >= year,
        0 <= year_walk(year, days).1 < days_in_year(year_walk(year, days).0),
        (year_walk(year, days).0 - year) * 365 <= days,
    decreases days,
{
    if days >= days_in_year(year) {
        lemma_year_walk(year + 1, days - days_in_year(year));
    }
}

/// The days from 1970-01-01 to the first day of `year`.
pub open spec fn days_before_year(year: int) -> int
    decreases year - 1970,
{
    if year <= 1970 {
        0
    } else {
        days_before_year(year - 1) + days_in_year(year - 1)
    }
}

/// The days of the months before `month` (1-based) in a year whose months
/// have `lengths`.
pub open spec fn days_before_month(lengths: Seq<int>, month: int) -> int
    decreases month,
{
    if month <= 1 {
        0
    } else {
        days_before_month(lengths, month - 1) + lengths[month - 2]
    }
}

/// The day number, counted from 1970-01-01, of a date.
pub open spec fn days_from_civil(date: (int, int, int)) -> int {
    days_before_year(date.0) + days_before_month(month_lengths(leap(date.0)), date.1) + date.2 - 1
}

/// A date from 1970 on whose month and day exist.
pub open spec fn valid_date(date: (int, int, int)) -> bool {
    &&& date.0 >= 1970
    &&& 1 <= date.1 <= 12
    &&& 1 <= date.2 <= month_lengths(leap(date.0))[date.1 - 1]
}

/// `a` comes before `b`: by year, then month, then day.
pub open spec fn date_lt(a: (int, int, int), b: (int, int, int)) -> bool {
    a.0 < b.0 || (a.0 == b.0 && (a.1 < b.1 || (a.1 == b.1 && a.2 < b.2)))
}

proof fn lemma_days_before_year_mono(y1: int, y2: int)
    requires
        y1 <= y2,
    ensures
        days_before_year(y1) <= days_before_year(y2),
    decreases y2 - y1,
{
    if y1 < y2 {
        lemma_days_before_year_mono(y1, y2 - 1);
    }
}

proof fn lemma_days_before_month_mono(lengths: Seq<int>, m1: int, m2: int)
    requires
        lengths.len() == 12,
        forall|i: int| 0 <= i < 12 ==> #[trigger] lengths[i] > 0,
        1 <= m1 <= m2 <= 13,
    ensures
        days_before_month(lengths, m1) <= days_before_month(lengths, m2),
    decreases m2 - m1,
{
    if m1 < m2 {
        lemma_days_before_month_mono(lengths, m1, m2 - 1);
    }
}

proof fn lemma_year_total(is_leap: bool)
    ensures
        days_before_month(month_lengths(is_leap), 13) == if is_leap { 366int } else { 365int },
        forall|i: int| 0 <= i < 12 ==> #[trigger] month_lengths(is_leap)[i] > 0,
        month_lengths(is_leap).len() == 12,
{
    reveal_with_fuel(days_before_month, 13);
}

proof fn lemma_year_walk_days(year: int, days: int)
    requires
        year >= 1970,
        days >= 0,
    ensures
        days_before_year(year) + days == days_before_year(year_walk(year, days).0) + year_walk(
            year,
            days,
        ).1,
    decreases days,
{
    if days >= days_in_year(year) {
        lemma_year_walk_days(year + 1, days - days_in_year(year));
    }
}

proof fn lemma_month_walk_days(lengths: Seq<int>, k: int, rem: int)
    requires
        lengths.len() == 12,
        0 <= k < 12,
        rem >= 0,
        days_before_month(lengths, k + 1) + rem < days_before_month(lengths, 13),
    ensures
        k + 1 <= month_walk(lengths, k, rem).0 <= 12,
        0 <= month_walk(lengths, k, rem).1 < lengths[month_walk(lengths, k, rem).0 - 1],
        days_before_month(lengths, k + 1) + rem == days_before_month(
            lengths,
            month_walk(lengths, k, rem).0,
        ) + month_walk(lengths, k, rem).1,
    decreases 12 - k,
{
    if rem >= lengths[k] {
        if k == 11 {
            assert(days_before_month(lengths, 13) == days_before_month(lengths, 12) + lengths[11]);
        } else {
            lemma_month_walk_days(lengths, k + 1, rem - lengths[k]);
        }
    }
}

proof fn lemma_civil_date(days: int)
    requires
        days >= 0,
    ensures
        valid_date(civil_date(days)),
        days_from_civil(civil_date(days)) == days,
{
    lemma_year_walk(1970, days);
    lemma_year_walk_days(1970, days);
    let (year, rem) = year_walk(1970, days);
    let lengths = month_lengths(leap(year));
    lemma_year_total(leap(year));
    lemma_month_walk_days(lengths, 0, rem);
}

proof fn lemma_days_from_civil_lt(a: (int, int, int), b: (int, int, int))
    requires
        valid_date(a),
        valid_date(b),
        date_lt(a, b),
    ensures
        days_from_civil(a) < days_from_civil(b),
{
    let la = month_lengths(leap(a.0));
    let lb = month_lengths(leap(b.0));
    lemma_year_total(leap(a.0));
    lemma_year_total(leap(b.0));
    lemma_days_before_month_mono(la, a.1 + 1, 13);
    assert(days_before_month(la, a.1 + 1) == days_before_month(la, a.1) + la[a.1 - 1]);
    if a.0 < b.0 {
        lemma_days_before_year_mono(a.0 + 1, b.0);
        lemma_days_before_month_mono(lb, 1, b.1);
    } else if a.1 < b.1 {
        lemma_days_before_month_mono(la, a.1 + 1, b.1);
    }
}

/// The date written for a timestamp is the calendar date of its day: the
/// day count can be read back from it, timestamps of the same day get the
/// same text, and a later timestamp never gets an earlier date. The day
/// count must fit the 32-bit number the date is computed from.
pub proof fn lemma_lastmod_dates(t1: u64, t2: u64)
    requires
        t1 / 86400 <= i32::MAX,
        t2 / 86400 <= i32::MAX,
    ensures
        valid_date(lastmod_date(t1)),
        days_from_civil(lastmod_date(t1)) == t1 / 86400,
        t1 / 86400 == t2 / 86400 ==> lastmod_spec(t1) == lastmod_spec(t2),
        t1 <= t2 ==> !date_lt(lastmod_date(t2), lastmod_date(t1)),
{
    let d1 = ((t1 / 86400) as i32) as int;
    let d2 = ((t2 / 86400) as i32) as int;
    assert(d1 == t1 / 86400);
    assert(d2 == t2 / 86400);
    lemma_civil_date(d1);
    lemma_civil_date(d2);
    if t1 <= t2 && date_lt(lastmod_date(t2), lastmod_date(t1)) {
        assert(t1 / 86400 <= t2 / 86400) by (nonlinear_arith)
            requires
                t1 <= t2,
        ;
        lemma_days_from_civil_lt(lastmod_date(t2), lastmod_date(t1));
    }
}

/// `a` sorts before `b` as text, as `<` on strings orders them: at the
/// first place where the two differ `a` has the smaller character, or `a`
/// is a proper prefix of `b`.
pub open spec fn text_lt(a: Seq<char>, b: Seq<char>) -> bool
    decreases a.len(),
{
    if a.len() == 0 {
        b.len() > 0
    } else if b.len() == 0 {
        false
    } else if a[0] == b[0] {
        text_lt(a.drop_first(), b.drop_first())
    } else {
        (a[0] as u32) < (b[0] as u32)
    }
}

/// The last `k` decimal digits of `n`, most significant first.
pub open spec fn fixed_digits(n: nat, k: nat) -> Seq<char>
    decreases k,
{
    if k == 0 {
        Seq::empty()
    } else {
        fixed_digits(n / 10, (k - 1) as nat).push(digit_char(n % 10))
    }
}

pub open spec fn pow10(k: nat) -> nat
    decreases k,
{
    if k == 0 {
        1
    } else {
        10 * pow10((k - 1) as nat)
    }
}

proof fn lemma_zero_pad_fixed(n: nat, k: nat)
    requires
        1 <= k,
        n < pow10(k),
    ensures
        zero_pad(decimal(n), k) == fixed_digits(n, k),
    decreases k,
{
    if n < 10 {
        assert(n % 10 == n && n / 10 == 0);
        assert(decimal(n) == seq![digit_char(n)]);
        lemma_fixed_zero((k - 1) as nat);
        assert(fixed_digits(n, k) == fixed_digits(0, (k - 1) as nat).push(digit_char(n)));
        assert(zero_pad(decimal(n), k) =~= fixed_digits(n, k));
    } else {
        assert(k >= 2) by {
            if k == 1 {
                assert(pow10(1) == 10) by {
                    reveal_with_fuel(pow10, 2);
                }
            }
        }
        let p = decimal(n / 10);
        lemma_zero_pad_fixed(n / 10, (k - 1) as nat);
        if p.len() < k - 1 {
            assert(zero_pad(decimal(n), k) =~= zero_pad(p, (k - 1) as nat).push(digit_char(n % 10)));
        } else {
            assert(zero_pad(decimal(n), k) =~= zero_pad(p, (k - 1) as nat).push(digit_char(n % 10)));
        }
    }
}

proof fn lemma_fixed_zero(k: nat)
    ensures
        fixed_digits(0, k) =~= Seq::new(k, |i: int| '0'),
    decreases k,
{
    if k > 0 {
        lemma_fixed_zero((k - 1) as nat);
    }
}

proof fn lemma_text_lt_irreflexive(a: Seq<char>)
    ensures
        !text_lt(a, a),
    decreases a.len(),
{
    if a.len() > 0 {
        lemma_text_lt_irreflexive(a.drop_first());
    }
}

/// Texts joined from parts of equal length compare by their first parts,
/// then by the rest.
proof fn lemma_text_concat(a1: Seq<char>, a2: Seq<char>, b1: Seq<char>, b2: Seq<char>)
    requires
        a1.len() == b1.len(),
    ensures
        text_lt(a1 + a2, b1 + b2) == (text_lt(a1, b1) || (a1 == b1 && text_lt(a2, b2))),
        (a1 + a2 == b1 + b2) == (a1 == b1 && a2 == b2),
    decreases a1.len(),
{
    if a1.len() == 0 {
        assert(a1 + a2 =~= a2);
        assert(b1 + b2 =~= b2);
        assert(a1 =~= b1);
    } else {
        assert((a1 + a2).drop_first() =~= a1.drop_first() + a2);
        assert((b1 + b2).drop_first() =~= b1.drop_first() + b2);
        assert((a1 + a2)[0] == a1[0]);
        assert((b1 + b2)[0] == b1[0]);
        lemma_text_concat(a1.drop_first(), a2, b1.drop_first(), b2);
        if a1[0] == b1[0] {
            assert((a1 == b1) == (a1.drop_first() == b1.drop_first())) by {
                if a1.drop_first() == b1.drop_first() {
                    assert(a1 =~= b1) by {
                        assert forall|i: int| 0 <= i < a1.len() implies a1[i] == b1[i] by {
                            if i > 0 {
                                assert(a1[i] == a1.drop_first()[i - 1]);
                                assert(b1[i] == b1.drop_first()[i - 1]);
                            }
                        }
                    }
                }
            }
            if a1 + a2 == b1 + b2 {
                assert((a1 + a2).drop_first() == (b1 + b2).drop_first());
            }
            if a1.drop_first() + a2 == b1.drop_first() + b2 {
                assert(a1 + a2 =~= b1 + b2) by {
                    assert forall|i: int| 0 <= i < (a1 + a2).len() implies (a1 + a2)[i] == (b1
                        + b2)[i] by {
                        if i > 0 {
                            assert((a1 + a2)[i] == (a1 + a2).drop_first()[i - 1]);
                            assert((b1 + b2)[i] == (b1 + b2).drop_first()[i - 1]);
                        }
                    }
                }
            }
        } else {
            assert((a1 + a2)[0] != (b1 + b2)[0]);
        }
    }
}

proof fn lemma_fixed_digits_len(n: nat, k: nat)
    ensures
        fixed_digits(n, k).len() == k,
    decreases k,
{
    if k > 0 {
        lemma_fixed_digits_len(n / 10, (k - 1) as nat);
    }
}

proof fn lemma_digit_char_code(d: nat)
    requires
        d < 10,
    ensures
        digit_char(d) as u32 == 48 + d,
{
}

/// A smaller number has the smaller text among numbers written with the
/// same count of digits.
proof fn lemma_fixed_digits_order(n: nat, m: nat, k: nat)
    requires
        n < m < pow10(k),
    ensures
        text_lt(fixed_digits(n, k), fixed_digits(m, k)),
        fixed_digits(n, k) != fixed_digits(m, k),
    decreases k,
{
    if k > 0 {
        let k1 = (k - 1) as nat;
        let dn = digit_char(n % 10);
        let dm = digit_char(m % 10);
        assert(fixed_digits(n, k) =~= fixed_digits(n / 10, k1) + seq![dn]);
        assert(fixed_digits(m, k) =~= fixed_digits(m / 10, k1) + seq![dm]);
        assert(n / 10 <= m / 10 < pow10(k1)) by (nonlinear_arith)
            requires
                n < m < pow10(k),
                pow10(k) == 10 * pow10(k1),
        ;
        lemma_fixed_digits_len(n / 10, k1);
        lemma_fixed_digits_len(m / 10, k1);
        lemma_text_concat(fixed_digits(n / 10, k1), seq![dn], fixed_digits(m / 10, k1), seq![dm]);
        if n / 10 < m / 10 {
            lemma_fixed_digits_order(n / 10, m / 10, k1);
        } else {
            assert(n % 10 < m % 10);
            lemma_digit_char_code(n % 10);
            lemma_digit_char_code(m % 10);
            assert(seq![dn].drop_first() =~= Seq::<char>::empty());
            assert(text_lt(seq![dn], seq![dm]));
            assert(seq![dn][0] != seq![dm][0]);
        }
    } else {
        assert(pow10(0) == 1);
    }
    lemma_text_lt_irreflexive(fixed_digits(n, k));
}

/// The `YYYY-MM-DD` text of a date, as `format_lastmod` writes it.
pub open spec fn date_text(date: (int, int, int)) -> Seq<char> {
    zero_pad(decimal(date.0 as nat), 4) + "-"@ + zero_pad(decimal(date.1 as nat), 2) + "-"@
        + pad2_i32(date.2)
}

proof fn lemma_date_text_lt(a: (int, int, int), b: (int, int, int))
    requires
        valid_date(a),
        valid_date(b),
        a.0 < 10000,
        b.0 < 10000,
        date_lt(a, b),
    ensures
        text_lt(date_text(a), date_text(b)),
        date_text(a) != date_text(b),
{
    assert(pow10(4) == 10000 && pow10(2) == 100) by {
        reveal_with_fuel(pow10, 5);
    }
    let dash = "-"@;
    lemma_zero_pad_fixed(a.0 as nat, 4);
    lemma_zero_pad_fixed(b.0 as nat, 4);
    lemma_zero_pad_fixed(a.1 as nat, 2);
    lemma_zero_pad_fixed(b.1 as nat, 2);
    lemma_zero_pad_fixed(a.2 as nat, 2);
    lemma_zero_pad_fixed(b.2 as nat, 2);
    let ya = fixed_digits(a.0 as nat, 4);
    let yb = fixed_digits(b.0 as nat, 4);
    let ma = fixed_digits(a.1 as nat, 2);
    let mb = fixed_digits(b.1 as nat, 2);
    let da = fixed_digits(a.2 as nat, 2);
    let db = fixed_digits(b.2 as nat, 2);
    lemma_fixed_digits_len(a.0 as nat, 4);
    lemma_fixed_digits_len(b.0 as nat, 4);
    lemma_fixed_digits_len(a.1 as nat, 2);
    lemma_fixed_digits_len(b.1 as nat, 2);
    assert(month_lengths(leap(a.0))[a.1 - 1] <= 31 && month_lengths(leap(b.0))[b.1 - 1] <= 31);
    assert(date_text(a) == ya + dash + ma + dash + da);
    assert(date_text(b) == yb + dash + mb + dash + db);
    if a.0 < b.0 {
        lemma_fixed_digits_order(a.0 as nat, b.0 as nat, 4);
    } else if a.1 < b.1 {
        lemma_fixed_digits_order(a.1 as nat, b.1 as nat, 2);
    } else {
        lemma_fixed_digits_order(a.2 as nat, b.2 as nat, 2);
    }
    lemma_text_concat(ya, dash, yb, dash);
    lemma_text_concat(ya + dash, ma, yb + dash, mb);
    lemma_text_concat(ya + dash + ma, dash, yb + dash + mb, dash);
    lemma_text_concat(ya + dash + ma + dash, da, yb + dash + mb + dash, db);
    lemma_text_lt_irreflexive(date_text(a));
}

/// The days before `year` are 365 a year and one for each leap year
/// counted by the rules of four, hundred and four hundred.
proof fn lemma_days_before_year_count(year: int)
    requires
        year >= 1970,
    ensures
        days_before_year(year) == 365 * (year - 1970) + ((year - 1) / 4 - 492) - ((year - 1) / 100
            - 19) + ((year - 1) / 400 - 4),
    decreases year - 1970,
{
    if year > 1970 {
        lemma_days_before_year_count(year - 1);
        let x = year - 1;
        assert(x / 4 - (x - 1) / 4 == if x % 4 == 0 { 1int } else { 0int });
        assert(x / 100 - (x - 1) / 100 == if x % 100 == 0 { 1int } else { 0int });
        assert(x / 400 - (x - 1) / 400 == if x % 400 == 0 { 1int } else { 0int });
    }
}

/// A date whose day number is at most that of 9999-12-31 lies in a year
/// written with four digits.
proof fn lemma_four_digit_year(date: (int, int, int))
    requires
        valid_date(date),
        days_from_civil(date) <= 2932896,
    ensures
        date.0 <= 9999,
{
    if date.0 >= 10000 {
        lemma_days_before_year_count(10000);
        lemma_days_before_year_mono(10000, date.0);
        let lengths = month_lengths(leap(date.0));
        lemma_year_total(leap(date.0));
        lemma_days_before_month_mono(lengths, 1, date.1);
    }
}

/// The written date read as text, for timestamps up to the last second
/// of year 9999: two timestamps get the same text exactly when they fall
/// on the same day, and a later timestamp never gets a text that sorts
/// before that of an earlier one.
pub proof fn lemma_lastmod_text(t1: u64, t2: u64)
    requires
        t1 <= 253402300799,
        t2 <= 253402300799,
    ensures
        lastmod_spec(t1) == date_text(lastmod_date(t1)),
        lastmod_date(t1).0 <= 9999,
        (lastmod_spec(t1) == lastmod_spec(t2)) == (t1 / 86400 == t2 / 86400),
        t1 <= t2 ==> lastmod_spec(t1) == lastmod_spec(t2) || text_lt(
            lastmod_spec(t1),
            lastmod_spec(t2),
        ),
{
    assert(t1 / 86400 <= 2932896 && t2 / 86400 <= 2932896);
    lemma_lastmod_dates(t1, t2);
    lemma_lastmod_dates(t2, t1);
    let a = lastmod_date(t1);
    let b = lastmod_date(t2);
    lemma_four_digit_year(a);
    lemma_four_digit_year(b);
    if t1 / 86400 < t2 / 86400 {
        assert(t1 < t2) by (nonlinear_arith)
            requires
                t1 / 86400 < t2 / 86400,
        ;
        assert(a != b);
        assert(date_lt(a, b));
        lemma_date_text_lt(a, b);
    } else if t2 / 86400 < t1 / 86400 {
        assert(t2 < t1) by (nonlinear_arith)
            requires
                t2 / 86400 < t1 / 86400,
        ;
        assert(a != b);
        assert(date_lt(b, a));
        lemma_date_text_lt(b, a);
    }
}

/// Formats a Unix timestamp as an ISO 8601 date (`YYYY-MM-DD`).
pub fn format_lastmod(timestamp: u64) -> (res: String)
    ensures
        res@ == lastmod_spec(timestamp),
{
    let days_since_epoch = timestamp / 86400;
    #[verifier::truncate]
    let days_i32 = days_since_epoch as i32;
    let mut year: i32 = 1970;
    let mut remaining_days: i32 = days_i32;
    if remaining_days >= 0 {
        proof {
            lemma_year_walk(1970, days_i32 as int);
        }
        loop
            invariant
                1970 <= year,
                0 <= remaining_days <= days_i32,
                year_walk(year as int, remaining_days as int) == year_walk(
                    1970,
                    days_i32 as int,
                ),
                (year - 1970) * 365 <= days_i32 - remaining_days,
            ensures
                year_walk(1970, days_i32 as int) == (year as int, remaining_days as int),
            decreases remaining_days,
        {
            let days_in = if is_leap_year(year) {
                366
            } else {
                365
            };
            if remaining_days < days_in {
                break ;
            }
            remaining_days = remaining_days - days_in;
            year = year + 1;
        }
    }
    let is_leap = is_leap_year(year);
    let days_in_months: [i32; 12] = if is_leap {
        [31, 29, 31, 30, 31, 30, 31, 31, 30, 31, 30, 31]
    } else {
        [31, 28, 31, 30, 31, 30, 31, 31, 30, 31, 30, 31]
    };
    let ghost lengths = month_lengths(is_leap);
    assert(forall|i: int| 0 <= i < 12 ==> days_in_months@[i] as int == lengths[i]);
    let mut month: u32 = 1;
    let mut k: usize = 0;
    let ghost start_rem = remaining_days as int;
    while k < 12
        invariant_except_break
            k <= 12,
            month == k + 1,
            forall|i: int| 0 <= i < 12 ==> days_in_months@[i] as int == lengths[i],
            lengths == month_lengths(is_leap),
            month_walk(lengths, k as int, remaining_days as int) == month_walk(
                lengths,
                0,
                start_rem,
            ),
            start_rem >= 0 ==> 0 <= remaining_days <= start_rem,
            start_rem < 0 ==> k == 0 && remaining_days == start_rem,
        ensures
            month_walk(lengths, 0, start_rem) == (month as int, remaining_days as int),
            start_rem >= 0 ==> 0 <= remaining_days <= start_rem,
            start_rem < 0 ==> remaining_days == start_rem && month == 1,
            1 <= month <= 13,
        decreases 12 - k,
    {
        let days = days_in_months[k];
        if remaining_days < days {
            break ;
        }
        remaining_days = remaining_days - days;
        month = month + 1;
        k = k + 1;
    }
    let day = remaining_days + 1;
    let mut out = String::new();
    proof {
        if days_i32 >= 0 {
            lemma_year_walk(1970, days_i32 as int);
        }
    }
    push_padded(&mut out, year as u64, 4);
    out.append("-");
    push_padded(&mut out, month as u64, 2);
    out.append("-");
    if day >= 0 {
        push_padded(&mut out, day as u64, 2);
    } else {
        out.append("-");
        let neg = (-(day as i64)) as u64;
        push_decimal(&mut out, neg);
    }
    out
}

/// The timestamp `days` days before `now`, or 0 when that is before the
/// epoch.
pub fn days_ago(now: u64, days: u64) -> (res: u64)
    requires
        days * 86400 <= u64::MAX,
    ensures
        res == (if now >= days * 86400 {
            now - days * 86400
        } else {
            0
        }),
{
    now.saturating_sub(days * 24 * 60 * 60)
}

// ---------------------------------------------------------------------
// Documents
// ---------------------------------------------------------------------

/// The configured base URL, or the default when none is set.
pub fn base_url_or_default(configured: Option<String>) -> (res: String)
    ensures
        res@ == match configured {
            Some(url) => url@,
            None => DEFAULT_BASE_URL@,
        },
{
    match configured {
        Some(url) => url,
        None => DEFAULT_BASE_URL.to_owned(),
    }
}

pub open spec fn robots_txt_spec(base_url: Seq<char>) -> Seq<char> {
    "User-agent: *\nAllow: /\nDisallow: /metrics\nDisallow: /*.json\n\nSitemap: "@ + base_url
        + "/sitemap.xml\n"@
}

/// The robots.txt content for a site rooted at `base_url`.
pub fn generate_robots_txt(base_url: &str) -> (res: String)
    ensures
        res@ == robots_txt_spec(base_url@),
{
    let mut s = String::new();
    s.append("User-agent: *\nAllow: /\nDisallow: /metrics\nDisallow: /*.json\n\nSitemap: ");
    s.append(base_url);
    s.append("/sitemap.xml\n");
    s
}

/// One `<url>` of a sitemap.
pub struct SitemapEntry {
    pub loc: String,
    pub lastmod: String,
    pub priority: String,
    pub changefreq: String,
}

/// What a sitemap entry is for; each kind has its priority and change
/// frequency.
#[derive(Clone, Copy, Debug, PartialEq, Eq)]
pub enum SitemapKind {
    Home,
    Note,
    Article,
    Profile,
}

pub open spec fn priority_of(kind: SitemapKind) -> Seq<char> {
    match kind {
        SitemapKind::Home => "1.0"@,
        SitemapKind::Note => "0.8"@,
        SitemapKind::Article => "0.9"@,
        SitemapKind::Profile => "0.7"@,
    }
}

pub open spec fn changefreq_of(kind: SitemapKind) -> Seq<char> {
    match kind {
        SitemapKind::Home => "daily"@,
        _ => "weekly"@,
    }
}

/// The location of an entry: the base URL itself for the home page, else the
/// base URL, a slash, and the escaped bech32 identifier.
pub open spec fn loc_spec(kind: SitemapKind, base_url: Seq<char>, bech32: Seq<char>) -> Seq<char> {
    match kind {
        SitemapKind::Home => base_url,
        _ => base_url + "/"@ + xml_escape_spec(bech32),
    }
}

/// The entry for a page of kind `kind` last changed at `timestamp`.
pub fn sitemap_entry(kind: SitemapKind, base_url: &str, bech32: &str, timestamp: u64) -> (res:
    SitemapEntry)
    ensures
        res.loc@ == loc_spec(kind, base_url@, bech32@),
        res.lastmod@ == lastmod_spec(timestamp),
        res.priority@ == priority_of(kind),
        res.changefreq@ == changefreq_of(kind),
{
    let loc = match kind {
        SitemapKind::Home => base_url.to_owned(),
        _ => {
            let mut l = base_url.to_owned();
            l.append("/");
            let e = xml_escape(bech32);
            l.append(e.as_str());
            l
        },
    };
    let (priority, changefreq) = match kind {
        SitemapKind::Home => ("1.0", "daily"),
        SitemapKind::Note => ("0.8", "weekly"),
        SitemapKind::Article => ("0.9", "weekly"),
        SitemapKind::Profile => ("0.7", "weekly"),
    };
    SitemapEntry {
        loc,
        lastmod: format_lastmod(timestamp),
        priority: priority.to_owned(),
        changefreq: changefreq.to_owned(),
    }
}

pub open spec fn entry_xml(e: SitemapEntry) -> Seq<char> {
    "  <url>\n    <loc>"@ + e.loc@ + "</loc>\n    <lastmod>"@ + e.lastmod@
        + "</lastmod>\n    <changefreq>"@ + e.changefreq@ + "</changefreq>\n    <priority>"@
        + e.priority@ + "</priority>\n  </url>\n"@
}

pub open spec fn entries_xml(entries: Seq<SitemapEntry>) -> Seq<char>
    decreases entries.len(),
{
    if entries.len() == 0 {
        Seq::empty()
    } else {
        entries_xml(entries.drop_last()) + entry_xml(entries.last())
    }
}

pub open spec fn sitemap_xml_spec(entries: Seq<SitemapEntry>) -> Seq<char> {
    "<?xml version=\"1.0\" encoding=\"UTF-8\"?>\n<urlset xmlns=\"http://www.sitemaps.org/schemas/sitemap/0.9\">\n"@
        + entries_xml(entries) + "</urlset>\n"@
}

/// The sitemap XML document listing `entries` in order.
pub fn build_sitemap_xml(entries: &Vec<SitemapEntry>) -> (res: String)
    ensures
        res@ == sitemap_xml_spec(entries@),
{
    let mut xml = String::new();
    xml.append(
        "<?xml version=\"1.0\" encoding=\"UTF-8\"?>\n<urlset xmlns=\"http://www.sitemaps.org/schemas/sitemap/0.9\">\n",
    );
    let ghost head = xml@;
    for i in 0..entries.len()
        invariant
            xml@ == head + entries_xml(entries@.take(i as int)),
    {
        let e = &entries[i];
        xml.append("  <url>\n    <loc>");
        xml.append(e.loc.as_str());
        xml.append("</loc>\n    <lastmod>");
        xml.append(e.lastmod.as_str());
        xml.append("</lastmod>\n    <changefreq>");
        xml.append(e.changefreq.as_str());
        xml.append("</changefreq>\n    <priority>");
        xml.append(e.priority.as_str());
        xml.append("</priority>\n  </url>\n");
        assert(entries@.take(i + 1).drop_last() =~= entries@.take(i as int));
    }
    assert(entries@.take(entries.len() as int) =~= entries@);
    xml.append("</urlset>\n");
    xml
}

/// The identifier of an addressable note: the second element of its first
/// tag that has at least two elements and whose first element is `d`.
/// `None` when there is no such tag or that element is not text.
pub open spec fn d_identifier(tags: Seq<Vec<TagItem>>) -> Option<Seq<char>>
    decreases tags.len(),
{
    if tags.len() == 0 {
        None
    } else if tags[0]@.len() >= 2 && tag_str(tags[0]@, 0) == Some("d"@) {
        tag_str(tags[0]@, 1)
    } else {
        d_identifier(tags.drop_first())
    }
}

/// The identifier of an article for the sitemap: its `d` identifier when
/// that is present and not empty.
pub fn article_identifier(tags: &Vec<Vec<TagItem>>) -> (res: Option<String>)
    ensures
        match res {
            Some(s) => d_identifier(tags@) == Some(s@) && s@.len() > 0,
            None => d_identifier(tags@) is None || d_identifier(tags@) == Some(
                Seq::<char>::empty(),
            ),
        },
{
    let mut i: usize = 0;
    assert(tags@.skip(0) =~= tags@);
    while i < tags.len()
        invariant
            i <= tags.len(),
            d_identifier(tags@.skip(i as int)) == d_identifier(tags@),
        decreases tags.len() - i,
    {
        assert(tags@.skip(i as int).drop_first() =~= tags@.skip(i + 1));
        assert(tags@.skip(i as int)[0] == tags@[i as int]);
        let tag = &tags[i];
        if tag.len() >= 2 && tag_str_is(tag, 0, "d") {
            return match get_str(tag, 1) {
                Some(s) => {
                    if s.as_str().unicode_len() == 0 {
                        None
                    } else {
                        Some(s.clone())
                    }
                },
                None => None,
            };
        }
        i = i + 1;
    }
    None
}


// ---------------------------------------------------------------------
// The whole sitemap
// ---------------------------------------------------------------------

pub open spec fn entry_view(e: SitemapEntry) -> (Seq<char>, Seq<char>, Seq<char>, Seq<char>) {
    (e.loc@, e.lastmod@, e.priority@, e.changefreq@)
}

pub open spec fn entry_tuple(kind: SitemapKind, base_url: Seq<char>, bech32: Seq<char>, timestamp: u64) -> (
    Seq<char>,
    Seq<char>,
    Seq<char>,
    Seq<char>,
) {
    (loc_spec(kind, base_url, bech32), lastmod_spec(timestamp), priority_of(kind), changefreq_of(kind))
}

/// The entries of notes (kind 1), by their `note` bech32.
pub open spec fn note_entries(base_url: Seq<char>, notes: Seq<NoteData>) -> Seq<(Seq<char>, Seq<char>, Seq<char>, Seq<char>)>
    decreases notes.len(),
{
    if notes.len() == 0 {
        Seq::empty()
    } else {
        let n = notes.last();
        note_entries(base_url, notes.drop_last()).push(
            entry_tuple(SitemapKind::Note, base_url, spec_note_bech32(n.id@), n.created_at),
        )
    }
}

/// The entries of articles that have a non-empty identifier and whose
/// `naddr` encodes.
pub open spec fn article_entries(base_url: Seq<char>, arts: Seq<NoteData>) -> Seq<(Seq<char>, Seq<char>, Seq<char>, Seq<char>)>
    decreases arts.len(),
{
    if arts.len() == 0 {
        Seq::empty()
    } else {
        let n = arts.last();
        let prev = article_entries(base_url, arts.drop_last());
        match d_identifier(n.tags@) {
            Some(d) => if d.len() > 0 {
                match spec_naddr_bech32(n.kind as u16, n.pubkey@, d, Seq::empty()) {
                    Some(b) => prev.push(entry_tuple(SitemapKind::Article, base_url, b, n.created_at)),
                    None => prev,
                }
            } else {
                prev
            },
            None => prev,
        }
    }
}

/// The entries of profiles (kind 0), by their author's `npub`.
pub open spec fn profile_entries(base_url: Seq<char>, profs: Seq<NoteData>) -> Seq<(Seq<char>, Seq<char>, Seq<char>, Seq<char>)>
    decreases profs.len(),
{
    if profs.len() == 0 {
        Seq::empty()
    } else {
        let n = profs.last();
        profile_entries(base_url, profs.drop_last()).push(
            entry_tuple(SitemapKind::Profile, base_url, spec_npub_bech32(n.pubkey@), n.created_at),
        )
    }
}

/// The home page (changed `now`), then the notes, articles and profiles.
pub open spec fn sitemap_entries_spec(
    base_url: Seq<char>,
    now: u64,
    notes: Seq<NoteData>,
    arts: Seq<NoteData>,
    profs: Seq<NoteData>,
) -> Seq<(Seq<char>, Seq<char>, Seq<char>, Seq<char>)> {
    seq![entry_tuple(SitemapKind::Home, base_url, Seq::empty(), now)] + note_entries(base_url, notes)
        + article_entries(base_url, arts) + profile_entries(base_url, profs)
}

pub open spec fn tuple_xml(e: (Seq<char>, Seq<char>, Seq<char>, Seq<char>)) -> Seq<char> {
    "  <url>\n    <loc>"@ + e.0 + "</loc>\n    <lastmod>"@ + e.1
        + "</lastmod>\n    <changefreq>"@ + e.3 + "</changefreq>\n    <priority>"@
        + e.2 + "</priority>\n  </url>\n"@
}

pub open spec fn tuples_xml(v: Seq<(Seq<char>, Seq<char>, Seq<char>, Seq<char>)>) -> Seq<char>
    decreases v.len(),
{
    if v.len() == 0 {
        Seq::empty()
    } else {
        tuples_xml(v.drop_last()) + tuple_xml(v.last())
    }
}

pub open spec fn entries_views(v: Seq<SitemapEntry>) -> Seq<(Seq<char>, Seq<char>, Seq<char>, Seq<char>)>
    decreases v.len(),
{
    if v.len() == 0 {
        Seq::empty()
    } else {
        entries_views(v.drop_last()).push(entry_view(v.last()))
    }
}

proof fn lemma_entries_xml_views(v: Seq<SitemapEntry>)
    ensures
        entries_xml(v) == tuples_xml(entries_views(v)),
    decreases v.len(),
{
    if v.len() > 0 {
        lemma_entries_xml_views(v.drop_last());
        let w = entries_views(v);
        assert(w.drop_last() =~= entries_views(v.drop_last()));
        assert(w.last() == entry_view(v.last()));
    }
}

proof fn lemma_views_push(v: Seq<SitemapEntry>, e: SitemapEntry)
    ensures
        entries_views(v.push(e)) == entries_views(v).push(entry_view(e)),
{
    assert(v.push(e).drop_last() =~= v);
}

fn push_entries(entries: &mut Vec<SitemapEntry>, kind: SitemapKind, base_url: &str, notes: &Vec<NoteData>)
    requires
        kind == SitemapKind::Note || kind == SitemapKind::Article || kind == SitemapKind::Profile,
    ensures
        entries_views(final(entries)@) == entries_views(old(entries)@) + match kind {
            SitemapKind::Note => note_entries(base_url@, notes@),
            SitemapKind::Article => article_entries(base_url@, notes@),
            _ => profile_entries(base_url@, notes@),
        },
{
    let ghost start = entries_views(entries@);
    let none: Vec<String> = Vec::new();
    assert(none.deep_view() =~= Seq::<Seq<char>>::empty());
    for i in 0..notes.len()
        invariant
            none.deep_view() =~= Seq::<Seq<char>>::empty(),
            kind == SitemapKind::Note || kind == SitemapKind::Article || kind == SitemapKind::Profile,
            entries_views(entries@) == start + match kind {
                SitemapKind::Note => note_entries(base_url@, notes@.take(i as int)),
                SitemapKind::Article => article_entries(base_url@, notes@.take(i as int)),
                _ => profile_entries(base_url@, notes@.take(i as int)),
            },
    {
        assert(notes@.take(i + 1).drop_last() =~= notes@.take(i as int));
        let n = &notes[i];
        let ghost before = entries@;
        match kind {
            SitemapKind::Note => {
                let b = note_bech32(n.id);
                let e = sitemap_entry(SitemapKind::Note, base_url, b.as_str(), n.created_at);
                proof {
                    lemma_views_push(before, e);
                }
                entries.push(e);
            },
            SitemapKind::Article => {
                if let Some(d) = article_identifier(&n.tags) {
                    let k = #[verifier::truncate] (n.kind as u16);
                    if let Some(b) = naddr_bech32(k, n.pubkey, d.as_str(), &none) {
                        let e = sitemap_entry(SitemapKind::Article, base_url, b.as_str(), n.created_at);
                        proof {
                            lemma_views_push(before, e);
                        }
                        entries.push(e);
                    }
                }
            },
            _ => {
                let b = npub_bech32(n.pubkey);
                let e = sitemap_entry(SitemapKind::Profile, base_url, b.as_str(), n.created_at);
                proof {
                    lemma_views_push(before, e);
                }
                entries.push(e);
            },
        }
        assert(entries_views(entries@) =~= start + match kind {
            SitemapKind::Note => note_entries(base_url@, notes@.take(i + 1)),
            SitemapKind::Article => article_entries(base_url@, notes@.take(i + 1)),
            _ => profile_entries(base_url@, notes@.take(i + 1)),
        });
    }
    assert(notes@.take(notes.len() as int) =~= notes@);
}

/// The sitemap of the site at `base_url` at time `now`, from the notes,
/// articles and profiles the store holds.
pub fn generate_sitemap_xml(
    base_url: &str,
    now: u64,
    notes: &Vec<NoteData>,
    articles: &Vec<NoteData>,
    profiles: &Vec<NoteData>,
) -> (res: String)
    ensures
        res@ == "<?xml version=\"1.0\" encoding=\"UTF-8\"?>\n<urlset xmlns=\"http://www.sitemaps.org/schemas/sitemap/0.9\">\n"@
            + tuples_xml(sitemap_entries_spec(base_url@, now, notes@, articles@, profiles@)) + "</urlset>\n"@,
{
    let mut entries: Vec<SitemapEntry> = Vec::new();
    proof {
        reveal_strlit("");
    }
    let home = sitemap_entry(SitemapKind::Home, base_url, "", now);
    proof {
        lemma_views_push(entries@, home);
    }
    entries.push(home);
    assert(entries_views(entries@) =~= seq![entry_tuple(SitemapKind::Home, base_url@, Seq::empty(), now)]);
    push_entries(&mut entries, SitemapKind::Note, base_url, notes);
    push_entries(&mut entries, SitemapKind::Article, base_url, articles);
    push_entries(&mut entries, SitemapKind::Profile, base_url, profiles);
    proof {
        lemma_entries_xml_views(entries@);
        assert(entries_views(entries@) =~= sitemap_entries_spec(
            base_url@,
            now,
            notes@,
            articles@,
            profiles@,
        ));
    }
    build_sitemap_xml(&entries)
}

} // verus!
