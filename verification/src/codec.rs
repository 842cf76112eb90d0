//! The gateway's wire form of a download record, owned end to end: a JSON
//! object with the record's fields in a fixed order, written and read by
//! verified code.  The parser's contract carries the round-trip law: every
//! encoded record parses back to a value equal in all fields to the original.
//!
//! Texts are carried verbatim, so the form covers records whose texts need no
//! JSON escaping (no quote, no backslash); progress crosses in permille, as
//! the library holds it.

use vstd::prelude::*;

use crate::text::{
    all_digits, dec_string, dec_value, digit_val, is_digit, lemma_dec_value_prefix_le,
    u64_to_decimal,
};
use crate::torrent::{TorrentInfo, TorrentInfoView};

verus! {

/// A character that JSON string bodies carry verbatim.
pub open spec fn plain_char(c: char) -> bool {
    c != '"' && c != '\\'
}

/// A text that needs no escaping on the wire.
pub open spec fn plain_text(s: Seq<char>) -> bool {
    forall|i: int| 0 <= i < s.len() ==> plain_char(#[trigger] s[i])
}

/// The decimal rendering of an integer, with a leading minus when negative.
pub open spec fn int_string(n: int) -> Seq<char> {
    if n >= 0 {
        dec_string(n as nat)
    } else {
        seq!['-'] + dec_string((-n) as nat)
    }
}

/// `content` stands in `s` at position `i`.
pub open spec fn seq_at(s: Seq<char>, i: int, content: Seq<char>) -> bool {
    0 <= i && i + content.len() <= s.len() && s.subrange(i, i + content.len()) == content
}

/// A record the wire form covers: texts need no escaping, and every numeric
/// field fits its machine type.
pub open spec fn plain_torrent(v: TorrentInfoView) -> bool {
    &&& plain_text(v.hash)
    &&& plain_text(v.name)
    &&& plain_text(v.state)
    &&& plain_text(v.category)
    &&& i64::MIN <= v.size <= i64::MAX
    &&& 0 <= v.progress_permille <= u32::MAX
    &&& i64::MIN <= v.num_seeds <= i64::MAX
    &&& i64::MIN <= v.num_leechs <= i64::MAX
    &&& i64::MIN <= v.added_on <= i64::MAX
    &&& i64::MIN <= v.eta <= i64::MAX
    &&& i64::MIN <= v.dlspeed <= i64::MAX
}

/// The wire text from the `name` key on.
pub open spec fn enc_from_name(v: TorrentInfoView) -> Seq<char> {
    ",\"name\":\""@ + (v.name + ("\""@ + enc_from_size(v)))
}

pub open spec fn enc_from_size(v: TorrentInfoView) -> Seq<char> {
    ",\"size\":"@ + (int_string(v.size) + enc_from_progress(v))
}

pub open spec fn enc_from_progress(v: TorrentInfoView) -> Seq<char> {
    ",\"progress_permille\":"@ + (int_string(v.progress_permille) + enc_from_state(v))
}

pub open spec fn enc_from_state(v: TorrentInfoView) -> Seq<char> {
    ",\"state\":\""@ + (v.state + ("\""@ + enc_from_num_seeds(v)))
}

pub open spec fn enc_from_num_seeds(v: TorrentInfoView) -> Seq<char> {
    ",\"num_seeds\":"@ + (int_string(v.num_seeds) + enc_from_num_leechs(v))
}

pub open spec fn enc_from_num_leechs(v: TorrentInfoView) -> Seq<char> {
    ",\"num_leechs\":"@ + (int_string(v.num_leechs) + enc_from_category(v))
}

pub open spec fn enc_from_category(v: TorrentInfoView) -> Seq<char> {
    ",\"category\":\""@ + (v.category + ("\""@ + enc_from_added_on(v)))
}

pub open spec fn enc_from_added_on(v: TorrentInfoView) -> Seq<char> {
    ",\"added_on\":"@ + (int_string(v.added_on) + enc_from_eta(v))
}

pub open spec fn enc_from_eta(v: TorrentInfoView) -> Seq<char> {
    ",\"eta\":"@ + (int_string(v.eta) + enc_from_dlspeed(v))
}

pub open spec fn enc_from_dlspeed(v: TorrentInfoView) -> Seq<char> {
    ",\"dlspeed\":"@ + (int_string(v.dlspeed) + "}"@)
}

/// The complete wire text of a record.
pub open spec fn enc_torrent(v: TorrentInfoView) -> Seq<char> {
    "{\"hash\":\""@ + (v.hash + ("\""@ + enc_from_name(v)))
}

/// The decimal rendering of a number consists of digits, is never empty, and
/// denotes the number itself.
pub proof fn lemma_dec_string_value(n: nat)
    ensures
        all_digits(dec_string(n)),
        dec_string(n).len() >= 1,
        dec_value(dec_string(n)) == n,
    decreases n,
{
    if n < 10 {
        assert(dec_string(n) =~= seq![crate::text::digit_char(n)]);
        assert(dec_value(dec_string(n).drop_last()) == 0) by {
            assert(dec_string(n).drop_last() =~= Seq::<char>::empty());
        }
    } else {
        lemma_dec_string_value(n / 10);
        let prefix = dec_string(n / 10);
        let whole = dec_string(n);
        assert(whole == prefix.push(crate::text::digit_char(n % 10)));
        assert(whole.drop_last() =~= prefix);
        assert(all_digits(whole)) by {
            assert forall|i: int| 0 <= i < whole.len() implies is_digit(#[trigger] whole[i]) by {
                if i < prefix.len() {
                    assert(whole[i] == prefix[i]);
                }
            }
        }
        assert(dec_value(whole) == dec_value(prefix) * 10 + digit_val(whole.last()));
    }
}

/// Renders a signed integer in decimal.
pub fn i64_to_decimal(n: i64) -> (r: String)
    ensures
        r@ == int_string(n as int),
{
    if n >= 0 {
        u64_to_decimal(n as u64)
    } else {
        let mag: u64 = ((-(n + 1)) as u64) + 1;
        proof {
            assert(mag as int == -(n as int));
        }
        let r = "-".to_owned().concat(u64_to_decimal(mag).as_str());
        proof {
            reveal_strlit("-");
            assert(r@ =~= seq!['-'] + dec_string((-(n as int)) as nat));
        }
        r
    }
}

/// One string field's wire text followed by what comes after it:
/// `lit + text + "\"" + rest`.
fn enc_text_step(lit: &str, text: &str, rest: String) -> (r: String)
    ensures
        r@ == lit@ + (text@ + ("\""@ + rest@)),
{
    let r = lit.to_owned().concat(text).concat("\"").concat(rest.as_str());
    proof {
        assert(r@ =~= lit@ + (text@ + ("\""@ + rest@)));
    }
    r
}

/// One numeric field's wire text followed by what comes after it:
/// `lit + number + rest`.
fn enc_int_step(lit: &str, number: String, rest: String) -> (r: String)
    ensures
        r@ == lit@ + (number@ + rest@),
{
    let r = lit.to_owned().concat(number.as_str()).concat(rest.as_str());
    proof {
        assert(r@ =~= lit@ + (number@ + rest@));
    }
    r
}

/// Writes a record in the wire form, building it from the last field back.
pub fn encode_torrent(t: &TorrentInfo) -> (r: String)
    ensures
        r@ == enc_torrent(t@),
{
    let r = "}".to_owned();
    let r = enc_int_step(",\"dlspeed\":", i64_to_decimal(t.dlspeed), r);
    assert(r@ == enc_from_dlspeed(t@));
    let r = enc_int_step(",\"eta\":", i64_to_decimal(t.eta), r);
    assert(r@ == enc_from_eta(t@));
    let r = enc_int_step(",\"added_on\":", i64_to_decimal(t.added_on), r);
    assert(r@ == enc_from_added_on(t@));
    let r = enc_text_step(",\"category\":\"", t.category.as_str(), r);
    assert(r@ == enc_from_category(t@));
    let r = enc_int_step(",\"num_leechs\":", i64_to_decimal(t.num_leechs), r);
    assert(r@ == enc_from_num_leechs(t@));
    let r = enc_int_step(",\"num_seeds\":", i64_to_decimal(t.num_seeds), r);
    assert(r@ == enc_from_num_seeds(t@));
    let r = enc_text_step(",\"state\":\"", t.state.as_str(), r);
    assert(r@ == enc_from_state(t@));
    let r = enc_int_step(
        ",\"progress_permille\":",
        u64_to_decimal(t.progress_permille as u64),
        r,
    );
    assert(r@ == enc_from_progress(t@));
    let r = enc_int_step(",\"size\":", i64_to_decimal(t.size), r);
    assert(r@ == enc_from_size(t@));
    let r = enc_text_step(",\"name\":\"", t.name.as_str(), r);
    assert(r@ == enc_from_name(t@));
    let r = enc_text_step("{\"hash\":\"", t.hash.as_str(), r);
    assert(r@ == enc_torrent(t@));
    r
}

/// Matches the exact text `lit` at position `i`.
fn expect_lit(s: &str, i: usize, lit: &str) -> (r: Option<usize>)
    requires
        i <= s@.len(),
    ensures
        r matches Some(j) ==> j == i + lit@.len() && seq_at(s@, i as int, lit@),
        i + lit@.len() <= s@.len() && seq_at(s@, i as int, lit@) ==> r is Some,
{
    let n: usize = s.unicode_len();
    let m: usize = lit.unicode_len();
    if m > n - i {
        return None;
    }
    let mut j: usize = 0;
    while j < m
        invariant
            n == s@.len(),
            m == lit@.len(),
            i + m <= n,
            j <= m,
            forall|k: int| 0 <= k < j ==> s@[i + k] == lit@[k],
        decreases m - j,
    {
        let a = s.get_char(i + j);
        let b = lit.get_char(j);
        if a != b {
            proof {
                if seq_at(s@, i as int, lit@) {
                    assert(s@.subrange(i as int, i + lit@.len())[j as int] == lit@[j as int]);
                }
            }
            return None;
        }
        j += 1;
    }
    proof {
        assert(s@.subrange(i as int, i + m) =~= lit@);
    }
    Some(i + m)
}

/// Reads text up to the next quote, returning it and the position after the
/// quote.  Accepts exactly the encoder's text form: wherever the input holds
/// an unescaped text followed by its closing quote, the text comes back
/// verbatim.
fn scan_string(s: &str, i: usize) -> (r: Option<(String, usize)>)
    requires
        i <= s@.len(),
    ensures
        r matches Some(p) ==> p.1 <= s@.len(),
        forall|content: Seq<char>|
            (#[trigger] plain_text(content) && i + content.len() < s@.len() && seq_at(
                s@,
                i as int,
                content,
            ) && s@[i + content.len()] == '"') ==> (r matches Some(p) && p.0@ == content && p.1
                == i + content.len() + 1),
{
    let n: usize = s.unicode_len();
    let mut k: usize = i;
    while k < n
        invariant
            n == s@.len(),
            i <= k <= n,
            forall|j: int| i <= j < k ==> s@[j] != '"',
        decreases n - k,
    {
        let c = s.get_char(k);
        if c == '"' {
            let content = s.substring_char(i, k).to_owned();
            let result = Some((content, k + 1));
            proof {
                assert forall|body: Seq<char>|
                    (#[trigger] plain_text(body) && i + body.len() < s@.len() && seq_at(
                        s@,
                        i as int,
                        body,
                    ) && s@[i + body.len()] == '"') implies (result matches Some(p) && p.0@ == body
                    && p.1 == i + body.len() + 1) by {
                    let e = i + body.len();
                    if k < e {
                        assert(s@.subrange(i as int, e as int)[k - i] == s@[k as int]);
                        assert(plain_char(body[k - i]));
                        assert(false);
                    }
                    if k > e {
                        assert(s@[e as int] != '"');
                        assert(false);
                    }
                    assert(s@.subrange(i as int, k as int) == body);
                }
            }
            return result;
        }
        k += 1;
    }
    proof {
        assert forall|body: Seq<char>|
            !(#[trigger] plain_text(body) && i + body.len() < s@.len() && seq_at(s@, i as int, body)
                && s@[i + body.len()] == '"') by {
            if i + body.len() < s@.len() && s@[i + body.len()] == '"' {
                assert(s@[i + body.len()] != '"');
            }
        }
    }
    None
}

/// Where the scanner's digit run must end when the input holds `int_string(n)`
/// at position `i`, and what the run denotes.
proof fn lemma_scan_correspond(
    s: Seq<char>,
    i: int,
    neg: bool,
    start: int,
    k: int,
    acc: u64,
    n: int,
)
    requires
        0 <= i <= start <= k <= s.len(),
        neg ==> start == i + 1 && i < s.len() && s[i] == '-',
        !neg ==> start == i,
        i < s.len() && s[i] == '-' ==> neg,
        forall|j: int| start <= j < k ==> is_digit(#[trigger] s[j]),
        k == s.len() || !is_digit(s[k]),
        acc as nat == dec_value(s.subrange(start, k)),
        i + int_string(n).len() < s.len(),
        seq_at(s, i, int_string(n)),
        !is_digit(s[i + int_string(n).len()]),
    ensures
        k == i + int_string(n).len(),
        n >= 0 ==> !neg && acc as int == n,
        n < 0 ==> neg && acc as int == -n,
{
    let repr = int_string(n);
    let e = i + repr.len();
    assert(forall|t: int| 0 <= t < repr.len() ==> s[i + t] == #[trigger] repr[t]) by {
        assert forall|t: int| 0 <= t < repr.len() implies s[i + t] == #[trigger] repr[t] by {
            assert(s.subrange(i, e)[t] == s[i + t]);
        }
    }
    if n >= 0 {
        lemma_dec_string_value(n as nat);
        assert(is_digit(repr[0]));
        assert(s[i] != '-');
        assert(!neg);
        assert(forall|j: int| i <= j < e ==> is_digit(#[trigger] s[j])) by {
            assert forall|j: int| i <= j < e implies is_digit(#[trigger] s[j]) by {
                assert(s[j] == repr[j - i]);
            }
        }
        if k < e {
            assert(is_digit(s[k]));
            assert(false);
        }
        if k > e {
            assert(is_digit(s[e]));
            assert(false);
        }
        assert(s.subrange(start, k) == repr);
        assert(acc as int == n);
    } else {
        lemma_dec_string_value((-n) as nat);
        let digits = dec_string((-n) as nat);
        assert(repr == seq!['-'] + digits);
        assert(repr[0] == '-');
        assert(s[i] == '-');
        assert(neg);
        assert(forall|j: int| i + 1 <= j < e ==> is_digit(#[trigger] s[j])) by {
            assert forall|j: int| i + 1 <= j < e implies is_digit(#[trigger] s[j]) by {
                assert(s[j] == repr[j - i]);
                assert(repr[j - i] == digits[j - i - 1]);
            }
        }
        if k < e {
            assert(is_digit(s[k]));
            assert(false);
        }
        if k > e {
            assert(is_digit(s[e]));
            assert(false);
        }
        assert forall|t: int| 0 <= t < digits.len() implies s.subrange(start, k)[t] == digits[t] by {
            assert(s[i + (t + 1)] == repr[t + 1]);
            assert(repr[t + 1] == digits[t]);
        }
        assert(s.subrange(start, k) =~= digits);
        assert(acc as int == -n);
    }
}

/// While the scanner stands inside the digit run of a representable number's
/// rendering, the magnitude accumulated so far, extended by the digit under
/// the scanner, stays within the largest representable magnitude.
proof fn lemma_scan_overflow(s: Seq<char>, i: int, neg: bool, start: int, k: int, acc: u64, n: int)
    requires
        0 <= i <= start <= k < s.len(),
        neg ==> start == i + 1 && i < s.len() && s[i] == '-',
        !neg ==> start == i,
        i < s.len() && s[i] == '-' ==> neg,
        forall|j: int| start <= j < k ==> is_digit(#[trigger] s[j]),
        is_digit(s[k]),
        acc as nat == dec_value(s.subrange(start, k)),
        i64::MIN <= n <= i64::MAX,
        i + int_string(n).len() < s.len(),
        seq_at(s, i, int_string(n)),
        !is_digit(s[i + int_string(n).len()]),
    ensures
        acc as nat * 10 + digit_val(s[k]) <= 0x8000_0000_0000_0000,
{
    let repr = int_string(n);
    let e = i + repr.len();
    assert(forall|t: int| 0 <= t < repr.len() ==> s[i + t] == #[trigger] repr[t]) by {
        assert forall|t: int| 0 <= t < repr.len() implies s[i + t] == #[trigger] repr[t] by {
            assert(s.subrange(i, e)[t] == s[i + t]);
        }
    }
    let m: nat = if n >= 0 {
        n as nat
    } else {
        (-n) as nat
    };
    lemma_dec_string_value(m);
    let digits = dec_string(m);
    let dstart: int = if n >= 0 {
        i
    } else {
        i + 1
    };
    if n >= 0 {
        assert(is_digit(repr[0]));
        assert(s[i] != '-');
        assert(!neg);
    } else {
        assert(repr == seq!['-'] + digits);
        assert(repr[0] == '-');
        assert(s[i] == '-');
        assert(neg);
    }
    assert(start == dstart);
    assert forall|t: int| 0 <= t < digits.len() implies s.subrange(dstart, e)[t] == digits[t] by {
        if n >= 0 {
            assert(s[i + t] == repr[t]);
        } else {
            assert(s[i + (t + 1)] == repr[t + 1]);
            assert(repr[t + 1] == digits[t]);
        }
    }
    assert(s.subrange(dstart, e) =~= digits);
    // The digit run that holds `digits` extends at least one place past `k`.
    if k >= e {
        assert(is_digit(s[e]));
        assert(false);
    }
    // The value scanned so far, extended by the digit at `k`, is the value of
    // a prefix of `digits`, so it cannot exceed the whole.
    assert(digits.subrange(0, k + 1 - dstart) =~= s.subrange(dstart, k + 1));
    assert(s.subrange(dstart, k + 1).drop_last() =~= s.subrange(dstart, k));
    assert(dec_value(s.subrange(dstart, k + 1)) == acc as nat * 10 + digit_val(s[k]));
    lemma_dec_value_prefix_le(digits, k + 1 - dstart);
    assert(acc as nat * 10 + digit_val(s[k]) <= m);
    assert(m <= 0x8000_0000_0000_0000);
}

/// Reads a decimal integer (optional leading minus) ending at the first
/// non-digit.  Accepts exactly the encoder's number form: wherever the input
/// holds the rendering of a representable number followed by a non-digit, the
/// number comes back.
fn scan_int(s: &str, i: usize) -> (r: Option<(i64, usize)>)
    requires
        i <= s@.len(),
    ensures
        r matches Some(p) ==> p.1 <= s@.len(),
        forall|n: int|
            (i64::MIN <= n <= i64::MAX && i + (#[trigger] int_string(n)).len() < s@.len() && seq_at(
                s@,
                i as int,
                int_string(n),
            ) && !is_digit(s@[i + int_string(n).len()])) ==> (r matches Some(p) && p.0 as int == n
                && p.1 == i + int_string(n).len()),
{
    let n_len: usize = s.unicode_len();
    if i == n_len {
        proof {
            assert forall|n: int| !(i + (#[trigger] int_string(n)).len() < s@.len()) by {
                if n >= 0 {
                    lemma_dec_string_value(n as nat);
                } else {
                    lemma_dec_string_value((-n) as nat);
                }
            }
        }
        return None;
    }
    let mut neg = false;
    let mut start: usize = i;
    if s.get_char(i) == '-' {
        neg = true;
        start = i + 1;
    }
    let mut k: usize = start;
    let mut acc: u64 = 0;
    proof {
        assert(s@.subrange(start as int, start as int) =~= Seq::<char>::empty());
    }
    loop
        invariant
            n_len == s@.len(),
            i <= start <= k <= n_len,
            start <= i + 1,
            neg ==> start == i + 1 && i < n_len && s@[i as int] == '-',
            !neg ==> start == i,
            i < n_len && s@[i as int] == '-' ==> neg,
            forall|j: int| start <= j < k ==> is_digit(#[trigger] s@[j]),
            acc as nat == dec_value(s@.subrange(start as int, k as int)),
            acc <= 0x8000_0000_0000_0000,
        ensures
            n_len == s@.len(),
            i <= start <= k <= n_len,
            neg ==> start == i + 1 && i < n_len && s@[i as int] == '-',
            !neg ==> start == i,
            i < n_len && s@[i as int] == '-' ==> neg,
            forall|j: int| start <= j < k ==> is_digit(#[trigger] s@[j]),
            k == n_len || !is_digit(s@[k as int]),
            acc as nat == dec_value(s@.subrange(start as int, k as int)),
            acc <= 0x8000_0000_0000_0000,
        decreases n_len - k,
    {
        if k == n_len {
            break;
        }
        let c = s.get_char(k);
        let d: u64 = if c == '0' {
            0
        } else if c == '1' {
            1
        } else if c == '2' {
            2
        } else if c == '3' {
            3
        } else if c == '4' {
            4
        } else if c == '5' {
            5
        } else if c == '6' {
            6
        } else if c == '7' {
            7
        } else if c == '8' {
            8
        } else if c == '9' {
            9
        } else {
            assert(!is_digit(s@[k as int]));
            break;
        };
        if acc > 922_337_203_685_477_580 || (acc == 922_337_203_685_477_580 && d > 8) {
            proof {
                assert forall|n: int|
                    !(i64::MIN <= n <= i64::MAX && i + (#[trigger] int_string(n)).len() < s@.len()
                        && seq_at(s@, i as int, int_string(n)) && !is_digit(
                        s@[i + int_string(n).len()],
                    )) by {
                    if i64::MIN <= n <= i64::MAX && i + int_string(n).len() < s@.len() && seq_at(
                        s@,
                        i as int,
                        int_string(n),
                    ) && !is_digit(s@[i + int_string(n).len()]) {
                        lemma_scan_overflow(s@, i as int, neg, start as int, k as int, acc, n);
                    }
                }
            }
            return None;
        }
        proof {
            assert(s@.subrange(start as int, k as int + 1).drop_last() =~= s@.subrange(
                start as int,
                k as int,
            ));
        }
        acc = acc * 10 + d;
        k += 1;
    }
    if k == start {
        proof {
            assert forall|n: int|
                !(i64::MIN <= n <= i64::MAX && i + (#[trigger] int_string(n)).len() < s@.len()
                    && seq_at(s@, i as int, int_string(n)) && !is_digit(s@[i + int_string(n).len()]))
                by {
                if i64::MIN <= n <= i64::MAX && i + int_string(n).len() < s@.len() && seq_at(
                    s@,
                    i as int,
                    int_string(n),
                ) && !is_digit(s@[i + int_string(n).len()]) {
                    lemma_scan_correspond(s@, i as int, neg, start as int, k as int, acc, n);
                }
            }
        }
        return None;
    }
    let value: i64 = if neg {
        if acc == 9_223_372_036_854_775_808 {
            i64::MIN
        } else {
            -(acc as i64)
        }
    } else {
        if acc > 9_223_372_036_854_775_807 {
            proof {
                assert forall|n: int|
                    !(i64::MIN <= n <= i64::MAX && i + (#[trigger] int_string(n)).len() < s@.len()
                        && seq_at(s@, i as int, int_string(n)) && !is_digit(
                        s@[i + int_string(n).len()],
                    )) by {
                    if i64::MIN <= n <= i64::MAX && i + int_string(n).len() < s@.len() && seq_at(
                        s@,
                        i as int,
                        int_string(n),
                    ) && !is_digit(s@[i + int_string(n).len()]) {
                        lemma_scan_correspond(s@, i as int, neg, start as int, k as int, acc, n);
                    }
                }
            }
            return None;
        }
        acc as i64
    };
    let result = Some((value, k));
    proof {
        assert forall|n: int|
            (i64::MIN <= n <= i64::MAX && i + (#[trigger] int_string(n)).len() < s@.len() && seq_at(
                s@,
                i as int,
                int_string(n),
            ) && !is_digit(s@[i + int_string(n).len()])) implies (result matches Some(p) && p.0
            as int == n && p.1 == i + int_string(n).len()) by {
            lemma_scan_correspond(s@, i as int, neg, start as int, k as int, acc, n);
        }
    }
    result
}

/// Where each piece of the wire text stands, for a given record.
pub open spec fn off_hash(v: TorrentInfoView) -> int {
    "{\"hash\":\""@.len() as int
}

pub open spec fn off_name(v: TorrentInfoView) -> int {
    off_hash(v) + v.hash.len() + 1 + ",\"name\":\""@.len()
}

pub open spec fn off_size(v: TorrentInfoView) -> int {
    off_name(v) + v.name.len() + 1 + ",\"size\":"@.len()
}

pub open spec fn off_progress(v: TorrentInfoView) -> int {
    off_size(v) + int_string(v.size).len() + ",\"progress_permille\":"@.len()
}

pub open spec fn off_state(v: TorrentInfoView) -> int {
    off_progress(v) + int_string(v.progress_permille).len() + ",\"state\":\""@.len()
}

pub open spec fn off_num_seeds(v: TorrentInfoView) -> int {
    off_state(v) + v.state.len() + 1 + ",\"num_seeds\":"@.len()
}

pub open spec fn off_num_leechs(v: TorrentInfoView) -> int {
    off_num_seeds(v) + int_string(v.num_seeds).len() + ",\"num_leechs\":"@.len()
}

pub open spec fn off_category(v: TorrentInfoView) -> int {
    off_num_leechs(v) + int_string(v.num_leechs).len() + ",\"category\":\""@.len()
}

pub open spec fn off_added_on(v: TorrentInfoView) -> int {
    off_category(v) + v.category.len() + 1 + ",\"added_on\":"@.len()
}

pub open spec fn off_eta(v: TorrentInfoView) -> int {
    off_added_on(v) + int_string(v.added_on).len() + ",\"eta\":"@.len()
}

pub open spec fn off_dlspeed(v: TorrentInfoView) -> int {
    off_eta(v) + int_string(v.eta).len() + ",\"dlspeed\":"@.len()
}

/// A suffix of `s` that is a concatenation splits into its two parts.
proof fn lemma_suffix_split(s: Seq<char>, i: int, a: Seq<char>, b: Seq<char>)
    requires
        0 <= i <= s.len(),
        s.subrange(i, s.len() as int) == a + b,
    ensures
        i + a.len() + b.len() == s.len(),
        seq_at(s, i, a),
        s.subrange(i + a.len(), s.len() as int) == b,
{
    assert((a + b).len() == s.len() - i);
    assert forall|t: int| 0 <= t < a.len() implies s.subrange(i, i + a.len())[t] == a[t] by {
        assert(s.subrange(i, s.len() as int)[t] == s[i + t]);
        assert(s.subrange(i, i + a.len())[t] == s[i + t]);
        assert((a + b)[t] == a[t]);
    }
    assert(s.subrange(i, i + a.len()) =~= a);
    assert forall|t: int| 0 <= t < b.len() implies s.subrange(i + a.len(), s.len() as int)[t]
        == b[t] by {
        assert(s.subrange(i, s.len() as int)[a.len() + t] == s[i + a.len() + t]);
        assert(s.subrange(i + a.len(), s.len() as int)[t] == s[i + a.len() + t]);
        assert((a + b)[a.len() + t] == b[t]);
    }
    assert(s.subrange(i + a.len(), s.len() as int) =~= b);
}

/// One string field of the wire text: the key literal, the text, its closing
/// quote, then the rest.
proof fn lemma_shape_text_step(s: Seq<char>, p: int, lit: Seq<char>, text: Seq<char>, rest: Seq<
    char,
>)
    requires
        0 <= p <= s.len(),
        s.subrange(p, s.len() as int) == lit + (text + ("\""@ + rest)),
        rest.len() >= 1,
    ensures
        seq_at(s, p, lit),
        seq_at(s, p + lit.len(), text),
        p + lit.len() + text.len() < s.len(),
        s[p + lit.len() + text.len()] == '"',
        0 <= p + lit.len() + text.len() + 1 <= s.len(),
        s.subrange(p + lit.len() + text.len() + 1, s.len() as int) == "\""@.skip(1) + rest,
        "\""@.skip(1) + rest == rest,
{
    reveal_strlit("\"");
    lemma_suffix_split(s, p, lit, text + ("\""@ + rest));
    lemma_suffix_split(s, p + lit.len(), text, "\""@ + rest);
    let q = p + lit.len() + text.len();
    assert(s.subrange(q, s.len() as int)[0] == s[q]);
    assert(("\""@ + rest)[0] == '"');
    lemma_suffix_split(s, q, "\""@, rest);
    assert("\""@.skip(1) + rest =~= rest);
}

/// One numeric field of the wire text: the key literal, the rendering, then
/// the rest, whose first character is no digit.
proof fn lemma_shape_int_step(s: Seq<char>, p: int, lit: Seq<char>, numrepr: Seq<char>, rest: Seq<
    char,
>)
    requires
        0 <= p <= s.len(),
        s.subrange(p, s.len() as int) == lit + (numrepr + rest),
        rest.len() >= 1,
        !is_digit(rest[0]),
    ensures
        seq_at(s, p, lit),
        seq_at(s, p + lit.len(), numrepr),
        p + lit.len() + numrepr.len() < s.len(),
        !is_digit(s[p + lit.len() + numrepr.len()]),
        s.subrange(p + lit.len() + numrepr.len(), s.len() as int) == rest,
{
    lemma_suffix_split(s, p, lit, numrepr + rest);
    lemma_suffix_split(s, p + lit.len(), numrepr, rest);
    let q = p + lit.len() + numrepr.len();
    assert(s.subrange(q, s.len() as int)[0] == s[q]);
}

/// Where every key, text, number and delimiter of a record's wire text
/// stands, and what stands there.
proof fn lemma_enc_shape(v: TorrentInfoView, s: Seq<char>)
    requires
        plain_torrent(v),
        s == enc_torrent(v),
    ensures
        seq_at(s, 0, "{\"hash\":\""@),
        off_hash(v) + v.hash.len() < s.len(),
        seq_at(s, off_hash(v), v.hash),
        s[off_hash(v) + v.hash.len()] == '"',
        seq_at(s, off_hash(v) + v.hash.len() + 1, ",\"name\":\""@),
        off_name(v) + v.name.len() < s.len(),
        seq_at(s, off_name(v), v.name),
        s[off_name(v) + v.name.len()] == '"',
        seq_at(s, off_name(v) + v.name.len() + 1, ",\"size\":"@),
        off_size(v) + int_string(v.size).len() < s.len(),
        seq_at(s, off_size(v), int_string(v.size)),
        !is_digit(s[off_size(v) + int_string(v.size).len()]),
        seq_at(s, off_size(v) + int_string(v.size).len(), ",\"progress_permille\":"@),
        off_progress(v) + int_string(v.progress_permille).len() < s.len(),
        seq_at(s, off_progress(v), int_string(v.progress_permille)),
        !is_digit(s[off_progress(v) + int_string(v.progress_permille).len()]),
        seq_at(s, off_progress(v) + int_string(v.progress_permille).len(), ",\"state\":\""@),
        off_state(v) + v.state.len() < s.len(),
        seq_at(s, off_state(v), v.state),
        s[off_state(v) + v.state.len()] == '"',
        seq_at(s, off_state(v) + v.state.len() + 1, ",\"num_seeds\":"@),
        off_num_seeds(v) + int_string(v.num_seeds).len() < s.len(),
        seq_at(s, off_num_seeds(v), int_string(v.num_seeds)),
        !is_digit(s[off_num_seeds(v) + int_string(v.num_seeds).len()]),
        seq_at(s, off_num_seeds(v) + int_string(v.num_seeds).len(), ",\"num_leechs\":"@),
        off_num_leechs(v) + int_string(v.num_leechs).len() < s.len(),
        seq_at(s, off_num_leechs(v), int_string(v.num_leechs)),
        !is_digit(s[off_num_leechs(v) + int_string(v.num_leechs).len()]),
        seq_at(s, off_num_leechs(v) + int_string(v.num_leechs).len(), ",\"category\":\""@),
        off_category(v) + v.category.len() < s.len(),
        seq_at(s, off_category(v), v.category),
        s[off_category(v) + v.category.len()] == '"',
        seq_at(s, off_category(v) + v.category.len() + 1, ",\"added_on\":"@),
        off_added_on(v) + int_string(v.added_on).len() < s.len(),
        seq_at(s, off_added_on(v), int_string(v.added_on)),
        !is_digit(s[off_added_on(v) + int_string(v.added_on).len()]),
        seq_at(s, off_added_on(v) + int_string(v.added_on).len(), ",\"eta\":"@),
        off_eta(v) + int_string(v.eta).len() < s.len(),
        seq_at(s, off_eta(v), int_string(v.eta)),
        !is_digit(s[off_eta(v) + int_string(v.eta).len()]),
        seq_at(s, off_eta(v) + int_string(v.eta).len(), ",\"dlspeed\":"@),
        off_dlspeed(v) + int_string(v.dlspeed).len() < s.len(),
        seq_at(s, off_dlspeed(v), int_string(v.dlspeed)),
        !is_digit(s[off_dlspeed(v) + int_string(v.dlspeed).len()]),
        seq_at(s, off_dlspeed(v) + int_string(v.dlspeed).len(), "}"@),
        s.len() == off_dlspeed(v) + int_string(v.dlspeed).len() + 1,
{
    reveal_strlit("{\"hash\":\"");
    reveal_strlit(",\"name\":\"");
    reveal_strlit(",\"size\":");
    reveal_strlit(",\"progress_permille\":");
    reveal_strlit(",\"state\":\"");
    reveal_strlit(",\"num_seeds\":");
    reveal_strlit(",\"num_leechs\":");
    reveal_strlit(",\"category\":\"");
    reveal_strlit(",\"added_on\":");
    reveal_strlit(",\"eta\":");
    reveal_strlit(",\"dlspeed\":");
    reveal_strlit("}");
    reveal_strlit("\"");
    assert(s.subrange(0, s.len() as int) =~= s);
    lemma_shape_text_step(s, 0, "{\"hash\":\""@, v.hash, enc_from_name(v));
    let p1 = off_hash(v) + v.hash.len() + 1;
    assert(s.subrange(p1, s.len() as int) == enc_from_name(v));
    lemma_shape_text_step(s, p1, ",\"name\":\""@, v.name, enc_from_size(v));
    let p2 = off_name(v) + v.name.len() + 1;
    assert(s.subrange(p2, s.len() as int) == enc_from_size(v));
    assert(enc_from_progress(v)[0] == ',');
    lemma_shape_int_step(s, p2, ",\"size\":"@, int_string(v.size), enc_from_progress(v));
    let p3 = off_size(v) + int_string(v.size).len();
    assert(s.subrange(p3, s.len() as int) == enc_from_progress(v));
    assert(enc_from_state(v)[0] == ',');
    lemma_shape_int_step(
        s,
        p3,
        ",\"progress_permille\":"@,
        int_string(v.progress_permille),
        enc_from_state(v),
    );
    let p4 = off_progress(v) + int_string(v.progress_permille).len();
    assert(s.subrange(p4, s.len() as int) == enc_from_state(v));
    lemma_shape_text_step(s, p4, ",\"state\":\""@, v.state, enc_from_num_seeds(v));
    let p5 = off_state(v) + v.state.len() + 1;
    assert(s.subrange(p5, s.len() as int) == enc_from_num_seeds(v));
    assert(enc_from_num_leechs(v)[0] == ',');
    lemma_shape_int_step(s, p5, ",\"num_seeds\":"@, int_string(v.num_seeds), enc_from_num_leechs(v));
    let p6 = off_num_seeds(v) + int_string(v.num_seeds).len();
    assert(s.subrange(p6, s.len() as int) == enc_from_num_leechs(v));
    assert(enc_from_category(v)[0] == ',');
    lemma_shape_int_step(
        s,
        p6,
        ",\"num_leechs\":"@,
        int_string(v.num_leechs),
        enc_from_category(v),
    );
    let p7 = off_num_leechs(v) + int_string(v.num_leechs).len();
    assert(s.subrange(p7, s.len() as int) == enc_from_category(v));
    lemma_shape_text_step(s, p7, ",\"category\":\""@, v.category, enc_from_added_on(v));
    let p8 = off_category(v) + v.category.len() + 1;
    assert(s.subrange(p8, s.len() as int) == enc_from_added_on(v));
    assert(enc_from_eta(v)[0] == ',');
    lemma_shape_int_step(s, p8, ",\"added_on\":"@, int_string(v.added_on), enc_from_eta(v));
    let p9 = off_added_on(v) + int_string(v.added_on).len();
    assert(s.subrange(p9, s.len() as int) == enc_from_eta(v));
    assert(enc_from_dlspeed(v)[0] == ',');
    lemma_shape_int_step(s, p9, ",\"eta\":"@, int_string(v.eta), enc_from_dlspeed(v));
    let p10 = off_eta(v) + int_string(v.eta).len();
    assert(s.subrange(p10, s.len() as int) == enc_from_dlspeed(v));
    assert((int_string(v.dlspeed) + "}"@)[int_string(v.dlspeed).len() as int] == '}');
    lemma_shape_int_step(s, p10, ",\"dlspeed\":"@, int_string(v.dlspeed), "}"@);
    let p11 = off_dlspeed(v) + int_string(v.dlspeed).len();
    assert(s.subrange(p11, s.len() as int) == "}"@);
    assert(seq_at(s, p11, "}"@)) by {
        assert(s.subrange(p11, p11 + 1) =~= s.subrange(p11, s.len() as int));
    }
}


/// Reads a record back from the wire form.  The contract carries the
/// round-trip law: for every covered record value, the parse of its encoding
/// succeeds and returns a record equal to it in all fields.
#[verifier::rlimit(100)]
pub fn parse_torrent(s: &str) -> (r: Option<TorrentInfo>)
    ensures
        forall|v: TorrentInfoView|
            (plain_torrent(v) && s@ == #[trigger] enc_torrent(v)) ==> (r matches Some(t) && t@
                == v),
{
    let st0: Option<usize> = expect_lit(s, 0, "{\"hash\":\"");
    let st1: Option<(String, usize)> = match st0 {
        Some(p) => scan_string(s, p),
        None => None,
    };
    let st2: Option<usize> = match &st1 {
        Some(pair) => expect_lit(s, pair.1, ",\"name\":\""),
        None => None,
    };
    let st3: Option<(String, usize)> = match st2 {
        Some(p) => scan_string(s, p),
        None => None,
    };
    let st4: Option<usize> = match &st3 {
        Some(pair) => expect_lit(s, pair.1, ",\"size\":"),
        None => None,
    };
    let st5: Option<(i64, usize)> = match st4 {
        Some(p) => scan_int(s, p),
        None => None,
    };
    let st6: Option<usize> = match &st5 {
        Some(pair) => expect_lit(s, pair.1, ",\"progress_permille\":"),
        None => None,
    };
    let st7: Option<(i64, usize)> = match st6 {
        Some(p) => scan_int(s, p),
        None => None,
    };
    let stp: Option<(u32, usize)> = match &st7 {
        Some(pair) => if 0 <= pair.0 && pair.0 <= u32::MAX as i64 {
            Some((pair.0 as u32, pair.1))
        } else {
            None
        },
        None => None,
    };
    let st8: Option<usize> = match &stp {
        Some(pair) => expect_lit(s, pair.1, ",\"state\":\""),
        None => None,
    };
    let st9: Option<(String, usize)> = match st8 {
        Some(p) => scan_string(s, p),
        None => None,
    };
    let st10: Option<usize> = match &st9 {
        Some(pair) => expect_lit(s, pair.1, ",\"num_seeds\":"),
        None => None,
    };
    let st11: Option<(i64, usize)> = match st10 {
        Some(p) => scan_int(s, p),
        None => None,
    };
    let st12: Option<usize> = match &st11 {
        Some(pair) => expect_lit(s, pair.1, ",\"num_leechs\":"),
        None => None,
    };
    let st13: Option<(i64, usize)> = match st12 {
        Some(p) => scan_int(s, p),
        None => None,
    };
    let st14: Option<usize> = match &st13 {
        Some(pair) => expect_lit(s, pair.1, ",\"category\":\""),
        None => None,
    };
    let st15: Option<(String, usize)> = match st14 {
        Some(p) => scan_string(s, p),
        None => None,
    };
    let st16: Option<usize> = match &st15 {
        Some(pair) => expect_lit(s, pair.1, ",\"added_on\":"),
        None => None,
    };
    let st17: Option<(i64, usize)> = match st16 {
        Some(p) => scan_int(s, p),
        None => None,
    };
    let st18: Option<usize> = match &st17 {
        Some(pair) => expect_lit(s, pair.1, ",\"eta\":"),
        None => None,
    };
    let st19: Option<(i64, usize)> = match st18 {
        Some(p) => scan_int(s, p),
        None => None,
    };
    let st20: Option<usize> = match &st19 {
        Some(pair) => expect_lit(s, pair.1, ",\"dlspeed\":"),
        None => None,
    };
    let st21: Option<(i64, usize)> = match st20 {
        Some(p) => scan_int(s, p),
        None => None,
    };
    let st22: Option<usize> = match &st21 {
        Some(pair) => expect_lit(s, pair.1, "}"),
        None => None,
    };
    let n_len: usize = s.unicode_len();
    proof {
        assert forall|v: TorrentInfoView| (plain_torrent(v) && s@ == #[trigger] enc_torrent(v))
            implies ({
            &&& (st1 matches Some(p1) && p1.0@ == v.hash && p1.1 == off_hash(v) + v.hash.len() + 1)
            &&& (st3 matches Some(p3) && p3.0@ == v.name && p3.1 == off_name(v) + v.name.len() + 1)
            &&& (st5 matches Some(p5) && p5.0 as int == v.size && p5.1 == off_size(v)
                + int_string(v.size).len())
            &&& (st7 matches Some(p7) && p7.0 as int == v.progress_permille)
            &&& (stp matches Some(pp) && pp.0 as int == v.progress_permille && pp.1
                == off_progress(v) + int_string(v.progress_permille).len())
            &&& (st9 matches Some(p9) && p9.0@ == v.state && p9.1 == off_state(v) + v.state.len()
                + 1)
            &&& (st11 matches Some(p11) && p11.0 as int == v.num_seeds && p11.1 == off_num_seeds(v)
                + int_string(v.num_seeds).len())
            &&& (st13 matches Some(p13) && p13.0 as int == v.num_leechs && p13.1
                == off_num_leechs(v) + int_string(v.num_leechs).len())
            &&& (st15 matches Some(p15) && p15.0@ == v.category && p15.1 == off_category(v)
                + v.category.len() + 1)
            &&& (st17 matches Some(p17) && p17.0 as int == v.added_on && p17.1 == off_added_on(v)
                + int_string(v.added_on).len())
            &&& (st19 matches Some(p19) && p19.0 as int == v.eta && p19.1 == off_eta(v)
                + int_string(v.eta).len())
            &&& (st21 matches Some(p21) && p21.0 as int == v.dlspeed && p21.1 == off_dlspeed(v)
                + int_string(v.dlspeed).len())
            &&& (st22 matches Some(p22) && p22 == s@.len())
        }) by {
            reveal_strlit("}");
            lemma_enc_shape(v, s@);
            assert(plain_text(v.hash));
            assert(plain_text(v.name));
            assert(plain_text(v.state));
            assert(plain_text(v.category));
        }
    }
    match (st1, st3, st5, stp, st9, st11, st13, st15, st17, st19, st21, st22) {
        (
            Some(hash_p),
            Some(name_p),
            Some(size_p),
            Some(progress_p),
            Some(state_p),
            Some(num_seeds_p),
            Some(num_leechs_p),
            Some(category_p),
            Some(added_on_p),
            Some(eta_p),
            Some(dlspeed_p),
            Some(end_p),
        ) => {
            if end_p != n_len {
                return None;
            }
            let t = TorrentInfo {
                hash: hash_p.0,
                name: name_p.0,
                size: size_p.0,
                progress_permille: progress_p.0,
                state: state_p.0,
                num_seeds: num_seeds_p.0,
                num_leechs: num_leechs_p.0,
                category: category_p.0,
                added_on: added_on_p.0,
                eta: eta_p.0,
                dlspeed: dlspeed_p.0,
            };
            proof {
                assert forall|v: TorrentInfoView|
                    (plain_torrent(v) && s@ == #[trigger] enc_torrent(v)) implies t@ == v by {
                    assert(t@ =~~= v);
                }
            }
            Some(t)
        },
        _ => None,
    }
}

} // verus!
