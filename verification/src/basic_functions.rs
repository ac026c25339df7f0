//! Small text utilities the bot's commands share: capitalisation, the
//! pacman progress strip, uptime rendering, duration parsing, and the data
//! handed to the paste service.

use vstd::prelude::*;
use vstd::string::StrSliceExecFns;
use vstd::string::StringExecFns;
use vstd::arithmetic::mul::lemma_mul_nonnegative;
use crate::digits::all_digits;
use crate::digits::dec_val;
use crate::digits::dec_rep;
use crate::digits::digit_val;
use crate::digits::is_dec_digit;
use crate::digits::pad2_rep;
use crate::digits::parse_u64_range;
use crate::digits::parse_u64_spec;
use crate::digits::u64_to_dec;
use crate::digits::u64_to_pad2;
use crate::strutil::find_char;
use crate::strutil::find_char_from;
use crate::strutil::lemma_find_char_range;
use crate::strutil::spec_split;
use crate::strutil::split_chars;
use crate::strutil::str_to_chars;
use crate::strutil::views_of;

verus! {

/// The form sent to the paste service: the pasted code, the kind of upload
/// and the syntax extension.
pub struct PasteData {
    pub code: String,
    pub upload: String,
    pub extension: String,
}

impl PasteData {
    /// The form for uploading `code` as a plain paste with no extension.
    pub fn new(code: String) -> (r: PasteData)
        ensures
            r.code@ == code@,
            r.upload@ == "paste"@,
            r.extension@ == Seq::<char>::empty(),
    {
        PasteData { code, upload: String::from_str("paste"), extension: String::new() }
    }
}

/// The address a paste upload reports back: the response URL on success,
/// nothing on any other status.
pub fn paste_response_url(status: u16, url: String) -> (r: String)
    ensures
        status == 200 ==> r@ == url@,
        status != 200 ==> r@ == Seq::<char>::empty(),
{
    if status == 200 {
        url
    } else {
        String::new()
    }
}

/// The Unicode uppercase mapping of a character; it depends on the
/// character alone.
pub uninterp spec fn upper_chars(c: char) -> Seq<char>;

/// Relies on `char::to_uppercase`: the Unicode uppercase mapping of the
/// character, collected into a string.
#[verifier::external_body]
fn char_uppercase(c: char) -> (r: String)
    ensures
        r@ == upper_chars(c),
{
    c.to_uppercase().collect::<String>()
}

/// Capitalizes the first character of `input`; the empty string stays
/// empty.
pub fn capitalize_first(input: &str) -> (r: String)
    ensures
        input@.len() == 0 ==> r@ == Seq::<char>::empty(),
        input@.len() > 0 ==> r@ == upper_chars(input@[0]) + input@.drop_first(),
{
    let n = input.unicode_len();
    if n == 0 {
        String::new()
    } else {
        let mut s = char_uppercase(input.get_char(0));
        let rest = input.substring_char(1, n);
        s.append(rest);
        proof {
            assert(input@.subrange(1, n as int) =~= input@.drop_first());
        }
        s
    }
}

/// `s` repeated `n` times.
pub open spec fn repeat_seq(s: Seq<char>, n: nat) -> Seq<char>
    decreases n,
{
    if n == 0 {
        Seq::empty()
    } else {
        repeat_seq(s, (n - 1) as nat) + s
    }
}

/// The input with three `0` characters appended, as the progress strip
/// pads its fraction.
pub open spec fn pacman_padded(s: Seq<char>) -> Seq<char> {
    s + seq!['0', '0', '0']
}

/// The three digits after the first `.` of the padded input, which must
/// lie before any further `.`.
pub open spec fn pacman_ok(s: Seq<char>) -> bool {
    let m = pacman_padded(s);
    match find_char(m, '.') {
        None => false,
        Some(i) => {
            let rest = m.skip(i + 1);
            let seg_len = match find_char(rest, '.') {
                None => rest.len() as int,
                Some(j) => j,
            };
            seg_len >= 3 && is_dec_digit(rest[0]) && is_dec_digit(rest[1]) && is_dec_digit(rest[2])
        },
    }
}

/// The value of those three digits.
pub open spec fn pacman_frac_val(s: Seq<char>) -> int {
    let m = pacman_padded(s);
    let i = find_char(m, '.')->Some_0;
    dec_val(m.skip(i + 1).take(3))
}

/// The rendered strip: one dot pair per fifty thousandths eaten, the
/// eater, then the remaining pellets up to twenty positions.
pub open spec fn pacman_render(s: Seq<char>) -> Seq<char> {
    let tm = pacman_frac_val(s) / 50;
    repeat_seq(". "@, tm as nat) + "C "@ + repeat_seq("o "@, (20 - tm) as nat)
}

/// Draws a pacman progress strip from the fraction part of a decimal
/// number written in `value`.
pub fn pacman(value: &str) -> (r: String)
    requires
        pacman_ok(value@),
    ensures
        r@ == pacman_render(value@),
{
    let mut m = str_to_chars(value);
    m.push('0');
    m.push('0');
    m.push('0');
    proof {
        assert(m@ =~= pacman_padded(value@));
        assert(m@.skip(0) =~= m@);
        lemma_find_char_range(m@, '.');
    }
    let i: usize = match find_char_from(&m, '.', 0) {
        Some(x) => x,
        None => {
            proof {
                assert(false);
            }
            0
        },
    };
    let ghost rest = m@.skip(i + 1);
    proof {
        lemma_find_char_range(rest, '.');
        match find_char(rest, '.') {
            None => {},
            Some(j) => {
                assert(j >= 3);
            },
        }
        assert(rest.len() >= 3);
        assert(rest[0] == m@[i + 1]);
        assert(rest[1] == m@[i + 2]);
        assert(rest[2] == m@[i + 3]);
    }
    let d0 = m[i + 1];
    let d1 = m[i + 2];
    let d2 = m[i + 3];
    let x: u64 = (d0 as u32 - 48) as u64 * 100 + (d1 as u32 - 48) as u64 * 10 + (d2 as u32 - 48)
        as u64;
    proof {
        let t = rest.take(3);
        assert(rest.take(1).drop_last() =~= rest.take(0));
        assert(rest.take(1).last() == rest[0]);
        assert(rest.take(2).drop_last() =~= rest.take(1));
        assert(rest.take(2).last() == rest[1]);
        assert(t.drop_last() =~= rest.take(2));
        assert(t.last() == rest[2]);
        assert(rest.take(0).len() == 0);
        assert(dec_val(rest.take(0)) == 0);
        assert(dec_val(rest.take(1)) == digit_val(rest[0]));
        assert(dec_val(rest.take(2)) == digit_val(rest[0]) * 10 + digit_val(rest[1]));
        assert(x == dec_val(t));
        assert(x <= 999);
    }
    let tm: u64 = x / 50;
    let mut s = String::new();
    let mut k: u64 = 0;
    while k < tm
        invariant
            k <= tm,
            s@ == repeat_seq(". "@, k as nat),
        decreases tm - k,
    {
        s.append(". ");
        k += 1;
    }
    s.append("C ");
    proof {
        assert(tm <= 19);
        assert(s@ =~= repeat_seq(". "@, tm as nat) + "C "@ + repeat_seq("o "@, 0));
    }
    let mut k2: u64 = 0;
    let pellets: u64 = 20 - tm;
    while k2 < pellets
        invariant
            tm <= 19,
            pellets == 20 - tm,
            k2 <= pellets,
            s@ == repeat_seq(". "@, tm as nat) + "C "@ + repeat_seq("o "@, k2 as nat),
        decreases pellets - k2,
    {
        s.append("o ");
        k2 += 1;
        proof {
            assert(s@ =~= repeat_seq(". "@, tm as nat) + "C "@ + repeat_seq("o "@, k2 as nat));
        }
    }
    proof {
        assert(s@ =~= pacman_render(value@));
    }
    s
}

/// The uptime text: `H:MM:SS`, with a leading `{days}D ` once a full day
/// has passed.
pub open spec fn spec_uptime_text(s: u64) -> Seq<char> {
    let days = s / 60 / 60 / 24;
    let hours = s / 3600 % 24;
    let minutes = s % 3600 / 60;
    let secs = s % 3600 % 60;
    if days == 0 {
        dec_rep(hours as nat) + ":"@ + pad2_rep(minutes as nat) + ":"@ + pad2_rep(secs as nat)
    } else {
        dec_rep(days as nat) + "D "@ + dec_rep(hours as nat) + ":"@ + pad2_rep(minutes as nat)
            + ":"@ + pad2_rep(secs as nat)
    }
}

/// Renders a duration in seconds as the uptime clock text.
pub fn seconds_to_days(seconds: u64) -> (r: String)
    ensures
        r@ == spec_uptime_text(seconds),
{
    let days = seconds / 60 / 60 / 24;
    let hours = seconds / 3600 % 24;
    let minutes = seconds % 3600 / 60;
    let secs = seconds % 3600 % 60;
    let mut s: String;
    if days == 0 {
        s = u64_to_dec(hours);
    } else {
        s = u64_to_dec(days);
        s.append("D ");
        let h = u64_to_dec(hours);
        s.append(h.as_str());
    }
    s.append(":");
    let mn = u64_to_pad2(minutes);
    s.append(mn.as_str());
    s.append(":");
    let sc = u64_to_pad2(secs);
    s.append(sc.as_str());
    s
}

/// The parsed value of a digit string, or zero where it does not parse.
pub open spec fn parse_or_zero(s: Seq<char>) -> int {
    match parse_u64_spec(s) {
        Some(v) => v as int,
        None => 0,
    }
}

/// Seconds per unit suffix; an unknown suffix contributes nothing.
pub open spec fn unit_multiplier(c: char) -> int {
    if c == 's' {
        1
    } else if c == 'm' {
        60
    } else if c == 'h' {
        3600
    } else if c == 'D' {
        86400
    } else if c == 'W' {
        604800
    } else if c == 'M' {
        2592000
    } else if c == 'Y' {
        31536000
    } else {
        0
    }
}

/// The seconds one word contributes: its digits times its unit suffix.
pub open spec fn word_seconds(w: Seq<char>) -> int {
    if w.len() == 0 {
        0
    } else {
        parse_or_zero(w.drop_last()) * unit_multiplier(w.last())
    }
}

/// The seconds all words contribute together.
pub open spec fn words_total(ws: Seq<Seq<char>>) -> int
    decreases ws.len(),
{
    if ws.len() == 0 {
        0
    } else {
        word_seconds(ws[0]) + words_total(ws.drop_first())
    }
}

/// What a whole duration text is worth: the sum over its space-separated
/// words.
pub open spec fn spec_string_seconds(s: Seq<char>) -> int {
    words_total(spec_split(s, ' '))
}

pub proof fn lemma_word_seconds_nonneg(w: Seq<char>)
    ensures
        word_seconds(w) >= 0,
{
    if w.len() > 0 {
        lemma_mul_nonnegative(parse_or_zero(w.drop_last()), unit_multiplier(w.last()));
    }
}

pub proof fn lemma_words_total_nonneg(ws: Seq<Seq<char>>)
    ensures
        words_total(ws) >= 0,
    decreases ws.len(),
{
    if ws.len() > 0 {
        lemma_word_seconds_nonneg(ws[0]);
        lemma_words_total_nonneg(ws.drop_first());
    }
}

pub proof fn lemma_words_total_split(ws: Seq<Seq<char>>, k: int)
    requires
        0 <= k <= ws.len(),
    ensures
        words_total(ws) == words_total(ws.take(k)) + words_total(ws.skip(k)),
    decreases k,
{
    if k == 0 {
        assert(ws.take(0).len() == 0);
        assert(ws.skip(0) =~= ws);
    } else {
        lemma_words_total_split(ws.drop_first(), k - 1);
        assert(ws.take(k).drop_first() =~= ws.drop_first().take(k - 1));
        assert(ws.skip(k) =~= ws.drop_first().skip(k - 1));
        assert(ws.take(k)[0] == ws[0]);
        assert(ws.take(k).len() == k);
    }
}

/// Reads a duration text such as `2h 30m 10s` as seconds.  Words without a
/// known unit suffix, and digits that do not parse, count as zero.
pub fn string_to_seconds(text: &str) -> (r: u64)
    requires
        spec_string_seconds(text@) <= u64::MAX,
    ensures
        r == spec_string_seconds(text@),
{
    let v = str_to_chars(text);
    let words = split_chars(&v, ' ');
    let ghost ws = views_of(words@);
    proof {
        assert(ws == spec_split(text@, ' '));
    }
    let mut total: u64 = 0;
    let mut i: usize = 0;
    while i < words.len()
        invariant
            ws == views_of(words@),
            words_total(ws) <= u64::MAX,
            i <= words@.len(),
            ws.len() == words@.len(),
            total == words_total(ws.take(i as int)),
        decreases words@.len() - i,
    {
        let w: &Vec<char> = &words[i];
        proof {
            assert(ws[i as int] == words@[i as int]@);
        }
        let ghost sw = ws[i as int];
        proof {
            assert(w@ == sw);
        }
        let wl = w.len();
        let mut add: u64 = 0;
        proof {
            lemma_words_total_split(ws, i as int);
            lemma_words_total_split(ws, i + 1);
            assert(ws.take(i + 1).take(i as int) =~= ws.take(i as int));
            assert(ws.take(i + 1).skip(i as int) =~= seq![sw]);
            assert(words_total(seq![sw]) == word_seconds(sw) + words_total(
                seq![sw].drop_first(),
            ));
            assert(seq![sw].drop_first().len() == 0);
            lemma_words_total_split(ws.take(i + 1), i as int);
            lemma_words_total_nonneg(ws.skip(i + 1));
            lemma_words_total_nonneg(ws.take(i as int));
            lemma_word_seconds_nonneg(sw);
            assert(words_total(ws.take(i as int)) + word_seconds(sw) <= words_total(ws));
        }
        if wl > 0 {
            let last = w[wl - 1];
            let mult: u64 = if last == 's' {
                1
            } else if last == 'm' {
                60
            } else if last == 'h' {
                3600
            } else if last == 'D' {
                86400
            } else if last == 'W' {
                604800
            } else if last == 'M' {
                2592000
            } else if last == 'Y' {
                31536000
            } else {
                0
            };
            proof {
                assert(mult == unit_multiplier(sw.last()));
                assert(sw.drop_last() =~= sw.subrange(0, wl - 1));
            }
            if mult > 0 {
                match parse_u64_range(w, 0, wl - 1) {
                    Some(num) => {
                        proof {
                            assert(word_seconds(sw) == num * mult);
                            assert(num * mult <= u64::MAX);
                        }
                        add = num * mult;
                    },
                    None => {
                        proof {
                            assert(parse_or_zero(sw.drop_last()) == 0);
                            assert(word_seconds(sw) == 0);
                        }
                        add = 0;
                    },
                }
            } else {
                proof {
                    assert(word_seconds(sw) == parse_or_zero(sw.drop_last())
                        * unit_multiplier(sw.last()));
                    assert(unit_multiplier(sw.last()) == 0);
                    assert(word_seconds(sw) == 0);
                }
            }
        } else {
            proof {
                assert(sw.len() == 0);
                assert(word_seconds(sw) == 0);
            }
        }
        proof {
            assert(add == word_seconds(sw));
        }
        total = total + add;
        i += 1;
    }
    proof {
        assert(ws.take(ws.len() as int) =~= ws);
    }
    total
}

} // verus!
