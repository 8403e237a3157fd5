//! The DSN of a Sentry project, `protocol://pub_key@host/project_id`, and
//! the address of the store endpoint that it names.

use crate::clock::unix_millis;
use vstd::prelude::*;
use vstd::string::{StrSliceExecFns, StringExecFns};

verus! {

/// A parsed DSN.
#[derive(Debug)]
pub struct Dsn {
    pub protocol: String,
    pub pub_key: String,
    pub host: String,
    pub project: i32,
}

/// What a DSN holds.
pub struct DsnView {
    pub protocol: Seq<char>,
    pub pub_key: Seq<char>,
    pub host: Seq<char>,
    pub project: i32,
}

impl View for Dsn {
    type V = DsnView;

    open spec fn view(&self) -> DsnView {
        DsnView {
            protocol: self.protocol@,
            pub_key: self.pub_key@,
            host: self.host@,
            project: self.project,
        }
    }
}

/// The place of the first `mark` in `text` at or after `from`, and the
/// length of `text` where there is none.
pub open spec fn find(text: Seq<char>, mark: char, from: int) -> int
    decreases text.len() - from,
{
    if from >= text.len() {
        text.len() as int
    } else if from >= 0 && text[from] == mark {
        from
    } else {
        find(text, mark, from + 1)
    }
}

/// The value of a decimal digit.
pub open spec fn digit_value(c: char) -> int {
    c as u32 - '0' as u32
}

/// Whether `c` is a decimal digit.
pub open spec fn is_digit(c: char) -> bool {
    '0' <= c && c <= '9'
}

/// The number that a row of decimal digits writes.
pub open spec fn digits_value(digits: Seq<char>) -> int
    decreases digits.len(),
{
    if digits.len() == 0 {
        0
    } else {
        digits_value(digits.drop_last()) * 10 + digit_value(digits.last())
    }
}

/// A decimal number without its sign.
pub open spec fn unsigned_part(text: Seq<char>) -> Seq<char> {
    if text.len() > 0 && (text[0] == '-' || text[0] == '+') {
        text.subrange(1, text.len() as int)
    } else {
        text
    }
}

/// The `i32` that `text` writes in decimal: an optional sign, then one digit
/// or more. `None` where `text` is not of that form or the number does not
/// fit.
pub open spec fn decimal_i32(text: Seq<char>) -> Option<i32> {
    let digits = unsigned_part(text);
    let value = if text.len() > 0 && text[0] == '-' {
        -digits_value(digits)
    } else {
        digits_value(digits)
    };
    if digits.len() == 0 || !(forall|i: int| 0 <= i < digits.len() ==> is_digit(#[trigger] digits[i]))
        || value < i32::MIN || value > i32::MAX {
        None
    } else {
        Some(value as i32)
    }
}

/// The DSN that `link` writes: the protocol up to the first colon, `//`, the
/// public key up to the next `@`, the host up to the next slash, and the
/// project id, a decimal number, to the end. None of the first three may be
/// empty.
pub open spec fn dsn_of(link: Seq<char>) -> Option<DsnView> {
    let colon = find(link, ':', 0);
    let at = find(link, '@', colon + 3);
    let slash = find(link, '/', at + 1);
    if colon == 0 || colon + 3 > link.len() || link[colon + 1] != '/' || link[colon + 2] != '/' {
        None
    } else if at >= link.len() || at == colon + 3 {
        None
    } else if slash >= link.len() || slash == at + 1 {
        None
    } else {
        match decimal_i32(link.subrange(slash + 1, link.len() as int)) {
            Some(project) => Some(
                DsnView {
                    protocol: link.subrange(0, colon),
                    pub_key: link.subrange(colon + 3, at),
                    host: link.subrange(at + 1, slash),
                    project,
                },
            ),
            None => None,
        }
    }
}

/// The character of a decimal digit.
pub open spec fn digit_char(digit: int) -> char {
    if digit == 0 {
        '0'
    } else if digit == 1 {
        '1'
    } else if digit == 2 {
        '2'
    } else if digit == 3 {
        '3'
    } else if digit == 4 {
        '4'
    } else if digit == 5 {
        '5'
    } else if digit == 6 {
        '6'
    } else if digit == 7 {
        '7'
    } else if digit == 8 {
        '8'
    } else {
        '9'
    }
}

/// A natural number in decimal, without leading zeros.
pub open spec fn decimal(n: nat) -> Seq<char>
    decreases n,
{
    if n < 10 {
        seq![digit_char(n as int)]
    } else {
        decimal(n / 10).push(digit_char((n % 10) as int))
    }
}

/// An integer in decimal, with a minus sign where it is negative.
pub open spec fn signed_decimal(n: int) -> Seq<char> {
    if n < 0 {
        seq!['-'] + decimal((-n) as nat)
    } else {
        decimal(n as nat)
    }
}

/// The address of the store endpoint of a project, for a request that is
/// made `seconds` after the Unix epoch.
pub open spec fn store_url(dsn: DsnView, seconds: u64) -> Seq<char> {
    dsn.protocol + "://"@ + dsn.host + "/api/"@ + signed_decimal(dsn.project as int)
        + "/store/?sentry_version=5&sentry_key="@ + dsn.pub_key + "&sentry_timestamp="@ + decimal(
        seconds as nat,
    )
}

/// A longer row of digits writes a number that is no smaller.
proof fn lemma_digits_grow(digits: Seq<char>, k: int)
    requires
        0 <= k <= digits.len(),
        forall|i: int| 0 <= i < digits.len() ==> is_digit(#[trigger] digits[i]),
    ensures
        0 <= digits_value(digits.take(k)) <= digits_value(digits),
    decreases digits.len() - k,
{
    if k == digits.len() {
        assert(digits.take(k) =~= digits);
        lemma_digits_nonnegative(digits);
    } else {
        lemma_digits_grow(digits, k + 1);
        assert(digits.take(k + 1).drop_last() =~= digits.take(k));
        assert(is_digit(digits[k]));
        lemma_digits_nonnegative(digits.take(k));
    }
}

/// A row of digits writes no negative number.
proof fn lemma_digits_nonnegative(digits: Seq<char>)
    requires
        forall|i: int| 0 <= i < digits.len() ==> is_digit(#[trigger] digits[i]),
    ensures
        digits_value(digits) >= 0,
    decreases digits.len(),
{
    if digits.len() > 0 {
        lemma_digits_nonnegative(digits.drop_last());
        assert(is_digit(digits[digits.len() - 1]));
    }
}

/// The place of the first `mark` in `text` at or after `from`.
fn find_from(text: &Vec<char>, mark: char, from: usize) -> (at: usize)
    requires
        from <= text.len(),
    ensures
        at == find(text@, mark, from as int),
        from <= at <= text.len(),
{
    let mut at = from;
    while at < text.len() && text[at] != mark
        invariant
            from <= at <= text.len(),
            find(text@, mark, from as int) == find(text@, mark, at as int),
        decreases text.len() - at,
    {
        at = at + 1;
    }
    at
}

/// Reads an `i32` from the characters of `text` from `from` on.
fn parse_i32(text: &Vec<char>, from: usize) -> (r: Option<i32>)
    requires
        from <= text.len(),
    ensures
        r == decimal_i32(text@.subrange(from as int, text.len() as int)),
{
    let ghost all = text@.subrange(from as int, text.len() as int);
    let len = text.len();
    if from == len {
        return None;
    }
    let negative = text[from] == '-';
    let start = if negative || text[from] == '+' {
        from + 1
    } else {
        from
    };
    let ghost digits = text@.subrange(start as int, len as int);
    assert(digits =~= unsigned_part(all));
    assert(all[0] == text[from as int]);
    if start == len {
        return None;
    }
    let mut value: i64 = 0;
    let mut i = start;
    assert(digits.take(0) =~= Seq::<char>::empty());
    while i < len
        invariant
            start <= i <= len,
            len == text.len(),
            digits == text@.subrange(start as int, len as int),
            all == text@.subrange(from as int, len as int),
            digits == unsigned_part(all),
            forall|k: int| 0 <= k < i - start ==> is_digit(#[trigger] digits[k]),
            value == digits_value(digits.take(i - start)),
            0 <= value <= 0x8000_0000,
        decreases len - i,
    {
        let c = text[i];
        assert(c == digits[i - start]);
        if !(c >= '0' && c <= '9') {
            assert(!is_digit(digits[i - start]));
            return None;
        }
        let ghost seen = digits.take(i - start + 1);
        assert(seen.drop_last() =~= digits.take(i - start));
        assert(seen.last() == c);
        let digit = (c as u32 - '0' as u32) as i64;
        value = value * 10 + digit;
        assert(value == digits_value(seen));
        if value > 0x8000_0000 {
            proof {
                if forall|k: int| 0 <= k < digits.len() ==> is_digit(#[trigger] digits[k]) {
                    lemma_digits_grow(digits, i - start + 1);
                }
            }
            return None;
        }
        i = i + 1;
    }
    assert(digits.take(digits.len() as int) =~= digits);
    if negative {
        Some((-value) as i32)
    } else if value > 0x7FFF_FFFF {
        None
    } else {
        Some(value as i32)
    }
}

/// The text of one decimal digit.
fn digit_text(digit: u64) -> (text: &'static str)
    requires
        digit < 10,
    ensures
        text@ == seq![digit_char(digit as int)],
{
    proof {
        reveal_strlit("0");
        reveal_strlit("1");
        reveal_strlit("2");
        reveal_strlit("3");
        reveal_strlit("4");
        reveal_strlit("5");
        reveal_strlit("6");
        reveal_strlit("7");
        reveal_strlit("8");
        reveal_strlit("9");
    }
    let text = if digit == 0 {
        "0"
    } else if digit == 1 {
        "1"
    } else if digit == 2 {
        "2"
    } else if digit == 3 {
        "3"
    } else if digit == 4 {
        "4"
    } else if digit == 5 {
        "5"
    } else if digit == 6 {
        "6"
    } else if digit == 7 {
        "7"
    } else if digit == 8 {
        "8"
    } else {
        "9"
    };
    assert(text@ =~= seq![digit_char(digit as int)]);
    text
}

/// Appends `n` in decimal to `text`.
fn push_decimal(text: &mut String, n: u64)
    ensures
        final(text)@ == old(text)@ + decimal(n as nat),
    decreases n,
{
    if n >= 10 {
        push_decimal(text, n / 10);
    }
    text.append(digit_text(n % 10));
    assert(text@ =~= old(text)@ + decimal(n as nat));
}

impl Dsn {
    /// The address of the store endpoint for a request that is made
    /// `seconds` after the Unix epoch.
    pub fn prepare_url_at(&self, seconds: u64) -> (url: String)
        ensures
            url@ == store_url(self@, seconds),
    {
        let mut url = self.protocol.clone();
        url.append("://");
        url.append(self.host.as_str());
        url.append("/api/");
        if self.project < 0 {
            proof {
                reveal_strlit("-");
            }
            url.append("-");
            assert("-"@ =~= seq!['-']);
            push_decimal(&mut url, (-(self.project as i64)) as u64);
        } else {
            push_decimal(&mut url, self.project as u64);
        }
        url.append("/store/?sentry_version=5&sentry_key=");
        url.append(self.pub_key.as_str());
        url.append("&sentry_timestamp=");
        push_decimal(&mut url, seconds);
        assert(url@ =~= store_url(self@, seconds));
        url
    }

    /// The address of the store endpoint for a request that is made now, by
    /// the system clock.
    pub fn prepare_url(&self) -> (url: String)
        ensures
            exists|seconds: u64| url@ == store_url(self@, seconds),
    {
        self.prepare_url_at(unix_millis() / 1000)
    }

    /// Reads a DSN: see [`dsn_of`].
    pub fn parse(link: &str) -> (r: Option<Dsn>)
        ensures
            dsn_of(link@) matches Some(dsn) ==> r matches Some(d) && d@ == dsn,
            dsn_of(link@) is None ==> r is None,
    {
        let mut text: Vec<char> = Vec::new();
        let count = link.unicode_len();
        let mut i: usize = 0;
        while i < count
            invariant
                i <= count,
                count == link@.len(),
                text@ == link@.take(i as int),
            decreases count - i,
        {
            text.push(link.get_char(i));
            assert(text@ =~= link@.take(i + 1));
            i = i + 1;
        }
        assert(text@ =~= link@);
        let colon = find_from(&text, ':', 0);
        if colon == 0 || count < 3 || colon > count - 3 || text[colon + 1] != '/' || text[colon + 2]
            != '/' {
            return None;
        }
        let at = find_from(&text, '@', colon + 3);
        if at >= count || at == colon + 3 {
            return None;
        }
        let slash = find_from(&text, '/', at + 1);
        if slash >= count || slash == at + 1 {
            return None;
        }
        let project = match parse_i32(&text, slash + 1) {
            Some(project) => project,
            None => {
                return None;
            },
        };
        Some(
            Dsn {
                protocol: String::from_str(link.substring_char(0, colon)),
                pub_key: String::from_str(link.substring_char(colon + 3, at)),
                host: String::from_str(link.substring_char(at + 1, slash)),
                project,
            },
        )
    }
}

} // verus!
