//! Text as the daemon meets it: white space around the contents of a small
//! file, and whole numbers written in decimal.

use vstd::arithmetic::power::pow;
use vstd::prelude::*;
use vstd::utf8::encode_utf8;
use vstd::utf8::encode_utf8_decode_utf8;

verus! {

/// A character with the Unicode property `White_Space`.
pub open spec fn is_white_space(c: char) -> bool {
    let n = c as u32;
    ||| 0x9 <= n <= 0xd
    ||| n == 0x20
    ||| n == 0x85
    ||| n == 0xa0
    ||| n == 0x1680
    ||| 0x2000 <= n <= 0x200a
    ||| n == 0x2028
    ||| n == 0x2029
    ||| n == 0x202f
    ||| n == 0x205f
    ||| n == 0x3000
}

/// `s` without the white space it starts with.
pub open spec fn trim_front(s: Seq<char>) -> Seq<char>
    decreases s.len(),
{
    if s.len() > 0 && is_white_space(s.first()) {
        trim_front(s.drop_first())
    } else {
        s
    }
}

/// `s` without the white space it ends with.
pub open spec fn trim_back(s: Seq<char>) -> Seq<char>
    decreases s.len(),
{
    if s.len() > 0 && is_white_space(s.last()) {
        trim_back(s.drop_last())
    } else {
        s
    }
}

/// `s` without the white space at its two ends.
pub open spec fn trimmed(s: Seq<char>) -> Seq<char> {
    trim_back(trim_front(s))
}

/// Whether two texts hold the same characters.
pub fn text_eq(a: &str, b: &str) -> (r: bool)
    ensures
        r == (a@ == b@),
{
    let x = a.as_bytes();
    let y = b.as_bytes();
    proof {
        encode_utf8_decode_utf8(a@);
        encode_utf8_decode_utf8(b@);
    }
    if x.len() != y.len() {
        return false;
    }
    let mut i: usize = 0;
    while i < x.len()
        invariant
            i <= x.len(),
            x.len() == y.len(),
            x@ == encode_utf8(a@),
            y@ == encode_utf8(b@),
            forall|k: int| 0 <= k < i ==> x@[k] == y@[k],
        decreases x.len() - i,
    {
        if x[i] != y[i] {
            return false;
        }
        i += 1;
    }
    assert(x@ =~= y@);
    true
}

fn white_space(c: char) -> (r: bool)
    ensures
        r == is_white_space(c),
{
    let n: u32 = c as u32;
    (0x9 <= n && n <= 0xd) || n == 0x20 || n == 0x85 || n == 0xa0 || n == 0x1680 || (0x2000 <= n
        && n <= 0x200a) || n == 0x2028 || n == 0x2029 || n == 0x202f || n == 0x205f || n == 0x3000
}

/// The part of `text` between the white space at its two ends.
pub fn trim(text: &str) -> (r: &str)
    ensures
        r@ == trimmed(text@),
{
    let n: usize = text.unicode_len();
    let mut start: usize = 0;
    assert(text@.subrange(0, n as int) =~= text@);
    while start < n && white_space(text.get_char(start))
        invariant
            start <= n,
            n == text@.len(),
            trim_front(text@) == trim_front(text@.subrange(start as int, n as int)),
        decreases n - start,
    {
        assert(text@.subrange(start as int, n as int).drop_first() =~= text@.subrange(
            start + 1,
            n as int,
        ));
        start += 1;
    }
    let ghost front = text@.subrange(start as int, n as int);
    assert(trim_front(text@) == front);
    let mut end: usize = n;
    while start < end && white_space(text.get_char(end - 1))
        invariant
            start <= end <= n,
            n == text@.len(),
            trim_back(front) == trim_back(text@.subrange(start as int, end as int)),
        decreases end,
    {
        assert(text@.subrange(start as int, end as int).drop_last() =~= text@.subrange(
            start as int,
            end - 1,
        ));
        end -= 1;
    }
    text.substring_char(start, end)
}

/// A decimal digit.
pub open spec fn is_digit(c: char) -> bool {
    '0' <= c <= '9'
}

/// The number that a row of digits stands for.
pub open spec fn digits_value(s: Seq<char>) -> nat
    decreases s.len(),
{
    if s.len() == 0 {
        0
    } else {
        10 * digits_value(s.drop_last()) + (s.last() as nat - '0' as nat) as nat
    }
}

/// How many digits `s` starts with.
pub open spec fn digit_run(s: Seq<char>) -> nat
    decreases s.len(),
{
    if s.len() > 0 && is_digit(s.first()) {
        1 + digit_run(s.drop_first())
    } else {
        0
    }
}

/// The decimal digits of `n`, without leading zeros.
pub open spec fn decimal(n: nat) -> Seq<char>
    decreases n,
{
    if n < 10 {
        seq![(n + '0' as nat) as char]
    } else {
        decimal(n / 10).push((n % 10 + '0' as nat) as char)
    }
}

/// `n` in decimal, with a minus sign where it is negative.
pub open spec fn signed_decimal(n: int) -> Seq<char> {
    if n < 0 {
        seq!['-'] + decimal((-n) as nat)
    } else {
        decimal(n as nat)
    }
}

/// Why a text is no number of the wanted range.
#[derive(Clone, Copy, Debug, PartialEq, Eq, Structural)]
pub enum IntError {
    /// The text is empty.
    Empty,
    /// The text holds something that is no digit, or only a sign.
    InvalidDigit,
    /// The number is too large.
    PosOverflow,
    /// The number is too small.
    NegOverflow,
}

/// Reads `s` as a number from `lo` to `hi`. A plus sign may stand in front, and,
/// where `signed` says so, a minus sign. The digits are taken from the left, so
/// that a number which leaves the range counts as too large (or too small)
/// whatever follows it.
pub open spec fn int_of(s: Seq<char>, signed: bool, lo: int, hi: int) -> Result<int, IntError> {
    if s.len() == 0 {
        Err(IntError::Empty)
    } else if s.len() == 1 && (s[0] == '+' || s[0] == '-') {
        Err(IntError::InvalidDigit)
    } else {
        let negative = signed && s[0] == '-';
        let digits = if negative || s[0] == '+' {
            s.drop_first()
        } else {
            s
        };
        let run = digit_run(digits);
        let size = digits_value(digits.take(run as int)) as int;
        let n = if negative {
            -size
        } else {
            size
        };
        if n > hi {
            Err(IntError::PosOverflow)
        } else if n < lo {
            Err(IntError::NegOverflow)
        } else if run < digits.len() {
            Err(IntError::InvalidDigit)
        } else {
            Ok(n)
        }
    }
}

proof fn lemma_digit_run(s: Seq<char>, k: int)
    requires
        0 <= k <= s.len(),
        forall|i: int| 0 <= i < k ==> is_digit(s[i]),
    ensures
        k <= digit_run(s) <= s.len(),
        k < s.len() && !is_digit(s[k]) ==> digit_run(s) == k,
    decreases s.len(),
{
    if s.len() > 0 && is_digit(s.first()) {
        let rest = s.drop_first();
        if k > 0 {
            assert forall|i: int| 0 <= i < k - 1 implies is_digit(rest[i]) by {
                assert(rest[i] == s[i + 1]);
            }
            lemma_digit_run(rest, k - 1);
        } else {
            lemma_digit_run(rest, 0);
        }
    }
}

proof fn lemma_digits_value_grows(s: Seq<char>, j: int, k: int)
    requires
        0 <= j <= k <= s.len(),
        forall|i: int| j <= i < k ==> is_digit(s[i]),
    ensures
        digits_value(s.take(j)) <= digits_value(s.take(k)),
    decreases k,
{
    if j < k {
        lemma_digits_value_grows(s, j, k - 1);
        assert(s.take(k).drop_last() =~= s.take(k - 1));
        assert(s.take(k).last() == s[k - 1]);
    }
}

pub(crate) proof fn lemma_digit_run_digits(s: Seq<char>)
    ensures
        digit_run(s) <= s.len(),
        forall|i: int| 0 <= i < digit_run(s) ==> is_digit(s[i]),
    decreases s.len(),
{
    if s.len() > 0 && is_digit(s.first()) {
        let rest = s.drop_first();
        lemma_digit_run_digits(rest);
        assert forall|i: int| 0 <= i < digit_run(s) implies is_digit(s[i]) by {
            if i > 0 {
                assert(rest[i - 1] == s[i]);
            }
        }
    }
}

/// Reads `text` as a number from `lo` to `hi`.
fn parse_int(text: &str, signed: bool, lo: i64, hi: i64) -> (r: Result<i64, IntError>)
    requires
        -0x1_0000_0000 <= lo <= 0 <= hi <= 0x1_0000_0000,
    ensures
        match r {
            Ok(n) => int_of(text@, signed, lo as int, hi as int) == Ok::<int, IntError>(n as int),
            Err(e) => int_of(text@, signed, lo as int, hi as int) == Err::<int, IntError>(e),
        },
{
    let n: usize = text.unicode_len();
    if n == 0 {
        return Err(IntError::Empty);
    }
    let first = text.get_char(0);
    if n == 1 && (first == '+' || first == '-') {
        return Err(IntError::InvalidDigit);
    }
    let negative = signed && first == '-';
    let from: usize = if negative || first == '+' {
        1
    } else {
        0
    };
    let ghost digits = text@.subrange(from as int, n as int);
    assert(digits =~= (if from == 1 {
        text@.drop_first()
    } else {
        text@
    }));
    assert(digits.take(0) =~= Seq::<char>::empty());
    proof {
        lemma_digit_run_digits(digits);
    }
    let mut i: usize = from;
    let mut size: i64 = 0;
    while i < n
        invariant
            from <= i <= n,
            n == text@.len(),
            n > 0,
            !(n == 1 && (text@[0] == '+' || text@[0] == '-')),
            negative == (signed && text@[0] == '-'),
            from == (if negative || text@[0] == '+' {
                1int
            } else {
                0int
            }),
            digits == text@.subrange(from as int, n as int),
            digits == (if from == 1 {
                text@.drop_first()
            } else {
                text@
            }),
            forall|k: int| 0 <= k < i - from ==> is_digit(digits[k]),
            digit_run(digits) <= digits.len(),
            forall|k: int| 0 <= k < digit_run(digits) ==> is_digit(digits[k]),
            size == digits_value(digits.take(i - from)),
            -0x1_0000_0000 <= lo <= 0 <= hi <= 0x1_0000_0000,
            0 <= size <= 0x1_0000_0000,
            !negative ==> size <= hi,
            negative ==> -size >= lo,
        decreases n - i,
    {
        let c = text.get_char(i);
        assert(c == digits[i - from]);
        if !('0' <= c && c <= '9') {
            proof {
                lemma_digit_run(digits, i - from);
            }
            return Err(IntError::InvalidDigit);
        }
        size = size * 10 + (c as u32 - '0' as u32) as i64;
        proof {
            let k = i - from;
            assert(digits.take(k + 1).drop_last() =~= digits.take(k));
            assert(digits.take(k + 1).last() == c);
            lemma_digit_run(digits, k + 1);
            lemma_digits_value_grows(digits, k + 1, digit_run(digits) as int);
        }
        if !negative && size > hi {
            return Err(IntError::PosOverflow);
        }
        if negative && -size < lo {
            return Err(IntError::NegOverflow);
        }
        i += 1;
    }
    proof {
        lemma_digit_run(digits, digits.len() as int);
    }
    Ok(
        if negative {
            -size
        } else {
            size
        },
    )
}

/// Reads `text` as a number from 0 to 255.
pub fn parse_u8(text: &str) -> (r: Result<u8, IntError>)
    ensures
        match r {
            Ok(n) => int_of(text@, false, 0, u8::MAX as int) == Ok::<int, IntError>(n as int),
            Err(e) => int_of(text@, false, 0, u8::MAX as int) == Err::<int, IntError>(e),
        },
{
    match parse_int(text, false, 0, 255) {
        Ok(n) => {
            proof {
                lemma_int_of_range(text@, false, 0, 255);
            }
            Ok(n as u8)
        },
        Err(e) => Err(e),
    }
}

/// Reads `text` as a signed number of 32 bits.
pub fn parse_i32(text: &str) -> (r: Result<i32, IntError>)
    ensures
        match r {
            Ok(n) => int_of(text@, true, i32::MIN as int, i32::MAX as int) == Ok::<int, IntError>(
                n as int,
            ),
            Err(e) => int_of(text@, true, i32::MIN as int, i32::MAX as int) == Err::<int, IntError>(e),
        },
{
    match parse_int(text, true, -0x8000_0000, 0x7fff_ffff) {
        Ok(n) => {
            proof {
                lemma_int_of_range(text@, true, -0x8000_0000, 0x7fff_ffff);
            }
            Ok(n as i32)
        },
        Err(e) => Err(e),
    }
}

proof fn lemma_int_of_range(s: Seq<char>, signed: bool, lo: int, hi: int)
    ensures
        int_of(s, signed, lo, hi) matches Ok(n) ==> lo <= n <= hi,
{
}

fn digit_text(n: u64) -> (r: &'static str)
    requires
        n < 10,
    ensures
        r@ == seq![(n + '0' as nat) as char],
{
    proof {
        reveal_strlit("0");
        reveal_strlit("1");
        reveal_strlit("2");
        reveal_strlit("3");
        reveal_strlit("4");
        reveal_strlit("5");
        reveal_strlit("6");
        reveal_strlit("7");
        reveal_strlit("8");
        reveal_strlit("9");
    }
    let r = if n == 0 {
        "0"
    } else if n == 1 {
        "1"
    } else if n == 2 {
        "2"
    } else if n == 3 {
        "3"
    } else if n == 4 {
        "4"
    } else if n == 5 {
        "5"
    } else if n == 6 {
        "6"
    } else if n == 7 {
        "7"
    } else if n == 8 {
        "8"
    } else {
        "9"
    };
    assert(r@ =~= seq![(n + '0' as nat) as char]);
    r
}

/// Writes `n` in decimal.
pub fn decimal_text(n: u64) -> (r: String)
    ensures
        r@ == decimal(n as nat),
    decreases n,
{
    if n < 10 {
        digit_text(n).to_owned()
    } else {
        let mut r = decimal_text(n / 10);
        r.append(digit_text(n % 10));
        assert(r@ =~= decimal(n as nat));
        r
    }
}

/// Writes `n` in decimal, with a minus sign where it is negative.
pub fn signed_decimal_text(n: i32) -> (r: String)
    ensures
        r@ == signed_decimal(n as int),
{
    if n < 0 {
        proof {
            reveal_strlit("-");
        }
        let mut r = "-".to_owned();
        let digits = decimal_text((-(n as i64)) as u64);
        r.append(digits.as_str());
        assert(r@ =~= signed_decimal(n as int));
        r
    } else {
        decimal_text(n as u64)
    }
}

proof fn lemma_trim_front_of(pre: Seq<char>, s: Seq<char>)
    requires
        forall|i: int| 0 <= i < pre.len() ==> is_white_space(pre[i]),
        s.len() > 0 ==> !is_white_space(s.first()),
    ensures
        trim_front(pre + s) == s,
    decreases pre.len(),
{
    if pre.len() > 0 {
        assert((pre + s).first() == pre[0]);
        assert((pre + s).drop_first() =~= pre.drop_first() + s);
        assert forall|i: int| 0 <= i < pre.drop_first().len() implies is_white_space(
            pre.drop_first()[i],
        ) by {
            assert(pre.drop_first()[i] == pre[i + 1]);
        }
        lemma_trim_front_of(pre.drop_first(), s);
    } else {
        assert(pre + s =~= s);
    }
}

proof fn lemma_trim_back_of(s: Seq<char>, post: Seq<char>)
    requires
        forall|i: int| 0 <= i < post.len() ==> is_white_space(post[i]),
        s.len() > 0 ==> !is_white_space(s.last()),
    ensures
        trim_back(s + post) == s,
    decreases post.len(),
{
    if post.len() > 0 {
        assert((s + post).last() == post.last());
        assert((s + post).drop_last() =~= s + post.drop_last());
        lemma_trim_back_of(s, post.drop_last());
    } else {
        assert(s + post =~= s);
    }
}

proof fn lemma_trim_front_splits(s: Seq<char>) -> (pre: Seq<char>)
    ensures
        s == pre + trim_front(s),
        forall|i: int| 0 <= i < pre.len() ==> is_white_space(pre[i]),
        trim_front(s).len() > 0 ==> !is_white_space(trim_front(s).first()),
    decreases s.len(),
{
    if s.len() > 0 && is_white_space(s.first()) {
        let rest = lemma_trim_front_splits(s.drop_first());
        let pre = seq![s.first()] + rest;
        assert(s =~= seq![s.first()] + s.drop_first());
        assert(pre + trim_front(s) =~= seq![s.first()] + (rest + trim_front(s.drop_first())));
        pre
    } else {
        assert(s =~= Seq::<char>::empty() + s);
        Seq::empty()
    }
}

proof fn lemma_trim_back_splits(s: Seq<char>) -> (post: Seq<char>)
    ensures
        s == trim_back(s) + post,
        forall|i: int| 0 <= i < post.len() ==> is_white_space(post[i]),
        trim_back(s).len() > 0 ==> !is_white_space(trim_back(s).last()),
    decreases s.len(),
{
    if s.len() > 0 && is_white_space(s.last()) {
        let rest = lemma_trim_back_splits(s.drop_last());
        let post = rest.push(s.last());
        assert(s =~= s.drop_last().push(s.last()));
        assert(trim_back(s) + post =~= (trim_back(s.drop_last()) + rest).push(s.last()));
        post
    } else {
        assert(s =~= s + Seq::<char>::empty());
        Seq::empty()
    }
}

/// White space around a text that neither starts nor ends with any is what
/// trimming takes away, and nothing else.
pub proof fn law_trim_takes_the_surroundings(pre: Seq<char>, s: Seq<char>, post: Seq<char>)
    requires
        forall|i: int| 0 <= i < pre.len() ==> is_white_space(pre[i]),
        forall|i: int| 0 <= i < post.len() ==> is_white_space(post[i]),
        s.len() > 0 ==> !is_white_space(s.first()) && !is_white_space(s.last()),
    ensures
        trimmed(pre + s + post) == s,
{
    if s.len() > 0 {
        assert(pre + s + post =~= pre + (s + post));
        assert((s + post).first() == s.first());
        lemma_trim_front_of(pre, s + post);
        lemma_trim_back_of(s, post);
    } else {
        let all = pre + s + post;
        assert forall|i: int| 0 <= i < all.len() implies is_white_space(all[i]) by {
            if i < pre.len() {
                assert(all[i] == pre[i]);
            } else {
                assert(all[i] == post[i - pre.len()]);
            }
        }
        lemma_trim_front_of(all, s);
        assert(all + s =~= all);
    }
}

/// What trimming leaves is a part of the text with only white space before and
/// after it, and has none at its own two ends. Trimming it again changes nothing.
pub proof fn law_trim_leaves_no_white_ends(s: Seq<char>)
    ensures
        exists|pre: Seq<char>, post: Seq<char>|
            s == pre + trimmed(s) + post && (forall|i: int|
                0 <= i < pre.len() ==> is_white_space(pre[i])) && (forall|i: int|
                0 <= i < post.len() ==> is_white_space(post[i])),
        trimmed(s).len() > 0 ==> !is_white_space(trimmed(s).first()) && !is_white_space(
            trimmed(s).last(),
        ),
        trimmed(trimmed(s)) == trimmed(s),
{
    let pre = lemma_trim_front_splits(s);
    let front = trim_front(s);
    let post = lemma_trim_back_splits(front);
    assert(s =~= pre + trimmed(s) + post);
    if trimmed(s).len() > 0 {
        assert(front.first() == trimmed(s).first());
    }
    let none = Seq::<char>::empty();
    law_trim_takes_the_surroundings(none, trimmed(s), none);
    assert(none + trimmed(s) + none =~= trimmed(s));
}

proof fn lemma_decimal(n: nat)
    ensures
        decimal(n).len() > 0,
        forall|i: int| 0 <= i < decimal(n).len() ==> is_digit(decimal(n)[i]),
        digits_value(decimal(n)) == n,
    decreases n,
{
    if n < 10 {
        let c = (n + '0' as nat) as char;
        assert(is_digit(c) && c as nat - '0' as nat == n);
        assert(seq![c].drop_last() =~= Seq::<char>::empty());
        assert(digits_value(seq![c].drop_last()) == 0);
    } else {
        lemma_decimal(n / 10);
        let c = (n % 10 + '0' as nat) as char;
        assert(is_digit(c) && c as nat - '0' as nat == n % 10);
        assert(decimal(n).drop_last() =~= decimal(n / 10));
    }
}

/// A number of the wanted range that was written in decimal reads back as itself.
pub proof fn law_decimal_reads_back(n: int, signed: bool, lo: int, hi: int)
    requires
        lo <= n <= hi,
        n < 0 ==> signed,
    ensures
        int_of(signed_decimal(n), signed, lo, hi) == Ok::<int, IntError>(n),
{
    let size = if n < 0 {
        (-n) as nat
    } else {
        n as nat
    };
    let digits = decimal(size);
    lemma_decimal(size);
    lemma_digit_run(digits, digits.len() as int);
    assert(digits.take(digits.len() as int) =~= digits);
    assert(is_digit(digits[0]));
    if n < 0 {
        assert((seq!['-'] + digits).drop_first() =~= digits);
    }
}

/// A number written in decimal has no white space at its ends: it survives
/// trimming, alone or with a line break behind it.
pub proof fn law_decimal_survives_trim(n: int)
    ensures
        trimmed(signed_decimal(n)) == signed_decimal(n),
        trimmed(signed_decimal(n).push('\n')) == signed_decimal(n),
{
    let s = signed_decimal(n);
    let size = if n < 0 {
        (-n) as nat
    } else {
        n as nat
    };
    lemma_decimal(size);
    assert(is_digit(decimal(size)[0]));
    assert(s.last() == decimal(size).last());
    let none = Seq::<char>::empty();
    law_trim_takes_the_surroundings(none, s, none);
    law_trim_takes_the_surroundings(none, s, seq!['\n']);
    assert(none + s + none =~= s);
    assert(none + s + seq!['\n'] =~= s.push('\n'));
}

/// White space is what Unicode lists under `White_Space`: these code points, and no
/// others.
pub proof fn law_white_space_is_what_unicode_lists(c: char)
    ensures
        is_white_space(c) <==> seq![
            0x9u32, 0xa, 0xb, 0xc, 0xd, 0x20, 0x85, 0xa0, 0x1680, 0x2000, 0x2001, 0x2002, 0x2003,
            0x2004, 0x2005, 0x2006, 0x2007, 0x2008, 0x2009, 0x200a, 0x2028, 0x2029, 0x202f, 0x205f,
            0x3000,
        ].contains(c as u32),
{
    let list = seq![
        0x9u32, 0xa, 0xb, 0xc, 0xd, 0x20, 0x85, 0xa0, 0x1680, 0x2000, 0x2001, 0x2002, 0x2003,
        0x2004, 0x2005, 0x2006, 0x2007, 0x2008, 0x2009, 0x200a, 0x2028, 0x2029, 0x202f, 0x205f,
        0x3000,
    ];
    let n = c as u32;
    if is_white_space(c) {
        let k: int = if n <= 0xd {
            n - 0x9
        } else if n == 0x20 {
            5
        } else if n == 0x85 {
            6
        } else if n == 0xa0 {
            7
        } else if n == 0x1680 {
            8
        } else if n <= 0x200a {
            n - 0x2000 + 9
        } else if n == 0x2028 {
            20
        } else if n == 0x2029 {
            21
        } else if n == 0x202f {
            22
        } else if n == 0x205f {
            23
        } else {
            24
        };
        assert(list[k] == n);
    }
}

/// Digits are worth what decimal places say: a single one its distance from `0`,
/// and a row in front of `t` ten times as much for each digit of `t`.
pub proof fn law_digits_are_positional(c: char, s: Seq<char>, t: Seq<char>)
    requires
        '0' <= c <= '9',
    ensures
        digits_value(seq![c]) == c as int - '0' as int,
        digits_value(s + t) == digits_value(s) * pow(10, t.len()) + digits_value(t),
    decreases t.len(),
{
    assert(seq![c].drop_last() =~= Seq::<char>::empty());
    assert(digits_value(seq![c].drop_last()) == 0);
    reveal(pow);
    if t.len() == 0 {
        assert(s + t =~= s);
        assert(pow(10, 0) == 1);
    } else {
        let before = t.drop_last();
        law_digits_are_positional(c, s, before);
        assert((s + t).drop_last() =~= s + before);
        assert((s + t).last() == t.last());
        let a = digits_value(s) as int;
        let p = pow(10, before.len());
        assert(pow(10, t.len()) == 10 * p);
        assert(10 * (a * p) == a * (10 * p)) by (nonlinear_arith);
    }
}

/// A number in decimal is the one row of digits, without a zero in front unless it
/// is zero itself, that is worth the number; a negative one has a minus sign.
pub proof fn law_decimal_is_the_shortest_row(n: nat)
    ensures
        decimal(n).len() > 0,
        forall|i: int| 0 <= i < decimal(n).len() ==> '0' <= #[trigger] decimal(n)[i] <= '9',
        digits_value(decimal(n)) == n,
        decimal(n)[0] == '0' ==> n == 0 && decimal(n).len() == 1,
        signed_decimal(n as int) == decimal(n),
        n > 0 ==> signed_decimal(-n) == seq!['-'] + decimal(n),
    decreases n,
{
    lemma_decimal(n);
    assert forall|i: int| 0 <= i < decimal(n).len() implies '0' <= #[trigger] decimal(n)[i]
        <= '9' by {
        assert(is_digit(decimal(n)[i]));
    }
    if n >= 10 {
        law_decimal_is_the_shortest_row(n / 10);
        assert(decimal(n)[0] == decimal(n / 10)[0]);
    }
}

/// A number is an optional sign and at least one digit, and nothing else. Where
/// the digits from the left on leave the range, that counts, whatever `rest`
/// follows them; then that something else follows, or that there are none.
pub proof fn law_numbers_are_a_sign_and_digits(
    sign: Seq<char>,
    digits: Seq<char>,
    rest: Seq<char>,
    signed: bool,
    lo: int,
    hi: int,
)
    requires
        sign == Seq::<char>::empty() || sign == seq!['+'] || (signed && sign == seq!['-']),
        forall|i: int| 0 <= i < digits.len() ==> '0' <= #[trigger] digits[i] <= '9',
        rest.len() > 0 ==> !('0' <= rest[0] <= '9'),
        sign.len() == 0 && digits.len() == 0 && rest.len() > 0 ==> rest[0] != '+' && !(signed
            && rest[0] == '-'),
        lo <= 0 <= hi,
    ensures
        ({
            let n: int = if sign == seq!['-'] {
                -(digits_value(digits) as int)
            } else {
                digits_value(digits) as int
            };
            int_of(sign + digits + rest, signed, lo, hi) == (if sign.len() == 0 && digits.len() == 0
                && rest.len() == 0 {
                Err(IntError::Empty)
            } else if n > hi {
                Err(IntError::PosOverflow)
            } else if n < lo {
                Err(IntError::NegOverflow)
            } else if digits.len() == 0 || rest.len() > 0 {
                Err(IntError::InvalidDigit)
            } else {
                Ok::<int, IntError>(n)
            })
        }),
{
    let all = sign + digits + rest;
    let tail = digits + rest;
    assert(sign.len() == 1 ==> all[0] == sign[0] && all.drop_first() =~= tail);
    assert(sign.len() == 0 ==> all =~= tail);
    if sign.len() == 0 && tail.len() > 0 {
        assert(all[0] == (if digits.len() > 0 {
            digits[0]
        } else {
            rest[0]
        }));
    }
    assert forall|i: int| 0 <= i < digits.len() implies is_digit(tail[i]) by {
        assert(tail[i] == digits[i]);
    }
    lemma_digit_run(tail, digits.len() as int);
    if rest.len() > 0 {
        assert(tail[digits.len() as int] == rest[0]);
    }
    assert(digit_run(tail) == digits.len());
    assert(tail.take(digits.len() as int) =~= digits);
    assert(digits.len() == 0 ==> digits_value(digits) == 0);
    assert(seq!['-'][0] == '-' && seq!['+'][0] == '+');
}

} // verus!
