//! Where the battery level and the charge state come from.

use crate::text::decimal;
use crate::text::decimal_text;
use crate::text::digits_value;
use crate::text::int_of;
use crate::text::is_digit;
use crate::text::is_white_space;
use crate::text::law_decimal_is_the_shortest_row;
use crate::text::law_decimal_reads_back;
use crate::text::law_decimal_survives_trim;
use crate::text::law_numbers_are_a_sign_and_digits;
use crate::text::law_trim_takes_the_surroundings;
use crate::text::lemma_digit_run_digits;
use crate::text::parse_u8;
use crate::text::text_eq;
use crate::text::trim;
use crate::text::trimmed;
use vstd::prelude::*;

verus! {

/// The characters of a text that may be missing.
pub open spec fn chars_of(text: Option<String>) -> Option<Seq<char>> {
    match text {
        Some(s) => Some(s@),
        None => None,
    }
}

/// The characters of a borrowed text that may be missing.
pub open spec fn str_chars_of(text: Option<&str>) -> Option<Seq<char>> {
    match text {
        Some(s) => Some(s@),
        None => None,
    }
}

/// The name of the charge state that the numeric code `raw` stands for.
pub open spec fn status_name(raw: Seq<char>) -> Seq<char> {
    if raw == "2"@ {
        "Charging"@
    } else if raw == "3"@ {
        "Discharging"@
    } else if raw == "4"@ {
        "Not charging"@
    } else if raw == "5"@ {
        "Full"@
    } else {
        "Unknown"@
    }
}

/// Names a numeric charge state code; `"Unknown"` for anything else.
pub fn status_str(raw: &str) -> (r: &'static str)
    ensures
        r@ == status_name(raw@),
{
    if text_eq(raw, "2") {
        "Charging"
    } else if text_eq(raw, "3") {
        "Discharging"
    } else if text_eq(raw, "4") {
        "Not charging"
    } else if text_eq(raw, "5") {
        "Full"
    } else {
        "Unknown"
    }
}

/// The level that the contents of the capacity file stand for: none where the
/// file could not be read or does not hold a number from 0 to 255.
pub open spec fn level_of(contents: Option<Seq<char>>) -> Option<u8> {
    match contents {
        Some(s) => match int_of(trimmed(s), false, 0, u8::MAX as int) {
            Ok(n) => Some(n as u8),
            Err(_) => None,
        },
        None => None,
    }
}

/// Reads the battery level out of the contents of [`crate::config::SYSFS_CAP`], which are
/// missing where the file could not be read.
pub fn read_level(contents: Option<&str>) -> (r: Option<u8>)
    ensures
        r == level_of(str_chars_of(contents)),
{
    match contents {
        Some(s) => match parse_u8(trim(s)) {
            Ok(n) => Some(n),
            Err(_) => None,
        },
        None => None,
    }
}

/// The charge state: the trimmed contents of the status file, or, where that
/// could not be read, what the code in the property stands for. A missing
/// property counts as an empty one.
pub open spec fn status_of(contents: Option<Seq<char>>, property: Option<Seq<char>>) -> Seq<char> {
    match contents {
        Some(s) => trimmed(s),
        None => match property {
            Some(p) => status_name(p),
            None => status_name(""@),
        },
    }
}

/// Reads the charge state out of the contents of [`crate::config::SYSFS_STATUS`] and, where
/// these are missing, out of the value of [`crate::config::STATUS_PROP`].
pub fn read_status(contents: Option<&str>, property: Option<&str>) -> (r: String)
    ensures
        r@ == status_of(str_chars_of(contents), str_chars_of(property)),
{
    match contents {
        Some(s) => trim(s).to_owned(),
        None => match property {
            Some(p) => status_str(p).to_owned(),
            None => status_str("").to_owned(),
        },
    }
}

/// The line that tells a consumer about `level`.
pub open spec fn level_line(level: u8) -> Seq<char> {
    decimal(level as nat).push('\n')
}

/// Writes the line that tells a consumer about `level`.
pub fn level_message(level: u8) -> (r: String)
    ensures
        r@ == level_line(level),
{
    let mut r = decimal_text(level as u64);
    proof {
        reveal_strlit("\n");
    }
    r.append("\n");
    assert(r@ =~= level_line(level));
    r
}

/// The line about a level reads back as that level.
pub proof fn law_level_line_reads_back(level: u8)
    ensures
        level_of(Some(level_line(level))) == Some(level),
{
    law_decimal_survives_trim(level as int);
    law_decimal_reads_back(level as int, false, 0, u8::MAX as int);
}

/// Every code has one of five names, and two codes that share a name other than
/// `"Unknown"` are the same code.
pub proof fn law_status_names(raw: Seq<char>, other: Seq<char>)
    ensures
        status_name(raw) == "Charging"@ || status_name(raw) == "Discharging"@ || status_name(raw)
            == "Not charging"@ || status_name(raw) == "Full"@ || status_name(raw) == "Unknown"@,
        status_name(raw) == status_name(other) && status_name(raw) != "Unknown"@ ==> raw == other,
{
    reveal_strlit("Charging");
    reveal_strlit("Discharging");
    reveal_strlit("Not charging");
    reveal_strlit("Full");
    reveal_strlit("Unknown");
    assert("Charging"@[0] == 'C');
    assert("Discharging"@[0] == 'D');
    assert("Not charging"@[0] == 'N');
    assert("Full"@[0] == 'F');
    assert("Unknown"@[0] == 'U');
}

/// The codes 2 to 5 have their names, and anything else is unknown.
pub proof fn law_codes_have_their_names(raw: Seq<char>)
    ensures
        status_name(seq!['2']) == "Charging"@,
        status_name(seq!['3']) == "Discharging"@,
        status_name(seq!['4']) == "Not charging"@,
        status_name(seq!['5']) == "Full"@,
        !(raw.len() == 1 && '2' <= raw[0] <= '5') ==> status_name(raw) == "Unknown"@,
{
    reveal_strlit("2");
    reveal_strlit("3");
    reveal_strlit("4");
    reveal_strlit("5");
    assert("2"@ =~= seq!['2']);
    assert("3"@ =~= seq!['3']);
    assert("4"@ =~= seq!['4']);
    assert("5"@ =~= seq!['5']);
    assert(seq!['2'][0] != seq!['3'][0] && seq!['3'][0] != seq!['4'][0] && seq!['4'][0]
        != seq!['5'][0]);
    assert(seq!['2'][0] == '2' && seq!['3'][0] == '3' && seq!['4'][0] == '4' && seq!['5'][0]
        == '5');
}

/// Where the status file can be read, the charge state is what it holds without
/// the white space around it, whatever that is and whatever the property says;
/// where it cannot, the name of the code in the property; where that is missing
/// too, it is unknown.
pub proof fn law_the_charge_state_is_what_the_file_holds(
    pre: Seq<char>,
    s: Seq<char>,
    post: Seq<char>,
    property: Option<Seq<char>>,
)
    requires
        forall|i: int| 0 <= i < pre.len() ==> is_white_space(#[trigger] pre[i]),
        forall|i: int| 0 <= i < post.len() ==> is_white_space(#[trigger] post[i]),
        s.len() > 0 ==> !is_white_space(s.first()) && !is_white_space(s.last()),
    ensures
        status_of(Some(pre + s + post), property) == s,
        property matches Some(raw) ==> status_of(None, property) == status_name(raw),
        status_of(None, None) == "Unknown"@,
{
    law_trim_takes_the_surroundings(pre, s, post);
    reveal_strlit("");
    law_codes_have_their_names(""@);
}

/// Digits with white space around them, and perhaps a plus sign in front, are the
/// level they are worth, up to 255; there is none above that, nor without a file.
pub proof fn law_the_level_is_what_the_file_holds(
    pre: Seq<char>,
    plus: bool,
    digits: Seq<char>,
    post: Seq<char>,
)
    requires
        forall|i: int| 0 <= i < pre.len() ==> is_white_space(#[trigger] pre[i]),
        forall|i: int| 0 <= i < post.len() ==> is_white_space(#[trigger] post[i]),
        digits.len() > 0,
        forall|i: int| 0 <= i < digits.len() ==> '0' <= #[trigger] digits[i] <= '9',
    ensures
        ({
            let sign = if plus {
                seq!['+']
            } else {
                Seq::empty()
            };
            let level = level_of(Some(pre + (sign + digits) + post));
            if digits_value(digits) <= 255 {
                level is Some && level->Some_0 == digits_value(digits)
            } else {
                level is None
            }
        }),
        level_of(None) is None,
{
    let sign = if plus {
        seq!['+']
    } else {
        Seq::empty()
    };
    let s = sign + digits;
    assert(s.last() == digits.last());
    assert('0' <= digits[0] <= '9' && '0' <= digits[digits.len() - 1] <= '9');
    assert(s.first() == (if plus {
        '+'
    } else {
        digits[0]
    }));
    law_trim_takes_the_surroundings(pre, s, post);
    let none = Seq::<char>::empty();
    law_numbers_are_a_sign_and_digits(sign, digits, none, false, 0, 255);
    assert(sign + digits + none =~= s);
    assert(seq!['-'][0] == '-' && seq!['+'][0] == '+');
    assert(plus ==> sign[0] == '+');
    assert(!plus ==> sign.len() == 0);
    assert(sign != seq!['-']);
}

/// What holds a level is a number from 0 to 255: at least one digit, perhaps with a
/// plus sign in front, and nothing but white space around it.
pub proof fn law_only_numbers_are_levels(contents: Seq<char>)
    ensures
        level_of(Some(contents)) matches Some(level) ==> {
            let s = trimmed(contents);
            let digits = if s.first() == '+' {
                s.drop_first()
            } else {
                s
            };
            &&& s.len() > 0
            &&& digits.len() > 0
            &&& forall|i: int| 0 <= i < digits.len() ==> '0' <= #[trigger] digits[i] <= '9'
            &&& digits_value(digits) == level
        },
{
    let s = trimmed(contents);
    if level_of(Some(contents)) is Some {
        let digits = if s.first() == '+' {
            s.drop_first()
        } else {
            s
        };
        lemma_digit_run_digits(digits);
        assert forall|i: int| 0 <= i < digits.len() implies '0' <= #[trigger] digits[i] <= '9' by {
            assert(is_digit(digits[i]));
        }
        assert(digits.take(digits.len() as int) =~= digits);
    }
}

/// The line about a level is its digits, without a zero in front of others, and a
/// line break.
pub proof fn law_a_level_line_is_digits_and_a_break(level: u8)
    ensures
        ({
            let line = level_line(level);
            let digits = line.drop_last();
            &&& line.last() == '\n'
            &&& 1 <= digits.len()
            &&& forall|i: int| 0 <= i < digits.len() ==> '0' <= #[trigger] digits[i] <= '9'
            &&& digits_value(digits) == level
            &&& digits[0] == '0' ==> digits.len() == 1
        }),
{
    law_decimal_is_the_shortest_row(level as nat);
    assert(level_line(level).drop_last() =~= decimal(level as nat));
}

/// The characters of a text are those of the text, where there is one.
pub proof fn law_characters_are_those_of_the_text(s: String, t: &str)
    ensures
        chars_of(Some(s)) == Some(s@),
        chars_of(None) is None,
        str_chars_of(Some(t)) == Some(t@),
        str_chars_of(None) is None,
{
}

} // verus!
