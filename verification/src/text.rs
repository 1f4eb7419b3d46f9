//! Text: decimal numbers, comparison and the parts that messages are put together from.
use vstd::prelude::*;

verus! {

/// What each text of a list reads.
pub open spec fn texts(list: Seq<String>) -> Seq<Seq<char>> {
    list.map_values(|text: String| text@)
}

/// The decimal digit that stands for `value`, where `0 <= value < 10`.
pub open spec fn digit(value: int) -> char {
    (value + '0' as int) as char
}

/// `value` in decimal, without leading zeros.
pub open spec fn decimal(value: nat) -> Seq<char>
    decreases value,
{
    if value < 10 {
        seq![digit(value as int)]
    } else {
        decimal(value / 10).push(digit((value % 10) as int))
    }
}

pub open spec fn is_digit(c: char) -> bool {
    '0' <= c <= '9'
}

/// Whether the text is one or more decimal digits and nothing else.
pub open spec fn is_digits(text: Seq<char>) -> bool {
    text.len() > 0 && forall|i: int| 0 <= i < text.len() ==> is_digit(#[trigger] text[i])
}

/// The number that the decimal digits of `text` spell.
pub open spec fn digits_value(text: Seq<char>) -> nat
    decreases text.len(),
{
    if text.len() == 0 {
        0
    } else {
        (digits_value(text.drop_last()) * 10 + (text.last() as int - '0' as int)) as nat
    }
}

/// The number that `text` spells as digits after an optional sign, `+` or, where `signed`, `-`.
pub open spec fn number_value(text: Seq<char>, signed: bool) -> Option<int> {
    let minus = signed && text.len() > 0 && text[0] == '-';
    let plus = text.len() > 0 && text[0] == '+';
    let digits = if minus || plus {
        text.skip(1)
    } else {
        text
    };
    if !is_digits(digits) {
        None
    } else if minus {
        Some(-digits_value(digits))
    } else {
        Some(digits_value(digits) as int)
    }
}

/// `c`, with an ASCII capital letter made small.
pub open spec fn ascii_lower(c: char) -> char {
    if 'A' <= c <= 'Z' {
        (c as int + 32) as char
    } else {
        c
    }
}

/// Whether two texts agree but for the case of ASCII letters.
pub open spec fn same_ignoring_case(left: Seq<char>, right: Seq<char>) -> bool {
    &&& left.len() == right.len()
    &&& forall|i: int| 0 <= i < left.len() ==> ascii_lower(#[trigger] left[i]) == ascii_lower(right[i])
}

/// The characters of a text.
pub(crate) fn chars_of(text: &str) -> (chars: Vec<char>)
    ensures
        chars@ == text@,
{
    let mut chars: Vec<char> = Vec::new();
    for c in it: text.chars()
        invariant
            it.seq() == text@,
            chars@ == text@.take(it.index() as int),
    {
        chars.push(c);
    }
    assert(chars@ =~= text@);
    chars
}

/// Whether two texts are the same.
pub(crate) fn same_text(left: &str, right: &str) -> (same: bool)
    ensures
        same == (left@ == right@),
{
    left.to_owned() == right.to_owned()
}

/// Whether two texts agree but for the case of ASCII letters.
pub fn matches_ignoring_case(left: &str, right: &str) -> (same: bool)
    ensures
        same == same_ignoring_case(left@, right@),
{
    let a: Vec<char> = chars_of(left);
    let b: Vec<char> = chars_of(right);
    if a.len() != b.len() {
        return false;
    }
    let mut i: usize = 0;
    while i < a.len()
        invariant
            i <= a.len(),
            a.len() == b.len(),
            a@ == left@,
            b@ == right@,
            forall|j: int| 0 <= j < i ==> ascii_lower(#[trigger] left@[j]) == ascii_lower(right@[j]),
        decreases a.len() - i,
    {
        if lowered(a[i]) != lowered(b[i]) {
            assert(ascii_lower(left@[i as int]) != ascii_lower(right@[i as int]));
            return false;
        }
        i += 1;
    }
    true
}

/// `c`, with an ASCII capital letter made small, as a number.
fn lowered(c: char) -> (code: u32)
    ensures
        code == ascii_lower(c) as u32,
{
    if 'A' <= c && c <= 'Z' {
        c as u32 + 32
    } else {
        c as u32
    }
}

/// The text of one decimal digit.
fn digit_text(value: usize) -> (text: &'static str)
    requires
        value < 10,
    ensures
        text@ == seq![digit(value as int)],
{
    proof {
        reveal_strlit("0");
        reveal_strlit("1");
        reveal_strlit("2");
        reveal_strlit("3");
        reveal_strlit("4");
        reveal_strlit("5");
        reveal_strlit("6");
        reveal_strlit("7");
        reveal_strlit("8");
        reveal_strlit("9");
    }
    let text: &'static str = match value {
        0 => "0",
        1 => "1",
        2 => "2",
        3 => "3",
        4 => "4",
        5 => "5",
        6 => "6",
        7 => "7",
        8 => "8",
        _ => "9",
    };
    assert(text@ =~= seq![digit(value as int)]);
    text
}

/// `value` in decimal.
pub fn decimal_text(value: usize) -> (text: String)
    ensures
        text@ == decimal(value as nat),
    decreases value,
{
    if value < 10 {
        digit_text(value).to_owned()
    } else {
        let mut text: String = decimal_text(value / 10);
        text.append(digit_text(value % 10));
        assert(text@ =~= decimal(value as nat));
        text
    }
}

/// More digits spell no smaller a number.
proof fn lemma_digits_value_grows(digits: Seq<char>, count: int)
    requires
        0 <= count <= digits.len(),
        forall|i: int| 0 <= i < digits.len() ==> is_digit(#[trigger] digits[i]),
    ensures
        digits_value(digits.take(count)) <= digits_value(digits),
    decreases digits.len() - count,
{
    if count == digits.len() {
        assert(digits.take(count) =~= digits);
    } else {
        let longer = digits.take(count + 1);
        assert(longer.drop_last() =~= digits.take(count));
        assert(is_digit(longer.last()));
        lemma_digits_value_grows(digits, count + 1);
    }
}

/// The number that the digits from `start` on spell, where there are any and it is at most `limit`.
fn magnitude(chars: &Vec<char>, start: usize, limit: u64) -> (value: Option<u64>)
    requires
        start <= chars.len(),
    ensures
        ({
            let digits = chars@.skip(start as int);
            match value {
                Some(n) => is_digits(digits) && digits_value(digits) == n && n <= limit,
                None => !is_digits(digits) || digits_value(digits) > limit,
            }
        }),
{
    let ghost digits = chars@.skip(start as int);
    if start == chars.len() {
        return None;
    }
    let mut total: u128 = 0;
    let mut i: usize = start;
    while i < chars.len()
        invariant
            start <= i <= chars.len(),
            digits == chars@.skip(start as int),
            total == digits_value(digits.take(i - start)),
            total <= limit,
            forall|j: int| 0 <= j < i - start ==> is_digit(#[trigger] digits[j]),
        decreases chars.len() - i,
    {
        let c: char = chars[i];
        assert(digits[i - start] == c);
        if c < '0' || '9' < c {
            return None;
        }
        let next: u128 = total * 10 + (c as u128 - '0' as u128);
        assert(digits.take(i - start + 1).drop_last() =~= digits.take(i - start));
        assert(next == digits_value(digits.take(i - start + 1)));
        if next > limit as u128 {
            proof {
                if is_digits(digits) {
                    lemma_digits_value_grows(digits, i - start + 1);
                }
            }
            return None;
        }
        total = next;
        i += 1;
    }
    assert(digits.take(i - start) =~= digits);
    Some(total as u64)
}

/// The port number that `text` spells: digits, after a `+` or not, of a number that fits 16 bits.
pub fn parse_u16(text: &str) -> (value: Option<u16>)
    ensures
        match value {
            Some(n) => number_value(text@, false) == Some(n as int),
            None => match number_value(text@, false) {
                Some(n) => n > u16::MAX,
                None => true,
            },
        },
{
    let chars: Vec<char> = chars_of(text);
    let start: usize = if chars.len() > 0 && chars[0] == '+' {
        1
    } else {
        0
    };
    assert(chars@.skip(0) =~= chars@);
    match magnitude(&chars, start, 65535) {
        Some(n) => Some(n as u16),
        None => None,
    }
}

/// The number that `text` spells: digits, after a sign or not, of a number that fits 64 bits.
pub fn parse_i64(text: &str) -> (value: Option<i64>)
    ensures
        match value {
            Some(n) => number_value(text@, true) == Some(n as int),
            None => match number_value(text@, true) {
                Some(n) => n < i64::MIN || n > i64::MAX,
                None => true,
            },
        },
{
    let chars: Vec<char> = chars_of(text);
    assert(chars@.skip(0) =~= chars@);
    if chars.len() > 0 && chars[0] == '-' {
        match magnitude(&chars, 1, 0x8000_0000_0000_0000) {
            Some(n) => Some((-(n as i128)) as i64),
            None => None,
        }
    } else {
        let start: usize = if chars.len() > 0 && chars[0] == '+' {
            1
        } else {
            0
        };
        match magnitude(&chars, start, 0x7fff_ffff_ffff_ffff) {
            Some(n) => Some(n as i64),
            None => None,
        }
    }
}

/// A number written in decimal reads back as that number.
pub proof fn law_decimal_reads_back(value: nat)
    ensures
        number_value(decimal(value), false) == Some(value as int),
        number_value(decimal(value), true) == Some(value as int),
{
    lemma_decimal(value);
}

proof fn lemma_decimal(value: nat)
    ensures
        is_digits(decimal(value)),
        digits_value(decimal(value)) == value,
    decreases value,
{
    reveal_with_fuel(digits_value, 2);
    if value >= 10 {
        lemma_decimal(value / 10);
        assert(decimal(value).drop_last() =~= decimal(value / 10));
    }
}

/// Two texts agree but for the case of ASCII letters where they are equally long and, place by
/// place, hold the same character or a capital letter and its small one.
pub proof fn law_case_is_ignored(left: Seq<char>, right: Seq<char>)
    ensures
        same_ignoring_case(left, right) <==> {
            &&& left.len() == right.len()
            &&& forall|i: int|
                #![trigger left[i]]
                0 <= i < left.len() ==> {
                    ||| left[i] == right[i]
                    ||| 'A' <= left[i] <= 'Z' && right[i] as int == left[i] as int + 32
                    ||| 'A' <= right[i] <= 'Z' && left[i] as int == right[i] as int + 32
                }
        },
{
}

/// What `matches_ignoring_case` finds is that the texts agree but for the case of ASCII letters.
pub proof fn law_case_is_ignored_in_matching(left: &str, right: &str, same: bool)
    requires
        call_ensures(matches_ignoring_case, (left, right), same),
    ensures
        same <==> {
            &&& left@.len() == right@.len()
            &&& forall|i: int|
                #![trigger left@[i]]
                0 <= i < left@.len() ==> {
                    ||| left@[i] == right@[i]
                    ||| 'A' <= left@[i] <= 'Z' && right@[i] as int == left@[i] as int + 32
                    ||| 'A' <= right@[i] <= 'Z' && left@[i] as int == right@[i] as int + 32
                }
        },
{
    law_case_is_ignored(left@, right@);
}

/// A number below ten is written as its digit.
pub proof fn law_small_number_is_its_digit(value: usize, text: String)
    requires
        value < 10,
        call_ensures(decimal_text, (value,), text),
    ensures
        text@.len() == 1,
        text@[0] as int == '0' as int + value,
{
}

/// Any other number is written as its tenth and one more digit.
pub proof fn law_number_is_its_tenth_and_a_digit(value: usize, text: String, tenth: String)
    requires
        value >= 10,
        call_ensures(decimal_text, (value,), text),
        call_ensures(decimal_text, ((value / 10) as usize,), tenth),
    ensures
        text@.len() == tenth@.len() + 1,
        text@.drop_last() == tenth@,
        text@.last() as int == '0' as int + value % 10,
{
    assert(text@.drop_last() =~= tenth@);
}

/// What is written for a number reads as that number, as a port where it fits and as a run's
/// number where that fits, also after a `+`; after a `-` it reads as the negative number.
pub proof fn law_written_number_is_read(
    value: usize,
    written: String,
    text: &str,
    port: Option<u16>,
    number: Option<i64>,
)
    requires
        call_ensures(decimal_text, (value,), written),
        call_ensures(parse_u16, (text,), port),
        call_ensures(parse_i64, (text,), number),
    ensures
        text@ == written@ || text@ == seq!['+'] + written@ ==> {
            &&& port == if value <= 65535 {
                Some(value as u16)
            } else {
                None
            }
            &&& number == if value <= 9223372036854775807 {
                Some(value as i64)
            } else {
                None
            }
        },
        text@ == seq!['-'] + written@ ==> {
            &&& port is None
            &&& number == if value <= 9223372036854775808 {
                Some((-value) as i64)
            } else {
                None
            }
        },
{
    lemma_decimal(value as nat);
    if text@ == seq!['+'] + written@ || text@ == seq!['-'] + written@ {
        assert(text@.skip(1) =~= written@);
    }
    if text@ == seq!['-'] + written@ {
        assert(!is_digit(text@[0]));
    }
    if text@ == written@ {
        assert(is_digit(text@[0]));
    }
}

/// A text is read as a port digit by digit: no text, a sign alone and anything but a digit after
/// the first place are refused; a digit adds itself to ten times what stands before it, where the
/// sum fits 16 bits.
pub proof fn law_port_is_read_by_digits(
    text: &str,
    shorter: &str,
    port: Option<u16>,
    before: Option<u16>,
)
    requires
        call_ensures(parse_u16, (text,), port),
        call_ensures(parse_u16, (shorter,), before),
        text@.len() > 0 ==> shorter@ == text@.drop_last(),
    ensures
        text@.len() == 0 ==> port is None,
        text@.len() > 0 && !('0' <= text@.last() <= '9') ==> port is None,
        text@.len() > 0 && '0' <= text@.last() <= '9' ==> {
            let last = text@.last() as int - '0' as int;
            if text@.len() == 1 || text@.len() == 2 && text@[0] == '+' {
                port matches Some(n) && n == last
            } else {
                match before {
                    Some(m) => if 10 * m + last <= 65535 {
                        port matches Some(n) && n == 10 * m + last
                    } else {
                        port is None
                    },
                    None => port is None,
                }
            }
        },
{
    if text@.len() > 0 {
        lemma_one_character_more(text@, shorter@, false);
    }
}

/// A text is read as a run's number digit by digit: no text, a sign alone and anything but a digit
/// after the first place are refused; a digit adds itself to ten times what stands before it, or
/// after a `-` takes itself from it, where the result fits 64 bits.
pub proof fn law_number_is_read_by_digits(
    text: &str,
    shorter: &str,
    number: Option<i64>,
    before: Option<i64>,
)
    requires
        call_ensures(parse_i64, (text,), number),
        call_ensures(parse_i64, (shorter,), before),
        text@.len() > 0 ==> shorter@ == text@.drop_last(),
    ensures
        text@.len() == 0 ==> number is None,
        text@.len() > 0 && !('0' <= text@.last() <= '9') ==> number is None,
        text@.len() > 0 && '0' <= text@.last() <= '9' ==> {
            let last = text@.last() as int - '0' as int;
            let added = if text@[0] == '-' {
                -last
            } else {
                last
            };
            if text@.len() == 1 || text@.len() == 2 && (text@[0] == '+' || text@[0] == '-') {
                number matches Some(n) && n == added
            } else {
                match before {
                    Some(m) => if -9223372036854775808 <= 10 * m + added
                        <= 9223372036854775807 {
                        number matches Some(n) && n == 10 * m + added
                    } else {
                        number is None
                    },
                    None => number is None,
                }
            }
        },
{
    if text@.len() > 0 {
        lemma_one_character_more(text@, shorter@, true);
    }
}

/// What one more character makes of the number that a text spells.
proof fn lemma_one_character_more(text: Seq<char>, shorter: Seq<char>, signed: bool)
    requires
        text.len() > 0,
        shorter == text.drop_last(),
    ensures
        ({
            let last = text.last() as int - '0' as int;
            let negative = signed && text[0] == '-';
            if !is_digit(text.last()) {
                number_value(text, signed) is None
            } else if text.len() == 1 {
                number_value(text, signed) == Some(last)
            } else if text.len() == 2 && (text[0] == '+' || signed && text[0] == '-') {
                number_value(text, signed) == Some(
                    if negative {
                        -last
                    } else {
                        last
                    },
                )
            } else {
                match number_value(shorter, signed) {
                    Some(n) => {
                        &&& negative ==> n <= 0
                        &&& !negative ==> n >= 0
                        &&& number_value(text, signed) == Some(
                            10 * n + if negative {
                                -last
                            } else {
                                last
                            },
                        )
                    },
                    None => number_value(text, signed) is None,
                }
            }
        }),
{
    reveal_with_fuel(digits_value, 3);
    let sign = text[0] == '+' || (signed && text[0] == '-');
    if sign {
        let digits = text.skip(1);
        if digits.len() > 0 {
            assert(digits.drop_last() =~= shorter.skip(1));
            assert(digits.last() == text.last());
            lemma_one_digit_more(digits);
        }
    } else {
        lemma_one_digit_more(text);
    }
}

proof fn lemma_one_digit_more(digits: Seq<char>)
    requires
        digits.len() > 0,
    ensures
        is_digits(digits) <==> is_digit(digits.last()) && (digits.len() == 1 || is_digits(
            digits.drop_last(),
        )),
{
    let fewer = digits.drop_last();
    if is_digits(digits) {
        assert(is_digit(digits[digits.len() - 1]));
        assert forall|i: int| 0 <= i < fewer.len() implies is_digit(#[trigger] fewer[i]) by {
            assert(is_digit(digits[i]));
        }
    }
    if is_digit(digits.last()) && (digits.len() == 1 || is_digits(fewer)) {
        assert forall|i: int| 0 <= i < digits.len() implies is_digit(#[trigger] digits[i]) by {
            if i < fewer.len() {
                assert(is_digit(fewer[i]));
            }
        }
    }
}

} // verus!
