//! Text: comparing, joining, and writing and reading decimal numbers.
use vstd::prelude::*;

verus! {

/// The texts that strings hold.
pub open spec fn texts(strings: Seq<String>) -> Seq<Seq<char>> {
    strings.map_values(|string: String| string@)
}

/// The text that an optional string holds.
pub open spec fn optional_text(string: Option<String>) -> Option<Seq<char>> {
    match string {
        Some(string) => Some(string@),
        None => None,
    }
}

/// `parts` one after another, with `separator` between each two.
pub open spec fn joined(parts: Seq<Seq<char>>, separator: Seq<char>) -> Seq<char>
    decreases parts.len(),
{
    if parts.len() == 0 {
        Seq::empty()
    } else if parts.len() == 1 {
        parts[0]
    } else {
        joined(parts.drop_last(), separator) + separator + parts.last()
    }
}

/// The decimal digit of value `d`.
pub open spec fn digit(d: int) -> char
    recommends
        0 <= d < 10,
{
    ('0' as int + d) as char
}

/// `n` in decimal, without leading zeros.
pub open spec fn natural_text(n: nat) -> Seq<char>
    decreases n,
{
    if n < 10 {
        seq![digit(n as int)]
    } else {
        natural_text(n / 10).push(digit((n % 10) as int))
    }
}

/// `i` in decimal, with a minus sign where it is negative.
pub open spec fn integer_text(i: int) -> Seq<char> {
    if i < 0 {
        seq!['-'] + natural_text((-i) as nat)
    } else {
        natural_text(i as nat)
    }
}

/// Whether `c` is a decimal digit.
pub open spec fn is_digit(c: char) -> bool {
    '0' <= c <= '9'
}

/// The number that the decimal digits `digits` write.
pub open spec fn number(digits: Seq<char>) -> int
    decreases digits.len(),
{
    if digits.len() == 0 {
        0
    } else {
        number(digits.drop_last()) * 10 + (digits.last() as int - '0' as int)
    }
}

/// `text` without a leading plus sign.
pub open spec fn unsigned(text: Seq<char>) -> Seq<char> {
    if text.len() > 0 && text[0] == '+' {
        text.skip(1)
    } else {
        text
    }
}

/// The port that `text` gives: an optional plus sign, then decimal digits and nothing else, whose
/// number is a 16-bit one.
pub open spec fn port_number(text: Seq<char>) -> Option<u16> {
    let digits = unsigned(text);
    if digits.len() > 0 && (forall|i: int| 0 <= i < digits.len() ==> is_digit(#[trigger] digits[i]))
        && number(digits) <= u16::MAX {
        Some(number(digits) as u16)
    } else {
        None
    }
}

/// A digit sequence that starts with another writes no smaller number.
proof fn lemma_number_grows(digits: Seq<char>, n: int)
    requires
        forall|i: int| 0 <= i < digits.len() ==> is_digit(#[trigger] digits[i]),
        0 <= n <= digits.len(),
    ensures
        0 <= number(digits.take(n)) <= number(digits),
    decreases digits.len(),
{
    if n == digits.len() {
        assert(digits.take(n) == digits);
        if n > 0 {
            lemma_number_grows(digits.drop_last(), n - 1);
        }
    } else {
        lemma_number_grows(digits.drop_last(), n);
        assert(digits.drop_last().take(n) == digits.take(n));
    }
}

/// The decimal text of a number holds digits only, and reads back as that number.
pub proof fn law_natural_text_reads_back(n: nat)
    ensures
        natural_text(n).len() > 0,
        forall|i: int| 0 <= i < natural_text(n).len() ==> is_digit(#[trigger] natural_text(n)[i]),
        number(natural_text(n)) == n,
    decreases n,
{
    reveal_with_fuel(number, 2);
    if n < 10 {
        assert(natural_text(n).drop_last() == Seq::<char>::empty());
    } else {
        law_natural_text_reads_back(n / 10);
        assert(natural_text(n).drop_last() == natural_text(n / 10));
    }
}

/// Whether two texts are the same.
pub fn same(a: &str, b: &str) -> (equal: bool)
    ensures
        equal == (a@ == b@),
{
    a.to_owned() == b.to_owned()
}

/// `parts` joined by `separator`.
pub fn join(parts: &Vec<String>, separator: &str) -> (text: String)
    ensures
        text@ == joined(texts(parts@), separator@),
{
    let mut text = String::new();
    let mut i: usize = 0;
    while i < parts.len()
        invariant
            i <= parts.len(),
            text@ == joined(texts(parts@).take(i as int), separator@),
        decreases parts.len() - i,
    {
        if i > 0 {
            text.append(separator);
        }
        text.append(parts[i].as_str());
        proof {
            assert(texts(parts@).take(i + 1).drop_last() == texts(parts@).take(i as int));
        }
        i = i + 1;
    }
    proof {
        assert(texts(parts@).take(i as int) == texts(parts@));
    }
    text
}

/// `n` in decimal.
fn natural(n: u64) -> (text: String)
    ensures
        text@ == natural_text(n as nat),
    decreases n,
{
    if n < 10 {
        one_digit(n)
    } else {
        let last = one_digit(n % 10);
        let text = natural(n / 10).concat(last.as_str());
        assert(text@ == natural_text(n as nat));
        text
    }
}

/// The digit `d`.
fn one_digit(d: u64) -> (text: String)
    requires
        d < 10,
    ensures
        text@ == seq![digit(d as int)],
{
    let digits = "0123456789";
    proof {
        reveal_strlit("0123456789");
    }
    let text = digits.substring_char(d as usize, d as usize + 1).to_owned();
    assert(text@ == seq![digit(d as int)]);
    text
}

/// `i` in decimal.
pub fn integer(i: i64) -> (text: String)
    ensures
        text@ == integer_text(i as int),
{
    if i < 0 {
        let magnitude: u64 = if i == i64::MIN {
            0x8000_0000_0000_0000
        } else {
            (-i) as u64
        };
        let mut text = "-".to_owned();
        proof {
            reveal_strlit("-");
        }
        text.append(natural(magnitude).as_str());
        text
    } else {
        natural(i as u64)
    }
}

/// The port that `text` gives, if it gives one.
pub fn port(text: &str) -> (port: Option<u16>)
    ensures
        port == port_number(text@),
{
    let length = text.unicode_len();
    let mut start: usize = 0;
    if length > 0 && text.get_char(0) == '+' {
        start = 1;
    }
    if start == length {
        return None;
    }
    let ghost digits = unsigned(text@);
    let mut value: u32 = 0;
    let mut i: usize = start;
    while i < length
        invariant
            start <= i <= length,
            length == text@.len(),
            digits == text@.skip(start as int),
            forall|j: int| 0 <= j < i - start ==> is_digit(#[trigger] digits[j]),
            value == number(digits.take(i - start)),
            value <= u16::MAX,
            digits == unsigned(text@),
        decreases length - i,
    {
        let c = text.get_char(i);
        proof {
            assert(digits[i - start] == c);
            assert(digits.take(i + 1 - start).drop_last() == digits.take(i - start));
        }
        if c < '0' || c > '9' {
            return None;
        }
        value = value * 10 + (c as u32 - '0' as u32);
        i = i + 1;
        if value > 65535 {
            proof {
                if forall|j: int| 0 <= j < digits.len() ==> is_digit(#[trigger] digits[j]) {
                    lemma_number_grows(digits, i - start);
                }
            }
            return None;
        }
    }
    proof {
        assert(digits.take(i - start) == digits);
    }
    Some(value as u16)
}

/// The texts of strings are those of each of them, in order.
pub proof fn law_texts_are_those_of_each(strings: Seq<String>, string: Option<String>)
    ensures
        texts(strings).len() == strings.len(),
        forall|i: int| 0 <= i < strings.len() ==> #[trigger] texts(strings)[i] == strings[i]@,
        string is None <==> optional_text(string) is None,
        string is Some ==> optional_text(string) == Some(string.unwrap()@),
{
}

/// Joining nothing gives nothing, and joining one part gives that part; joining two lists of parts
/// one after another is joining each, with a separator between them.
pub proof fn law_joining_concatenates(
    first: Seq<Seq<char>>,
    second: Seq<Seq<char>>,
    part: Seq<char>,
    separator: Seq<char>,
)
    ensures
        joined(Seq::empty(), separator) == Seq::<char>::empty(),
        joined(seq![part], separator) == part,
        first.len() > 0 && second.len() > 0 ==> joined(first + second, separator) == joined(first, separator)
            + separator + joined(second, separator),
    decreases second.len(),
{
    if first.len() > 0 && second.len() > 0 {
        let whole = first + second;
        assert(whole.last() == second.last());
        if second.len() == 1 {
            assert(whole.drop_last() =~= first);
        } else {
            assert(whole.drop_last() =~= first + second.drop_last());
            law_joining_concatenates(first, second.drop_last(), part, separator);
            assert(joined(whole, separator) =~= joined(first, separator) + separator + joined(
                second,
                separator,
            ));
        }
    }
}

/// Where part `i` of joined parts begins: behind all parts before it, each with its separator.
pub open spec fn offset(parts: Seq<Seq<char>>, separator: Seq<char>, i: int) -> int
    decreases i,
{
    if i <= 0 {
        0
    } else {
        offset(parts, separator, i - 1) + parts[i - 1].len() + separator.len()
    }
}

/// Offsets do not depend on what follows.
proof fn lemma_offset_of_first(parts: Seq<Seq<char>>, separator: Seq<char>, i: int)
    requires
        0 <= i < parts.len(),
    ensures
        offset(parts.drop_last(), separator, i) == offset(parts, separator, i),
        offset(parts, separator, i) >= 0,
    decreases i,
{
    if i > 0 {
        lemma_offset_of_first(parts, separator, i - 1);
    }
}

/// Joined parts hold every part, in order and with a separator between each two, and nothing else.
pub proof fn law_joined_text_holds_every_part(parts: Seq<Seq<char>>, separator: Seq<char>, i: int)
    requires
        0 <= i < parts.len(),
    ensures
        joined(parts, separator).len() + separator.len() == offset(parts, separator, parts.len() as int),
        0 <= offset(parts, separator, i),
        offset(parts, separator, i) + parts[i].len() <= joined(parts, separator).len(),
        joined(parts, separator).subrange(
            offset(parts, separator, i),
            offset(parts, separator, i) + parts[i].len(),
        ) == parts[i],
        i + 1 < parts.len() ==> offset(parts, separator, i + 1) <= joined(parts, separator).len() && joined(
            parts,
            separator,
        ).subrange(offset(parts, separator, i) + parts[i].len(), offset(parts, separator, i + 1)) == separator,
    decreases parts.len(),
{
    let text = joined(parts, separator);
    let first = parts.drop_last();
    let n = parts.len() as int;
    lemma_offset_of_first(parts, separator, i);
    if n == 1 {
        assert(text.subrange(0, text.len() as int) =~= text);
        assert(offset(parts, separator, 0) == 0);
        assert(offset(parts, separator, 1) == parts[0].len() + separator.len());
    } else {
        lemma_offset_of_first(parts, separator, n - 1);
        lemma_offset_of_first(parts, separator, n - 2);
        let before = joined(first, separator);
        law_joined_text_holds_every_part(first, separator, n - 2);
        assert(offset(first, separator, n - 1) == offset(parts, separator, n - 1));
        assert(text.len() + separator.len() == offset(parts, separator, n));
        if i == n - 1 {
            assert(text.subrange(offset(parts, separator, i), text.len() as int) =~= parts[i]);
        } else {
            law_joined_text_holds_every_part(first, separator, i);
            let start = offset(parts, separator, i);
            let end = start + parts[i].len();
            assert(text.subrange(start, end) =~= before.subrange(start, end));
            if i == n - 2 {
                assert(text.subrange(end, offset(parts, separator, n - 1)) =~= separator);
            } else {
                lemma_offset_of_first(parts, separator, i + 1);
                let next = offset(parts, separator, i + 1);
                assert(text.subrange(end, next) =~= before.subrange(end, next));
            }
        }
    }
}

/// Each further digit makes the number that digits write ten times as big, and adds itself.
pub proof fn law_digits_count_in_tens(digits: Seq<char>, next: char)
    ensures
        number(Seq::empty()) == 0,
        number(digits.push(next)) == 10 * number(digits) + (next as int - 48),
{
    assert(digits.push(next).drop_last() =~= digits);
}

/// No number but zero is written with a zero in front.
proof fn lemma_no_leading_zero(n: nat)
    ensures
        n > 0 ==> natural_text(n)[0] != '0',
    decreases n,
{
    if n >= 10 {
        lemma_no_leading_zero(n / 10);
        law_natural_text_reads_back(n / 10);
    }
}

/// The text of an integer holds digits only, behind a minus sign where it is negative, none of them a
/// needless zero, and reads back as that integer.
pub proof fn law_integer_text_reads_back(i: int)
    ensures
        i >= 0 ==> {
            let text = integer_text(i);
            &&& text.len() > 0
            &&& forall|j: int| 0 <= j < text.len() ==> '0' <= #[trigger] text[j] <= '9'
            &&& text.len() > 1 ==> text[0] != '0'
            &&& number(text) == i
        },
        i < 0 ==> {
            let text = integer_text(i);
            let digits = text.skip(1);
            &&& text.len() > 1
            &&& text[0] == '-'
            &&& forall|j: int| 0 <= j < digits.len() ==> '0' <= #[trigger] digits[j] <= '9'
            &&& digits[0] != '0'
            &&& number(digits) == -i
        },
{
    let n = if i < 0 {
        (-i) as nat
    } else {
        i as nat
    };
    law_natural_text_reads_back(n);
    lemma_no_leading_zero(n);
    if i < 0 {
        assert(integer_text(i).skip(1) =~= natural_text(n));
    }
    assert forall|j: int| 0 <= j < natural_text(n).len() implies '0' <= #[trigger] natural_text(n)[j] <= '9' by {
        assert(is_digit(natural_text(n)[j]));
    }
    if n == 0 {
        assert(natural_text(n).len() == 1);
    }
}

/// Different integers have different texts.
pub proof fn law_integers_are_told_apart(i: int, j: int)
    requires
        integer_text(i) == integer_text(j),
    ensures
        i == j,
{
    law_integer_text_reads_back(i);
    law_integer_text_reads_back(j);
    if i < 0 && j >= 0 {
        assert('0' <= integer_text(j)[0] <= '9');
    }
    if j < 0 && i >= 0 {
        assert('0' <= integer_text(i)[0] <= '9');
    }
}

/// Digits, with or without a plus sign in front, give the port that they write, if there is such a
/// port.
pub proof fn law_digits_give_their_port(digits: Seq<char>)
    requires
        digits.len() > 0,
        forall|i: int| 0 <= i < digits.len() ==> '0' <= #[trigger] digits[i] <= '9',
    ensures
        number(digits) <= 65535 ==> port_number(digits) == Some(number(digits) as u16) && port_number(
            seq!['+'] + digits,
        ) == Some(number(digits) as u16),
        number(digits) > 65535 ==> port_number(digits) is None && port_number(seq!['+'] + digits) is None,
        number(digits) >= 0,
{
    assert forall|i: int| 0 <= i < digits.len() implies is_digit(#[trigger] digits[i]) by {}
    lemma_number_grows(digits, 0);
    assert(digits[0] != '+');
    assert(unsigned(digits) == digits);
    assert(unsigned(seq!['+'] + digits) =~= digits);
}

/// A text that is empty, or a plus sign and nothing else, or holds anything but digits, save for a plus
/// sign in front, gives no port.
pub proof fn law_other_texts_give_no_port(text: Seq<char>, i: int)
    requires
        0 <= i < text.len() ==> !('0' <= text[i] <= '9') && !(i == 0 && text[0] == '+' && text.len() > 1),
        0 <= i < text.len() || text.len() == 0,
    ensures
        port_number(text) is None,
{
    if text.len() > 0 {
        let digits = unsigned(text);
        if text[0] == '+' {
            if i > 0 {
                assert(digits[i - 1] == text[i]);
                assert(!is_digit(digits[i - 1]));
            }
        } else {
            assert(!is_digit(digits[i]));
        }
    }
}

} // verus!
