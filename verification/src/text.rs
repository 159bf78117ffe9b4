//! Small things about text: numbers written in decimal and read back,
//! words, and lines.

use vstd::prelude::*;
use vstd::string::*;

verus! {

/// The text of a string that may be missing.
pub open spec fn text_of(found: Option<String>) -> Option<Seq<char>> {
    match found {
        Some(text) => Some(text@),
        None => None,
    }
}

/// The character that writes the single digit `d`.
pub open spec fn digit_char(d: nat) -> char
    recommends
        d < 10,
{
    ((48 + d) as u8) as char
}

/// The decimal numeral of `n`, most significant digit first, without
/// leading zeros (zero itself is written `0`).
pub open spec fn decimal(n: nat) -> Seq<char>
    decreases n,
{
    if n < 10 {
        seq![digit_char(n)]
    } else {
        decimal(n / 10).push(digit_char(n % 10))
    }
}

/// A numeral is never empty and holds only digits.
pub proof fn lemma_decimal_shape(n: nat)
    ensures
        decimal(n).len() >= 1,
        forall|i: int| 0 <= i < decimal(n).len() ==> is_digit(#[trigger] decimal(n)[i]),
    decreases n,
{
    if n >= 10 {
        lemma_decimal_shape(n / 10);
    }
}

/// Whether `c` is one of the ten decimal digits.
pub open spec fn is_digit(c: char) -> bool {
    '0' <= c && c <= '9'
}

/// The code point of a digit character is 48 plus the digit.
pub proof fn lemma_digit_char_value(d: nat)
    requires
        d < 10,
    ensures
        digit_char(d) as int == 48 + d,
        is_digit(digit_char(d)),
{
}

/// Different numbers have different numerals.
pub proof fn lemma_decimal_injective(a: nat, b: nat)
    requires
        decimal(a) == decimal(b),
    ensures
        a == b,
    decreases a,
{
    lemma_decimal_shape(a / 10);
    lemma_decimal_shape(b / 10);
    lemma_digit_char_value(a % 10);
    lemma_digit_char_value(b % 10);
    if a < 10 && b < 10 {
        assert(decimal(a)[0] == digit_char(a));
        assert(decimal(b)[0] == digit_char(b));
        assert(digit_char(a) as int == digit_char(b) as int);
    } else if a >= 10 && b >= 10 {
        let da = decimal(a / 10);
        let db = decimal(b / 10);
        assert(decimal(a) == da.push(digit_char(a % 10)));
        assert(decimal(b) == db.push(digit_char(b % 10)));
        assert(decimal(a).last() == digit_char(a % 10));
        assert(decimal(b).last() == digit_char(b % 10));
        assert(digit_char(a % 10) as int == digit_char(b % 10) as int);
        assert(a % 10 == b % 10);
        assert(decimal(a).drop_last() =~= da);
        assert(decimal(b).drop_last() =~= db);
        assert(da == db);
        lemma_decimal_injective(a / 10, b / 10);
        assert(a == 10 * (a / 10) + a % 10);
        assert(b == 10 * (b / 10) + b % 10);
    } else if a < 10 {
        assert(decimal(a).len() == 1);
        assert(decimal(b).len() == decimal(b / 10).len() + 1);
    } else {
        assert(decimal(b).len() == 1);
        assert(decimal(a).len() == decimal(a / 10).len() + 1);
    }
}

fn digit_str(d: u8) -> (s: &'static str)
    requires
        d < 10,
    ensures
        s@ == seq![digit_char(d as nat)],
{
    proof {
        reveal_strlit("0");
        reveal_strlit("1");
        reveal_strlit("2");
        reveal_strlit("3");
        reveal_strlit("4");
        reveal_strlit("5");
        reveal_strlit("6");
        reveal_strlit("7");
        reveal_strlit("8");
        reveal_strlit("9");
    }
    let s = match d {
        0 => "0",
        1 => "1",
        2 => "2",
        3 => "3",
        4 => "4",
        5 => "5",
        6 => "6",
        7 => "7",
        8 => "8",
        _ => "9",
    };
    assert(s@ =~= seq![digit_char(d as nat)]);
    s
}

/// Appends the decimal numeral of `n` to `out`.
pub fn push_decimal(out: &mut String, n: u64)
    ensures
        final(out)@ == old(out)@ + decimal(n as nat),
    decreases n,
{
    if n >= 10 {
        push_decimal(out, n / 10);
    }
    out.append(digit_str((n % 10) as u8));
    assert(out@ =~= old(out)@ + decimal(n as nat));
}

/// Whether `c` is white space, as Unicode defines it.
pub open spec fn is_space(c: char) -> bool {
    let code = c as u32;
    ||| 0x09 <= code <= 0x0D
    ||| code == 0x20
    ||| code == 0x85
    ||| code == 0xA0
    ||| code == 0x1680
    ||| 0x2000 <= code <= 0x200A
    ||| code == 0x2028
    ||| code == 0x2029
    ||| code == 0x202F
    ||| code == 0x205F
    ||| code == 0x3000
}

/// The text without the white space at its start.
pub open spec fn skip_spaces(text: Seq<char>) -> Seq<char>
    decreases text.len(),
{
    if text.len() > 0 && is_space(text[0]) {
        skip_spaces(text.drop_first())
    } else {
        text
    }
}

/// The characters of the text up to its first white space.
pub open spec fn leading_word(text: Seq<char>) -> Seq<char>
    decreases text.len(),
{
    if text.len() > 0 && !is_space(text[0]) {
        seq![text[0]] + leading_word(text.drop_first())
    } else {
        Seq::empty()
    }
}

/// The first word of the text: what stands between the white space at its
/// start and the next white space. A text of white space has the empty
/// word.
pub open spec fn first_word(text: Seq<char>) -> Seq<char> {
    leading_word(skip_spaces(text))
}

/// The number that a row of digits writes.
pub open spec fn digits_value(digits: Seq<char>) -> nat
    decreases digits.len(),
{
    if digits.len() == 0 {
        0
    } else {
        digits_value(digits.drop_last()) * 10 + ((digits.last() as u32 - 48) as nat)
    }
}

/// Whether the text is a row of at least one digit.
pub open spec fn is_number(text: Seq<char>) -> bool {
    text.len() > 0 && forall|i: int| 0 <= i < text.len() ==> is_digit(#[trigger] text[i])
}

/// The number that a row of digits writes, if it is one and a `u64` can
/// hold the number.
pub open spec fn number_of(digits: Seq<char>) -> Option<u64> {
    if is_number(digits) && digits_value(digits) <= u64::MAX {
        Some(digits_value(digits) as u64)
    } else {
        None
    }
}

/// The number that the word writes in decimal, if it writes one that a
/// `u64` can hold. A single `+` may stand before the digits.
pub open spec fn parse_u64(word: Seq<char>) -> Option<u64> {
    if word.len() > 0 && word[0] == '+' {
        number_of(word.drop_first())
    } else {
        number_of(word)
    }
}

/// Decides `is_space`.
pub fn char_is_space(c: char) -> (space: bool)
    ensures
        space == is_space(c),
{
    let code = c as u32;
    (0x09 <= code && code <= 0x0D) || code == 0x20 || code == 0x85 || code == 0xA0 || code == 0x1680 || (0x2000
        <= code && code <= 0x200A) || code == 0x2028 || code == 0x2029 || code == 0x202F || code == 0x205F
        || code == 0x3000
}

proof fn lemma_digits_value_grows(digits: Seq<char>, n: int)
    requires
        0 <= n <= digits.len(),
        forall|i: int| 0 <= i < digits.len() ==> is_digit(#[trigger] digits[i]),
    ensures
        digits_value(digits.take(n)) <= digits_value(digits),
    decreases digits.len() - n,
{
    if n < digits.len() {
        assert(digits.take(n + 1).drop_last() =~= digits.take(n));
        lemma_digits_value_grows(digits, n + 1);
    } else {
        assert(digits.take(n) =~= digits);
    }
}

/// The place of the first character of `text` that is no white space, or
/// the length of the text when there is none.
fn first_word_start(text: &str, n: usize) -> (start: usize)
    requires
        n == text@.len(),
    ensures
        start <= n,
        skip_spaces(text@) == text@.skip(start as int),
{
    let mut start: usize = 0;
    assert(text@.skip(0) =~= text@);
    while start < n && char_is_space(text.get_char(start))
        invariant
            n == text@.len(),
            start <= n,
            skip_spaces(text@) == skip_spaces(text@.skip(start as int)),
        decreases n - start,
    {
        proof {
            let rest = text@.skip(start as int);
            assert(rest[0] == text@[start as int]);
            assert(rest.drop_first() =~= text@.skip(start + 1));
        }
        start += 1;
    }
    proof {
        let rest = text@.skip(start as int);
        if start < n {
            assert(rest[0] == text@[start as int]);
        }
        assert(skip_spaces(rest) == rest);
    }
    start
}

/// The place after the word that starts at `start`.
fn word_end(text: &str, n: usize, start: usize) -> (end: usize)
    requires
        n == text@.len(),
        start <= n,
    ensures
        start <= end <= n,
        leading_word(text@.skip(start as int)) == text@.subrange(start as int, end as int),
{
    let mut end: usize = start;
    proof {
        assert(text@.subrange(start as int, start as int) =~= Seq::empty());
        assert(Seq::<char>::empty() + leading_word(text@.skip(start as int)) =~= leading_word(
            text@.skip(start as int),
        ));
    }
    while end < n && !char_is_space(text.get_char(end))
        invariant
            n == text@.len(),
            start <= end <= n,
            leading_word(text@.skip(start as int)) == text@.subrange(start as int, end as int) + leading_word(
                text@.skip(end as int),
            ),
        decreases n - end,
    {
        proof {
            let tail = text@.skip(end as int);
            assert(tail[0] == text@[end as int]);
            assert(tail.drop_first() =~= text@.skip(end + 1));
            assert(text@.subrange(start as int, end as int) + (seq![tail[0]] + leading_word(tail.drop_first()))
                =~= text@.subrange(start as int, end + 1) + leading_word(text@.skip(end + 1)));
        }
        end += 1;
    }
    proof {
        let tail = text@.skip(end as int);
        let word = text@.subrange(start as int, end as int);
        if end < n {
            assert(tail[0] == text@[end as int]);
        }
        assert(leading_word(tail) =~= Seq::empty());
        assert(word + Seq::<char>::empty() =~= word);
    }
    end
}

/// Reads the characters from `first` up to `end` as a row of digits.
fn read_digits(text: &str, n: usize, first: usize, end: usize) -> (number: Option<u64>)
    requires
        n == text@.len(),
        first <= end <= n,
    ensures
        number == number_of(text@.subrange(first as int, end as int)),
{
    let ghost digits = text@.subrange(first as int, end as int);
    if first == end {
        return None;
    }
    let mut at: usize = first;
    let mut value: u64 = 0;
    assert(digits.take(0) =~= Seq::empty());
    while at < end
        invariant
            n == text@.len(),
            first <= at <= end <= n,
            first < end,
            digits == text@.subrange(first as int, end as int),
            forall|i: int| 0 <= i < at - first ==> is_digit(#[trigger] digits[i]),
            value == digits_value(digits.take(at - first)),
        decreases end - at,
    {
        let c = text.get_char(at);
        assert(c == digits[at - first]);
        if !(c >= '0' && c <= '9') {
            assert(!is_digit(digits[at - first]));
            return None;
        }
        let digit = (c as u32 - 48) as u64;
        proof {
            assert(digits.take(at - first + 1).drop_last() =~= digits.take(at - first));
            assert(digits.take(at - first + 1).last() == c);
            if is_number(digits) {
                lemma_digits_value_grows(digits, at - first + 1);
            }
        }
        let scaled = match value.checked_mul(10) {
            Some(scaled) => scaled,
            None => {
                return None;
            },
        };
        value = match scaled.checked_add(digit) {
            Some(sum) => sum,
            None => {
                return None;
            },
        };
        at += 1;
    }
    assert(digits.take(at - first) =~= digits);
    Some(value)
}

/// Reads the first word of `text` as a decimal number.
pub fn parse_first_u64(text: &str) -> (number: Option<u64>)
    ensures
        number == parse_u64(first_word(text@)),
{
    let n = text.unicode_len();
    let start = first_word_start(text, n);
    let end = word_end(text, n, start);
    let ghost word = text@.subrange(start as int, end as int);
    assert(first_word(text@) == word);
    if start < end && text.get_char(start) == '+' {
        proof {
            assert(word[0] == '+');
            assert(word.drop_first() =~= text@.subrange(start + 1, end as int));
        }
        read_digits(text, n, start + 1, end)
    } else {
        proof {
            if word.len() > 0 {
                assert(word[0] == text@[start as int]);
            }
        }
        read_digits(text, n, start, end)
    }
}

/// The pieces of `text` between the occurrences of `mark`, empty pieces
/// included. A text without the mark is one piece.
pub open spec fn pieces(text: Seq<char>, mark: char) -> Seq<Seq<char>>
    decreases text.len(),
{
    if text.len() == 0 {
        seq![Seq::empty()]
    } else {
        let before = pieces(text.drop_last(), mark);
        if text.last() == mark {
            before.push(Seq::empty())
        } else {
            before.drop_last().push(before.last().push(text.last()))
        }
    }
}

/// Whether a line holds anything but white space.
pub open spec fn has_text(line: Seq<char>) -> bool {
    exists|i: int| 0 <= i < line.len() && !is_space(#[trigger] line[i])
}

/// How many of the lines hold anything but white space.
pub open spec fn count_with_text(lines: Seq<Seq<char>>) -> nat
    decreases lines.len(),
{
    if lines.len() == 0 {
        0
    } else if has_text(lines.last()) {
        count_with_text(lines.drop_last()) + 1
    } else {
        count_with_text(lines.drop_last())
    }
}

/// How many lines of the text hold anything but white space.
pub open spec fn listed(text: Seq<char>) -> nat {
    count_with_text(pieces(text, '\n'))
}

/// Counts the lines of `text` that hold anything but white space.
pub fn count_listed(text: &str) -> (count: usize)
    ensures
        count == listed(text@),
{
    let n = text.unicode_len();
    let mut count: usize = 0;
    let mut filled = false;
    let mut i: usize = 0;
    let ghost mut closed: Seq<Seq<char>> = Seq::empty();
    let ghost mut line: Seq<char> = Seq::empty();
    proof {
        assert(text@.take(0) =~= Seq::empty());
        assert(seq![Seq::<char>::empty()] =~= closed.push(line));
    }
    while i < n
        invariant
            n == text@.len(),
            i <= n,
            pieces(text@.take(i as int), '\n') == closed.push(line),
            count == count_with_text(closed),
            count <= closed.len(),
            closed.len() + line.len() <= i,
            filled == has_text(line),
        decreases n - i,
    {
        let c = text.get_char(i);
        proof {
            let next = text@.take(i + 1);
            assert(next.drop_last() =~= text@.take(i as int));
            assert(next.last() == c);
            assert(closed.push(line).drop_last() =~= closed);
            assert(closed.push(line).last() == line);
        }
        if c == '\n' {
            if filled {
                count += 1;
            }
            proof {
                closed = closed.push(line);
                line = Seq::empty();
                assert(closed.drop_last().push(closed.last()) =~= closed);
            }
            filled = false;
        } else {
            let ghost longer = line.push(c);
            proof {
                if has_text(line) {
                    let k = choose|k: int| 0 <= k < line.len() && !is_space(#[trigger] line[k]);
                    assert(!is_space(longer[k]));
                }
                if !is_space(c) {
                    assert(!is_space(longer[line.len() as int]));
                }
                if has_text(longer) && !has_text(line) {
                    let k = choose|k: int| 0 <= k < longer.len() && !is_space(#[trigger] longer[k]);
                    if k < line.len() {
                        assert(!is_space(line[k]));
                    }
                }
                line = longer;
            }
            if !char_is_space(c) {
                filled = true;
            }
        }
        i += 1;
    }
    proof {
        assert(text@.take(n as int) =~= text@);
        assert(closed.push(line).drop_last() =~= closed);
    }
    if filled {
        count += 1;
    }
    count
}

/// No piece holds the mark at which the text was cut.
pub proof fn lemma_pieces_hold_no_mark(text: Seq<char>, mark: char)
    ensures
        pieces(text, mark).len() >= 1,
        forall|i: int| 0 <= i < pieces(text, mark).len() ==> !(#[trigger] pieces(text, mark)[i]).contains(mark),
    decreases text.len(),
{
    if text.len() > 0 {
        let before = pieces(text.drop_last(), mark);
        lemma_pieces_hold_no_mark(text.drop_last(), mark);
        if text.last() != mark {
            let grown = before.last().push(text.last());
            assert(!grown.contains(mark)) by {
                if grown.contains(mark) {
                    let k = choose|k: int| 0 <= k < grown.len() && grown[k] == mark;
                    assert(before.last()[k] == mark);
                    assert(before.last().contains(mark));
                }
            }
        } else {
            assert(forall|k: int| 0 <= k < Seq::<char>::empty().len() ==> Seq::<char>::empty()[k] != mark);
        }
    }
}

/// A text without the mark is a single piece.
pub proof fn lemma_pieces_of_plain(text: Seq<char>, mark: char)
    requires
        !text.contains(mark),
    ensures
        pieces(text, mark) == seq![text],
    decreases text.len(),
{
    if text.len() > 0 {
        let shorter = text.drop_last();
        assert(!shorter.contains(mark)) by {
            if shorter.contains(mark) {
                let k = choose|k: int| 0 <= k < shorter.len() && shorter[k] == mark;
                assert(text[k] == mark);
            }
        }
        assert(text.last() != mark) by {
            assert(text[text.len() - 1] == text.last());
        }
        lemma_pieces_of_plain(shorter, mark);
        assert(shorter.push(text.last()) =~= text);
        assert(seq![shorter].last() == shorter);
        assert(seq![shorter].drop_last() =~= Seq::<Seq<char>>::empty());
        assert(Seq::<Seq<char>>::empty().push(text) =~= seq![text]);
    } else {
        assert(text =~= Seq::<char>::empty());
    }
}

/// A text that goes on with the mark and a stretch without the mark has
/// that stretch as one more piece.
pub proof fn lemma_pieces_of_joined(lead: Seq<char>, mark: char, last: Seq<char>)
    requires
        !last.contains(mark),
    ensures
        pieces(lead + seq![mark] + last, mark) == pieces(lead, mark).push(last),
    decreases last.len(),
{
    let whole = lead + seq![mark] + last;
    if last.len() == 0 {
        assert(whole.drop_last() =~= lead);
        assert(whole.last() == mark);
        assert(last =~= Seq::empty());
    } else {
        let shorter = last.drop_last();
        assert(!shorter.contains(mark)) by {
            if shorter.contains(mark) {
                let k = choose|k: int| 0 <= k < shorter.len() && shorter[k] == mark;
                assert(last[k] == mark);
            }
        }
        assert(last.last() != mark) by {
            assert(last[last.len() - 1] == last.last());
        }
        assert(whole.drop_last() =~= lead + seq![mark] + shorter);
        assert(whole.last() == last.last());
        lemma_pieces_of_joined(lead, mark, shorter);
        let before = pieces(lead, mark).push(shorter);
        assert(before.drop_last() =~= pieces(lead, mark));
        assert(shorter.push(last.last()) =~= last);
    }
}

/// A text that starts with the mark has an empty first piece, and then the
/// pieces of the rest.
pub proof fn lemma_pieces_after_mark(mark: char, rest: Seq<char>)
    ensures
        pieces(seq![mark] + rest, mark) == seq![Seq::<char>::empty()] + pieces(rest, mark),
    decreases rest.len(),
{
    let whole = seq![mark] + rest;
    lemma_pieces_hold_no_mark(rest, mark);
    if rest.len() == 0 {
        assert(whole.drop_last() =~= Seq::empty());
        assert(pieces(whole.drop_last(), mark) == seq![Seq::<char>::empty()]);
        assert(seq![Seq::<char>::empty()].push(Seq::empty()) =~= seq![Seq::<char>::empty()] + pieces(rest, mark));
    } else {
        assert(whole.drop_last() =~= seq![mark] + rest.drop_last());
        assert(whole.last() == rest.last());
        lemma_pieces_after_mark(mark, rest.drop_last());
        lemma_pieces_hold_no_mark(rest.drop_last(), mark);
        let inner = pieces(rest.drop_last(), mark);
        let before = seq![Seq::<char>::empty()] + inner;
        if rest.last() == mark {
            assert(before.push(Seq::empty()) =~= seq![Seq::<char>::empty()] + inner.push(Seq::empty()));
        } else {
            assert(before.last() == inner.last());
            assert(before.drop_last() =~= seq![Seq::<char>::empty()] + inner.drop_last());
            assert(before.drop_last().push(before.last().push(rest.last())) =~= seq![Seq::<char>::empty()]
                + inner.drop_last().push(inner.last().push(rest.last())));
        }
    }
}

/// A row of `n` zeros.
pub open spec fn zeros(n: int) -> Seq<char> {
    Seq::new(
        if n > 0 {
            n as nat
        } else {
            0
        },
        |i: int| '0',
    )
}

/// The decimal numeral of `n`, with zeros put in front of it where it has
/// fewer than `width` digits.
pub open spec fn padded(n: nat, width: nat) -> Seq<char> {
    zeros(width - decimal(n).len()) + decimal(n)
}

/// The number of digits of the decimal numeral of `n`.
pub fn digits_of(n: u64) -> (count: u64)
    ensures
        count == decimal(n as nat).len(),
        count >= 1,
{
    let mut rest: u64 = n;
    let mut count: u64 = 1;
    while rest >= 10
        invariant
            count >= 1,
            count - 1 + rest <= n,
            decimal(n as nat).len() == count - 1 + decimal(rest as nat).len(),
        decreases rest,
    {
        assert(decimal(rest as nat).len() == decimal((rest / 10) as nat).len() + 1);
        rest = rest / 10;
        count = count + 1;
    }
    assert(decimal(rest as nat).len() == 1);
    count
}

/// Appends the decimal numeral of `n` to `out`, with zeros in front of it
/// where it has fewer than `width` digits.
pub fn push_padded(out: &mut String, n: u64, width: u64)
    ensures
        final(out)@ == old(out)@ + padded(n as nat, width as nat),
{
    proof {
        reveal_strlit("0");
    }
    let digits = digits_of(n);
    let mut written: u64 = digits;
    assert(out@ =~= old(out)@ + zeros(0));
    while written < width
        invariant
            "0"@ == seq!['0'],
            digits <= written,
            written <= width || written == digits,
            out@ == old(out)@ + zeros(written - digits),
        decreases width - written,
    {
        out.append("0");
        written = written + 1;
        assert(out@ =~= old(out)@ + zeros(written - digits));
    }
    assert(zeros(written - digits) =~= zeros(width - digits));
    push_decimal(out, n);
    assert(out@ =~= old(out)@ + padded(n as nat, width as nat));
}

/// A numeral that fits into the width is filled up to exactly the width,
/// and ends in the numeral.
pub proof fn lemma_padded_len(n: nat, width: nat)
    requires
        decimal(n).len() <= width,
    ensures
        padded(n, width).len() == width,
{
}

/// Numbers below a hundred have at most two digits, and numbers below ten
/// thousand at most four.
pub proof fn lemma_small_numerals(n: nat)
    ensures
        n < 100 ==> decimal(n).len() <= 2,
        n < 10000 ==> decimal(n).len() <= 4,
{
    reveal_with_fuel(decimal, 5);
}

} // verus!
