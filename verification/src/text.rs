//! Text: decimal numbers, white space, words.
use vstd::prelude::*;
use vstd::string::*;

verus! {

/// The character of a decimal digit.
pub open spec fn digit_char(digit: nat) -> char {
    (digit + 48) as char
}

/// A number without sign in decimal, with no leading zero.
pub open spec fn decimal_nat(n: nat) -> Seq<char>
    decreases n,
{
    if n < 10 {
        seq![digit_char(n)]
    } else {
        decimal_nat(n / 10).push(digit_char(n % 10))
    }
}

/// A number in decimal, with a minus sign when it is negative.
pub open spec fn decimal(n: int) -> Seq<char> {
    if n < 0 {
        seq!['-'] + decimal_nat((-n) as nat)
    } else {
        decimal_nat(n as nat)
    }
}

fn digit_str(digit: u64) -> (s: &'static str)
    requires
        digit < 10,
    ensures
        s@ == seq![digit_char(digit as nat)],
{
    proof {
        reveal_strlit("0");
        reveal_strlit("1");
        reveal_strlit("2");
        reveal_strlit("3");
        reveal_strlit("4");
        reveal_strlit("5");
        reveal_strlit("6");
        reveal_strlit("7");
        reveal_strlit("8");
        reveal_strlit("9");
    }
    match digit {
        0 => "0",
        1 => "1",
        2 => "2",
        3 => "3",
        4 => "4",
        5 => "5",
        6 => "6",
        7 => "7",
        8 => "8",
        _ => "9",
    }
}

/// Writes a number without sign in decimal.
pub fn decimal_u64(n: u64) -> (s: String)
    ensures
        s@ == decimal_nat(n as nat),
    decreases n,
{
    if n < 10 {
        digit_str(n).to_owned()
    } else {
        let mut s = decimal_u64(n / 10);
        s.append(digit_str(n % 10));
        s
    }
}

/// Writes a number in decimal.
pub fn decimal_i32(n: i32) -> (s: String)
    ensures
        s@ == decimal(n as int),
{
    if n < 0 {
        proof {
            reveal_strlit("-");
        }
        let mut s = "-".to_owned();
        s.append(decimal_u64((-(n as i64)) as u64).as_str());
        assert("-"@ =~= seq!['-']);
        s
    } else {
        decimal_u64(n as u64)
    }
}

/// Puts a text between two others.
pub(crate) fn enclosed(before: &str, middle: &str, after: &str) -> (s: String)
    ensures
        s@ == before@ + middle@ + after@,
{
    let mut s = before.to_owned();
    s.append(middle);
    s.append(after);
    s
}

/// A character with the Unicode property White_Space.
pub open spec fn white_space(c: char) -> bool {
    ||| 0x9 <= c as u32 <= 0xD
    ||| c as u32 == 0x20
    ||| c as u32 == 0x85
    ||| c as u32 == 0xA0
    ||| c as u32 == 0x1680
    ||| 0x2000 <= c as u32 <= 0x200A
    ||| c as u32 == 0x2028
    ||| c as u32 == 0x2029
    ||| c as u32 == 0x202F
    ||| c as u32 == 0x205F
    ||| c as u32 == 0x3000
}

/// Tells whether a character has the Unicode property White_Space.
pub fn is_white_space(c: char) -> (r: bool)
    ensures
        r == white_space(c),
{
    let n: u32 = c as u32;
    (0x9 <= n && n <= 0xD) || n == 0x20 || n == 0x85 || n == 0xA0 || n == 0x1680 || (0x2000 <= n
        && n <= 0x200A) || n == 0x2028 || n == 0x2029 || n == 0x202F || n == 0x205F || n == 0x3000
}

/// The text without the white space at its start.
pub open spec fn trimmed_start(s: Seq<char>) -> Seq<char>
    decreases s.len(),
{
    if s.len() > 0 && white_space(s[0]) {
        trimmed_start(s.drop_first())
    } else {
        s
    }
}

/// The text without the white space at its end.
pub open spec fn trimmed_end(s: Seq<char>) -> Seq<char>
    decreases s.len(),
{
    if s.len() > 0 && white_space(s.last()) {
        trimmed_end(s.drop_last())
    } else {
        s
    }
}

/// The text without the white space around it.
pub open spec fn trimmed(s: Seq<char>) -> Seq<char> {
    trimmed_end(trimmed_start(s))
}

/// The number of characters before the first white space.
pub open spec fn word_len(s: Seq<char>) -> nat
    decreases s.len(),
{
    if s.len() == 0 || white_space(s[0]) {
        0
    } else {
        1 + word_len(s.drop_first())
    }
}

/// The words of a text: what stands between white space.
pub open spec fn words(s: Seq<char>) -> Seq<Seq<char>>
    decreases s.len(),
{
    if s.len() == 0 {
        Seq::empty()
    } else if white_space(s[0]) {
        words(s.drop_first())
    } else {
        proof {
            lemma_word_len_bound(s);
        }
        seq![s.take(word_len(s) as int)] + words(s.skip(word_len(s) as int))
    }
}

/// The characters of a text.
fn chars_of(text: &str) -> (chars: Vec<char>)
    ensures
        chars@ == text@,
{
    let mut chars: Vec<char> = Vec::new();
    for c in it: text.chars()
        invariant
            it.seq() == text@,
            chars@ == text@.take(it.index()),
    {
        chars.push(c);
    }
    assert(text@.take(text@.len() as int) =~= text@);
    chars
}

/// A word is no longer than the text it starts.
pub proof fn lemma_word_len_bound(s: Seq<char>)
    ensures
        word_len(s) <= s.len(),
    decreases s.len(),
{
    if s.len() > 0 && !white_space(s[0]) {
        lemma_word_len_bound(s.drop_first());
    }
}

/// What some texts say.
pub open spec fn texts(strings: Seq<String>) -> Seq<Seq<char>> {
    Seq::new(strings.len(), |i: int| strings[i]@)
}

/// Splits a text at white space.
pub fn split_words(text: &str) -> (found: Vec<String>)
    ensures
        texts(found@) == words(text@),
{
    let chars = chars_of(text);
    let mut found: Vec<String> = Vec::new();
    let mut start: usize = 0;
    assert(text@.skip(0) =~= text@);
    assert(texts(found@) + words(text@) =~= words(text@));
    while start < chars.len()
        invariant
            chars@ == text@,
            start <= text@.len(),
            texts(found@) + words(text@.skip(start as int)) == words(text@),
        decreases text@.len() - start,
    {
        let ghost rest = text@.skip(start as int);
        if is_white_space(chars[start]) {
            assert(rest.drop_first() =~= text@.skip(start + 1));
            start += 1;
        } else {
            let mut end: usize = start;
            while end < chars.len() && !is_white_space(chars[end])
                invariant
                    chars@ == text@,
                    start <= end <= text@.len(),
                    rest == text@.skip(start as int),
                    word_len(rest) == end - start + word_len(text@.skip(end as int)),
                decreases text@.len() - end,
            {
                assert(text@.skip(end as int).drop_first() =~= text@.skip(end + 1));
                end += 1;
            }
            let ghost before = texts(found@);
            found.push(text.substring_char(start, end).to_owned());
            proof {
                let word = text@.subrange(start as int, end as int);
                assert(texts(found@) =~= before.push(word));
                assert(rest.take(word_len(rest) as int) =~= word);
                assert(rest.skip(word_len(rest) as int) =~= text@.skip(end as int));
                assert(texts(found@) + words(text@.skip(end as int)) =~= before + words(rest));
                assert(word_len(rest) > 0);
            }
            start = end;
        }
    }
    assert(texts(found@) + words(text@.skip(start as int)) =~= texts(found@));
    found
}

/// Every word is made of characters that are no white space, at least one.
pub proof fn law_words_are_solid(s: Seq<char>)
    ensures
        forall|i: int|
            0 <= i < words(s).len() ==> (#[trigger] words(s)[i]).len() > 0 && word_len(words(s)[i])
                == words(s)[i].len(),
    decreases s.len(),
{
    if s.len() > 0 {
        if white_space(s[0]) {
            law_words_are_solid(s.drop_first());
            assert(words(s) == words(s.drop_first()));
        } else {
            let n = word_len(s) as int;
            lemma_word_len_bound(s);
            lemma_word_len_take(s);
            law_words_are_solid(s.skip(n));
            assert forall|i: int| 0 <= i < words(s).len() implies (#[trigger] words(s)[i]).len() > 0
                && word_len(words(s)[i]) == words(s)[i].len() by {
                if i > 0 {
                    assert(words(s)[i] == words(s.skip(n))[i - 1]);
                } else {
                    assert(words(s)[i] == s.take(n));
                }
            }
        }
    }
}

/// A text that is one word has itself as its only word.
pub proof fn law_single_word(s: Seq<char>)
    requires
        s.len() > 0,
        word_len(s) == s.len(),
    ensures
        words(s) == seq![s],
{
    assert(s.take(s.len() as int) =~= s);
    assert(words(s.skip(s.len() as int)) =~= Seq::<Seq<char>>::empty());
    assert(words(s) =~= seq![s]);
}

proof fn lemma_word_len_take(s: Seq<char>)
    ensures
        word_len(s.take(word_len(s) as int)) == word_len(s),
    decreases s.len(),
{
    lemma_word_len_bound(s);
    if s.len() > 0 && !white_space(s[0]) {
        lemma_word_len_take(s.drop_first());
        assert(s.take(word_len(s) as int).drop_first() =~= s.drop_first().take(
            word_len(s.drop_first()) as int,
        ));
    }
}

/// Why a text is no 32-bit number.
#[derive(Debug, Clone, Copy, PartialEq, Eq, Structural)]
pub enum NumberError {
    /// There is nothing to read.
    Empty,
    /// A character that is no digit, or a sign alone.
    InvalidDigit,
    /// The number is over `i32::MAX`.
    TooLarge,
    /// The number is under `i32::MIN`.
    TooSmall,
}

impl NumberError {
    /// What the error says.
    pub open spec fn message_text(self) -> Seq<char> {
        match self {
            NumberError::Empty => "cannot parse integer from empty string"@,
            NumberError::InvalidDigit => "invalid digit found in string"@,
            NumberError::TooLarge => "number too large to fit in target type"@,
            NumberError::TooSmall => "number too small to fit in target type"@,
        }
    }

    /// The error as a human-readable message.
    pub fn message(&self) -> (text: String)
        ensures
            text@ == self.message_text(),
    {
        match *self {
            NumberError::Empty => "cannot parse integer from empty string".to_owned(),
            NumberError::InvalidDigit => "invalid digit found in string".to_owned(),
            NumberError::TooLarge => "number too large to fit in target type".to_owned(),
            NumberError::TooSmall => "number too small to fit in target type".to_owned(),
        }
    }
}

/// A decimal digit.
pub open spec fn is_digit(c: char) -> bool {
    48 <= c as u32 <= 57
}

/// The number that digits spell, counted up or down from zero. Reading stops
/// at the first character that is no digit or leaves the range.
pub open spec fn digits_value(s: Seq<char>, negative: bool) -> Result<int, NumberError>
    decreases s.len(),
{
    if s.len() == 0 {
        Ok(0)
    } else {
        match digits_value(s.drop_last(), negative) {
            Err(error) => Err(error),
            Ok(value) => {
                let digit = s.last() as u32 - 48;
                let next = if negative {
                    value * 10 - digit
                } else {
                    value * 10 + digit
                };
                if !is_digit(s.last()) {
                    Err(NumberError::InvalidDigit)
                } else if next > i32::MAX {
                    Err(NumberError::TooLarge)
                } else if next < i32::MIN {
                    Err(NumberError::TooSmall)
                } else {
                    Ok(next)
                }
            },
        }
    }
}

/// The 32-bit number that a text spells: a sign or none, then digits.
pub open spec fn number_value(s: Seq<char>) -> Result<int, NumberError> {
    if s.len() == 0 {
        Err(NumberError::Empty)
    } else if s.len() == 1 && (s[0] == '+' || s[0] == '-') {
        Err(NumberError::InvalidDigit)
    } else if s[0] == '-' {
        digits_value(s.drop_first(), true)
    } else if s[0] == '+' {
        digits_value(s.drop_first(), false)
    } else {
        digits_value(s, false)
    }
}

/// Reads the digits from `start` on, up to `end`.
fn read_digits(chars: &Vec<char>, start: usize, end: usize, negative: bool) -> (r: Result<
    i32,
    NumberError,
>)
    requires
        start <= end <= chars@.len(),
    ensures
        match r {
            Ok(n) => digits_value(chars@.subrange(start as int, end as int), negative) == Ok::<
                int,
                NumberError,
            >(n as int),
            Err(error) => digits_value(chars@.subrange(start as int, end as int), negative) == Err::<
                int,
                NumberError,
            >(error),
        },
{
    let ghost all = chars@.subrange(start as int, end as int);
    let mut value: i64 = 0;
    let mut i: usize = start;
    assert(all.take(0) =~= Seq::<char>::empty());
    while i < end
        invariant
            start <= i <= end <= chars@.len(),
            all == chars@.subrange(start as int, end as int),
            i32::MIN <= value <= i32::MAX,
            digits_value(all.take(i - start), negative) == Ok::<int, NumberError>(value as int),
        decreases end - i,
    {
        let c: u32 = chars[i] as u32;
        proof {
            let read = all.take(i - start + 1);
            assert(read.drop_last() =~= all.take(i - start));
            assert(read.last() == chars@[i as int]);
            if digits_value(read, negative) is Err {
                lemma_digits_error_stays(all, i - start + 1, negative);
            }
        }
        if c < 48 || c > 57 {
            return Err(NumberError::InvalidDigit);
        }
        let digit: i64 = (c - 48) as i64;
        let next: i64 = if negative {
            value * 10 - digit
        } else {
            value * 10 + digit
        };
        if next > i32::MAX as i64 {
            return Err(NumberError::TooLarge);
        }
        if next < i32::MIN as i64 {
            return Err(NumberError::TooSmall);
        }
        value = next;
        i += 1;
    }
    assert(all.take(end - start) =~= all);
    Ok(value as i32)
}

/// Once reading failed, later characters change nothing.
proof fn lemma_digits_error_stays(s: Seq<char>, count: int, negative: bool)
    requires
        0 <= count <= s.len(),
        digits_value(s.take(count), negative) is Err,
    ensures
        digits_value(s, negative) == digits_value(s.take(count), negative),
    decreases s.len(),
{
    if count == s.len() {
        assert(s.take(count) =~= s);
    } else {
        assert(s.drop_last().take(count) =~= s.take(count));
        lemma_digits_error_stays(s.drop_last(), count, negative);
    }
}

/// Reads a 32-bit number, white space around it aside.
pub fn parse_number(text: &str) -> (r: Result<i32, NumberError>)
    ensures
        match r {
            Ok(n) => number_value(trimmed(text@)) == Ok::<int, NumberError>(n as int),
            Err(error) => number_value(trimmed(text@)) == Err::<int, NumberError>(error),
        },
{
    let chars = chars_of(text);
    let mut start: usize = 0;
    assert(text@.skip(0) =~= text@);
    while start < chars.len() && is_white_space(chars[start])
        invariant
            chars@ == text@,
            start <= text@.len(),
            trimmed_start(text@.skip(start as int)) == trimmed_start(text@),
        decreases text@.len() - start,
    {
        assert(text@.skip(start as int).drop_first() =~= text@.skip(start + 1));
        start += 1;
    }
    let mut end: usize = chars.len();
    assert(text@.subrange(start as int, end as int) =~= text@.skip(start as int));
    while end > start && is_white_space(chars[end - 1])
        invariant
            chars@ == text@,
            start <= end <= text@.len(),
            trimmed_end(text@.subrange(start as int, end as int)) == trimmed(text@),
        decreases end,
    {
        assert(text@.subrange(start as int, end as int).drop_last() =~= text@.subrange(
            start as int,
            end - 1,
        ));
        end -= 1;
    }
    let ghost body = text@.subrange(start as int, end as int);
    assert(trimmed(text@) == body);
    if start == end {
        return Err(NumberError::Empty);
    }
    let first = chars[start];
    assert(body[0] == first);
    if end - start == 1 && (first == '+' || first == '-') {
        return Err(NumberError::InvalidDigit);
    }
    assert(body.drop_first() =~= text@.subrange(start + 1, end as int));
    if first == '-' {
        read_digits(&chars, start + 1, end, true)
    } else if first == '+' {
        read_digits(&chars, start + 1, end, false)
    } else {
        read_digits(&chars, start, end, false)
    }
}

/// Reading a number that was written in decimal gives it back.
pub proof fn law_decimal_reads_back(n: int)
    requires
        i32::MIN <= n <= i32::MAX,
    ensures
        trimmed(decimal(n)) == decimal(n),
        number_value(trimmed(decimal(n))) == Ok::<int, NumberError>(n),
{
    let size = if n < 0 {
        (-n) as nat
    } else {
        n as nat
    };
    lemma_decimal_is_digits(size);
    let s = decimal(n);
    let digits = decimal_nat(size);
    assert(s.last() == digits.last());
    assert(s.last() as u32 >= 48);
    if n < 0 {
        assert(s.drop_first() =~= digits);
        lemma_digits_read_back(size, true);
    } else {
        lemma_digits_read_back(size, false);
    }
}

/// A number over the range, written in decimal, is refused as too large.
pub proof fn law_large_decimal_refused(n: int)
    requires
        n > i32::MAX,
    ensures
        number_value(trimmed(decimal(n))) == Err::<int, NumberError>(NumberError::TooLarge),
{
    lemma_decimal_is_digits(n as nat);
    lemma_large_digits_refused(n as nat);
}

proof fn lemma_decimal_is_digits(n: nat)
    ensures
        decimal_nat(n).len() > 0,
        forall|i: int| 0 <= i < decimal_nat(n).len() ==> is_digit(#[trigger] decimal_nat(n)[i]),
    decreases n,
{
    if n >= 10 {
        lemma_decimal_is_digits(n / 10);
    }
}

proof fn lemma_digits_read_back(n: nat, negative: bool)
    requires
        negative ==> -n >= i32::MIN,
        !negative ==> n <= i32::MAX,
    ensures
        digits_value(decimal_nat(n), negative) == Ok::<int, NumberError>(
            if negative {
                -n
            } else {
                n as int
            },
        ),
    decreases n,
{
    let s = decimal_nat(n);
    if n >= 10 {
        lemma_digits_read_back(n / 10, negative);
        assert(s.drop_last() =~= decimal_nat(n / 10));
    } else {
        assert(s.drop_last() =~= Seq::<char>::empty());
        reveal_with_fuel(digits_value, 2);
    }
}

proof fn lemma_large_digits_refused(n: nat)
    requires
        n > i32::MAX,
    ensures
        digits_value(decimal_nat(n), false) == Err::<int, NumberError>(NumberError::TooLarge),
    decreases n,
{
    let s = decimal_nat(n);
    assert(s.drop_last() =~= decimal_nat(n / 10));
    if n / 10 > i32::MAX {
        lemma_large_digits_refused(n / 10);
    } else {
        lemma_digits_read_back(n / 10, false);
    }
}

} // verus!
