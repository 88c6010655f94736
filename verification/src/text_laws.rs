//! What holds of written and read numbers and of words.
use vstd::prelude::*;
use crate::text::{
    decimal, decimal_i32, decimal_nat, decimal_u64, digits_value, law_decimal_reads_back,
    lemma_word_len_bound, number_value, parse_number, split_words, texts, trimmed, trimmed_end,
    trimmed_start, white_space, word_len, words, NumberError,
};

verus! {

/// A character between `0` and `9`.
pub open spec fn between_0_and_9(c: char) -> bool {
    '0' as u32 <= c as u32 <= '9' as u32
}

/// Characters between `0` and `9` only.
pub open spec fn all_digits(s: Seq<char>) -> bool {
    forall|i: int| 0 <= i < s.len() ==> between_0_and_9(#[trigger] s[i])
}

/// White space only.
pub open spec fn all_white(s: Seq<char>) -> bool {
    forall|i: int| 0 <= i < s.len() ==> white_space(#[trigger] s[i])
}

/// No white space.
pub open spec fn no_white(s: Seq<char>) -> bool {
    forall|i: int| 0 <= i < s.len() ==> !white_space(#[trigger] s[i])
}

/// The number that decimal digits spell: each digit counts ten times what the
/// next one does.
pub open spec fn spelled(s: Seq<char>) -> int
    decreases s.len(),
{
    if s.len() == 0 {
        0
    } else {
        10 * spelled(s.drop_last()) + (s.last() as u32 - '0' as u32)
    }
}

/// A number without sign is written with the digits that spell it, and with no
/// zero in front.
pub proof fn law_decimal_spells(n: nat)
    ensures
        decimal_nat(n).len() > 0,
        all_digits(decimal_nat(n)),
        spelled(decimal_nat(n)) == n,
        decimal_nat(n)[0] == '0' ==> n == 0 && decimal_nat(n).len() == 1,
    decreases n,
{
    let s = decimal_nat(n);
    if n < 10 {
        assert(s.drop_last() =~= Seq::<char>::empty());
        reveal_with_fuel(spelled, 2);
    } else {
        law_decimal_spells(n / 10);
        assert(s.drop_last() =~= decimal_nat(n / 10));
        assert(s[0] == decimal_nat(n / 10)[0]);
    }
}

/// A negative number is written as its size behind a minus sign, any other
/// number as its size alone.
pub proof fn law_decimal_has_a_sign(n: nat)
    ensures
        decimal(n as int) == decimal_nat(n),
        n > 0 ==> decimal(-n).len() == 1 + decimal_nat(n).len() && decimal(-n)[0] == '-'
            && decimal(-n).skip(1) == decimal_nat(n),
{
    if n > 0 {
        assert(decimal(-n).skip(1) =~= decimal_nat(n));
    }
}

/// Every call that writes a number writes digits that spell it.
pub proof fn law_written_numbers_spell(n: u64, text: String, m: i32, signed: String)
    requires
        call_ensures(decimal_u64, (n,), text),
        call_ensures(decimal_i32, (m,), signed),
    ensures
        all_digits(text@) && spelled(text@) == n,
        m >= 0 ==> all_digits(signed@) && spelled(signed@) == m,
        m < 0 ==> signed@[0] == '-' && all_digits(signed@.skip(1)) && spelled(signed@.skip(1))
            == -m,
{
    law_decimal_spells(n as nat);
    if m >= 0 {
        law_decimal_spells(m as nat);
        law_decimal_has_a_sign(m as nat);
    } else {
        law_decimal_spells((-m) as nat);
        law_decimal_has_a_sign((-m) as nat);
    }
}

/// Taking the white space off a text leaves what stood between it.
pub proof fn law_trimming_leaves_the_core(before: Seq<char>, core: Seq<char>, after: Seq<char>)
    requires
        all_white(before),
        all_white(after),
        core.len() > 0,
        !white_space(core[0]),
        !white_space(core.last()),
    ensures
        trimmed(before + core + after) == core,
{
    let s = before + core + after;
    lemma_trimmed_start(before, core + after);
    assert(s =~= before + (core + after));
    lemma_trimmed_end(core, after);
}

proof fn lemma_trimmed_start(before: Seq<char>, rest: Seq<char>)
    requires
        all_white(before),
        rest.len() > 0,
        !white_space(rest[0]),
    ensures
        trimmed_start(before + rest) == rest,
    decreases before.len(),
{
    let s = before + rest;
    if before.len() == 0 {
        assert(s =~= rest);
    } else {
        assert(white_space(before[0]));
        assert(s.drop_first() =~= before.drop_first() + rest);
        assert forall|i: int| 0 <= i < before.drop_first().len() implies white_space(
            #[trigger] before.drop_first()[i],
        ) by {
            assert(before.drop_first()[i] == before[i + 1]);
        }
        lemma_trimmed_start(before.drop_first(), rest);
    }
}

proof fn lemma_trimmed_end(rest: Seq<char>, after: Seq<char>)
    requires
        all_white(after),
        rest.len() > 0,
        !white_space(rest.last()),
    ensures
        trimmed_end(rest + after) == rest,
    decreases after.len(),
{
    let s = rest + after;
    if after.len() == 0 {
        assert(s =~= rest);
    } else {
        assert(white_space(after[after.len() - 1]));
        assert(s.drop_last() =~= rest + after.drop_last());
        assert forall|i: int| 0 <= i < after.drop_last().len() implies white_space(
            #[trigger] after.drop_last()[i],
        ) by {
            assert(after.drop_last()[i] == after[i]);
        }
        lemma_trimmed_end(rest, after.drop_last());
    }
}

/// White space alone leaves nothing.
pub proof fn law_white_space_trims_to_nothing(s: Seq<char>)
    requires
        all_white(s),
    ensures
        trimmed(s) == Seq::<char>::empty(),
    decreases s.len(),
{
    if s.len() > 0 {
        assert(white_space(s[0]));
        assert forall|i: int| 0 <= i < s.drop_first().len() implies white_space(
            #[trigger] s.drop_first()[i],
        ) by {
            assert(s.drop_first()[i] == s[i + 1]);
        }
        law_white_space_trims_to_nothing(s.drop_first());
    } else {
        assert(s =~= Seq::<char>::empty());
    }
}

/// What reading digits gives: `count` digits stand at the front of `s`, and
/// then something else or nothing. A number out of range is refused for its
/// size, whatever follows it; else something that is no digit is refused.
pub proof fn law_digits_are_read(s: Seq<char>, count: int, negative: bool)
    requires
        0 <= count <= s.len(),
        all_digits(s.take(count)),
        count < s.len() ==> !between_0_and_9(s[count]),
    ensures
        ({
            let size = spelled(s.take(count));
            &&& size >= 0
            &&& digits_value(s, negative) == (if !negative && size > i32::MAX {
                Err::<int, NumberError>(NumberError::TooLarge)
            } else if negative && -size < i32::MIN {
                Err(NumberError::TooSmall)
            } else if count < s.len() {
                Err(NumberError::InvalidDigit)
            } else if negative {
                Ok(-size)
            } else {
                Ok(size)
            })
        }),
    decreases s.len(),
{
    if s.len() == 0 {
        assert(s.take(count) =~= s);
    } else {
        let t = s.drop_last();
        if count == s.len() {
            assert(s.take(count) =~= s);
            assert(t.take(count - 1) =~= t);
            assert forall|i: int| 0 <= i < t.len() implies between_0_and_9(
                #[trigger] t[i],
            ) by {
                assert(t[i] == s.take(count)[i]);
            }
            law_digits_are_read(t, count - 1, negative);
            assert(between_0_and_9(s.take(count)[count - 1]));
            assert(spelled(s) == 10 * spelled(t) + (s.last() as u32 - '0' as u32));
        } else {
            assert(t.take(count) =~= s.take(count));
            if count < t.len() {
                assert(t[count] == s[count]);
            } else {
                assert(s.last() == s[count]);
            }
            law_digits_are_read(t, count, negative);
        }
    }
}

/// The value of a text of digits, with or without a sign in front.
pub proof fn law_number_is_what_digits_spell(digits: Seq<char>)
    requires
        digits.len() > 0,
        all_digits(digits),
    ensures
        number_value(digits) == number_value(seq!['+'] + digits),
        number_value(digits) == (if spelled(digits) <= i32::MAX {
            Ok::<int, NumberError>(spelled(digits))
        } else {
            Err(NumberError::TooLarge)
        }),
        number_value(seq!['-'] + digits) == (if -spelled(digits) >= i32::MIN {
            Ok::<int, NumberError>(-spelled(digits))
        } else {
            Err(NumberError::TooSmall)
        }),
{
    assert(digits.take(digits.len() as int) =~= digits);
    law_digits_are_read(digits, digits.len() as int, false);
    law_digits_are_read(digits, digits.len() as int, true);
    assert((seq!['+'] + digits).drop_first() =~= digits);
    assert((seq!['-'] + digits).drop_first() =~= digits);
    assert(between_0_and_9(digits[0]));
}

/// A text that is no number is refused: nothing, a sign alone, or digits in
/// range that something else follows.
pub proof fn law_other_texts_are_no_numbers(digits: Seq<char>, other: char, rest: Seq<char>)
    requires
        all_digits(digits),
        spelled(digits) <= i32::MAX,
        !between_0_and_9(other),
        digits.len() == 0 ==> other != '+' && other != '-',
    ensures
        number_value(Seq::empty()) == Err::<int, NumberError>(NumberError::Empty),
        number_value(seq!['+']) == Err::<int, NumberError>(NumberError::InvalidDigit),
        number_value(seq!['-']) == Err::<int, NumberError>(NumberError::InvalidDigit),
        number_value(digits.push(other) + rest) == Err::<int, NumberError>(
            NumberError::InvalidDigit,
        ),
        number_value(seq!['+'] + (digits.push(other) + rest)) == Err::<int, NumberError>(
            NumberError::InvalidDigit,
        ),
        number_value(seq!['-'] + (digits.push(other) + rest)) == Err::<int, NumberError>(
            NumberError::InvalidDigit,
        ),
{
    let s = digits.push(other) + rest;
    let count = digits.len() as int;
    assert(s.take(count) =~= digits);
    assert(s[count] == other);
    law_digits_are_read(s, count, false);
    law_digits_are_read(s, count, true);
    assert((seq!['+'] + s).drop_first() =~= s);
    assert((seq!['-'] + s).drop_first() =~= s);
    if count > 0 {
        assert(s[0] == digits[0]);
        assert(between_0_and_9(digits[0]));
    } else {
        assert(s[0] == other);
    }
}

/// Reading a number gives back what was written, whatever white space stands
/// around it.
pub proof fn law_written_numbers_are_read(
    n: i32,
    before: Seq<char>,
    after: Seq<char>,
    text: &str,
    r: Result<i32, NumberError>,
)
    requires
        all_white(before),
        all_white(after),
        text@ == before + decimal(n as int) + after,
        call_ensures(parse_number, (text,), r),
    ensures
        r == Ok::<i32, NumberError>(n),
{
    let s = decimal(n as int);
    law_decimal_reads_back(n as int);
    let size = if n < 0 {
        (-n) as nat
    } else {
        n as nat
    };
    law_decimal_spells(size);
    law_decimal_has_a_sign(size);
    let digits = decimal_nat(size);
    assert(s.last() == digits[digits.len() - 1]);
    assert(between_0_and_9(digits[0]));
    assert(between_0_and_9(digits[digits.len() - 1]));
    law_trimming_leaves_the_core(before, s, after);
}

/// What is read from a text is the number that its digits spell, in whatever
/// way they are written.
pub proof fn law_read_numbers_are_spelled(
    before: Seq<char>,
    digits: Seq<char>,
    after: Seq<char>,
    plain: &str,
    r: Result<i32, NumberError>,
    minus: &str,
    q: Result<i32, NumberError>,
)
    requires
        all_white(before),
        all_white(after),
        digits.len() > 0,
        all_digits(digits),
        plain@ == before + digits + after,
        minus@ == before + (seq!['-'] + digits) + after,
        call_ensures(parse_number, (plain,), r),
        call_ensures(parse_number, (minus,), q),
    ensures
        match r {
            Ok(n) => n == spelled(digits),
            Err(error) => error is TooLarge && spelled(digits) > i32::MAX,
        },
        match q {
            Ok(n) => n == -spelled(digits),
            Err(error) => error is TooSmall && -spelled(digits) < i32::MIN,
        },
{
    assert(between_0_and_9(digits[0]));
    assert(between_0_and_9(digits[digits.len() - 1]));
    let signed = seq!['-'] + digits;
    assert(signed.last() == digits.last());
    law_trimming_leaves_the_core(before, digits, after);
    law_trimming_leaves_the_core(before, signed, after);
    law_number_is_what_digits_spell(digits);
}

/// White space parts words: the words of two texts with white space between
/// them are the words of the first and then those of the second.
pub proof fn law_white_space_parts_words(a: Seq<char>, c: char, b: Seq<char>)
    requires
        white_space(c),
    ensures
        words(a.push(c) + b) == words(a) + words(b),
    decreases a.len(),
{
    let s = a.push(c) + b;
    if a.len() == 0 {
        assert(s.drop_first() =~= b);
        assert(words(a) + words(b) =~= words(b));
    } else if white_space(a[0]) {
        law_white_space_parts_words(a.drop_first(), c, b);
        assert(s.drop_first() =~= a.drop_first().push(c) + b);
    } else {
        let n = word_len(a) as int;
        lemma_word_len_bound(a);
        lemma_word_len_of_front(a, c, b);
        let rest = a.skip(n);
        law_white_space_parts_words(rest, c, b);
        assert(s.skip(n) =~= rest.push(c) + b);
        assert(s.take(n) =~= a.take(n));
        assert(words(s) =~= seq![a.take(n)] + (words(rest) + words(b)));
        assert(words(a) + words(b) =~= seq![a.take(n)] + (words(rest) + words(b)));
    }
}

proof fn lemma_word_len_of_front(a: Seq<char>, c: char, b: Seq<char>)
    requires
        white_space(c),
    ensures
        word_len(a.push(c) + b) == word_len(a),
    decreases a.len(),
{
    let s = a.push(c) + b;
    if a.len() > 0 && !white_space(a[0]) {
        lemma_word_len_of_front(a.drop_first(), c, b);
        assert(s.drop_first() =~= a.drop_first().push(c) + b);
    }
}

/// A text without white space is one word, if it is anything, and white space
/// alone has no words.
pub proof fn law_solid_text_is_one_word(s: Seq<char>)
    ensures
        s.len() > 0 && no_white(s) ==> words(s) == seq![s],
        all_white(s) ==> words(s) == Seq::<Seq<char>>::empty(),
    decreases s.len(),
{
    if s.len() > 0 {
        if no_white(s) {
            lemma_solid_word_len(s);
            assert(s.take(s.len() as int) =~= s);
            assert(words(s.skip(s.len() as int)) =~= Seq::<Seq<char>>::empty());
            assert(words(s) =~= seq![s]);
        }
        if all_white(s) {
            assert(white_space(s[0]));
            assert forall|i: int| 0 <= i < s.drop_first().len() implies white_space(
                #[trigger] s.drop_first()[i],
            ) by {
                assert(s.drop_first()[i] == s[i + 1]);
            }
            law_solid_text_is_one_word(s.drop_first());
        }
    }
}

proof fn lemma_solid_word_len(s: Seq<char>)
    requires
        no_white(s),
    ensures
        word_len(s) == s.len(),
    decreases s.len(),
{
    if s.len() > 0 {
        assert(!white_space(s[0]));
        assert forall|i: int| 0 <= i < s.drop_first().len() implies !white_space(
            #[trigger] s.drop_first()[i],
        ) by {
            assert(s.drop_first()[i] == s[i + 1]);
        }
        lemma_solid_word_len(s.drop_first());
    }
}

/// Splitting a text at white space: what is found in a word, white space and
/// another text is that word and then what is found in the other text.
pub proof fn law_split_finds_word_by_word(
    word: Seq<char>,
    c: char,
    text: &str,
    found: Vec<String>,
    rest: &str,
    found_later: Vec<String>,
)
    requires
        word.len() > 0,
        no_white(word),
        white_space(c),
        text@ == word.push(c) + rest@,
        call_ensures(split_words, (text,), found),
        call_ensures(split_words, (rest,), found_later),
    ensures
        texts(found@) == seq![word] + texts(found_later@),
{
    law_white_space_parts_words(word, c, rest@);
    law_solid_text_is_one_word(word);
}

/// Splitting leaves white space in front aside, takes a text without white
/// space for one word, and finds nothing in white space alone.
pub proof fn law_split_of_plain_texts(
    text: &str,
    found: Vec<String>,
    c: char,
    indented: &str,
    found_indented: Vec<String>,
)
    requires
        white_space(c),
        indented@ == seq![c] + text@,
        call_ensures(split_words, (text,), found),
        call_ensures(split_words, (indented,), found_indented),
    ensures
        texts(found_indented@) == texts(found@),
        text@.len() > 0 && no_white(text@) ==> texts(found@) == seq![text@],
        all_white(text@) ==> texts(found@) == Seq::<Seq<char>>::empty(),
{
    law_solid_text_is_one_word(text@);
    law_white_space_parts_words(Seq::empty(), c, text@);
    assert(Seq::<char>::empty().push(c) + text@ =~= indented@);
    assert(words(Seq::<char>::empty()) + words(text@) =~= words(text@));
}

/// A number that is read is a 32-bit number.
pub proof fn law_numbers_have_32_bits(s: Seq<char>)
    ensures
        number_value(s) matches Ok(n) ==> i32::MIN <= n <= i32::MAX,
{
    if s.len() > 0 {
        lemma_digits_have_32_bits(s, false);
        lemma_digits_have_32_bits(s.drop_first(), false);
        lemma_digits_have_32_bits(s.drop_first(), true);
    }
}

proof fn lemma_digits_have_32_bits(s: Seq<char>, negative: bool)
    ensures
        digits_value(s, negative) matches Ok(n) ==> i32::MIN <= n <= i32::MAX,
{
}

/// White space around a text does not count: what is read is what the text
/// between it spells, or why that spells nothing. White space alone is as good
/// as nothing.
pub proof fn law_reading_is_reading_the_core(
    before: Seq<char>,
    core: Seq<char>,
    after: Seq<char>,
    text: &str,
    r: Result<i32, NumberError>,
    blank: &str,
    nothing: Result<i32, NumberError>,
)
    requires
        all_white(before),
        all_white(after),
        core.len() > 0,
        !white_space(core[0]),
        !white_space(core.last()),
        text@ == before + core + after,
        blank@ == before,
        call_ensures(parse_number, (text,), r),
        call_ensures(parse_number, (blank,), nothing),
    ensures
        match r {
            Ok(n) => number_value(core) == Ok::<int, NumberError>(n as int),
            Err(error) => number_value(core) == Err::<int, NumberError>(error),
        },
        nothing == Err::<i32, NumberError>(NumberError::Empty),
{
    law_trimming_leaves_the_core(before, core, after);
    law_white_space_trims_to_nothing(before);
}

} // verus!
