//! What a front end decides when it asks the user to choose: how the
//! user's reply is read, and which answer it stands for.

use vstd::prelude::*;
use vstd::string::StringExecFns;
use vstd::string::StringSliceAdditionalSpecFns;
use vstd::utf8::encode_utf8;

verus! {

/// Whether a byte is a decimal digit.
pub open spec fn is_digit(b: u8) -> bool {
    48 <= b <= 57
}

/// The number that a string of decimal digits stands for.
pub open spec fn digits_value(digits: Seq<u8>) -> nat
    decreases digits.len(),
{
    if digits.len() == 0 {
        0
    } else {
        digits_value(digits.drop_last()) * 10 + (digits.last() - 48) as nat
    }
}

/// The digits of a reply: the reply without a plus sign at its front.
pub open spec fn digits_of(reply: Seq<u8>) -> Seq<u8> {
    if reply.len() > 0 && reply[0] == 43 {
        reply.subrange(1, reply.len() as int)
    } else {
        reply
    }
}

/// The number that a reply stands for: the reply is one decimal digit or
/// more, with or without a plus sign in front and with nothing else
/// around, and the number fits the machine.
pub open spec fn parsed_index(reply: Seq<u8>) -> Option<usize> {
    let digits = digits_of(reply);
    if digits.len() > 0 && (forall|i: int| 0 <= i < digits.len() ==> is_digit(#[trigger] digits[i]))
        && digits_value(digits) <= usize::MAX {
        Some(digits_value(digits) as usize)
    } else {
        None
    }
}

/// The first digits of a number stand for no more than the number does.
pub proof fn lemma_digits_value_grows(digits: Seq<u8>, k: int)
    requires
        0 <= k <= digits.len(),
        forall|i: int| 0 <= i < digits.len() ==> is_digit(#[trigger] digits[i]),
    ensures
        digits_value(digits.subrange(0, k)) <= digits_value(digits),
    decreases digits.len(),
{
    if k == digits.len() {
        assert(digits.subrange(0, k) =~= digits);
    } else {
        let shorter = digits.drop_last();
        assert(shorter.subrange(0, k) =~= digits.subrange(0, k));
        lemma_digits_value_grows(shorter, k);
        assert(is_digit(digits[digits.len() - 1]));
    }
}

/// Reads a reply as a number.
pub fn parse_index(reply: &[u8]) -> (r: Option<usize>)
    ensures
        r == parsed_index(reply@),
{
    let start: usize = if reply.len() > 0 && reply[0] == 43 {
        1
    } else {
        0
    };
    let ghost digits = digits_of(reply@);
    assert(digits == reply@.subrange(start as int, reply@.len() as int));
    if start == reply.len() {
        return None;
    }
    let mut value: usize = 0;
    let mut i: usize = start;
    assert(reply@.subrange(start as int, i as int) =~= Seq::<u8>::empty());
    while i < reply.len()
        invariant
            start <= i <= reply@.len(),
            start < reply@.len(),
            digits == reply@.subrange(start as int, reply@.len() as int),
            digits == digits_of(reply@),
            forall|j: int| start <= j < i ==> is_digit(#[trigger] reply@[j]),
            value == digits_value(reply@.subrange(start as int, i as int)),
        decreases reply@.len() - i,
    {
        let b = reply[i];
        if b < 48 || b > 57 {
            assert(!is_digit(digits[i - start]));
            return None;
        }
        let d: usize = (b - 48) as usize;
        let ghost longer = reply@.subrange(start as int, i + 1);
        proof {
            assert(longer.drop_last() =~= reply@.subrange(start as int, i as int));
            assert(longer.last() == b);
        }
        if value > (usize::MAX - d) / 10 {
            proof {
                assert(digits_value(longer) > usize::MAX);
                if forall|j: int| 0 <= j < digits.len() ==> is_digit(#[trigger] digits[j]) {
                    assert(digits.subrange(0, i + 1 - start) =~= longer);
                    lemma_digits_value_grows(digits, i + 1 - start);
                }
            }
            return None;
        }
        value = value * 10 + d;
        i = i + 1;
    }
    proof {
        assert(reply@.subrange(start as int, i as int) =~= digits);
        assert forall|j: int| 0 <= j < digits.len() implies is_digit(#[trigger] digits[j]) by {
            assert(digits[j] == reply@[j + start]);
        }
    }
    Some(value)
}

/// What a front end does with a reply to a question with several
/// answers.
#[derive(Debug, PartialEq, Eq)]
pub enum OptionReply {
    /// The reply is no number: the question is asked again.
    Invalid,
    /// The reply stands for no answer: the question is asked again.
    TooBig,
    /// The reply stands for the answer of this key.
    Chosen(String),
}

/// Decides what a reply to a question with several answers means. Each
/// answer is a key and the text shown for it; a reply chooses an answer
/// by its place in the list, counted from zero.
pub fn choose_option(answers: &Vec<(String, String)>, reply: &[u8]) -> (r: OptionReply)
    ensures
        match parsed_index(reply@) {
            None => r == OptionReply::Invalid,
            Some(number) => if number >= answers@.len() {
                r == OptionReply::TooBig
            } else {
                r matches OptionReply::Chosen(key) && key@ == answers@[number as int].0@
            },
        },
{
    match parse_index(reply) {
        None => OptionReply::Invalid,
        Some(number) => {
            if number >= answers.len() {
                OptionReply::TooBig
            } else {
                OptionReply::Chosen(answers[number].0.clone())
            }
        },
    }
}

/// The character of a decimal digit.
pub open spec fn digit_char(digit: nat) -> char {
    if digit == 0 {
        '0'
    } else if digit == 1 {
        '1'
    } else if digit == 2 {
        '2'
    } else if digit == 3 {
        '3'
    } else if digit == 4 {
        '4'
    } else if digit == 5 {
        '5'
    } else if digit == 6 {
        '6'
    } else if digit == 7 {
        '7'
    } else if digit == 8 {
        '8'
    } else {
        '9'
    }
}

/// A number in decimal digits, without zeros in front.
pub open spec fn decimal(number: nat) -> Seq<char>
    decreases number,
{
    if number < 10 {
        seq![digit_char(number)]
    } else {
        decimal(number / 10) + seq![digit_char(number % 10)]
    }
}

/// The line that shows one answer: a line break, the place of the answer,
/// a colon, a blank, and the text of the answer.
pub open spec fn option_line(place: nat, shown: Seq<char>) -> Seq<char> {
    seq!['\n'] + decimal(place) + seq![':', ' '] + shown
}

/// The text of a question with several answers: the question, and a line
/// for each answer in order, with its place counted from zero.
pub open spec fn prompt_text(question: Seq<char>, shown: Seq<Seq<char>>) -> Seq<char>
    decreases shown.len(),
{
    if shown.len() == 0 {
        question
    } else {
        prompt_text(question, shown.drop_last()) + option_line(
            (shown.len() - 1) as nat,
            shown.last(),
        )
    }
}

/// The texts that are shown for the answers, in order.
pub open spec fn shown_texts(answers: Seq<(String, String)>) -> Seq<Seq<char>> {
    Seq::new(answers.len(), |i: int| answers[i].1@)
}

/// What a number in decimal digits holds: one digit or more, each a
/// decimal digit in one byte, and together they stand for the number.
proof fn lemma_decimal_digits(number: nat)
    ensures
        decimal(number).len() > 0,
        vstd::utf8::is_ascii_chars(decimal(number)),
        forall|i: int|
            0 <= i < decimal(number).len() ==> is_digit(#[trigger] decimal(number)[i] as u8),
        digits_value(Seq::new(decimal(number).len(), |i: int| decimal(number)[i] as u8))
            == number,
    decreases number,
{
    let text = decimal(number);
    let bytes = Seq::new(text.len(), |i: int| text[i] as u8);
    let last = digit_char(number % 10);
    assert(last as u8 == 48 + number % 10);
    if number < 10 {
        assert(text =~= seq![last]);
        assert(bytes.drop_last() =~= Seq::<u8>::empty());
        assert(digits_value(bytes.drop_last()) == 0);
    } else {
        lemma_decimal_digits(number / 10);
        let front = decimal(number / 10);
        let front_bytes = Seq::new(front.len(), |i: int| front[i] as u8);
        assert(text =~= front + seq![last]);
        assert forall|i: int| 0 <= i < text.len() implies is_digit(#[trigger] text[i] as u8)
            && '\0' <= text[i] <= '\u{7f}' by {
            if i < front.len() {
                assert(text[i] == front[i]);
                assert(is_digit(front[i] as u8));
            }
        }
        assert(bytes.drop_last() =~= front_bytes);
        assert(bytes.last() == last as u8);
    }
}

/// The place that is shown for an answer is read back as that place.
pub proof fn lemma_shown_place_is_read_back(place: usize)
    ensures
        parsed_index(encode_utf8(decimal(place as nat))) == Some(place),
{
    let text = decimal(place as nat);
    lemma_decimal_digits(place as nat);
    vstd::utf8::is_ascii_chars_encode_utf8(text);
    let bytes = encode_utf8(text);
    assert(bytes =~= Seq::new(text.len(), |i: int| text[i] as u8));
    assert(is_digit(text[0] as u8));
    assert(bytes[0] != 43);
    assert(digits_of(bytes) == bytes);
    assert forall|i: int| 0 <= i < bytes.len() implies is_digit(#[trigger] bytes[i]) by {
        assert(is_digit(text[i] as u8));
    }
}

/// The text of one decimal digit.
fn digit_text(digit: usize) -> (r: &'static str)
    requires
        digit < 10,
    ensures
        r@ == seq![digit_char(digit as nat)],
{
    proof {
        reveal_strlit("0");
        reveal_strlit("1");
        reveal_strlit("2");
        reveal_strlit("3");
        reveal_strlit("4");
        reveal_strlit("5");
        reveal_strlit("6");
        reveal_strlit("7");
        reveal_strlit("8");
        reveal_strlit("9");
    }
    let r = if digit == 0 {
        "0"
    } else if digit == 1 {
        "1"
    } else if digit == 2 {
        "2"
    } else if digit == 3 {
        "3"
    } else if digit == 4 {
        "4"
    } else if digit == 5 {
        "5"
    } else if digit == 6 {
        "6"
    } else if digit == 7 {
        "7"
    } else if digit == 8 {
        "8"
    } else {
        "9"
    };
    assert(r@ =~= seq![digit_char(digit as nat)]);
    r
}

/// A number in decimal digits.
pub fn index_text(number: usize) -> (r: String)
    ensures
        r@ == decimal(number as nat),
    decreases number,
{
    let last = digit_text(number % 10);
    if number < 10 {
        String::from_str(last)
    } else {
        index_text(number / 10).concat(last)
    }
}

/// The text of a question with several answers, as it is shown to the
/// user.
pub fn prompt(question: &str, answers: &Vec<(String, String)>) -> (r: String)
    ensures
        r@ == prompt_text(question@, shown_texts(answers@)),
{
    let ghost shown = shown_texts(answers@);
    let mut text = String::from_str(question);
    let mut place: usize = 0;
    proof {
        reveal_strlit("\n");
        reveal_strlit(": ");
        assert(shown.take(0) =~= Seq::<Seq<char>>::empty());
    }
    while place < answers.len()
        invariant
            place <= answers@.len(),
            shown == shown_texts(answers@),
            text@ == prompt_text(question@, shown.take(place as int)),
            "\n"@ =~= seq!['\n'],
            ": "@ =~= seq![':', ' '],
        decreases answers@.len() - place,
    {
        let ghost before = text@;
        text.append("\n");
        text.append(index_text(place).as_str());
        text.append(": ");
        text.append(answers[place].1.as_str());
        proof {
            let longer = shown.take(place + 1);
            assert(longer.drop_last() =~= shown.take(place as int));
            assert(longer.last() == shown[place as int]);
            assert(text@ =~= before + option_line(place as nat, shown[place as int]));
        }
        place = place + 1;
    }
    assert(shown.take(place as int) =~= shown);
    text
}

/// What `str::trim` of the standard library makes of a text: the text
/// without the white space at its two ends.
pub uninterp spec fn trimmed(text: Seq<char>) -> Seq<char>;

/// Calls `str::trim`, which returns the part of the text that is left
/// when the white space at its two ends is taken away. The result is a
/// function of the text alone; the contract gives it its name.
#[verifier::external_body]
fn trim(text: &str) -> (r: &str)
    ensures
        r@ == trimmed(text@),
{
    text.trim()
}

/// Decides what a reply means as the user typed it: the white space at
/// its two ends does not count, and what is left is read as
/// [`choose_option`] reads it.
pub fn choose_reply(answers: &Vec<(String, String)>, reply: &str) -> (r: OptionReply)
    ensures
        match parsed_index(encode_utf8(trimmed(reply@))) {
            None => r == OptionReply::Invalid,
            Some(number) => if number >= answers@.len() {
                r == OptionReply::TooBig
            } else {
                r matches OptionReply::Chosen(key) && key@ == answers@[number as int].0@
            },
        },
{
    choose_option(answers, trim(reply).as_bytes())
}

} // verus!
