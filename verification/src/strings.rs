//! Small operations on text that the readers share.

use vstd::prelude::*;
use vstd::slice::slice_subrange;
use vstd::string::{StringExecFns, StringSliceAdditionalSpecFns};

verus! {

/// The characters of a text.
pub(crate) fn chars_of(text: &str) -> (chars: Vec<char>)
    ensures
        chars@ == text@,
{
    broadcast use vstd::string::group_string_axioms;

    let mut chars: Vec<char> = Vec::new();
    for c in it: text.chars()
        invariant
            it.seq() == text@,
            chars@ == it.seq().take(it.index() as int),
    {
        chars.push(c);
        proof {
            assert(chars@ =~= it.seq().take(it.index() + 1));
        }
    }
    proof {
        assert(chars@ =~= text@);
    }
    chars
}

/// `String::from_iter` on characters: the text that the characters make.
#[verifier::external_body]
pub(crate) fn string_of(chars: &[char]) -> (text: String)
    ensures
        text@ == chars@,
{
    chars.iter().collect()
}

/// Whether two texts hold the same characters: they do where their bytes
/// are the same.
pub(crate) fn same_text(a: &str, b: &str) -> (same: bool)
    ensures
        same == (a@ == b@),
{
    let left = a.as_bytes();
    let right = b.as_bytes();
    if left.len() != right.len() {
        return false;
    }
    let mut i: usize = 0;
    while i < left.len()
        invariant
            i <= left.len(),
            left.len() == right.len(),
            left@ == a.spec_bytes(),
            right@ == b.spec_bytes(),
            forall|j: int| 0 <= j < i ==> left@[j] == right@[j],
        decreases left.len() - i,
    {
        if left[i] != right[i] {
            return false;
        }
        i = i + 1;
    }
    proof {
        assert(left@ =~= right@);
        vstd::utf8::encode_utf8_decode_utf8(a@);
        vstd::utf8::encode_utf8_decode_utf8(b@);
    }
    true
}

/// White space, as Unicode has it.
pub open spec fn is_space(c: char) -> bool {
    let code = c as u32;
    ||| 0x09 <= code <= 0x0D
    ||| code == 0x20
    ||| code == 0x85
    ||| code == 0xA0
    ||| code == 0x1680
    ||| 0x2000 <= code <= 0x200A
    ||| code == 0x2028
    ||| code == 0x2029
    ||| code == 0x202F
    ||| code == 0x205F
    ||| code == 0x3000
}

/// A text without the white space that it begins with.
pub open spec fn without_leading_space(text: Seq<char>) -> Seq<char>
    decreases text.len(),
{
    if text.len() > 0 && is_space(text[0]) {
        without_leading_space(text.drop_first())
    } else {
        text
    }
}

/// The word that a text begins with: its characters up to the first white
/// space.
pub open spec fn leading_word(text: Seq<char>) -> Seq<char>
    decreases text.len(),
{
    if text.len() > 0 && !is_space(text[0]) {
        seq![text[0]] + leading_word(text.drop_first())
    } else {
        Seq::empty()
    }
}

/// Leading white space and a leading word are parts of the text.
pub proof fn lemma_leading_parts(text: Seq<char>)
    ensures
        without_leading_space(text).len() <= text.len(),
        leading_word(text).len() <= text.len(),
        text.len() > 0 && !is_space(text[0]) ==> leading_word(text).len() > 0,
        without_leading_space(text).len() > 0 ==> !is_space(without_leading_space(text)[0]),
    decreases text.len(),
{
    if text.len() > 0 {
        lemma_leading_parts(text.drop_first());
    }
}

/// The words of a text: its maximal runs of characters that are not white
/// space, in order.
pub open spec fn words_of(text: Seq<char>) -> Seq<Seq<char>>
    decreases text.len(),
{
    let from_word = without_leading_space(text);
    if from_word.len() == 0 {
        Seq::empty()
    } else {
        let word = leading_word(from_word);
        proof {
            lemma_leading_parts(text);
            lemma_leading_parts(from_word);
        }
        seq![word] + words_of(from_word.skip(word.len() as int))
    }
}

/// Whether a character is white space.
pub fn is_white_space(c: char) -> (yes: bool)
    ensures
        yes == is_space(c),
{
    let code = c as u32;
    (0x09 <= code && code <= 0x0D) || code == 0x20 || code == 0x85 || code == 0xA0 || code
        == 0x1680 || (0x2000 <= code && code <= 0x200A) || code == 0x2028 || code == 0x2029
        || code == 0x202F || code == 0x205F || code == 0x3000
}

/// Splits a text into its words.
pub fn split_words(text: &str) -> (words: Vec<String>)
    ensures
        words.deep_view() == words_of(text@),
{
    let chars = chars_of(text);
    let n = chars.len();
    let mut words: Vec<String> = Vec::new();
    let mut i: usize = 0;
    proof {
        assert(chars@.skip(0) =~= chars@);
        assert(words.deep_view() =~= Seq::empty());
        assert(Seq::<Seq<char>>::empty() + words_of(chars@) =~= words_of(chars@));
    }
    while i < n
        invariant
            n == chars.len(),
            i <= n,
            words_of(chars@) == words.deep_view() + words_of(chars@.skip(i as int)),
        decreases n - i,
    {
        let ghost from = chars@.skip(i as int);
        let ghost entered = i;
        while i < n && is_white_space(chars[i])
            invariant
                n == chars.len(),
                entered <= i <= n,
                without_leading_space(from) == without_leading_space(chars@.skip(i as int)),
            decreases n - i,
        {
            proof {
                assert(chars@.skip(i as int).drop_first() =~= chars@.skip(i + 1));
            }
            i = i + 1;
        }
        if i == n {
            proof {
                assert(without_leading_space(chars@.skip(i as int)).len() == 0);
                assert(words_of(from) =~= Seq::empty());
                assert(words_of(chars@.skip(i as int)) =~= Seq::empty());
            }
        } else {
            let start = i;
            let ghost from_word = chars@.skip(start as int);
            proof {
                assert(without_leading_space(from_word) == from_word);
                assert(chars@.subrange(start as int, i as int) + leading_word(from_word)
                    =~= leading_word(from_word));
            }
            while i < n && !is_white_space(chars[i])
                invariant
                    n == chars.len(),
                    start <= i <= n,
                    start < n,
                    !is_space(chars@[start as int]),
                    from_word == chars@.skip(start as int),
                    leading_word(from_word) == chars@.subrange(start as int, i as int)
                        + leading_word(chars@.skip(i as int)),
                decreases n - i,
            {
                proof {
                    let here = chars@.skip(i as int);
                    assert(here.drop_first() =~= chars@.skip(i + 1));
                    assert(chars@.subrange(start as int, i as int) + (seq![here[0]]
                        + leading_word(here.drop_first())) =~= chars@.subrange(
                        start as int,
                        i + 1,
                    ) + leading_word(chars@.skip(i + 1)));
                }
                i = i + 1;
            }
            let word = string_of(slice_subrange(chars.as_slice(), start, i));
            let ghost before = words.deep_view();
            words.push(word);
            proof {
                assert(leading_word(chars@.skip(i as int)) =~= Seq::empty());
                assert(leading_word(from_word) =~= chars@.subrange(start as int, i as int));
                assert(word@ == leading_word(from_word));
                assert(from_word.skip(word@.len() as int) =~= chars@.skip(i as int));
                assert(words_of(from) == seq![word@] + words_of(chars@.skip(i as int)));
                assert(words.deep_view() =~= before.push(word@));
                assert(before + (seq![word@] + words_of(chars@.skip(i as int))) =~= before.push(
                    word@,
                ) + words_of(chars@.skip(i as int)));
            }
        }
    }
    proof {
        assert(words_of(chars@.skip(n as int)) =~= Seq::empty());
        assert(words.deep_view() + Seq::empty() =~= words.deep_view());
    }
    words
}

/// The fragments in order, with one space between neighbours.
pub open spec fn joined(frags: Seq<Seq<char>>) -> Seq<char>
    decreases frags.len(),
{
    if frags.len() == 0 {
        Seq::empty()
    } else if frags.len() == 1 {
        frags[0]
    } else {
        joined(frags.drop_last()) + seq![' '] + frags.last()
    }
}

/// Joins the fragments with single spaces.
pub fn join(frags: &Vec<String>) -> (text: String)
    ensures
        text@ == joined(frags.deep_view()),
{
    let mut text = String::new();
    let mut i: usize = 0;
    while i < frags.len()
        invariant
            i <= frags.len(),
            text@ == joined(frags.deep_view().take(i as int)),
        decreases frags.len() - i,
    {
        let ghost before = frags.deep_view().take(i as int);
        let ghost after = frags.deep_view().take(i + 1);
        proof {
            reveal_strlit(" ");
            assert(after.drop_last() =~= before);
            assert(after.last() == frags[i as int]@);
            assert(" "@ =~= seq![' ']);
        }
        if i > 0 {
            text.append(" ");
        }
        text.append(frags[i].as_str());
        proof {
            if i == 0 {
                assert(text@ =~= frags[0]@);
            }
        }
        i = i + 1;
    }
    proof {
        assert(frags.deep_view().take(frags.len() as int) =~= frags.deep_view());
    }
    text
}

/// The character of a digit.
pub open spec fn digit_char(digit: int) -> char {
    if digit == 0 {
        '0'
    } else if digit == 1 {
        '1'
    } else if digit == 2 {
        '2'
    } else if digit == 3 {
        '3'
    } else if digit == 4 {
        '4'
    } else if digit == 5 {
        '5'
    } else if digit == 6 {
        '6'
    } else if digit == 7 {
        '7'
    } else if digit == 8 {
        '8'
    } else {
        '9'
    }
}

/// The digits of a number in decimal notation, the most significant first.
pub open spec fn digits_of(number: nat) -> Seq<char>
    decreases number,
{
    if number < 10 {
        seq![digit_char(number as int)]
    } else {
        digits_of(number / 10).push(digit_char((number % 10) as int))
    }
}

/// A number in decimal notation, with a minus sign where it is negative.
pub open spec fn decimal_of(number: int) -> Seq<char> {
    if number < 0 {
        seq!['-'] + digits_of((-number) as nat)
    } else {
        digits_of(number as nat)
    }
}

/// The character of a digit.
pub(crate) fn digit(value: u8) -> (c: char)
    requires
        value < 10,
    ensures
        c == digit_char(value as int),
{
    if value == 0 {
        '0'
    } else if value == 1 {
        '1'
    } else if value == 2 {
        '2'
    } else if value == 3 {
        '3'
    } else if value == 4 {
        '4'
    } else if value == 5 {
        '5'
    } else if value == 6 {
        '6'
    } else if value == 7 {
        '7'
    } else if value == 8 {
        '8'
    } else {
        '9'
    }
}

/// Writes a number in decimal notation.
pub fn decimal(number: i32) -> (text: String)
    ensures
        text@ == decimal_of(number as int),
{
    let negative = number < 0;
    let magnitude: u32 = if negative {
        (-(number as i64)) as u32
    } else {
        number as u32
    };
    // The digits, the least significant first.
    let mut low_first: Vec<char> = Vec::new();
    let mut left: u32 = magnitude;
    while left >= 10
        invariant
            digits_of(magnitude as nat) == digits_of(left as nat) + low_first@.reverse(),
        decreases left,
    {
        let ghost before = low_first@;
        low_first.push(digit((left % 10) as u8));
        proof {
            assert(digits_of((left / 10) as nat).push(digit_char((left % 10) as int))
                + before.reverse() =~= digits_of((left / 10) as nat) + low_first@.reverse());
        }
        left = left / 10;
    }
    low_first.push(digit(left as u8));
    if negative {
        low_first.push('-');
    }
    let ghost low = low_first@;
    let mut chars: Vec<char> = Vec::new();
    while low_first.len() > 0
        invariant
            low_first@ == low.take(low_first.len() as int),
            chars@ == low.skip(low_first.len() as int).reverse(),
            low_first.len() <= low.len(),
        decreases low_first.len(),
    {
        let ghost n = low_first.len() as int;
        let ghost before = chars@;
        match low_first.pop() {
            Some(c) => {
                chars.push(c);
                proof {
                    assert(low_first@ =~= low.take(n - 1));
                    assert(before.push(c) =~= low.skip(n - 1).reverse());
                }
            },
            None => {},
        }
    }
    proof {
        assert(low.skip(0) =~= low);
        assert(chars@ =~= decimal_of(number as int));
    }
    string_of(chars.as_slice())
}

} // verus!
