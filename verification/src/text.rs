//! Plain-text pieces shared by the labels of the shell.
use vstd::prelude::*;

verus! {

/// [`String::push`] appends the character and changes nothing else.
pub assume_specification[ String::push ](text: &mut String, letter: char)
    ensures
        final(text)@ == old(text)@.push(letter),
;

/// Whether a character is one of the 128 of ASCII.
pub open spec fn ascii(letter: char) -> bool {
    letter as u32 <= 127
}

/// Whether a character lies between two others, or is one of them.
pub open spec fn within(letter: char, first: char, last: char) -> bool {
    first as u32 <= letter as u32 <= last as u32
}

/// Whether a character is whitespace, that is, has the property `White_Space` of Unicode: the
/// characters from the tab to the carriage return, the space, the next line, the spaces of
/// other widths, and the separators of lines and paragraphs.
pub open spec fn blank(letter: char) -> bool {
    let code = letter as u32;
    ||| within(letter, '\t', '\r')
    ||| letter == ' '
    ||| code == 0x85
    ||| code == 0xa0
    ||| code == 0x1680
    ||| 0x2000 <= code <= 0x200a
    ||| code == 0x2028
    ||| code == 0x2029
    ||| code == 0x202f
    ||| code == 0x205f
    ||| code == 0x3000
}

/// [`char::is_whitespace`] takes the characters that are whitespace and no other.
pub assume_specification[ char::is_whitespace ](letter: char) -> (yes: bool)
    ensures
        yes == blank(letter),
;

/// What [`char::is_alphanumeric`] says of a character.
pub uninterp spec fn alphanumeric(letter: char) -> bool;

/// Whether a character is a letter or a digit of ASCII.
pub open spec fn ascii_alphanumeric(letter: char) -> bool {
    within(letter, '0', '9') || within(letter, 'A', 'Z') || within(letter, 'a', 'z')
}

/// [`char::is_alphanumeric`] depends on the character alone. Of ASCII, it takes the letters and
/// the digits.
pub assume_specification[ char::is_alphanumeric ](letter: char) -> (yes: bool)
    ensures
        yes == alphanumeric(letter),
        ascii(letter) ==> yes == ascii_alphanumeric(letter),
;

/// Whether a character is a control code, that is, of the general category `Cc` of Unicode:
/// one of the first 32 characters, or one from the last of ASCII to U+009F.
pub open spec fn control_code(letter: char) -> bool {
    letter as u32 <= 0x1f || 0x7f <= letter as u32 <= 0x9f
}

/// [`char::is_control`] takes the control codes and no other character.
pub assume_specification[ char::is_control ](letter: char) -> (yes: bool)
    ensures
        yes == control_code(letter),
;

/// The characters that [`char::to_lowercase`] gives for a character.
pub uninterp spec fn lowercase(letter: char) -> Seq<char>;

/// A character of ASCII in lower case.
pub open spec fn ascii_lower(letter: char) -> char {
    if within(letter, 'A', 'Z') {
        ((letter as u32 + 32) as u32) as char
    } else {
        letter
    }
}

/// [`char::to_lowercase`] depends on the character alone; its characters come in a vector. A
/// character of ASCII gives one.
#[verifier::external_body]
fn lowercase_letters(letter: char) -> (letters: Vec<char>)
    ensures
        letters@ == lowercase(letter),
        ascii(letter) ==> letters@ == seq![ascii_lower(letter)],
{
    letter.to_lowercase().collect()
}

/// The text that [`str::to_lowercase`] gives for a text.
pub uninterp spec fn lowercase_of(text: Seq<char>) -> Seq<char>;

/// Whether a text holds ASCII alone.
pub open spec fn all_ascii(text: Seq<char>) -> bool {
    forall|i: int| 0 <= i < text.len() ==> ascii(#[trigger] text[i])
}

/// [`str::to_lowercase`] depends on the characters of the text alone. Of a text of ASCII each
/// character is taken to lower case by itself.
#[verifier::external_body]
fn lowercase_text(text: &str) -> (lower: String)
    ensures
        lower@ == lowercase_of(text@),
        all_ascii(text@) ==> lower@ == text@.map_values(|letter: char| ascii_lower(letter)),
{
    text.to_lowercase()
}

/// Whether a character is whitespace.
pub fn is_blank(letter: char) -> (yes: bool)
    ensures
        yes == blank(letter),
{
    letter.is_whitespace()
}

/// Whether a character is a letter or a digit.
pub open spec fn letter_or_digit(letter: char) -> bool {
    if ascii(letter) {
        ascii_alphanumeric(letter)
    } else {
        alphanumeric(letter)
    }
}

/// Whether a character is a letter or a digit.
pub fn is_letter_or_digit(letter: char) -> (yes: bool)
    ensures
        yes == letter_or_digit(letter),
{
    letter.is_alphanumeric()
}

/// A character in lower case, which may be more than one.
pub open spec fn lower(letter: char) -> Seq<char> {
    if ascii(letter) {
        seq![ascii_lower(letter)]
    } else {
        lowercase(letter)
    }
}

/// A character in lower case.
pub fn lower_letters(letter: char) -> (letters: Vec<char>)
    ensures
        letters@ == lower(letter),
{
    lowercase_letters(letter)
}

/// A text in lower case.
pub open spec fn lower_of(text: Seq<char>) -> Seq<char> {
    if all_ascii(text) {
        text.map_values(|letter: char| ascii_lower(letter))
    } else {
        lowercase_of(text)
    }
}

/// A text in lower case.
pub fn lower_text(text: &str) -> (lower: String)
    ensures
        lower@ == lower_of(text@),
{
    lowercase_text(text)
}

/// The digit of a number below ten.
pub open spec fn digit(value: int) -> char {
    if value == 0 {
        '0'
    } else if value == 1 {
        '1'
    } else if value == 2 {
        '2'
    } else if value == 3 {
        '3'
    } else if value == 4 {
        '4'
    } else if value == 5 {
        '5'
    } else if value == 6 {
        '6'
    } else if value == 7 {
        '7'
    } else if value == 8 {
        '8'
    } else {
        '9'
    }
}

/// A number in decimal, without leading zeros.
pub open spec fn decimal(value: nat) -> Seq<char>
    decreases value,
{
    if value < 10 {
        seq![digit(value as int)]
    } else {
        decimal(value / 10).push(digit((value % 10) as int))
    }
}

/// A number in decimal, filled with zeros on the left to `width` digits.
pub open spec fn padded(value: nat, width: nat) -> Seq<char>
    decreases width,
{
    if width == 0 {
        if value == 0 {
            Seq::empty()
        } else {
            decimal(value)
        }
    } else {
        padded(value / 10, (width - 1) as nat).push(digit((value % 10) as int))
    }
}

/// The digit of a number below ten.
pub fn digit_char(value: u64) -> (letter: char)
    requires
        value < 10,
    ensures
        letter == digit(value as int),
{
    match value {
        0 => '0',
        1 => '1',
        2 => '2',
        3 => '3',
        4 => '4',
        5 => '5',
        6 => '6',
        7 => '7',
        8 => '8',
        _ => '9',
    }
}

/// Appends a number in decimal.
pub fn push_decimal(text: &mut String, value: u64)
    ensures
        final(text)@ == old(text)@ + decimal(value as nat),
    decreases value,
{
    if value >= 10 {
        push_decimal(text, value / 10);
    }
    let ghost before = text@;
    text.push(digit_char(value % 10));
    assert(text@ =~= old(text)@ + decimal(value as nat));
}

/// Appends a large number in decimal.
pub fn push_large_decimal(text: &mut String, value: u128)
    ensures
        final(text)@ == old(text)@ + decimal(value as nat),
    decreases value,
{
    if value >= 10 {
        push_large_decimal(text, value / 10);
    }
    text.push(digit_char((value % 10) as u64));
    assert(text@ =~= old(text)@ + decimal(value as nat));
}

/// Appends a number in decimal, with at least `width` digits.
pub fn push_padded(text: &mut String, value: u64, width: u64)
    ensures
        final(text)@ == old(text)@ + padded(value as nat, width as nat),
    decreases width,
{
    if width == 0 {
        if value != 0 {
            push_decimal(text, value);
        }
    } else {
        push_padded(text, value / 10, width - 1);
        text.push(digit_char(value % 10));
    }
    assert(text@ =~= old(text)@ + padded(value as nat, width as nat));
}

/// A number in decimal.
pub fn decimal_text(value: u64) -> (text: String)
    ensures
        text@ == decimal(value as nat),
{
    let mut text = String::new();
    push_decimal(&mut text, value);
    assert(text@ =~= decimal(value as nat));
    text
}

/// Two texts, one after the other.
pub fn joined(left: &str, right: &str) -> (text: String)
    ensures
        text@ == left@ + right@,
{
    let mut text = String::from_str(left);
    text.append(right);
    text
}

/// Whether two texts hold the same characters.
pub fn same_text(left: &str, right: &str) -> (same: bool)
    ensures
        same == (left@ == right@),
{
    String::from_str(left) == String::from_str(right)
}

/// The characters of a text.
pub fn letters_of(text: &str) -> (letters: Vec<char>)
    ensures
        letters@ == text@,
{
    let mut letters: Vec<char> = Vec::new();
    for letter in rest: text.chars()
        invariant
            letters@ == rest.seq().take(rest.index() as int),
            rest.seq() == text@,
    {
        letters.push(letter);
        assert(rest.seq().take(rest.index() + 1) =~= rest.seq().take(rest.index() as int).push(
            letter,
        ));
    }
    assert(text@.take(text@.len() as int) =~= text@);
    letters
}

/// The text made of the characters `from..to` of `letters`.
pub fn text_between(letters: &Vec<char>, from: usize, to: usize) -> (text: String)
    requires
        from <= to <= letters.len(),
    ensures
        text@ == letters@.subrange(from as int, to as int),
{
    let mut text = String::new();
    let mut index: usize = from;
    while index < to
        invariant
            from <= index <= to <= letters.len(),
            text@ == letters@.subrange(from as int, index as int),
        decreases to - index,
    {
        text.push(letters[index]);
        assert(letters@.subrange(from as int, index + 1) =~= letters@.subrange(
            from as int,
            index as int,
        ).push(letters@[index as int]));
        index += 1;
    }
    text
}

/// Whether `text` ends with `suffix`.
pub open spec fn has_suffix(text: Seq<char>, suffix: Seq<char>) -> bool {
    text.len() >= suffix.len() && text.subrange(text.len() - suffix.len(), text.len() as int)
        == suffix
}

/// Whether `text` ends with `suffix`.
pub fn ends_with(text: &str, suffix: &str) -> (ends: bool)
    ensures
        ends == has_suffix(text@, suffix@),
{
    let letters = letters_of(text);
    let tail = letters_of(suffix);
    if letters.len() < tail.len() {
        return false;
    }
    let text_tail = text_between(&letters, letters.len() - tail.len(), letters.len());
    same_text(text_tail.as_str(), suffix)
}

/// The place of the first character that is no whitespace.
pub open spec fn trim_start(text: Seq<char>) -> int
    decreases text.len(),
{
    if text.len() == 0 || !blank(text[0]) {
        0
    } else {
        1 + trim_start(text.skip(1))
    }
}

/// The place after the last character that is no whitespace.
pub open spec fn trim_end(text: Seq<char>) -> int
    decreases text.len(),
{
    if text.len() == 0 || !blank(text.last()) {
        text.len() as int
    } else {
        trim_end(text.drop_last())
    }
}

/// A text without whitespace at its ends.
pub open spec fn trimmed(text: Seq<char>) -> Seq<char> {
    let start = trim_start(text);
    let end = trim_end(text);
    if start < end {
        text.subrange(start, end)
    } else {
        Seq::empty()
    }
}

proof fn lemma_trim_bounds(text: Seq<char>)
    ensures
        0 <= trim_start(text) <= text.len(),
        0 <= trim_end(text) <= text.len(),
    decreases text.len(),
{
    if text.len() > 0 {
        lemma_trim_bounds(text.skip(1));
        lemma_trim_bounds(text.drop_last());
    }
}

/// A text without whitespace at its ends.
pub fn trim(text: &str) -> (inner: String)
    ensures
        inner@ == trimmed(text@),
{
    let letters = letters_of(text);
    let mut start: usize = 0;
    proof {
        lemma_trim_bounds(letters@);
        assert(letters@.skip(0) =~= letters@);
    }
    while start < letters.len() && is_blank(letters[start])
        invariant
            start <= letters.len(),
            trim_start(letters@) == start + trim_start(letters@.skip(start as int)),
        decreases letters.len() - start,
    {
        assert(letters@.skip(start as int).skip(1) =~= letters@.skip(start + 1));
        start += 1;
    }
    let mut end: usize = letters.len();
    assert(letters@.take(end as int) =~= letters@);
    while end > 0 && is_blank(letters[end - 1])
        invariant
            end <= letters.len(),
            trim_end(letters@) == trim_end(letters@.take(end as int)),
        decreases end,
    {
        assert(letters@.take(end as int).drop_last() =~= letters@.take(end - 1));
        end -= 1;
    }
    if start < end {
        text_between(&letters, start, end)
    } else {
        String::new()
    }
}

/// Whether `part` stands in `text` from a place on.
pub open spec fn stands_at(text: Seq<char>, part: Seq<char>, place: int) -> bool {
    0 <= place <= text.len() - part.len() && text.subrange(place, place + part.len()) == part
}

/// Whether `part` stands somewhere in `text`.
pub open spec fn occurs_in(text: Seq<char>, part: Seq<char>) -> bool {
    exists|place: int| stands_at(text, part, place)
}

fn matches_at(letters: &Vec<char>, part: &Vec<char>, place: usize) -> (found: bool)
    requires
        place + part.len() <= letters.len(),
    ensures
        found == stands_at(letters@, part@, place as int),
{
    let mut index: usize = 0;
    while index < part.len()
        invariant
            index <= part.len(),
            place + part.len() <= letters.len(),
            forall|i: int| 0 <= i < index ==> letters@[place + i] == part@[i],
        decreases part.len() - index,
    {
        if letters[place + index] != part[index] {
            assert(letters@.subrange(place as int, place + part.len())[index as int]
                != part@[index as int]);
            return false;
        }
        index += 1;
    }
    assert(letters@.subrange(place as int, place + part.len()) =~= part@);
    true
}

/// Whether `part` stands somewhere in `text`.
pub fn contains_text(text: &str, part: &str) -> (found: bool)
    ensures
        found == occurs_in(text@, part@),
{
    let letters = letters_of(text);
    let wanted = letters_of(part);
    if wanted.len() > letters.len() {
        return false;
    }
    let last: usize = letters.len() - wanted.len();
    let mut place: usize = 0;
    while place <= last
        invariant
            place <= last + 1,
            last == letters.len() - wanted.len(),
            wanted.len() <= letters.len(),
            letters@ == text@,
            wanted@ == part@,
            forall|i: int| 0 <= i < place ==> !stands_at(letters@, wanted@, i),
        decreases last + 1 - place,
    {
        if matches_at(&letters, &wanted, place) {
            return true;
        }
        if place == last {
            return false;
        }
        place += 1;
    }
    false
}

/// Trimming leaves a text that starts and ends with something else than whitespace.
pub proof fn trimmed_text_has_no_outer_whitespace(text: Seq<char>)
    ensures
        trimmed(text).len() > 0 ==> !blank(trimmed(text)[0]) && !blank(
            trimmed(text).last(),
        ),
{
    lemma_trim_bounds(text);
    lemma_trim_start(text);
    lemma_trim_end(text);
}

/// Trimming keeps characters of the text, and adds none.
pub proof fn trimmed_text_is_a_part(text: Seq<char>)
    ensures
        trimmed(text).len() > 0 ==> trimmed(text) == text.subrange(
            trim_start(text),
            trim_end(text),
        ),
        0 <= trim_start(text) <= text.len(),
        0 <= trim_end(text) <= text.len(),
{
    lemma_trim_bounds(text);
}

proof fn lemma_trim_start(text: Seq<char>)
    ensures
        trim_start(text) < text.len() ==> !blank(text[trim_start(text)]),
    decreases text.len(),
{
    if text.len() > 0 && blank(text[0]) {
        lemma_trim_start(text.skip(1));
        lemma_trim_bounds(text.skip(1));
    }
}

proof fn lemma_trim_end(text: Seq<char>)
    ensures
        trim_end(text) > 0 ==> !blank(text[trim_end(text) - 1]),
    decreases text.len(),
{
    if text.len() > 0 && blank(text.last()) {
        lemma_trim_end(text.drop_last());
        lemma_trim_bounds(text.drop_last());
    }
}

/// The number that a row of digits stands for.
pub open spec fn reading(text: Seq<char>) -> int
    decreases text.len(),
{
    if text.len() == 0 {
        0
    } else {
        10 * reading(text.drop_last()) + (text.last() as u32 - 48)
    }
}

/// A number that is written is read back, and is written without a zero in front.
pub proof fn written_numbers_read_back(value: nat)
    ensures
        reading(decimal(value)) == value,
        decimal(value).len() > 0,
        value > 0 ==> decimal(value)[0] != '0',
        value < 10 ==> decimal(value).len() == 1,
        value >= 10 ==> decimal(value).len() == decimal(value / 10).len() + 1,
    decreases value,
{
    let text = decimal(value);
    assert('0' as u32 == 48 && '9' as u32 == 57);
    if value < 10 {
        assert(text.drop_last() =~= Seq::empty());
        assert(reading(text.drop_last()) == 0);
    } else {
        written_numbers_read_back(value / 10);
        assert(text.drop_last() =~= decimal(value / 10));
        assert(text[0] == decimal(value / 10)[0]);
    }
}

/// A number that is written to a width is read back, and has at least that many digits; small
/// ones have just that many.
pub proof fn padded_numbers_read_back(value: nat, width: nat)
    ensures
        reading(padded(value, width)) == value,
        padded(value, width).len() >= width,
        width == 2 && value < 100 ==> padded(value, width).len() == 2,
        width == 3 && value < 1_000 ==> padded(value, width).len() == 3,
    decreases width,
{
    let text = padded(value, width);
    if width == 0 {
        written_numbers_read_back(value);
    } else {
        padded_numbers_read_back(value / 10, (width - 1) as nat);
        assert(text.drop_last() =~= padded(value / 10, (width - 1) as nat));
        reveal_with_fuel(padded, 4);
    }
}

/// Lowering a letter of the English alphabet leads from the capital to the small one, 32 further
/// on, and leaves every other ASCII character as it is.
pub proof fn capitals_are_lowered(letter: char)
    requires
        ascii(letter),
    ensures
        lower(letter).len() == 1,
        65 <= letter as u32 <= 90 ==> lower(letter)[0] as u32 == letter as u32 + 32,
        !(65 <= letter as u32 <= 90) ==> lower(letter)[0] == letter,
        lower_of(seq![letter]) == lower(letter),
{
    assert('A' as u32 == 65 && 'Z' as u32 == 90);
    assert(all_ascii(seq![letter]));
    assert(lower_of(seq![letter]) =~= lower(letter));
}

/// Lowering an ASCII text keeps its length, and lowering it again changes nothing.
pub proof fn lowered_text_stays_lowered(text: Seq<char>)
    requires
        all_ascii(text),
    ensures
        lower_of(text).len() == text.len(),
        lower_of(lower_of(text)) == lower_of(text),
        forall|i: int|
            0 <= i < text.len() ==> !(65 <= (#[trigger] lower_of(text)[i]) as u32 <= 90),
{
    assert('A' as u32 == 65 && 'Z' as u32 == 90);
    let once = lower_of(text);
    assert forall|i: int| 0 <= i < text.len() implies !(65 <= (#[trigger] once[i]) as u32 <= 90)
        && ascii(once[i]) by {
        assert(ascii(text[i]));
        assert(once[i] == ascii_lower(text[i]));
    }
    assert(all_ascii(once));
    assert(lower_of(once) =~= once);
}

/// The ASCII characters that count as blank are the space and those from the tab to the return.
pub proof fn ascii_blanks(letter: char)
    requires
        ascii(letter),
    ensures
        blank(letter) <==> letter as u32 == 32 || 9 <= letter as u32 <= 13,
        letter_or_digit(letter) <==> 48 <= letter as u32 <= 57 || 65 <= letter as u32 <= 90 || 97
            <= letter as u32 <= 122,
        control_code(letter) <==> letter as u32 <= 31 || letter as u32 == 127,
{
    assert('\t' as u32 == 9 && '\r' as u32 == 13 && ' ' as u32 == 32);
    assert('A' as u32 == 65 && 'Z' as u32 == 90 && 'a' as u32 == 97 && 'z' as u32 == 122);
    assert('0' as u32 == 48 && '9' as u32 == 57);
}

/// A text occurs where it stands between any two others, and nothing longer than a text occurs
/// in it; a text ends with what is put behind it.
pub proof fn parts_occur_where_they_are_put(
    front: Seq<char>,
    part: Seq<char>,
    back: Seq<char>,
)
    ensures
        occurs_in(front + part + back, part),
        has_suffix(front + part, part),
        back.len() > 0 ==> !occurs_in(part, part + back) && !has_suffix(part, part + back),
{
    let text = front + part + back;
    assert(text.subrange(front.len() as int, (front.len() + part.len()) as int) =~= part);
    assert(stands_at(text, part, front.len() as int));
    let end = front + part;
    assert(end.subrange(end.len() - part.len(), end.len() as int) =~= part);
    assert forall|place: int| back.len() > 0 implies !#[trigger] stands_at(
        part,
        part + back,
        place,
    ) by {
    }
}

} // verus!
