//! Text as sequences of characters: reading numbers out of it, writing them into it, and cutting
//! it up.
//!
//! Every function here states its result over the characters of its arguments, so that whoever
//! calls it can state its own result the same way.

use vstd::prelude::*;

verus! {

/// `String::push` puts one character behind the ones that are there.
pub assume_specification[ String::push ](s: &mut String, ch: char)
    ensures
        final(s)@ == old(s)@.push(ch),
;

/// What `{:?}` prints for a string: the text between double quotes, with what is not printable
/// escaped.
pub uninterp spec fn quoted(text: Seq<char>) -> Seq<char>;

/// `<str as Debug>::fmt` through `format!`: the text as `{:?}` prints it, which depends on the text
/// alone.
#[verifier::external_body]
pub(crate) fn quote(text: &str) -> (shown: String)
    ensures
        shown@ == quoted(text@),
{
    format!("{:?}", text)
}

/// A text with every letter made small, by Unicode's rules.
pub uninterp spec fn lowercased(text: Seq<char>) -> Seq<char>;

/// `str::to_lowercase`: the text with every letter made small, which depends on the text alone. Texts
/// that differ only in the case of their ASCII letters come out the same.
#[verifier::external_body]
pub(crate) fn lowercase(text: &str) -> (small: String)
    ensures
        small@ == lowercased(text@),
        forall|other: Seq<char>|
            #![trigger lowercased(other)]
            same_but_case(other, text@) ==> lowercased(other) == small@,
{
    text.to_lowercase()
}

/// The directory a path stands in, if it stands in one.
pub uninterp spec fn parent_path(path: Seq<char>) -> Option<Seq<char>>;

/// `std::path::Path::parent`: the path without its last component, which is shorter, and nothing for a
/// root or an empty path. It depends on the path alone, on a system whose paths are parted by slashes.
#[verifier::external_body]
pub(crate) fn parent_of(path: &str) -> (parent: Option<String>)
    ensures
        match parent {
            Some(found) => parent_path(path@) == Some(found@) && found@.len() < path@.len(),
            None => parent_path(path@) is None,
        },
{
    std::path::Path::new(path).parent().and_then(|parent| parent.to_str()).map(String::from)
}

/// Whether two texts hold the same characters.
pub fn same(left: &str, right: &str) -> (equal: bool)
    ensures
        equal == (left@ == right@),
{
    left.to_owned() == right.to_owned()
}

/// The characters of a text, one by one.
pub fn characters(text: &str) -> (found: Vec<char>)
    ensures
        found@ == text@,
{
    let mut found: Vec<char> = Vec::new();
    for character in walk: text.chars()
        invariant
            found@ == walk.seq().take(walk.index() as int),
            walk.seq() == text@,
    {
        found.push(character);
    }
    found
}

/// The text made of the characters from `from` up to, not including, `to`.
pub fn text_between(characters: &Vec<char>, from: usize, to: usize) -> (text: String)
    requires
        from <= to <= characters@.len(),
    ensures
        text@ == characters@.subrange(from as int, to as int),
{
    let mut text: String = String::new();
    let mut at: usize = from;
    while at < to
        invariant
            from <= at <= to <= characters@.len(),
            text@ == characters@.subrange(from as int, at as int),
        decreases to - at,
    {
        text.push(characters[at]);
        at += 1;
    }
    text
}

/// The text made of all the characters given.
pub fn text_of(characters: &Vec<char>) -> (text: String)
    ensures
        text@ == characters@,
{
    text_between(characters, 0, characters.len())
}

/// The characters from `from` up to, not including, `to`.
pub fn part(characters: &Vec<char>, from: usize, to: usize) -> (found: Vec<char>)
    requires
        from <= to <= characters@.len(),
    ensures
        found@ == characters@.subrange(from as int, to as int),
{
    let mut found: Vec<char> = Vec::new();
    let mut at: usize = from;
    while at < to
        invariant
            from <= at <= to <= characters@.len(),
            found@ == characters@.subrange(from as int, at as int),
        decreases to - at,
    {
        found.push(characters[at]);
        at += 1;
    }
    found
}

// --- Writing numbers ---------------------------------------------------------------------------

/// The character for a digit.
pub open spec fn digit(value: nat) -> char {
    ('0' as u32 + value) as char
}

/// A natural number in decimal, without leading zeros.
pub open spec fn decimal(value: nat) -> Seq<char>
    decreases value,
{
    if value < 10 {
        seq![digit(value)]
    } else {
        decimal(value / 10).push(digit(value % 10))
    }
}

/// An integer in decimal, with a sign only where it is negative.
pub open spec fn signed_decimal(value: int) -> Seq<char> {
    if value < 0 {
        seq!['-'] + decimal((-value) as nat)
    } else {
        decimal(value as nat)
    }
}

/// The text with zeros in front of it until it is `width` characters long.
pub open spec fn zero_filled(text: Seq<char>, width: nat) -> Seq<char> {
    if text.len() >= width {
        text
    } else {
        Seq::new((width - text.len()) as nat, |i: int| '0') + text
    }
}

/// An integer in decimal, filled with zeros behind its sign until the whole is `width` long.
pub open spec fn padded_decimal(value: int, width: nat) -> Seq<char> {
    if value < 0 {
        seq!['-'] + zero_filled(
            decimal((-value) as nat),
            if width > 0 {
                (width - 1) as nat
            } else {
                0
            },
        )
    } else {
        zero_filled(decimal(value as nat), width)
    }
}

fn digit_character(value: u8) -> (character: char)
    requires
        value < 10,
    ensures
        character == digit(value as nat),
{
    (48u8 + value) as char
}

/// Writes a natural number in decimal.
pub fn decimal_of(value: u128) -> (text: String)
    ensures
        text@ == decimal(value as nat),
    decreases value,
{
    if value < 10 {
        let mut text: String = String::new();
        text.push(digit_character(value as u8));
        assert(text@ =~= seq![digit(value as nat)]);
        text
    } else {
        let mut text: String = decimal_of(value / 10);
        text.push(digit_character((value % 10) as u8));
        text
    }
}

/// Writes a count in decimal.
pub fn count_of(value: usize) -> (text: String)
    ensures
        text@ == decimal(value as nat),
{
    decimal_of(value as u128)
}

/// Writes an integer in decimal.
pub fn signed_decimal_of(value: i64) -> (text: String)
    ensures
        text@ == signed_decimal(value as int),
{
    if value < 0 {
        let size: u128 = (-(value as i128)) as u128;
        let mut text: String = String::new();
        text.push('-');
        let written = text.concat(decimal_of(size).as_str());
        assert(written@ =~= seq!['-'] + decimal(size as nat));
        written
    } else {
        decimal_of(value as u128)
    }
}

/// The text with zeros in front of it until it is `width` characters long.
fn zero_fill(text: String, width: usize) -> (filled: String)
    ensures
        filled@ == zero_filled(text@, width as nat),
{
    let length: usize = text.as_str().unicode_len();
    if length >= width {
        return text;
    }
    let mut filled: String = String::new();
    let mut placed: usize = 0;
    while placed < width - length
        invariant
            length < width,
            placed <= width - length,
            filled@ == Seq::new(placed as nat, |i: int| '0'),
        decreases width - length - placed,
    {
        filled.push('0');
        placed += 1;
        assert(filled@ =~= Seq::new(placed as nat, |i: int| '0'));
    }
    filled.concat(text.as_str())
}

/// Writes an integer in decimal, filled with zeros to a width.
pub fn padded_decimal_of(value: i64, width: usize) -> (text: String)
    ensures
        text@ == padded_decimal(value as int, width as nat),
{
    if value < 0 {
        let size: u128 = (-(value as i128)) as u128;
        let rest: usize = if width > 0 {
            width - 1
        } else {
            0
        };
        let mut text: String = String::new();
        text.push('-');
        let written = text.concat(zero_fill(decimal_of(size), rest).as_str());
        assert(written@ =~= seq!['-'] + zero_filled(decimal(size as nat), rest as nat));
        written
    } else {
        zero_fill(decimal_of(value as u128), width)
    }
}

// --- Reading numbers ---------------------------------------------------------------------------

/// Why a text is not a number.
#[derive(Clone, Copy, Debug, PartialEq, Eq, Structural)]
pub enum NumberFault {
    /// There was nothing to read.
    Empty,
    /// A character that is not a digit.
    InvalidDigit,
    /// More than the type can hold.
    TooLarge,
}

impl NumberFault {
    /// The fault in words.
    pub open spec fn words(self) -> Seq<char> {
        match self {
            NumberFault::Empty => "cannot parse integer from empty string"@,
            NumberFault::InvalidDigit => "invalid digit found in string"@,
            NumberFault::TooLarge => "number too large to fit in target type"@,
        }
    }

    /// The fault in words.
    pub fn to_text(&self) -> (text: &'static str)
        ensures
            text@ == self.words(),
    {
        match self {
            NumberFault::Empty => "cannot parse integer from empty string",
            NumberFault::InvalidDigit => "invalid digit found in string",
            NumberFault::TooLarge => "number too large to fit in target type",
        }
    }
}

/// Whether a character is one of the ten digits.
pub open spec fn is_digit(character: char) -> bool {
    '0' <= character <= '9'
}

/// What a digit counts for.
pub open spec fn digit_value(character: char) -> nat {
    (character as u32 - '0' as u32) as nat
}

/// Digits read from the left, up to `most`: the number, or the first thing that is wrong.
pub open spec fn scanned(digits: Seq<char>, most: nat) -> Result<nat, NumberFault>
    decreases digits.len(),
{
    if digits.len() == 0 {
        Ok(0)
    } else {
        match scanned(digits.drop_last(), most) {
            Err(fault) => Err(fault),
            Ok(so_far) => if !is_digit(digits.last()) {
                Err(NumberFault::InvalidDigit)
            } else if so_far * 10 + digit_value(digits.last()) > most {
                Err(NumberFault::TooLarge)
            } else {
                Ok(so_far * 10 + digit_value(digits.last()))
            },
        }
    }
}

/// A natural number up to `most`, with at most one plus sign in front.
pub open spec fn natural(text: Seq<char>, most: nat) -> Result<nat, NumberFault> {
    if text.len() == 0 {
        Err(NumberFault::Empty)
    } else if text.len() == 1 && (text[0] == '+' || text[0] == '-') {
        Err(NumberFault::InvalidDigit)
    } else if text[0] == '+' {
        scanned(text.skip(1), most)
    } else {
        scanned(text, most)
    }
}

/// An integer of 64 bits, with at most one sign in front.
pub open spec fn integer(text: Seq<char>) -> Option<int> {
    if text.len() == 0 || (text.len() == 1 && (text[0] == '+' || text[0] == '-')) {
        None
    } else if text[0] == '-' {
        match scanned(text.skip(1), 0x8000_0000_0000_0000) {
            Ok(size) => Some(-(size as int)),
            Err(_) => None,
        }
    } else if text[0] == '+' {
        match scanned(text.skip(1), 0x7fff_ffff_ffff_ffff) {
            Ok(size) => Some(size as int),
            Err(_) => None,
        }
    } else {
        match scanned(text, 0x7fff_ffff_ffff_ffff) {
            Ok(size) => Some(size as int),
            Err(_) => None,
        }
    }
}

/// A fault found in a prefix is the fault of the whole.
proof fn lemma_scan_stops(digits: Seq<char>, most: nat, upto: int)
    requires
        0 <= upto <= digits.len(),
        scanned(digits.take(upto), most) is Err,
    ensures
        scanned(digits, most) == scanned(digits.take(upto), most),
    decreases digits.len() - upto,
{
    if upto == digits.len() {
        assert(digits.take(upto) =~= digits);
    } else {
        assert(digits.take(upto + 1).drop_last() =~= digits.take(upto));
        lemma_scan_stops(digits, most, upto + 1);
    }
}

fn scan(characters: &Vec<char>, from: usize, most: u64) -> (value: Result<u64, NumberFault>)
    requires
        from <= characters@.len(),
    ensures
        match value {
            Ok(number) => scanned(characters@.skip(from as int), most as nat) == Ok::<
                nat,
                NumberFault,
            >(number as nat),
            Err(fault) => scanned(characters@.skip(from as int), most as nat) == Err::<
                nat,
                NumberFault,
            >(fault),
        },
{
    let ghost digits = characters@.skip(from as int);
    let mut total: u64 = 0;
    let mut at: usize = from;
    while at < characters.len()
        invariant
            from <= at <= characters@.len(),
            digits == characters@.skip(from as int),
            total <= most,
            scanned(digits.take(at - from), most as nat) == Ok::<nat, NumberFault>(total as nat),
        decreases characters@.len() - at,
    {
        let character: char = characters[at];
        let ghost next = digits.take(at - from + 1);
        assert(next.drop_last() =~= digits.take(at - from));
        assert(next.last() == character);
        if !(character >= '0' && character <= '9') {
            proof {
                lemma_scan_stops(digits, most as nat, at - from + 1);
            }
            return Err(NumberFault::InvalidDigit);
        }
        let step: u64 = (character as u32 - '0' as u32) as u64;
        if total > most / 10 || (total == most / 10 && step > most % 10) {
            proof {
                lemma_scan_stops(digits, most as nat, at - from + 1);
            }
            return Err(NumberFault::TooLarge);
        }
        total = total * 10 + step;
        at += 1;
    }
    assert(digits.take(at - from) =~= digits);
    Ok(total)
}

/// Reads a natural number that fits in 64 bits.
pub fn parse_u64(characters: &Vec<char>) -> (value: Result<u64, NumberFault>)
    ensures
        match value {
            Ok(number) => natural(characters@, u64::MAX as nat) == Ok::<nat, NumberFault>(
                number as nat,
            ),
            Err(fault) => natural(characters@, u64::MAX as nat) == Err::<nat, NumberFault>(fault),
        },
{
    parse_up_to(characters, u64::MAX)
}

/// Reads a natural number no larger than `most`.
pub fn parse_up_to(characters: &Vec<char>, most: u64) -> (value: Result<u64, NumberFault>)
    ensures
        match value {
            Ok(number) => number <= most && natural(characters@, most as nat) == Ok::<
                nat,
                NumberFault,
            >(number as nat),
            Err(fault) => natural(characters@, most as nat) == Err::<nat, NumberFault>(fault),
        },
{
    if characters.len() == 0 {
        return Err(NumberFault::Empty);
    }
    if characters.len() == 1 && (characters[0] == '+' || characters[0] == '-') {
        return Err(NumberFault::InvalidDigit);
    }
    proof {
        lemma_scanned_bound(characters@.skip(1), most as nat);
        lemma_scanned_bound(characters@.skip(0), most as nat);
        assert(characters@.skip(0) =~= characters@);
    }
    if characters[0] == '+' {
        scan(characters, 1, most)
    } else {
        scan(characters, 0, most)
    }
}

proof fn lemma_scanned_bound(digits: Seq<char>, most: nat)
    ensures
        scanned(digits, most) matches Ok(value) ==> value <= most,
{
}

/// Reads an integer that fits in 64 bits.
pub fn parse_i64(characters: &Vec<char>) -> (value: Option<i64>)
    ensures
        match value {
            Some(number) => integer(characters@) == Some(number as int),
            None => integer(characters@) is None,
        },
{
    if characters.len() == 0 {
        return None;
    }
    if characters.len() == 1 && (characters[0] == '+' || characters[0] == '-') {
        return None;
    }
    proof {
        lemma_scanned_bound(characters@.skip(1), 0x8000_0000_0000_0000);
        lemma_scanned_bound(characters@.skip(1), 0x7fff_ffff_ffff_ffff);
        lemma_scanned_bound(characters@, 0x7fff_ffff_ffff_ffff);
        assert(characters@.skip(0) =~= characters@);
    }
    if characters[0] == '-' {
        match scan(characters, 1, 0x8000_0000_0000_0000) {
            Ok(size) => Some((-(size as i128)) as i64),
            Err(_) => None,
        }
    } else if characters[0] == '+' {
        match scan(characters, 1, 0x7fff_ffff_ffff_ffff) {
            Ok(size) => Some(size as i64),
            Err(_) => None,
        }
    } else {
        match scan(characters, 0, 0x7fff_ffff_ffff_ffff) {
            Ok(size) => Some(size as i64),
            Err(_) => None,
        }
    }
}

/// Every character of a decimal is a digit, and there is at least one.
pub proof fn lemma_decimal_is_digits(value: nat)
    ensures
        decimal(value).len() > 0,
        forall|i: int| 0 <= i < decimal(value).len() ==> is_digit(#[trigger] decimal(value)[i]),
    decreases value,
{
    if value >= 10 {
        lemma_decimal_is_digits(value / 10);
    }
}

/// A number that is more than nought does not begin with a nought.
pub proof fn lemma_first_digit(value: nat)
    requires
        value > 0,
    ensures
        decimal(value)[0] != '0',
    decreases value,
{
    if value >= 10 {
        lemma_first_digit(value / 10);
        lemma_decimal_is_digits(value / 10);
    }
}

/// Filling with zeros keeps digits digits.
pub proof fn lemma_zero_filled_is_digits(value: nat, width: nat)
    ensures
        zero_filled(decimal(value), width).len() > 0,
        forall|i: int|
            0 <= i < zero_filled(decimal(value), width).len() ==> is_digit(
                #[trigger] zero_filled(decimal(value), width)[i],
            ),
{
    lemma_decimal_is_digits(value);
}

proof fn lemma_scanned_zeros(count: nat, most: nat)
    ensures
        scanned(Seq::new(count, |i: int| '0'), most) == Ok::<nat, NumberFault>(0),
    decreases count,
{
    let zeros = Seq::new(count, |i: int| '0');
    if count > 0 {
        lemma_scanned_zeros((count - 1) as nat, most);
        assert(zeros.drop_last() =~= Seq::new((count - 1) as nat, |i: int| '0'));
    }
}

proof fn lemma_scanned_behind_zeros(count: nat, value: nat, most: nat)
    requires
        value <= most,
    ensures
        scanned(Seq::new(count, |i: int| '0') + decimal(value), most) == Ok::<nat, NumberFault>(
            value,
        ),
    decreases value,
{
    let zeros = Seq::new(count, |i: int| '0');
    let all = zeros + decimal(value);
    lemma_decimal_is_digits(value);
    if value < 10 {
        lemma_scanned_zeros(count, most);
        assert(all.drop_last() =~= zeros);
    } else {
        lemma_scanned_behind_zeros(count, value / 10, most);
        assert(all.drop_last() =~= zeros + decimal(value / 10));
    }
}

/// A natural number that was written, with or without zeros in front, reads as itself.
pub proof fn law_numbers_read_as_written(value: nat, width: nat, most: nat)
    requires
        value <= most,
    ensures
        natural(zero_filled(decimal(value), width), most) == Ok::<nat, NumberFault>(value),
        most == 0x7fff_ffff_ffff_ffff ==> integer(zero_filled(decimal(value), width)) == Some(
            value as int,
        ),
{
    let text = zero_filled(decimal(value), width);
    lemma_zero_filled_is_digits(value, width);
    assert(is_digit(text[0]));
    if decimal(value).len() >= width {
        lemma_scanned_behind_zeros(0, value, most);
        assert(Seq::new(0, |i: int| '0') + decimal(value) =~= decimal(value));
    } else {
        lemma_scanned_behind_zeros((width - decimal(value).len()) as nat, value, most);
    }
}

// --- Cutting text up ---------------------------------------------------------------------------

/// Whether a character is white space, by Unicode's list of such characters.
pub open spec fn is_white(character: char) -> bool {
    let code = character as u32;
    ||| 9 <= code <= 13
    ||| code == 32
    ||| code == 0x85
    ||| code == 0xa0
    ||| code == 0x1680
    ||| 0x2000 <= code <= 0x200a
    ||| code == 0x2028
    ||| code == 0x2029
    ||| code == 0x202f
    ||| code == 0x205f
    ||| code == 0x3000
}

/// Whether a character is white space.
pub fn white(character: char) -> (found: bool)
    ensures
        found == is_white(character),
{
    let code: u32 = character as u32;
    (9 <= code && code <= 13) || code == 32 || code == 0x85 || code == 0xa0 || code == 0x1680 || (
    0x2000 <= code && code <= 0x200a) || code == 0x2028 || code == 0x2029 || code == 0x202f || code
        == 0x205f || code == 0x3000
}

/// The text without the white space in front of it.
pub open spec fn without_leading_white(text: Seq<char>) -> Seq<char>
    decreases text.len(),
{
    if text.len() > 0 && is_white(text.first()) {
        without_leading_white(text.drop_first())
    } else {
        text
    }
}

/// The text without the white space behind it.
pub open spec fn without_trailing_white(text: Seq<char>) -> Seq<char>
    decreases text.len(),
{
    if text.len() > 0 && is_white(text.last()) {
        without_trailing_white(text.drop_last())
    } else {
        text
    }
}

/// The text without the white space around it.
pub open spec fn trimmed(text: Seq<char>) -> Seq<char> {
    without_trailing_white(without_leading_white(text))
}

/// The characters without the white space around them.
pub fn trim(characters: &Vec<char>) -> (found: Vec<char>)
    ensures
        found@ == trimmed(characters@),
{
    let mut from: usize = 0;
    assert(characters@.skip(0) =~= characters@);
    while from < characters.len() && white(characters[from])
        invariant
            from <= characters@.len(),
            without_leading_white(characters@) == without_leading_white(
                characters@.skip(from as int),
            ),
        decreases characters@.len() - from,
    {
        assert(characters@.skip(from as int).drop_first() =~= characters@.skip(from + 1));
        from += 1;
    }
    let ghost rest = characters@.skip(from as int);
    assert(without_leading_white(characters@) == rest);
    let mut to: usize = characters.len();
    assert(rest =~= rest.take(to - from));
    while to > from && white(characters[to - 1])
        invariant
            from <= to <= characters@.len(),
            rest == characters@.skip(from as int),
            without_trailing_white(rest) == without_trailing_white(rest.take(to - from)),
        decreases to,
    {
        assert(rest.take(to - from).drop_last() =~= rest.take(to - from - 1));
        assert(rest.take(to - from).last() == characters@[to - 1]);
        to -= 1;
    }
    assert(to > from ==> rest.take(to - from).last() == characters@[to - 1]);
    assert(characters@.subrange(from as int, to as int) =~= rest.take(to - from));
    part(characters, from, to)
}

/// A text without the white space around it.
pub fn trim_text(text: &str) -> (found: String)
    ensures
        found@ == trimmed(text@),
{
    text_of(&trim(&characters(text)))
}

/// Where a character first stands in a text, and the text's length where it does not stand in it.
pub open spec fn first_at(text: Seq<char>, wanted: char) -> int
    decreases text.len(),
{
    if text.len() == 0 {
        0
    } else if text.first() == wanted {
        0
    } else {
        1 + first_at(text.drop_first(), wanted)
    }
}

/// `first_at` is the one position before which the character does not stand, and at which it stands
/// unless the text ends there.
pub proof fn lemma_first_at(text: Seq<char>, wanted: char, at: int)
    requires
        0 <= at <= text.len(),
        forall|i: int| 0 <= i < at ==> text[i] != wanted,
        at < text.len() ==> text[at] == wanted,
    ensures
        first_at(text, wanted) == at,
    decreases text.len(),
{
    if text.len() > 0 && text.first() != wanted {
        assert forall|i: int| 0 <= i < at - 1 implies text.drop_first()[i] != wanted by {
            assert(text.drop_first()[i] == text[i + 1]);
        }
        lemma_first_at(text.drop_first(), wanted, at - 1);
    }
}

/// Where a character first stands, and the length where it does not.
pub fn find(characters: &Vec<char>, wanted: char) -> (at: usize)
    ensures
        at == first_at(characters@, wanted),
        at <= characters@.len(),
        forall|i: int| 0 <= i < at ==> characters@[i] != wanted,
        at < characters@.len() ==> characters@[at as int] == wanted,
{
    let mut at: usize = 0;
    while at < characters.len() && characters[at] != wanted
        invariant
            at <= characters@.len(),
            forall|i: int| 0 <= i < at ==> characters@[i] != wanted,
        decreases characters@.len() - at,
    {
        at += 1;
    }
    proof {
        lemma_first_at(characters@, wanted, at as int);
    }
    at
}

/// The views of several character vectors.
pub open spec fn views(parts: Seq<Vec<char>>) -> Seq<Seq<char>> {
    parts.map_values(|part: Vec<char>| part@)
}

/// The views of several strings.
pub open spec fn texts(parts: Seq<String>) -> Seq<Seq<char>> {
    parts.map_values(|part: String| part@)
}

/// A text cut at every `separator`: always at least one piece, and pieces may be empty.
pub open spec fn pieces(text: Seq<char>, separator: char) -> Seq<Seq<char>>
    decreases text.len(),
{
    if text.len() == 0 {
        seq![Seq::<char>::empty()]
    } else {
        let before = pieces(text.drop_last(), separator);
        if text.last() == separator {
            before.push(Seq::empty())
        } else {
            before.drop_last().push(before.last().push(text.last()))
        }
    }
}

pub proof fn lemma_pieces_some(text: Seq<char>, separator: char)
    ensures
        pieces(text, separator).len() >= 1,
    decreases text.len(),
{
    if text.len() > 0 {
        lemma_pieces_some(text.drop_last(), separator);
    }
}

/// A text without the separator is one piece.
pub proof fn lemma_one_piece(text: Seq<char>, separator: char)
    requires
        forall|i: int| 0 <= i < text.len() ==> text[i] != separator,
    ensures
        pieces(text, separator) == seq![text],
    decreases text.len(),
{
    if text.len() > 0 {
        lemma_one_piece(text.drop_last(), separator);
        assert(pieces(text, separator) =~= seq![text.drop_last().push(text.last())]);
        assert(text.drop_last().push(text.last()) =~= text);
    } else {
        assert(text =~= Seq::<char>::empty());
    }
}

/// A text without the separator, put behind one, is one more piece.
pub proof fn lemma_one_more_piece(text: Seq<char>, separator: char, last: Seq<char>)
    requires
        forall|i: int| 0 <= i < last.len() ==> last[i] != separator,
    ensures
        pieces(text.push(separator) + last, separator) == pieces(text, separator).push(last),
    decreases last.len(),
{
    let whole = text.push(separator) + last;
    if last.len() == 0 {
        assert(whole =~= text.push(separator));
        assert(whole.drop_last() =~= text);
        assert(last =~= Seq::<char>::empty());
    } else {
        lemma_one_more_piece(text, separator, last.drop_last());
        assert(whole.drop_last() =~= text.push(separator) + last.drop_last());
        assert(last.drop_last().push(last.last()) =~= last);
        assert(pieces(whole, separator) =~= pieces(text, separator).push(last));
    }
}

/// Cuts a text at every `separator`.
pub fn split(characters: &Vec<char>, separator: char) -> (parts: Vec<Vec<char>>)
    ensures
        views(parts@) == pieces(characters@, separator),
        parts@.len() >= 1,
{
    let mut done: Vec<Vec<char>> = Vec::new();
    let mut current: Vec<char> = Vec::new();
    let mut at: usize = 0;
    assert(characters@.take(0) =~= Seq::<char>::empty());
    assert(views(done@).push(current@) =~= pieces(characters@.take(0), separator));
    while at < characters.len()
        invariant
            at <= characters@.len(),
            views(done@).push(current@) == pieces(characters@.take(at as int), separator),
        decreases characters@.len() - at,
    {
        let character: char = characters[at];
        let ghost before = pieces(characters@.take(at as int), separator);
        assert(characters@.take(at + 1).drop_last() =~= characters@.take(at as int));
        assert(before.drop_last() =~= views(done@));
        assert(before.last() == current@);
        if character == separator {
            done.push(current);
            current = Vec::new();
            assert(views(done@) =~= before);
        } else {
            current.push(character);
        }
        at += 1;
    }
    assert(characters@.take(at as int) =~= characters@);
    let ghost all = views(done@).push(current@);
    done.push(current);
    assert(views(done@) =~= all);
    done
}

/// The words of a text and the word it breaks off in.
pub open spec fn words_so_far(text: Seq<char>) -> (Seq<Seq<char>>, Seq<char>)
    decreases text.len(),
{
    if text.len() == 0 {
        (Seq::empty(), Seq::empty())
    } else {
        let (done, current) = words_so_far(text.drop_last());
        if !is_white(text.last()) {
            (done, current.push(text.last()))
        } else if current.len() > 0 {
            (done.push(current), Seq::empty())
        } else {
            (done, current)
        }
    }
}

/// The words of a text: what stands between its runs of white space, none of them empty.
pub open spec fn words(text: Seq<char>) -> Seq<Seq<char>> {
    let (done, current) = words_so_far(text);
    if current.len() > 0 {
        done.push(current)
    } else {
        done
    }
}

/// No word of a text is empty.
pub proof fn lemma_words_are_not_empty(text: Seq<char>)
    ensures
        forall|i: int| 0 <= i < words(text).len() ==> (#[trigger] words(text)[i]).len() > 0,
{
    lemma_words_so_far_are_not_empty(text);
}

proof fn lemma_words_so_far_are_not_empty(text: Seq<char>)
    ensures
        forall|i: int|
            0 <= i < words_so_far(text).0.len() ==> (#[trigger] words_so_far(text).0[i]).len() > 0,
    decreases text.len(),
{
    if text.len() > 0 {
        lemma_words_so_far_are_not_empty(text.drop_last());
        let before = words_so_far(text.drop_last());
        let after = words_so_far(text);
        assert forall|i: int| 0 <= i < after.0.len() implies (#[trigger] after.0[i]).len() > 0 by {
            if i < before.0.len() {
                assert(after.0[i] == before.0[i]);
            }
        }
    }
}

/// Cuts a text into its words.
pub fn split_words(characters: &Vec<char>) -> (found: Vec<Vec<char>>)
    ensures
        views(found@) == words(characters@),
        forall|i: int| 0 <= i < found@.len() ==> #[trigger] found@[i]@.len() > 0,
{
    let mut done: Vec<Vec<char>> = Vec::new();
    let mut current: Vec<char> = Vec::new();
    let mut at: usize = 0;
    assert(characters@.take(0) =~= Seq::<char>::empty());
    assert(views(done@) =~= Seq::<Seq<char>>::empty());
    while at < characters.len()
        invariant
            at <= characters@.len(),
            (views(done@), current@) == words_so_far(characters@.take(at as int)),
            forall|i: int| 0 <= i < done@.len() ==> #[trigger] done@[i]@.len() > 0,
        decreases characters@.len() - at,
    {
        let character: char = characters[at];
        let ghost before = views(done@);
        assert(characters@.take(at + 1).drop_last() =~= characters@.take(at as int));
        if !white(character) {
            current.push(character);
        } else if current.len() > 0 {
            let ghost word = current@;
            done.push(current);
            current = Vec::new();
            assert(views(done@) =~= before.push(word));
        }
        at += 1;
    }
    assert(characters@.take(at as int) =~= characters@);
    if current.len() > 0 {
        let ghost before = views(done@);
        let ghost word = current@;
        done.push(current);
        assert(views(done@) =~= before.push(word));
    }
    done
}

/// One line without what ends it: the line feed that follows is gone already, and a carriage return
/// before it goes too.
pub open spec fn without_return(line: Seq<char>) -> Seq<char> {
    if line.len() > 0 && line.last() == '\r' {
        line.drop_last()
    } else {
        line
    }
}

/// The lines of a text. A line feed ends a line, with the carriage return before it if there is
/// one; an empty rest behind the last line feed is no line.
pub open spec fn line_list(text: Seq<char>) -> Seq<Seq<char>> {
    let parts = pieces(text, '\n');
    let ended = parts.drop_last().map_values(|line: Seq<char>| without_return(line));
    if parts.last().len() > 0 {
        ended.push(parts.last())
    } else {
        ended
    }
}

/// Cuts a text into its lines.
pub fn lines(characters: &Vec<char>) -> (found: Vec<Vec<char>>)
    ensures
        views(found@) == line_list(characters@),
{
    let parts: Vec<Vec<char>> = split(characters, '\n');
    let ghost all = pieces(characters@, '\n');
    let mut found: Vec<Vec<char>> = Vec::new();
    let mut at: usize = 0;
    while at < parts.len() - 1
        invariant
            views(parts@) == all,
            parts@.len() >= 1,
            at + 1 <= parts@.len(),
            views(found@) == all.take(at as int).map_values(|line: Seq<char>| without_return(line)),
        decreases parts@.len() - at,
    {
        let line: &Vec<char> = &parts[at];
        assert(line@ == all[at as int]);
        let ghost before = views(found@);
        let keep: usize = if line.len() > 0 && line[line.len() - 1] == '\r' {
            line.len() - 1
        } else {
            line.len()
        };
        assert(line@.subrange(0, keep as int) =~= without_return(all[at as int]));
        found.push(part(line, 0, keep));
        assert(views(found@) =~= before.push(without_return(all[at as int])));
        assert(all.take(at + 1).map_values(|line: Seq<char>| without_return(line)) =~= all.take(
            at as int,
        ).map_values(|line: Seq<char>| without_return(line)).push(
            without_return(all[at as int]),
        ));
        at += 1;
    }
    let ghost ended = views(found@);
    assert(all.take(at as int) =~= all.drop_last());
    let last: &Vec<char> = &parts[at];
    assert(last@ == all.last());
    if last.len() > 0 {
        found.push(part(last, 0, last.len()));
        assert(last@.subrange(0, last@.len() as int) =~= last@);
        assert(views(found@) =~= ended.push(all.last()));
    }
    found
}

// --- Comparing text ----------------------------------------------------------------------------

/// Whether `inner` stands in `text` at a position.
pub open spec fn stands_at(text: Seq<char>, inner: Seq<char>, at: int) -> bool {
    &&& 0 <= at
    &&& at + inner.len() <= text.len()
    &&& text.subrange(at, at + inner.len()) == inner
}

/// Whether `inner` stands anywhere in `text`.
pub open spec fn contains_text(text: Seq<char>, inner: Seq<char>) -> bool {
    exists|at: int| #[trigger] stands_at(text, inner, at)
}

/// Whether `text` begins with `start`.
pub open spec fn begins_with(text: Seq<char>, start: Seq<char>) -> bool {
    stands_at(text, start, 0)
}

/// Whether `text` ends with `end`.
pub open spec fn ends_in(text: Seq<char>, end: Seq<char>) -> bool {
    stands_at(text, end, text.len() - end.len())
}

fn standing_at(text: &Vec<char>, inner: &Vec<char>, at: usize) -> (found: bool)
    requires
        at + inner@.len() <= text@.len(),
    ensures
        found == stands_at(text@, inner@, at as int),
{
    let mut i: usize = 0;
    while i < inner.len()
        invariant
            i <= inner@.len(),
            at + inner@.len() <= text.len(),
            forall|j: int| 0 <= j < i ==> text@[at + j] == inner@[j],
        decreases inner@.len() - i,
    {
        if text[at + i] != inner[i] {
            assert(text@.subrange(at as int, at + inner@.len())[i as int] != inner@[i as int]);
            return false;
        }
        i += 1;
    }
    assert(text@.subrange(at as int, at + inner@.len()) =~= inner@);
    true
}

/// Whether `inner` stands anywhere in `text`.
pub fn contains(text: &Vec<char>, inner: &Vec<char>) -> (found: bool)
    ensures
        found == contains_text(text@, inner@),
{
    if inner.len() > text.len() {
        return false;
    }
    let mut at: usize = 0;
    while at <= text.len() - inner.len()
        invariant
            inner@.len() <= text@.len(),
            at <= text@.len() - inner@.len() + 1,
            forall|i: int| 0 <= i < at ==> !#[trigger] stands_at(text@, inner@, i),
        decreases text@.len() + 1 - at,
    {
        if standing_at(text, inner, at) {
            return true;
        }
        if at == text.len() - inner.len() {
            return false;
        }
        at += 1;
    }
    false
}

/// Where `inner` first stands in `text`, from a position on.
pub open spec fn first_stand(text: Seq<char>, inner: Seq<char>, from: int) -> Option<int>
    decreases text.len() - inner.len() + 1 - from,
{
    if from + inner.len() > text.len() {
        None
    } else if stands_at(text, inner, from) {
        Some(from)
    } else {
        first_stand(text, inner, from + 1)
    }
}

/// Where `inner` first stands in `text`.
pub fn find_text(text: &Vec<char>, inner: &Vec<char>) -> (at: Option<usize>)
    ensures
        match at {
            Some(found) => first_stand(text@, inner@, 0) == Some(found as int) && found + inner@.len()
                <= text@.len(),
            None => first_stand(text@, inner@, 0) is None,
        },
{
    let mut at: usize = 0;
    while at <= text.len() && inner.len() <= text.len() - at
        invariant
            at <= text@.len() + 1,
            first_stand(text@, inner@, 0) == first_stand(text@, inner@, at as int),
        decreases text@.len() + 1 - at,
    {
        if standing_at(text, inner, at) {
            return Some(at);
        }
        if at == text.len() {
            assert(first_stand(text@, inner@, at + 1) is None);
            return None;
        }
        at += 1;
    }
    None
}

/// Whether `text` begins with `start`.
pub fn starts_with(text: &Vec<char>, start: &Vec<char>) -> (found: bool)
    ensures
        found == begins_with(text@, start@),
{
    start.len() <= text.len() && standing_at(text, start, 0)
}

/// Whether `text` ends with `end`.
pub fn ends_with(text: &Vec<char>, end: &Vec<char>) -> (found: bool)
    ensures
        found == ends_in(text@, end@),
{
    end.len() <= text.len() && standing_at(text, end, text.len() - end.len())
}

/// A character with an ASCII capital made small.
pub open spec fn small(character: char) -> char {
    if 'A' <= character <= 'Z' {
        (character as u32 + 32) as char
    } else {
        character
    }
}

fn small_of(character: char) -> (made: char)
    ensures
        made == small(character),
{
    if 'A' <= character && character <= 'Z' {
        ((character as u8) + 32) as char
    } else {
        character
    }
}

/// A text with its ASCII capitals made small.
pub open spec fn folded(text: Seq<char>) -> Seq<char> {
    text.map_values(|character: char| small(character))
}

/// Whether two texts are the same but for the case of their ASCII letters.
pub open spec fn same_but_case(left: Seq<char>, right: Seq<char>) -> bool {
    folded(left) == folded(right)
}

/// Whether two texts are the same but for the case of their ASCII letters.
pub fn same_ignoring_case(left: &str, right: &str) -> (equal: bool)
    ensures
        equal == same_but_case(left@, right@),
{
    let ones: Vec<char> = characters(left);
    let others: Vec<char> = characters(right);
    if ones.len() != others.len() {
        assert(folded(ones@).len() != folded(others@).len());
        return false;
    }
    let mut at: usize = 0;
    while at < ones.len()
        invariant
            at <= ones@.len(),
            ones@ == left@,
            others@ == right@,
            ones@.len() == others@.len(),
            forall|i: int| 0 <= i < at ==> small(ones@[i]) == small(others@[i]),
        decreases ones@.len() - at,
    {
        if small_of(ones[at]) != small_of(others[at]) {
            assert(folded(ones@)[at as int] != folded(others@)[at as int]);
            return false;
        }
        at += 1;
    }
    assert(folded(ones@) =~= folded(others@));
    true
}

/// Whether one text comes before another: at the first place where they differ it has the smaller
/// character, or it ends there.
pub open spec fn comes_before(left: Seq<char>, right: Seq<char>) -> bool
    decreases left.len(),
{
    if right.len() == 0 {
        false
    } else if left.len() == 0 {
        true
    } else if left.first() != right.first() {
        left.first() < right.first()
    } else {
        comes_before(left.drop_first(), right.drop_first())
    }
}

/// Of two different texts, one comes before the other, and never both.
pub proof fn lemma_text_order_total(left: Seq<char>, right: Seq<char>)
    ensures
        left == right || comes_before(left, right) || comes_before(right, left),
        !(comes_before(left, right) && comes_before(right, left)),
        left == right ==> !comes_before(left, right),
    decreases left.len(),
{
    if left.len() > 0 && right.len() > 0 {
        lemma_text_order_total(left.drop_first(), right.drop_first());
        if left.first() == right.first() && left.drop_first() == right.drop_first() {
            assert(left =~= seq![left.first()] + left.drop_first());
            assert(right =~= seq![right.first()] + right.drop_first());
        }
    } else if left.len() == 0 && right.len() == 0 {
        assert(left =~= right);
    }
}

/// A text that comes before a second one that comes before a third comes before the third.
pub proof fn lemma_text_order_transitive(first: Seq<char>, second: Seq<char>, third: Seq<char>)
    requires
        comes_before(first, second),
        comes_before(second, third),
    ensures
        comes_before(first, third),
    decreases first.len(),
{
    if first.len() > 0 && first.first() == second.first() && second.first() == third.first() {
        lemma_text_order_transitive(first.drop_first(), second.drop_first(), third.drop_first());
    }
}

/// Whether one text comes before another.
pub fn before(left: &str, right: &str) -> (found: bool)
    ensures
        found == comes_before(left@, right@),
{
    let left: Vec<char> = characters(left);
    let right: Vec<char> = characters(right);
    let mut at: usize = 0;
    assert(left@.skip(0) =~= left@);
    assert(right@.skip(0) =~= right@);
    while at < left.len() && at < right.len() && left[at] == right[at]
        invariant
            at <= left@.len(),
            at <= right@.len(),
            comes_before(left@, right@) == comes_before(
                left@.skip(at as int),
                right@.skip(at as int),
            ),
        decreases left@.len() - at,
    {
        assert(left@.skip(at as int).drop_first() =~= left@.skip(at + 1));
        assert(right@.skip(at as int).drop_first() =~= right@.skip(at + 1));
        at += 1;
    }
    if at >= right.len() {
        false
    } else if at >= left.len() {
        true
    } else {
        left[at] < right[at]
    }
}

// --- Putting text together ---------------------------------------------------------------------

/// Texts one behind the other, with `between` where two meet.
pub open spec fn joined(parts: Seq<Seq<char>>, between: Seq<char>) -> Seq<char>
    decreases parts.len(),
{
    if parts.len() == 0 {
        Seq::empty()
    } else if parts.len() == 1 {
        parts[0]
    } else {
        joined(parts.drop_last(), between) + between + parts.last()
    }
}

/// Puts texts one behind the other, with `between` where two meet.
pub fn join(parts: &Vec<String>, between: &str) -> (text: String)
    ensures
        text@ == joined(texts(parts@), between@),
{
    let ghost all = texts(parts@);
    let mut text: String = String::new();
    let mut at: usize = 0;
    assert(all.take(0) =~= Seq::<Seq<char>>::empty());
    while at < parts.len()
        invariant
            at <= parts@.len(),
            all == texts(parts@),
            text@ == joined(all.take(at as int), between@),
        decreases parts@.len() - at,
    {
        assert(all.take(at + 1).drop_last() =~= all.take(at as int));
        if at > 0 {
            text.append(between);
        }
        let ghost so_far = text@;
        text.append(parts[at].as_str());
        proof {
            if at == 0 {
                assert(text@ =~= all[0]);
                assert(all.take(1).len() == 1);
            }
        }
        at += 1;
    }
    assert(all.take(at as int) =~= all);
    text
}

/// Whether a list of lines ends in these.
pub open spec fn ends_in_lines(all: Seq<Seq<char>>, last: Seq<Seq<char>>) -> bool {
    all.len() >= last.len() && all.skip(all.len() - last.len()) == last
}

/// Several texts once more.
pub fn copies(parts: &Vec<String>) -> (copies: Vec<String>)
    ensures
        copies@ == parts@,
{
    let mut copies: Vec<String> = Vec::new();
    let mut next: usize = 0;
    while next < parts.len()
        invariant
            next <= parts@.len(),
            copies@ == parts@.take(next as int),
        decreases parts@.len() - next,
    {
        copies.push(parts[next].clone());
        next += 1;
        assert(copies@ =~= parts@.take(next as int));
    }
    assert(copies@ =~= parts@);
    copies
}

/// A text repeated.
pub open spec fn repeated(character: char, times: nat) -> Seq<char> {
    Seq::new(times, |i: int| character)
}

/// One character, several times over.
pub fn repeat(character: char, times: usize) -> (text: String)
    ensures
        text@ == repeated(character, times as nat),
{
    let mut text: String = String::new();
    let mut placed: usize = 0;
    while placed < times
        invariant
            placed <= times,
            text@ == repeated(character, placed as nat),
        decreases times - placed,
    {
        text.push(character);
        placed += 1;
        assert(text@ =~= repeated(character, placed as nat));
    }
    text
}

/// A text with spaces behind it until it is `width` characters long.
pub open spec fn filled_right(text: Seq<char>, width: nat) -> Seq<char> {
    if text.len() >= width {
        text
    } else {
        text + repeated(' ', (width - text.len()) as nat)
    }
}

/// Puts spaces behind a text until it is `width` characters long.
pub fn pad_right(text: &str, width: usize) -> (filled: String)
    ensures
        filled@ == filled_right(text@, width as nat),
{
    let length: usize = text.unicode_len();
    if length >= width {
        text.to_owned()
    } else {
        text.to_owned().concat(repeat(' ', width - length).as_str())
    }
}

/// A text with spaces in front of it until it is `width` characters long.
pub open spec fn filled_left(text: Seq<char>, width: nat) -> Seq<char> {
    if text.len() >= width {
        text
    } else {
        repeated(' ', (width - text.len()) as nat) + text
    }
}

/// Puts spaces in front of a text until it is `width` characters long.
pub fn pad_left(text: &str, width: usize) -> (filled: String)
    ensures
        filled@ == filled_left(text@, width as nat),
{
    let length: usize = text.unicode_len();
    if length >= width {
        text.to_owned()
    } else {
        repeat(' ', width - length).concat(text)
    }
}

/// The path of something inside a directory.
pub open spec fn child(directory: Seq<char>, name: Seq<char>) -> Seq<char> {
    if directory.len() == 0 || directory.last() == '/' {
        directory + name
    } else {
        directory + "/"@ + name
    }
}

/// The path of something inside a directory: the directory's own path, one slash, and the name.
pub fn child_path(directory: &str, name: &str) -> (path: String)
    ensures
        path@ == child(directory@, name@),
{
    let length: usize = directory.unicode_len();
    if length == 0 || directory.get_char(length - 1) == '/' {
        String::from_str(directory).concat(name)
    } else {
        String::from_str(directory).concat("/").concat(name)
    }
}

/// What is said of bytes that are no text.
pub uninterp spec fn utf8_fault(bytes: Seq<u8>) -> Seq<char>;

/// `String::from_utf8`: the text that the bytes encode, where they are valid UTF-8, and otherwise what
/// its error prints, which depends on the bytes alone.
#[verifier::external_body]
pub(crate) fn decode(bytes: Vec<u8>) -> (text: Result<String, String>)
    ensures
        match text {
            Ok(found) => vstd::utf8::valid_utf8(bytes@) && found@ == vstd::utf8::decode_utf8(bytes@),
            Err(why) => !vstd::utf8::valid_utf8(bytes@) && why@ == utf8_fault(bytes@),
        },
{
    String::from_utf8(bytes).map_err(|error| error.to_string())
}

} // verus!
