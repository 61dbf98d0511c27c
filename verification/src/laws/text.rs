//! Characters: what cutting, trimming, finding and comparing come to.

use crate::text;
use crate::text::NumberFault;
use vstd::prelude::*;

verus! {

// --- White space -------------------------------------------------------------------------------

/// Of the characters that a terminal shows, only the space is white; tabs, line feeds and carriage
/// returns are too.
pub proof fn law_what_is_white(character: char)
    ensures
        33 <= character as u32 <= 126 ==> !text::is_white(character),
        text::is_white(' '),
        text::is_white('\t'),
        text::is_white('\n'),
        text::is_white('\r'),
{
}

/// Whether there is nothing but white space.
pub open spec fn is_blank(text: Seq<char>) -> bool {
    forall|i: int| 0 <= i < text.len() ==> text::is_white(#[trigger] text[i])
}

proof fn lemma_leading_white_goes(before: Seq<char>, rest: Seq<char>)
    requires
        is_blank(before),
        rest.len() > 0 ==> !text::is_white(rest.first()),
    ensures
        text::without_leading_white(before + rest) == rest,
    decreases before.len(),
{
    let whole = before + rest;
    if before.len() > 0 {
        assert(text::is_white(before[0]));
        assert(whole.drop_first() =~= before.drop_first() + rest);
        assert forall|i: int| 0 <= i < before.drop_first().len() implies text::is_white(
            #[trigger] before.drop_first()[i],
        ) by {
            assert(text::is_white(before[i + 1]));
        }
        lemma_leading_white_goes(before.drop_first(), rest);
    } else {
        assert(whole =~= rest);
    }
}

proof fn lemma_trailing_white_goes(rest: Seq<char>, after: Seq<char>)
    requires
        is_blank(after),
        rest.len() > 0 ==> !text::is_white(rest.last()),
    ensures
        text::without_trailing_white(rest + after) == rest,
    decreases after.len(),
{
    let whole = rest + after;
    if after.len() > 0 {
        assert(text::is_white(after[after.len() - 1]));
        assert(whole.drop_last() =~= rest + after.drop_last());
        assert forall|i: int| 0 <= i < after.drop_last().len() implies text::is_white(
            #[trigger] after.drop_last()[i],
        ) by {
            assert(text::is_white(after[i]));
        }
        lemma_trailing_white_goes(rest, after.drop_last());
    } else {
        assert(whole =~= rest);
    }
}

/// Trimming takes the white space around a text and nothing else: what is left is what stood between,
/// from its first character that is not white to its last.
pub proof fn law_trimming_takes_only_white_space(
    before: Seq<char>,
    inner: Seq<char>,
    after: Seq<char>,
)
    requires
        is_blank(before),
        is_blank(after),
        inner.len() > 0 ==> !text::is_white(inner.first()) && !text::is_white(inner.last()),
    ensures
        text::trimmed(before + inner + after) == inner,
{
    let whole = before + inner + after;
    if inner.len() == 0 {
        let blank = before + after;
        assert(whole =~= blank + inner);
        assert(is_blank(blank)) by {
            assert forall|i: int| 0 <= i < blank.len() implies text::is_white(
                #[trigger] blank[i],
            ) by {
                if i < before.len() {
                    assert(text::is_white(before[i]));
                } else {
                    assert(text::is_white(after[i - before.len()]));
                }
            }
        }
        lemma_leading_white_goes(blank, inner);
        assert(inner =~= Seq::<char>::empty());
    } else {
        assert(whole =~= before + (inner + after));
        assert((inner + after).first() == inner.first());
        lemma_leading_white_goes(before, inner + after);
        lemma_trailing_white_goes(inner, after);
    }
}

/// Nothing is left of a text by trimming exactly if there is no character in it but white space.
pub proof fn law_nothing_is_left_of_blanks_alone(text: Seq<char>)
    ensures
        text::trimmed(text).len() == 0 <==> is_blank(text),
    decreases text.len(),
{
    let empty = Seq::<char>::empty();
    if is_blank(text) {
        law_trimming_takes_only_white_space(text, empty, empty);
        assert(text + empty + empty =~= text);
    } else {
        lemma_something_is_left(text);
    }
}

proof fn lemma_something_is_left(text: Seq<char>)
    requires
        !is_blank(text),
    ensures
        text::trimmed(text).len() > 0,
{
    let from = lemma_first_that_is_not_white(text);
    let to = lemma_last_that_is_not_white(text);
    let before = text.take(from);
    let inner = text.subrange(from, to + 1);
    let after = text.skip(to + 1);
    assert(before + inner + after =~= text);
    assert(is_blank(before)) by {
        assert forall|i: int| 0 <= i < before.len() implies text::is_white(
            #[trigger] before[i],
        ) by {
            assert(text::is_white(text[i]));
        }
    }
    assert(is_blank(after)) by {
        assert forall|i: int| 0 <= i < after.len() implies text::is_white(#[trigger] after[i]) by {
            assert(text::is_white(text[to + 1 + i]));
        }
    }
    law_trimming_takes_only_white_space(before, inner, after);
}

proof fn lemma_first_that_is_not_white(text: Seq<char>) -> (at: int)
    requires
        !is_blank(text),
    ensures
        0 <= at < text.len(),
        !text::is_white(text[at]),
        forall|i: int| 0 <= i < at ==> text::is_white(#[trigger] text[i]),
    decreases text.len(),
{
    let last = text.len() - 1;
    let shorter = text.drop_last();
    if is_blank(shorter) {
        assert forall|i: int| 0 <= i < last implies text::is_white(#[trigger] text[i]) by {
            assert(text::is_white(shorter[i]));
        }
        last
    } else {
        let at = lemma_first_that_is_not_white(shorter);
        assert forall|i: int| 0 <= i < at implies text::is_white(#[trigger] text[i]) by {
            assert(text::is_white(shorter[i]));
        }
        at
    }
}

proof fn lemma_last_that_is_not_white(text: Seq<char>) -> (at: int)
    requires
        !is_blank(text),
    ensures
        0 <= at < text.len(),
        !text::is_white(text[at]),
        forall|i: int| at < i < text.len() ==> text::is_white(#[trigger] text[i]),
    decreases text.len(),
{
    let last = text.len() - 1;
    if text::is_white(text[last]) {
        let shorter = text.drop_last();
        assert(!is_blank(shorter)) by {
            let i = choose|i: int| 0 <= i < text.len() && !text::is_white(#[trigger] text[i]);
            assert(shorter[i] == text[i]);
        }
        let at = lemma_last_that_is_not_white(shorter);
        assert forall|i: int| at < i < text.len() implies text::is_white(#[trigger] text[i]) by {
            if i < last {
                assert(text::is_white(shorter[i]));
            }
        }
        at
    } else {
        last
    }
}

// --- Cutting -----------------------------------------------------------------------------------

/// Whether a text holds a character.
pub open spec fn holds(text: Seq<char>, character: char) -> bool {
    exists|i: int| 0 <= i < text.len() && #[trigger] text[i] == character
}

/// Cut at a separator, a text falls into pieces without one that make the text again when the separator
/// is put where two meet.
pub proof fn law_pieces_make_the_text_again(text: Seq<char>, separator: char)
    ensures
        text::pieces(text, separator).len() >= 1,
        forall|i: int|
            0 <= i < text::pieces(text, separator).len() ==> !holds(
                #[trigger] text::pieces(text, separator)[i],
                separator,
            ),
        text::joined(text::pieces(text, separator), seq![separator]) == text,
    decreases text.len(),
{
    let all = text::pieces(text, separator);
    let between = seq![separator];
    if text.len() == 0 {
        assert(all =~= seq![Seq::<char>::empty()]);
        assert(text::joined(all, between) == all[0]);
        assert(text =~= Seq::<char>::empty());
    } else {
        law_pieces_make_the_text_again(text.drop_last(), separator);
        let before = text::pieces(text.drop_last(), separator);
        assert(text =~= text.drop_last().push(text.last()));
        if text.last() == separator {
            assert(all.drop_last() =~= before);
            assert(text::joined(all, between) == text::joined(before, between) + between
                + Seq::<char>::empty());
            assert(text::joined(all, between) =~= text);
            assert forall|i: int| 0 <= i < all.len() implies !holds(
                #[trigger] all[i],
                separator,
            ) by {
                if i < before.len() {
                    assert(all[i] == before[i]);
                }
            }
        } else {
            let longer = before.last().push(text.last());
            assert(all =~= before.drop_last().push(longer));
            assert forall|i: int| 0 <= i < all.len() implies !holds(
                #[trigger] all[i],
                separator,
            ) by {
                if i < before.len() - 1 {
                    assert(all[i] == before[i]);
                } else if holds(longer, separator) {
                    let k = choose|k: int|
                        0 <= k < longer.len() && #[trigger] longer[k] == separator;
                    assert(before.last()[k] == separator);
                    assert(holds(before[before.len() - 1], separator));
                }
            }
            if all.len() == 1 {
                assert(text::joined(all, between) == longer);
                assert(text::joined(before, between) == before[0]);
                assert(longer =~= text);
            } else {
                assert(all.drop_last() =~= before.drop_last());
                assert(text::joined(all, between) == text::joined(before.drop_last(), between)
                    + between + longer);
                assert(text::joined(before, between) == text::joined(before.drop_last(), between)
                    + between + before.last());
                assert(text::joined(all, between) =~= text);
            }
        }
    }
}

/// Texts one behind the other are the first of them, what stands between two, and the rest.
pub proof fn law_joining_puts_something_between(
    first: Seq<char>,
    rest: Seq<Seq<char>>,
    between: Seq<char>,
)
    ensures
        text::joined(seq![first], between) == first,
        rest.len() > 0 ==> text::joined(seq![first] + rest, between) == first + between
            + text::joined(rest, between),
    decreases rest.len(),
{
    let all = seq![first] + rest;
    if rest.len() == 1 {
        assert(all.drop_last() =~= seq![first]);
        assert(text::joined(all, between) == text::joined(seq![first], between) + between
            + rest[0]);
        assert(text::joined(rest, between) == rest[0]);
    } else if rest.len() > 1 {
        law_joining_puts_something_between(first, rest.drop_last(), between);
        assert(all.drop_last() =~= seq![first] + rest.drop_last());
        assert(all.last() == rest.last());
        assert(text::joined(all, between) =~= first + between + text::joined(rest, between));
    }
}

/// The words of a text are those before a white character and those behind it; a text that is not empty
/// and has no white character in it is one word.
pub proof fn law_words_are_parted_by_white_space(before: Seq<char>, after: Seq<char>, white: char)
    ensures
        text::words(Seq::<char>::empty()).len() == 0,
        text::is_white(white) ==> text::words(before.push(white) + after) == text::words(before)
            + text::words(after),
        before.len() > 0 && (forall|i: int|
            0 <= i < before.len() ==> !text::is_white(#[trigger] before[i])) ==> text::words(before)
            == seq![before],
{
    if text::is_white(white) {
        lemma_words_go_on(before, after, white);
    }
    if before.len() > 0 && (forall|i: int|
        0 <= i < before.len() ==> !text::is_white(#[trigger] before[i])) {
        lemma_one_word(before);
        assert(text::words(before) =~= seq![before]);
    }
}

proof fn lemma_one_word(word: Seq<char>)
    requires
        forall|i: int| 0 <= i < word.len() ==> !text::is_white(#[trigger] word[i]),
    ensures
        text::words_so_far(word) == (Seq::<Seq<char>>::empty(), word),
    decreases word.len(),
{
    if word.len() > 0 {
        assert forall|i: int| 0 <= i < word.drop_last().len() implies !text::is_white(
            #[trigger] word.drop_last()[i],
        ) by {
            assert(!text::is_white(word[i]));
        }
        lemma_one_word(word.drop_last());
        assert(!text::is_white(word[word.len() - 1]));
        assert(word.drop_last().push(word.last()) =~= word);
    } else {
        assert(word =~= Seq::<char>::empty());
    }
}

proof fn lemma_words_go_on(before: Seq<char>, after: Seq<char>, white: char)
    requires
        text::is_white(white),
    ensures
        text::words_so_far(before.push(white) + after) == (
            text::words(before) + text::words_so_far(after).0,
            text::words_so_far(after).1,
        ),
        text::words(before.push(white) + after) == text::words(before) + text::words(after),
    decreases after.len(),
{
    let whole = before.push(white) + after;
    if after.len() == 0 {
        assert(whole =~= before.push(white));
        assert(whole.drop_last() =~= before);
        assert(after =~= Seq::<char>::empty());
        assert(text::words_so_far(whole).0 =~= text::words(before)
            + text::words_so_far(after).0);
        assert(text::words_so_far(whole).1 =~= Seq::<char>::empty());
    } else {
        lemma_words_go_on(before, after.drop_last(), white);
        assert(whole.drop_last() =~= before.push(white) + after.drop_last());
        assert(whole.last() == after.last());
        let (done, current) = text::words_so_far(after.drop_last());
        if text::is_white(after.last()) && current.len() > 0 {
            assert((text::words(before) + done).push(current) =~= text::words(before) + done.push(
                current,
            ));
        }
    }
    assert(text::words(whole) =~= text::words(before) + text::words(after));
}

/// The first line of a text is what stands before its first line feed, less one carriage return where
/// that ends it; a rest without a line feed is a line unless it is empty.
pub proof fn law_lines_end_at_line_feeds(line: Seq<char>, rest: Seq<char>)
    requires
        !holds(line, '\n'),
    ensures
        text::line_list(Seq::<char>::empty()).len() == 0,
        line.len() > 0 ==> text::line_list(line) == seq![line],
        line.len() == 0 || line.last() != '\r' ==> text::line_list(line.push('\n') + rest)
            == seq![line] + text::line_list(rest),
        text::line_list(line.push('\r').push('\n') + rest) == seq![line] + text::line_list(rest),
{
    let empty = Seq::<char>::empty();
    text::lemma_one_piece(empty, '\n');
    assert forall|i: int| 0 <= i < line.len() implies line[i] != '\n' by {
        assert(line[i] == line[i]);
    }
    text::lemma_one_piece(line, '\n');
    assert(text::line_list(empty) =~= Seq::empty());
    if line.len() > 0 {
        assert(text::line_list(line) =~= seq![line]);
    }
    lemma_first_line(line, rest);
    let longer = line.push('\r');
    assert(!holds(longer, '\n')) by {
        if holds(longer, '\n') {
            let i = choose|i: int| 0 <= i < longer.len() && #[trigger] longer[i] == '\n';
            assert(line[i] == '\n');
        }
    }
    lemma_first_line(longer, rest);
    assert(longer.drop_last() =~= line);
}

proof fn lemma_first_line(line: Seq<char>, rest: Seq<char>)
    requires
        !holds(line, '\n'),
    ensures
        text::line_list(line.push('\n') + rest) == seq![text::without_return(line)]
            + text::line_list(rest),
{
    lemma_first_piece(line, rest, '\n');
    let parts = text::pieces(rest, '\n');
    text::lemma_pieces_some(rest, '\n');
    let all = text::pieces(line.push('\n') + rest, '\n');
    assert(all.last() == parts.last());
    let ended = |one: Seq<char>| text::without_return(one);
    assert(all.drop_last() =~= seq![line] + parts.drop_last());
    assert(all.drop_last().map_values(ended) =~= seq![text::without_return(line)]
        + parts.drop_last().map_values(ended));
    assert(text::line_list(line.push('\n') + rest) =~= seq![text::without_return(line)]
        + text::line_list(rest));
}

proof fn lemma_first_piece(first: Seq<char>, rest: Seq<char>, separator: char)
    requires
        !holds(first, separator),
    ensures
        text::pieces(first.push(separator) + rest, separator) == seq![first] + text::pieces(
            rest,
            separator,
        ),
    decreases rest.len(),
{
    let whole = first.push(separator) + rest;
    text::lemma_pieces_some(rest, separator);
    if rest.len() == 0 {
        assert(whole =~= first.push(separator));
        assert(whole.drop_last() =~= first);
        assert forall|i: int| 0 <= i < first.len() implies first[i] != separator by {
            assert(first[i] == first[i]);
        }
        text::lemma_one_piece(first, separator);
        assert(text::pieces(whole, separator) =~= seq![first] + text::pieces(rest, separator));
    } else {
        lemma_first_piece(first, rest.drop_last(), separator);
        text::lemma_pieces_some(rest.drop_last(), separator);
        assert(whole.drop_last() =~= first.push(separator) + rest.drop_last());
        assert(text::pieces(whole, separator) =~= seq![first] + text::pieces(rest, separator));
    }
}

// --- Finding -----------------------------------------------------------------------------------

/// One text stands in another exactly if the other is that text with something, or nothing, before it
/// and behind it; it begins or ends the other exactly if nothing stands before it or behind it.
pub proof fn law_what_stands_in_a_text(before: Seq<char>, inner: Seq<char>, after: Seq<char>)
    ensures
        text::contains_text(before + inner + after, inner),
        text::begins_with(inner + after, inner),
        text::ends_in(before + inner, inner),
{
    let whole = before + inner + after;
    assert(whole.subrange(before.len() as int, (before.len() + inner.len()) as int) =~= inner);
    assert(text::stands_at(whole, inner, before.len() as int));
    assert((inner + after).subrange(0, inner.len() as int) =~= inner);
    assert((before + inner).subrange(
        before.len() as int,
        (before + inner).len() as int,
    ) =~= inner);
}

/// What stands in a text parts it into what is before, itself, and what is behind.
pub proof fn law_a_text_is_parted_by_what_stands_in_it(text: Seq<char>, inner: Seq<char>)
    ensures
        text::contains_text(text, inner) ==> exists|before: Seq<char>, after: Seq<char>|
            text == #[trigger] (before + inner + after),
        text::begins_with(text, inner) ==> exists|after: Seq<char>| text == #[trigger] (inner
            + after),
        text::ends_in(text, inner) ==> exists|before: Seq<char>| text == #[trigger] (before
            + inner),
{
    if text::contains_text(text, inner) {
        let at = choose|at: int| #[trigger] text::stands_at(text, inner, at);
        assert(text =~= text.take(at) + inner + text.skip(at + inner.len()));
    }
    if text::begins_with(text, inner) {
        assert(text =~= inner + text.skip(inner.len() as int));
    }
    if text::ends_in(text, inner) {
        assert(text =~= text.take(text.len() - inner.len()) + inner);
    }
}

/// The first place where a text stands is one where it stands, with none before it; where there is none,
/// it stands nowhere.
pub proof fn law_the_first_stand_is_the_first(text: Seq<char>, inner: Seq<char>, from: int)
    requires
        0 <= from,
    ensures
        match text::first_stand(text, inner, from) {
            Some(at) => {
                &&& from <= at
                &&& text::stands_at(text, inner, at)
                &&& forall|i: int| from <= i < at ==> !text::stands_at(text, inner, i)
            },
            None => forall|i: int| from <= i ==> !text::stands_at(text, inner, i),
        },
    decreases text.len() - inner.len() + 1 - from,
{
    if from + inner.len() <= text.len() && !text::stands_at(text, inner, from) {
        law_the_first_stand_is_the_first(text, inner, from + 1);
    }
}

/// The first place of a character is one where it stands, with none before it; where there is none, it
/// is the end.
pub proof fn law_the_first_place_is_the_first(text: Seq<char>, wanted: char)
    ensures
        0 <= text::first_at(text, wanted) <= text.len(),
        forall|i: int| 0 <= i < text::first_at(text, wanted) ==> #[trigger] text[i] != wanted,
        text::first_at(text, wanted) < text.len() ==> text[text::first_at(text, wanted)] == wanted,
    decreases text.len(),
{
    if text.len() > 0 && text.first() != wanted {
        law_the_first_place_is_the_first(text.drop_first(), wanted);
        let at = text::first_at(text, wanted);
        assert forall|i: int| 0 <= i < at implies #[trigger] text[i] != wanted by {
            if i > 0 {
                assert(text.drop_first()[i - 1] != wanted);
            }
        }
    }
}

// --- Comparing ---------------------------------------------------------------------------------

/// Whether two characters are the capital and the small form of one ASCII letter.
pub open spec fn is_one_letter(capital: char, little: char) -> bool {
    65 <= capital as u32 <= 90 && little as u32 == capital as u32 + 32
}

/// Two texts are the same but for case exactly if they are of one length and at each place have the same
/// character, or the two forms of one ASCII letter.
pub proof fn law_case_is_all_that_may_differ(left: Seq<char>, right: Seq<char>)
    ensures
        text::same_but_case(left, right) <==> left.len() == right.len() && forall|i: int|
            0 <= i < left.len() ==> #[trigger] left[i] == right[i] || is_one_letter(
                left[i],
                right[i],
            ) || is_one_letter(right[i], left[i]),
{
    let (one, other) = (text::folded(left), text::folded(right));
    if text::same_but_case(left, right) {
        assert(one.len() == left.len() && other.len() == right.len());
        assert forall|i: int| 0 <= i < left.len() implies #[trigger] left[i] == right[i]
            || is_one_letter(left[i], right[i]) || is_one_letter(right[i], left[i]) by {
            assert(one[i] == other[i]);
            assert(text::small(left[i]) == text::small(right[i]));
        }
    }
    if left.len() == right.len() && (forall|i: int|
        0 <= i < left.len() ==> #[trigger] left[i] == right[i] || is_one_letter(left[i], right[i])
            || is_one_letter(right[i], left[i])) {
        assert forall|i: int| 0 <= i < left.len() implies one[i] == other[i] by {
            assert(left[i] == right[i] || is_one_letter(left[i], right[i]) || is_one_letter(
                right[i],
                left[i],
            ));
        }
        assert(one =~= other);
    }
}

/// One text comes before another exactly if it is a beginning of the other and not all of it, or has the
/// smaller character behind what they have in common.
pub proof fn law_texts_are_ordered_as_in_a_lexicon(
    common: Seq<char>,
    left: Seq<char>,
    right: Seq<char>,
)
    ensures
        text::comes_before(common + left, common + right) <==> text::comes_before(left, right),
        left.len() == 0 ==> (text::comes_before(left, right) <==> right.len() > 0),
        left.len() > 0 && right.len() > 0 && left[0] != right[0] ==> (text::comes_before(left, right)
            <==> left[0] < right[0]),
        right.len() == 0 ==> !text::comes_before(left, right),
    decreases common.len(),
{
    if common.len() > 0 {
        law_texts_are_ordered_as_in_a_lexicon(common.drop_first(), left, right);
        assert((common + left).drop_first() =~= common.drop_first() + left);
        assert((common + right).drop_first() =~= common.drop_first() + right);
    } else {
        assert(common + left =~= left);
        assert(common + right =~= right);
    }
}

/// Of two different texts one comes first, and only one; a text does not come before itself.
pub proof fn law_of_two_texts_one_comes_first(one: Seq<char>, other: Seq<char>)
    ensures
        !(text::comes_before(one, other) && text::comes_before(other, one)),
        text::comes_before(one, other) || text::comes_before(other, one) <==> one != other,
    decreases one.len(),
{
    if one.len() > 0 && other.len() > 0 {
        law_of_two_texts_one_comes_first(one.drop_first(), other.drop_first());
        if one[0] == other[0] && one.drop_first() == other.drop_first() {
            assert(one =~= seq![one[0]] + one.drop_first());
            assert(other =~= seq![other[0]] + other.drop_first());
        }
    } else {
        assert(one.len() == 0 && other.len() == 0 ==> one =~= other);
    }
}

// --- Numbers -----------------------------------------------------------------------------------

/// The ten digits count from nought to nine.
pub proof fn law_digits_count(value: nat)
    requires
        value < 10,
    ensures
        text::digit(value) as u32 == 48 + value,
        text::is_digit(text::digit(value)),
        text::digit_value(text::digit(value)) == value,
{
}

/// What is written of a number is its digits, and the last of them is what is left over from tens.
pub proof fn law_a_number_ends_in_its_last_digit(value: nat)
    ensures
        text::decimal(value).last() as u32 == 48 + value % 10,
        value >= 10 ==> text::decimal(value).drop_last() == text::decimal(value / 10),
        value < 10 ==> text::decimal(value).len() == 1,
        text::decimal(value).len() > 1 ==> text::decimal(value)[0] != '0',
{
    if value >= 10 {
        text::lemma_first_digit(value);
        assert(text::decimal(value).drop_last() =~= text::decimal(value / 10));
    }
}

/// One digit more makes a number ten times what it was, and the digit; and no number is larger than it
/// may be.
pub proof fn law_a_digit_more_counts_ten_times(digits: Seq<char>, more: char, most: nat)
    requires
        digits.len() > 0,
        text::is_digit(digits[0]),
    ensures
        text::natural(seq![more], most) == if !(48 <= more as u32 <= 57) {
            Err::<nat, NumberFault>(NumberFault::InvalidDigit)
        } else if more as u32 - 48 > most {
            Err(NumberFault::TooLarge)
        } else {
            Ok((more as u32 - 48) as nat)
        },
        match text::natural(digits, most) {
            Ok(value) => text::natural(digits.push(more), most) == if !(48 <= more as u32 <= 57) {
                Err::<nat, NumberFault>(NumberFault::InvalidDigit)
            } else if value * 10 + (more as u32 - 48) > most {
                Err(NumberFault::TooLarge)
            } else {
                Ok((value * 10 + (more as u32 - 48)) as nat)
            },
            Err(fault) => text::natural(digits.push(more), most) == Err::<nat, NumberFault>(fault),
        },
        text::natural(seq!['+'] + digits, most) == text::natural(digits, most),
        text::natural(Seq::<char>::empty(), most) == Err::<nat, NumberFault>(NumberFault::Empty),
{
    assert(digits.push(more).drop_last() =~= digits);
    assert(seq![more].drop_last() =~= Seq::<char>::empty());
    assert((seq!['+'] + digits).skip(1) =~= digits);
    assert(text::scanned(Seq::<char>::empty(), most) == Ok::<nat, NumberFault>(0));
}

/// A negative integer is the minus sign and the number without it; filled with zeros they stand behind the
/// sign.
pub proof fn law_a_sign_stands_in_front(value: nat, width: nat)
    ensures
        text::signed_decimal(value as int) == text::decimal(value),
        value > 0 ==> text::signed_decimal(-(value as int)) == seq!['-'] + text::decimal(value),
        text::padded_decimal(value as int, width) == text::zero_filled(text::decimal(value), width),
        value > 0 ==> text::padded_decimal(-(value as int), width + 1) == seq!['-']
            + text::zero_filled(text::decimal(value), width),
{
}

/// Filled with zeros a text ends in itself, has only zeros in front, and is as long as it was to be, or as
/// it was where that is longer.
pub proof fn law_zeros_fill_from_the_left(text: Seq<char>, width: nat)
    ensures
        text::zero_filled(text, width).len() == if text.len() > width {
            text.len()
        } else {
            width
        },
        text::ends_in(text::zero_filled(text, width), text),
        forall|i: int|
            0 <= i < text::zero_filled(text, width).len() - text.len() ==> (
            #[trigger] text::zero_filled(text, width)[i]) == '0',
{
    let filled = text::zero_filled(text, width);
    assert(filled.subrange(filled.len() - text.len(), filled.len() as int) =~= text);
}

/// Filled with spaces a text stands where it stood, has only spaces on its other side, and is as long as it
/// was to be, or as it was where that is longer.
pub proof fn law_spaces_fill_one_side(text: Seq<char>, width: nat)
    ensures
        text::filled_right(text, width).len() == if text.len() > width {
            text.len()
        } else {
            width
        },
        text::filled_left(text, width).len() == text::filled_right(text, width).len(),
        text::filled_right(text, width).take(text.len() as int) == text,
        forall|i: int|
            text.len() <= i < text::filled_right(text, width).len() ==> (
            #[trigger] text::filled_right(text, width)[i]) == ' ',
        text::filled_left(text, width).skip(text::filled_left(text, width).len() - text.len())
            == text,
        forall|i: int|
            0 <= i < text::filled_left(text, width).len() - text.len() ==> (
            #[trigger] text::filled_left(text, width)[i]) == ' ',
{
    assert(text::filled_right(text, width).take(text.len() as int) =~= text);
    let left = text::filled_left(text, width);
    assert(left.skip(left.len() - text.len()) =~= text);
}

// --- Paths -------------------------------------------------------------------------------------

/// The path of something in a directory is the directory's, one slash and its name.
pub proof fn law_one_slash_parts_a_name_from_its_directory(directory: Seq<char>, name: Seq<char>)
    requires
        directory.len() > 0,
        directory.last() != '/',
    ensures
        text::child(directory, name) == directory.push('/') + name,
        text::child(directory.push('/'), name) == directory.push('/') + name,
        text::child(Seq::<char>::empty(), name) == name,
{
    reveal_strlit("/");
    assert(directory + "/"@ + name =~= directory.push('/') + name);
    assert(Seq::<char>::empty() + name =~= name);
}

} // verus!
