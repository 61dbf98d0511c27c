//! Text that fits a width, and figures that fit a column.

use crate::text;
use crate::time::Duration;
use vstd::prelude::*;

verus! {

// --- Filling lines -----------------------------------------------------------------------------

/// The lines that parts fill, with `between` where two meet on one: all but the last, and the last. A
/// part goes onto the next line where it would make this one longer than the width.
pub open spec fn filled(parts: Seq<Seq<char>>, between: Seq<char>, width: int) -> (
    Seq<Seq<char>>,
    Seq<char>,
)
    decreases parts.len(),
{
    if parts.len() == 0 {
        (Seq::empty(), Seq::empty())
    } else {
        let before = filled(parts.drop_last(), between, width);
        let part = parts.last();
        if before.1.len() == 0 {
            (before.0, part)
        } else if before.1.len() + between.len() + part.len() > width {
            (before.0.push(before.1), part)
        } else {
            (before.0, before.1 + between + part)
        }
    }
}

/// The width that is filled: at least one column.
pub open spec fn columns(width: u16) -> int {
    if width < 1 {
        1
    } else {
        width as int
    }
}

/// The lines that parts fill.
pub open spec fn packed(parts: Seq<Seq<char>>, between: Seq<char>, width: u16) -> Seq<Seq<char>> {
    let done = filled(parts, between, columns(width));
    if done.1.len() > 0 {
        done.0.push(done.1)
    } else {
        done.0
    }
}

/// A text's words, on as many lines as they need.
pub open spec fn wrapped(text: Seq<char>, width: u16) -> Seq<Seq<char>> {
    packed(text::words(text), " "@, width)
}

/// Puts parts on lines.
pub fn pack_parts(parts: &Vec<String>, between: &str, width: u16) -> (lines: Vec<String>)
    ensures
        text::texts(lines@) == packed(text::texts(parts@), between@, width),
{
    let width: usize = if width < 1 {
        1
    } else {
        width as usize
    };
    let gap: usize = between.unicode_len();
    let ghost all = text::texts(parts@);
    let mut lines: Vec<String> = Vec::new();
    let mut line: String = String::new();
    let mut next: usize = 0;
    assert(all.take(0) =~= Seq::empty());
    assert(text::texts(lines@) =~= Seq::empty());
    while next < parts.len()
        invariant
            next <= parts@.len(),
            all == text::texts(parts@),
            gap == between@.len(),
            (text::texts(lines@), line@) == filled(all.take(next as int), between@, width as int),
        decreases parts@.len() - next,
    {
        assert(all.take(next + 1).drop_last() =~= all.take(next as int));
        let ghost before = lines@;
        let part: &String = &parts[next];
        let length: usize = line.as_str().unicode_len();
        let added: usize = part.as_str().unicode_len();
        if length == 0 {
            line = part.clone();
        } else if length > width || gap > width - length || added > width - length - gap {
            lines.push(line);
            assert(text::texts(lines@) =~= text::texts(before).push(line@));
            line = part.clone();
        } else {
            line = line.concat(between).concat(part.as_str());
        }
        next += 1;
    }
    assert(all.take(all.len() as int) =~= all);
    if line.as_str().unicode_len() > 0 {
        let ghost before = lines@;
        lines.push(line);
        assert(text::texts(lines@) =~= text::texts(before).push(line@));
    }
    lines
}

/// The words of a text as strings.
fn words_of(text: &str) -> (found: Vec<String>)
    ensures
        text::texts(found@) == text::words(text@),
{
    let words: Vec<Vec<char>> = text::split_words(&text::characters(text));
    let ghost all = text::words(text@);
    let mut found: Vec<String> = Vec::new();
    let mut next: usize = 0;
    assert(text::texts(found@) =~= all.take(0));
    while next < words.len()
        invariant
            next <= words@.len(),
            text::views(words@) == all,
            text::texts(found@) == all.take(next as int),
        decreases words@.len() - next,
    {
        let ghost before = found@;
        found.push(text::text_of(&words[next]));
        assert(text::texts(found@) =~= text::texts(before).push(all[next as int]));
        assert(all.take(next as int).push(all[next as int]) =~= all.take(next + 1));
        next += 1;
    }
    assert(all.take(all.len() as int) =~= all);
    found
}

/// Puts a text's words on as many lines as they need.
pub fn wrap_words(text: &str, width: u16) -> (lines: Vec<String>)
    ensures
        text::texts(lines@) == wrapped(text@, width),
{
    pack_parts(&words_of(text), " ", width)
}

/// Adds a text's lines to others.
pub fn add_wrapped(lines: &mut Vec<String>, text: &str, width: u16)
    ensures
        text::texts(final(lines)@) == text::texts(old(lines)@) + wrapped(text@, width),
{
    let more: Vec<String> = wrap_words(text, width);
    add_lines(lines, more);
}

/// Adds lines to others.
pub fn add_lines(lines: &mut Vec<String>, more: Vec<String>)
    ensures
        text::texts(final(lines)@) == text::texts(old(lines)@) + text::texts(more@),
{
    let ghost first = text::texts(lines@);
    let ghost all = text::texts(more@);
    let mut next: usize = 0;
    assert(first + all.take(0) =~= first);
    while next < more.len()
        invariant
            next <= more@.len(),
            all == text::texts(more@),
            text::texts(lines@) == first + all.take(next as int),
        decreases more@.len() - next,
    {
        let ghost before = lines@;
        lines.push(more[next].clone());
        assert(text::texts(lines@) =~= text::texts(before).push(all[next as int]));
        assert((first + all.take(next as int)).push(all[next as int]) =~= first + all.take(
            next + 1,
        ));
        next += 1;
    }
    assert(all.take(all.len() as int) =~= all);
}

proof fn lemma_filled(parts: Seq<Seq<char>>, between: Seq<char>, width: int)
    requires
        forall|i: int| 0 <= i < parts.len() ==> (#[trigger] parts[i]).len() > 0,
    ensures
        parts.len() > 0 ==> filled(parts, between, width).1.len() > 0,
        parts.len() == 0 ==> filled(parts, between, width) == (
            Seq::<Seq<char>>::empty(),
            Seq::<char>::empty(),
        ),
        forall|i: int|
            0 <= i < filled(parts, between, width).0.len() ==> fits_or_stands_alone(
                #[trigger] filled(parts, between, width).0[i],
                parts,
                width,
            ),
        parts.len() > 0 ==> fits_or_stands_alone(filled(parts, between, width).1, parts, width),
        parts.len() > 0 ==> text::joined(
            filled(parts, between, width).0.push(filled(parts, between, width).1),
            between,
        ) == text::joined(parts, between),
    decreases parts.len(),
{
    if parts.len() > 0 {
        let shorter = parts.drop_last();
        let part = parts.last();
        assert(parts[parts.len() - 1] == part);
        assert forall|i: int| 0 <= i < shorter.len() implies (#[trigger] shorter[i]).len() > 0 by {
            assert(shorter[i] == parts[i]);
        }
        lemma_filled(shorter, between, width);
        let before = filled(shorter, between, width);
        let after = filled(parts, between, width);
        assert forall|i: int| 0 <= i < before.0.len() implies fits_or_stands_alone(
            #[trigger] before.0[i],
            parts,
            width,
        ) by {
            lemma_stands_alone_still(before.0[i], shorter, parts, width);
        }
        if shorter.len() > 0 {
            lemma_stands_alone_still(before.1, shorter, parts, width);
            let whole = before.0.push(before.1);
            if before.1.len() + between.len() + part.len() > width {
                assert(after.0 == whole);
                assert(parts.contains(after.1)) by {
                    assert(parts[parts.len() - 1] == after.1);
                }
                let lines = after.0.push(after.1);
                assert(lines.drop_last() =~= whole);
                assert(lines.last() == part);
                assert(lines.len() > 1);
            } else {
                let lines = after.0.push(after.1);
                assert(lines.drop_last() =~= before.0);
                if before.0.len() == 0 {
                    assert(whole[0] == before.1);
                    assert(lines[0] == after.1);
                } else {
                    assert(whole.drop_last() =~= before.0);
                    assert(text::joined(lines, between) =~= text::joined(before.0, between)
                        + between + before.1 + between + part);
                }
            }
        } else {
            assert(after.1 == part);
            assert(parts.contains(after.1)) by {
                assert(parts[0] == after.1);
            }
            assert(after.0.push(after.1)[0] == part);
            assert(parts[0] == part);
        }
    }
}

/// Whether a line is no longer than the width, or one of the parts by itself.
pub open spec fn fits_or_stands_alone(line: Seq<char>, parts: Seq<Seq<char>>, width: int) -> bool {
    line.len() <= width || parts.contains(line)
}

proof fn lemma_stands_alone_still(
    line: Seq<char>,
    shorter: Seq<Seq<char>>,
    parts: Seq<Seq<char>>,
    width: int,
)
    requires
        fits_or_stands_alone(line, shorter, width),
        shorter == parts.drop_last(),
        parts.len() > 0,
    ensures
        fits_or_stands_alone(line, parts, width),
{
    if shorter.contains(line) {
        let i = choose|i: int| 0 <= i < shorter.len() && shorter[i] == line;
        assert(parts[i] == line);
    }
}

/// Nothing of a text is lost when it is put on lines: one behind the other they are its words in their
/// order, and a line is longer than the width only where a single word is.
pub proof fn law_wrapping_loses_nothing(text: Seq<char>, width: u16)
    ensures
        text::joined(wrapped(text, width), " "@) == text::joined(text::words(text), " "@),
        forall|i: int|
            0 <= i < wrapped(text, width).len() ==> fits_or_stands_alone(
                #[trigger] wrapped(text, width)[i],
                text::words(text),
                columns(width),
            ),
{
    let parts = text::words(text);
    text::lemma_words_are_not_empty(text);
    lemma_filled(parts, " "@, columns(width));
}

// --- Fitting columns ---------------------------------------------------------------------------

/// A text cut to a width, with a mark where the rest of it was.
pub open spec fn cut_short(text: Seq<char>, width: u16) -> Seq<char> {
    if text.len() <= width || width == 0 {
        text
    } else {
        text.take(width - 1) + "…"@
    }
}

/// A text cut to a width, with a mark where its beginning was.
pub open spec fn cut_off(text: Seq<char>, width: u16) -> Seq<char> {
    if text.len() <= width || width == 0 {
        text
    } else {
        "…"@ + text.skip(text.len() - (width - 1))
    }
}

/// Cuts a text to a width, with a mark where the rest of it was.
pub fn shorten_with_a_mark(text: &str, width: u16) -> (short: String)
    ensures
        short@ == cut_short(text@, width),
{
    let letters: Vec<char> = text::characters(text);
    if letters.len() <= width as usize || width == 0 {
        return String::from_str(text);
    }
    let kept: String = text::text_between(&letters, 0, width as usize - 1);
    assert(kept@ =~= text@.take(width - 1));
    kept.concat("…")
}

/// Cuts a text to a width, with a mark where its beginning was: the end of a path is what tells it
/// apart.
pub fn shorten_from_the_left(text: &str, width: u16) -> (short: String)
    ensures
        short@ == cut_off(text@, width),
{
    let letters: Vec<char> = text::characters(text);
    if letters.len() <= width as usize || width == 0 {
        return String::from_str(text);
    }
    let from: usize = letters.len() - (width as usize - 1);
    let kept: String = text::text_between(&letters, from, letters.len());
    assert(kept@ =~= text@.skip(text@.len() - (width - 1)));
    String::from_str("…").concat(kept.as_str())
}

/// A text that is cut fits exactly, and one that fits is not cut.
pub proof fn law_what_is_cut_fits(text: Seq<char>, width: u16)
    requires
        width > 0,
    ensures
        cut_short(text, width).len() <= width,
        cut_off(text, width).len() <= width,
        text.len() <= width ==> cut_short(text, width) == text && cut_off(text, width) == text,
        text.len() > width ==> cut_short(text, width).len() == width && cut_off(text, width).len()
            == width,
{
    reveal_strlit("…");
    assert("…"@.len() == 1);
}

// --- Figures -----------------------------------------------------------------------------------

/// A number with two digits at least.
pub open spec fn two_digits(value: nat) -> Seq<char> {
    text::padded_decimal(value as int, 2)
}

/// How long something has lasted, roughly.
pub open spec fn age_words(age: Duration) -> Seq<char> {
    let seconds = age.secs();
    if seconds >= 172_800 {
        text::decimal(seconds / 86_400) + " days"@
    } else if seconds >= 86_400 {
        "1 day"@
    } else if seconds >= 3_600 {
        text::decimal(seconds / 3_600) + "h"@ + two_digits((seconds % 3_600) / 60) + "m"@
    } else if seconds >= 60 {
        text::decimal(seconds / 60) + "m"@ + two_digits(seconds % 60) + "s"@
    } else {
        text::decimal(seconds) + "s"@
    }
}

fn two_digits_of(value: u128) -> (text: String)
    requires
        value < 100,
    ensures
        text@ == two_digits(value as nat),
{
    text::padded_decimal_of(value as i64, 2)
}

/// How long something has lasted, roughly.
pub fn format_age(age: Duration) -> (words: String)
    ensures
        words@ == age_words(age),
{
    let seconds: u128 = age.as_secs();
    if seconds >= 172_800 {
        text::decimal_of(seconds / 86_400).concat(" days")
    } else if seconds >= 86_400 {
        String::from_str("1 day")
    } else if seconds >= 3_600 {
        text::decimal_of(seconds / 3_600).concat("h").concat(
            two_digits_of((seconds % 3_600) / 60).as_str(),
        ).concat("m")
    } else if seconds >= 60 {
        text::decimal_of(seconds / 60).concat("m").concat(
            two_digits_of(seconds % 60).as_str(),
        ).concat("s")
    } else {
        text::decimal_of(seconds).concat("s")
    }
}

/// A CPU time, as long as its column.
pub open spec fn cpu_words(span: Duration) -> Seq<char> {
    let seconds = span.secs();
    if seconds >= 3_600 {
        text::decimal(seconds / 3_600) + "h"@ + two_digits((seconds % 3_600) / 60) + "m"@
    } else if seconds >= 60 {
        text::decimal(seconds / 60) + "m"@ + two_digits(seconds % 60) + "s"@
    } else {
        span.tenths() + "s"@
    }
}

/// A CPU time, as long as its column.
pub fn format_cpu(duration: &Duration) -> (words: String)
    ensures
        words@ == cpu_words(*duration),
{
    let seconds: u128 = duration.as_secs();
    if seconds >= 3_600 {
        text::decimal_of(seconds / 3_600).concat("h").concat(
            two_digits_of((seconds % 3_600) / 60).as_str(),
        ).concat("m")
    } else if seconds >= 60 {
        text::decimal_of(seconds / 60).concat("m").concat(
            two_digits_of(seconds % 60).as_str(),
        ).concat("s")
    } else {
        duration.to_tenths().concat("s")
    }
}

/// What stands in a cell: a text, or a number of bytes that is shown in gigabytes with one digit behind
/// the point.
#[derive(Debug, PartialEq, Eq)]
pub enum Cell {
    Text(String),
    Gigabytes { bytes: u64, marked: bool },
}

/// Whether this is the cell of a number of bytes.
pub open spec fn is_bytes_cell(cell: Cell, bytes: u64, marked: bool) -> bool {
    let mark = if marked {
        "*"@
    } else {
        ""@
    };
    if bytes >= 1_000_000_000 {
        cell == (Cell::Gigabytes { bytes, marked })
    } else if bytes >= 1_000_000 {
        cell matches Cell::Text(words) && words@ == text::decimal(bytes as nat / 1_000_000) + " MB"@
            + mark
    } else if bytes >= 1_000 {
        cell matches Cell::Text(words) && words@ == text::decimal(bytes as nat / 1_000) + " kB"@
            + mark
    } else {
        cell matches Cell::Text(words) && words@ == text::decimal(bytes as nat) + " B"@ + mark
    }
}

/// A number of bytes in the largest unit it has one of.
pub fn format_bytes(bytes: u64, marked: bool) -> (cell: Cell)
    ensures
        is_bytes_cell(cell, bytes, marked),
{
    let mark: &str = if marked {
        "*"
    } else {
        ""
    };
    if bytes >= 1_000_000_000 {
        Cell::Gigabytes { bytes, marked }
    } else if bytes >= 1_000_000 {
        Cell::Text(text::decimal_of((bytes / 1_000_000) as u128).concat(" MB").concat(mark))
    } else if bytes >= 1_000 {
        Cell::Text(text::decimal_of((bytes / 1_000) as u128).concat(" kB").concat(mark))
    } else {
        Cell::Text(text::decimal_of(bytes as u128).concat(" B").concat(mark))
    }
}

} // verus!
