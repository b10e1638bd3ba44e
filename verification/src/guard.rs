//! The guard before the grammar: which texts are handed to it. The grammar does
//! not return on every text, so that the tokens of a text are looked at first.

use vstd::prelude::*;
use crate::number::{parse_digits, unsigned_literal, MAX_MAGNITUDE};
use crate::sql::{is_string_literal, keyword_of, number_of, shape_of, tokens_of, KeywordMark, TokenShape};
use crate::sql::{number_text, token_is_string, token_keyword, token_shape, tokenize};
use crate::text::chars_of;
use sqlparser::tokenizer::Token;

verus! {

/// How many levels the grammar may descend.
pub const MAX_LEVELS: usize = 24;

/// The largest number that may stand after `AUTO_INCREMENT`.
pub const MAX_OFFSET: u64 = 0xffff_ffff;

/// What the last token lets the grammar expect.
#[derive(Clone, Copy, Debug, PartialEq, Eq, Structural)]
pub enum Pending {
    Nothing,
    /// `AUTO_INCREMENT` was read
    AutoIncrement,
    /// `AUTO_INCREMENT =` was read
    AutoIncrementEquals,
    /// `TOP` was read
    Top,
    /// `GRANTED` was read
    Granted,
}

/// One pair of brackets that is open; the first level is the text outside all
/// brackets.
#[derive(Clone, Copy, Debug, PartialEq, Eq, Structural)]
pub struct Level {
    /// how many levels the grammar had descended where this pair was opened
    pub base: usize,
    /// how many levels it has descended now: `base`, and one more for each
    /// counted token since the last comma within this pair
    pub count: usize,
}

/// Where the scan of the tokens stands.
pub struct Scan {
    /// the open pairs of brackets, the outermost first
    pub levels: Seq<Level>,
    pub pending: Pending,
}

/// Whether `text` is one or more digits that write a number of at most `max`.
pub open spec fn fits(text: Seq<char>, max: nat) -> bool {
    match unsigned_literal(text) {
        Some(v) => v <= max,
        None => false,
    }
}

/// Whether the grammar may not return on a token of this kind in this place: a
/// number after `AUTO_INCREMENT` that is over `MAX_OFFSET`, a number after `TOP`
/// that is over `MAX_MAGNITUDE`, one of them that is not written in digits alone,
/// `BY` after `GRANTED`, or the keyword `DIV` anywhere.
pub open spec fn is_hazard(pending: Pending, shape: TokenShape, keyword: KeywordMark, number: Seq<char>) -> bool {
    keyword is Div || match pending {
        Pending::AutoIncrement | Pending::AutoIncrementEquals => shape is Number && !fits(
            number,
            MAX_OFFSET as nat,
        ),
        Pending::Top => shape is Number && !fits(number, MAX_MAGNITUDE as nat),
        Pending::Granted => keyword is By,
        Pending::Nothing => false,
    }
}

/// What a token lets the grammar expect next.
pub open spec fn pending_after(pending: Pending, shape: TokenShape, keyword: KeywordMark) -> Pending {
    match keyword {
        KeywordMark::AutoIncrement => Pending::AutoIncrement,
        KeywordMark::Top => Pending::Top,
        KeywordMark::Granted => Pending::Granted,
        _ => if pending is AutoIncrement && shape is Eq {
            Pending::AutoIncrementEquals
        } else {
            Pending::Nothing
        },
    }
}

pub open spec fn opens(shape: TokenShape) -> bool {
    shape is LParen || shape is LBracket || shape is LBrace || shape is Lt
}

pub open spec fn closes(shape: TokenShape) -> bool {
    shape is RParen || shape is RBracket || shape is RBrace
}

/// Whether a token can take the grammar one level down: any token but white
/// space, a comma, a closing bracket, a literal and a name.
pub open spec fn descends(shape: TokenShape, keyword: KeywordMark, string: bool) -> bool {
    !(shape is Whitespace || shape is Comma || closes(shape) || shape is Number || string
        || keyword is Name)
}

/// Whether the levels are those of a scan that goes on: there is the level
/// outside all brackets, and nowhere has the grammar descended more than
/// `MAX_LEVELS` levels.
pub open spec fn within_limits(levels: Seq<Level>) -> bool {
    &&& levels.len() >= 1
    &&& forall|i: int|
        0 <= i < levels.len() ==> (#[trigger] levels[i]).base <= levels[i].count <= MAX_LEVELS
}

/// Whether a keyword joins two queries into one. What it adds to the depth stays
/// beyond the next comma.
pub open spec fn joins_queries(keyword: KeywordMark) -> bool {
    keyword is Union || keyword is Except || keyword is Intersect
}

/// The levels with one more token in the innermost pair that stays counted beyond
/// the next comma.
pub open spec fn counted_for_good(levels: Seq<Level>) -> Seq<Level> {
    levels.update(
        levels.len() - 1,
        Level {
            base: (levels.last().base + 1) as usize,
            count: (levels.last().count + 1) as usize,
        },
    )
}

/// The levels with one more counted token in the innermost pair.
pub open spec fn counted(levels: Seq<Level>) -> Seq<Level> {
    levels.update(
        levels.len() - 1,
        Level { base: levels.last().base, count: (levels.last().count + 1) as usize },
    )
}

/// The levels after a token that is neither white space nor a comma. An opening
/// bracket counts in the pair that it stands in and opens a pair of its own; a `<`
/// is taken for a bracket that is never closed. A closing bracket ends the
/// innermost pair, if there is one.
pub open spec fn levels_after(levels: Seq<Level>, shape: TokenShape, keyword: KeywordMark, string: bool) -> Seq<
    Level,
> {
    if opens(shape) {
        counted(levels).push(
            Level {
                base: (levels.last().count + 1) as usize,
                count: (levels.last().count + 1) as usize,
            },
        )
    } else if closes(shape) && levels.len() > 1 {
        levels.drop_last()
    } else if joins_queries(keyword) {
        counted_for_good(levels)
    } else if descends(shape, keyword, string) {
        counted(levels)
    } else {
        levels
    }
}

/// The scan after one more token, or `None` where the token shows that the text
/// is not to be handed to the grammar. White space changes nothing, and a comma
/// takes the count of its pair back to where the pair was opened.
pub open spec fn scan_step(scan: Scan, token: Token) -> Option<Scan> {
    let shape = shape_of(token);
    let keyword = keyword_of(token);
    let after = levels_after(scan.levels, shape, keyword, is_string_literal(token));
    if shape is Whitespace {
        Some(scan)
    } else if is_hazard(scan.pending, shape, keyword, number_of(token)) {
        None
    } else if shape is Comma {
        Some(
            Scan {
                levels: scan.levels.update(
                    scan.levels.len() - 1,
                    Level { base: scan.levels.last().base, count: scan.levels.last().base },
                ),
                pending: Pending::Nothing,
            },
        )
    } else if !within_limits(after) {
        None
    } else {
        Some(Scan { levels: after, pending: pending_after(scan.pending, shape, keyword) })
    }
}

/// Whether the scan goes through all of `tokens`.
pub open spec fn scan_from(scan: Scan, tokens: Seq<Token>) -> bool
    decreases tokens.len(),
{
    if tokens.len() == 0 {
        true
    } else {
        match scan_step(scan, tokens[0]) {
            Some(next) => scan_from(next, tokens.drop_first()),
            None => false,
        }
    }
}

pub open spec fn initial_scan() -> Scan {
    Scan { levels: seq![Level { base: 0, count: 0 }], pending: Pending::Nothing }
}

/// Whether the tokens are handed to the grammar: no number stands where the
/// grammar cannot take it, no `BY` after `GRANTED`, no `DIV`, and at no place have more than
/// `MAX_LEVELS` tokens been read that can take the grammar one level down and
/// from which it has not come back, at a comma or at a closing bracket. A keyword
/// that joins two queries counts for good.
pub open spec fn safe_tokens(tokens: Seq<Token>) -> bool {
    scan_from(initial_scan(), tokens)
}

/// Whether `text` is handed to the grammar: it can be split into tokens, and the
/// tokens are safe.
pub open spec fn parser_returns(text: Seq<char>) -> bool {
    tokens_of(text) matches Some(tokens) && safe_tokens(tokens)
}

/// Whether the number in `token` is written in digits alone and is at most `max`.
fn number_fits(token: &Token, max: u64) -> (res: bool)
    requires
        max <= MAX_MAGNITUDE,
    ensures
        res == fits(number_of(*token), max as nat),
{
    let text = number_text(token);
    let chars = chars_of(text.as_str());
    assert(chars@.subrange(0, chars.len() as int) =~= chars@);
    match parse_digits(&chars, 0, chars.len()) {
        Some(v) => v <= max,
        None => false,
    }
}

/// The scan after one more token: `levels` are updated, and the result is what
/// the token lets the grammar expect, or `None` where the scan ends.
pub fn advance(levels: &mut Vec<Level>, pending: Pending, token: &Token) -> (res: Option<Pending>)
    requires
        within_limits(old(levels)@),
    ensures
        match scan_step(Scan { levels: old(levels)@, pending }, *token) {
            Some(next) => res == Some(next.pending) && final(levels)@ == next.levels
                && within_limits(final(levels)@),
            None => res is None,
        },
{
    let shape = token_shape(token);
    let keyword = token_keyword(token);
    let string = token_is_string(token);
    if shape == TokenShape::Whitespace {
        return Some(pending);
    }
    let hazard = keyword == KeywordMark::Div || match pending {
        Pending::AutoIncrement | Pending::AutoIncrementEquals => shape == TokenShape::Number
            && !number_fits(token, MAX_OFFSET),
        Pending::Top => shape == TokenShape::Number && !number_fits(token, MAX_MAGNITUDE),
        Pending::Granted => keyword == KeywordMark::By,
        Pending::Nothing => false,
    };
    if hazard {
        return None;
    }
    let ghost before = levels@;
    let top = levels.len() - 1;
    let level = levels[top];
    if shape == TokenShape::Comma {
        levels.set(top, Level { base: level.base, count: level.base });
        return Some(Pending::Nothing);
    }
    let opens = shape == TokenShape::LParen || shape == TokenShape::LBracket || shape
        == TokenShape::LBrace || shape == TokenShape::Lt;
    let closes = shape == TokenShape::RParen || shape == TokenShape::RBracket || shape
        == TokenShape::RBrace;
    let descends = !(closes || shape == TokenShape::Number || string || keyword
        == KeywordMark::Name);
    if opens {
        if level.count >= MAX_LEVELS {
            assert(!within_limits(levels_after(before, shape, keyword, string))) by {
                assert(levels_after(before, shape, keyword, string)[top as int].count > MAX_LEVELS);
            }
            return None;
        }
        levels.set(top, Level { base: level.base, count: level.count + 1 });
        levels.push(Level { base: level.count + 1, count: level.count + 1 });
        assert(levels@ =~= levels_after(before, shape, keyword, string));
    } else if closes && levels.len() > 1 {
        levels.pop();
        assert(levels@ =~= levels_after(before, shape, keyword, string));
    } else if keyword == KeywordMark::Union || keyword == KeywordMark::Except || keyword
        == KeywordMark::Intersect {
        if level.count >= MAX_LEVELS {
            assert(!within_limits(levels_after(before, shape, keyword, string))) by {
                assert(levels_after(before, shape, keyword, string)[top as int].count > MAX_LEVELS);
            }
            return None;
        }
        levels.set(top, Level { base: level.base + 1, count: level.count + 1 });
        assert(levels@ =~= levels_after(before, shape, keyword, string));
    } else if descends {
        if level.count >= MAX_LEVELS {
            assert(!within_limits(levels_after(before, shape, keyword, string))) by {
                assert(levels_after(before, shape, keyword, string)[top as int].count > MAX_LEVELS);
            }
            return None;
        }
        levels.set(top, Level { base: level.base, count: level.count + 1 });
        assert(levels@ =~= levels_after(before, shape, keyword, string));
    }
    let next = match keyword {
        KeywordMark::AutoIncrement => Pending::AutoIncrement,
        KeywordMark::Top => Pending::Top,
        KeywordMark::Granted => Pending::Granted,
        _ => if pending == Pending::AutoIncrement && shape == TokenShape::Eq {
            Pending::AutoIncrementEquals
        } else {
            Pending::Nothing
        },
    };
    Some(next)
}

/// Whether the tokens are handed to the grammar.
pub fn tokens_are_safe(tokens: &Vec<Token>) -> (ok: bool)
    ensures
        ok == safe_tokens(tokens@),
{
    let mut levels: Vec<Level> = Vec::new();
    levels.push(Level { base: 0, count: 0 });
    let mut pending = Pending::Nothing;
    let mut i: usize = 0;
    assert(tokens@.skip(0) =~= tokens@);
    assert(levels@ =~= initial_scan().levels);
    while i < tokens.len()
        invariant
            i <= tokens.len(),
            within_limits(levels@),
            safe_tokens(tokens@) == scan_from(Scan { levels: levels@, pending }, tokens@.skip(i as int)),
        decreases tokens.len() - i,
    {
        assert(tokens@.skip(i as int).drop_first() =~= tokens@.skip(i + 1));
        assert(tokens@.skip(i as int)[0] == tokens@[i as int]);
        match advance(&mut levels, pending, &tokens[i]) {
            Some(next) => {
                pending = next;
            },
            None => {
                return false;
            },
        }
        i += 1;
    }
    true
}

/// Whether the text of a statement is handed to the grammar.
pub fn parser_will_return(line: &str) -> (ok: bool)
    ensures
        ok == parser_returns(line@),
{
    match tokenize(line) {
        Some(tokens) => tokens_are_safe(&tokens),
        None => false,
    }
}

} // verus!
