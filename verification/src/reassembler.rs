//! Reassembles complete statements out of physical lines.

use vstd::prelude::*;
use crate::text::{chars_of, ends_with, starts_with, string_of, trim, trimmed};

verus! {

/// The marker that selects a line of a table definition for key normalization.
pub open spec fn key_marker() -> Seq<char> {
    seq!['K', 'E', 'Y', ' ']
}

/// Whether `pattern` occurs in `s` as a contiguous run of characters.
pub open spec fn occurs_in(pattern: Seq<char>, s: Seq<char>) -> bool {
    exists|i: int| occurs_at(pattern, s, i)
}

/// Whether `pattern` occurs in `s` starting at position `i`.
pub open spec fn occurs_at(pattern: Seq<char>, s: Seq<char>, i: int) -> bool {
    0 <= i && i + pattern.len() <= s.len() && s.subrange(i, i + pattern.len()) == pattern
}

/// The parenthesis depth after reading `c` at depth `depth`.
pub open spec fn depth_after(depth: int, c: char) -> int {
    if c == '(' {
        depth + 1
    } else if c == ')' {
        depth - 1
    } else {
        depth
    }
}

/// The parenthesis depth after reading all of `s`, starting at depth zero.
pub open spec fn depth_of(s: Seq<char>) -> int
    decreases s.len(),
{
    if s.len() == 0 {
        0
    } else {
        depth_after(depth_of(s.drop_last()), s.last())
    }
}

/// Whether the character `c`, read at depth `depth`, stays in a normalized line:
/// everything at depth two or deeper goes, and so does the parenthesis that
/// closes depth two.
pub open spec fn kept(depth: int, c: char) -> bool {
    depth_after(depth, c) < 2 && !(c == ')' && depth_after(depth, c) == 1)
}

/// The line `s` without its index-prefix lengths.
pub open spec fn without_prefix_lengths(s: Seq<char>) -> Seq<char>
    decreases s.len(),
{
    if s.len() == 0 {
        Seq::empty()
    } else if kept(depth_of(s.drop_last()), s.last()) {
        without_prefix_lengths(s.drop_last()).push(s.last())
    } else {
        without_prefix_lengths(s.drop_last())
    }
}

/// What key normalization makes of the line `s`.
pub open spec fn cleaned_key(s: Seq<char>) -> Seq<char> {
    if occurs_in(key_marker(), s) {
        without_prefix_lengths(s)
    } else {
        s
    }
}

/// Whether `pattern` occurs somewhere in `s`.
pub fn contains(s: &Vec<char>, pattern: &Vec<char>) -> (found: bool)
    ensures
        found == occurs_in(pattern@, s@),
{
    if pattern.len() > s.len() {
        assert(forall|i: int| !occurs_at(pattern@, s@, i));
        return false;
    }
    let last: usize = s.len() - pattern.len();
    let mut i: usize = 0;
    while i <= last
        invariant
            last == s.len() - pattern.len(),
            i <= last + 1,
            forall|k: int| 0 <= k < i ==> !occurs_at(pattern@, s@, k),
        decreases last + 1 - i,
    {
        let mut j: usize = 0;
        while j < pattern.len() && s[i + j] == pattern[j]
            invariant
                last == s.len() - pattern.len(),
                i <= last,
                j <= pattern.len(),
                forall|k: int| 0 <= k < j ==> s@[i + k] == pattern@[k],
            decreases pattern.len() - j,
        {
            j += 1;
        }
        if j == pattern.len() {
            assert(s@.subrange(i as int, i + pattern.len()) =~= pattern@);
            assert(occurs_at(pattern@, s@, i as int));
            return true;
        }
        assert(!occurs_at(pattern@, s@, i as int)) by {
            if occurs_at(pattern@, s@, i as int) {
                assert(s@.subrange(i as int, i + pattern.len())[j as int] == pattern@[j as int]);
            }
        }
        i += 1;
    }
    assert(forall|k: int| !occurs_at(pattern@, s@, k));
    false
}

/// What key normalization makes of the characters of a line.
pub fn cleaned_chars(chars: &Vec<char>) -> (out: Vec<char>)
    ensures
        out@ == cleaned_key(chars@),
{
    let marker: Vec<char> = vec!['K', 'E', 'Y', ' '];
    assert(marker@ =~= key_marker());
    let mut out: Vec<char> = Vec::new();
    let mut i: usize = 0;
    if !contains(chars, &marker) {
        while i < chars.len()
            invariant
                i <= chars.len(),
                out@ == chars@.take(i as int),
            decreases chars.len() - i,
        {
            out.push(chars[i]);
            i += 1;
        }
        assert(chars@.take(chars.len() as int) =~= chars@);
        return out;
    }
    let mut depth: i128 = 0;
    while i < chars.len()
        invariant
            i <= chars.len(),
            depth == depth_of(chars@.take(i as int)),
            -(i as int) <= depth <= i as int,
            out@ == without_prefix_lengths(chars@.take(i as int)),
        decreases chars.len() - i,
    {
        let c = chars[i];
        proof {
            assert(chars@.take(i + 1).drop_last() =~= chars@.take(i as int));
            assert(chars@.take(i + 1).last() == c);
        }
        if c == '(' {
            depth += 1;
        } else if c == ')' {
            depth -= 1;
        }
        if depth < 2 && !(c == ')' && depth == 1) {
            out.push(c);
        }
        i += 1;
    }
    assert(chars@.take(chars.len() as int) =~= chars@);
    out
}

/// Removes index-prefix lengths from a line of a table definition: in a line that
/// holds `KEY `, everything nested two parentheses deep goes, so that
/// `` (`col`(144)) `` becomes `` (`col`) ``. Any other line comes back unchanged.
pub fn cleanup_key(line: &str) -> (out: String)
    ensures
        out@ == cleaned_key(line@),
{
    let chars = chars_of(line);
    let cleaned = cleaned_chars(&chars);
    string_of(&cleaned)
}

/// Whether a trimmed line carries nothing: it is empty, a line comment, or a block
/// comment that ends on the same line.
pub open spec fn is_skipped(line: Seq<char>) -> bool {
    ||| line.len() == 0
    ||| "--"@.is_prefix_of(line)
    ||| ("/*"@.is_prefix_of(line) && "*/;"@.is_suffix_of(line))
}

/// Whether the statement gathered so far is a table definition.
pub open spec fn in_definition(buffer: Seq<char>) -> bool {
    "CREATE TABLE"@.is_prefix_of(buffer)
}

/// Whether the gathered text is a complete statement.
pub open spec fn is_complete(buffer: Seq<char>) -> bool {
    buffer.len() > 0 && buffer.last() == ';'
}

/// The gathered text after one more line: a line that carries nothing leaves it as
/// it is; any other line is trimmed and appended, after key normalization where
/// the text is a table definition.
pub open spec fn gathered(buffer: Seq<char>, line: Seq<char>) -> Seq<char> {
    let content = trimmed(line);
    if is_skipped(content) {
        buffer
    } else if in_definition(buffer) {
        buffer + cleaned_key(content)
    } else {
        buffer + content
    }
}

/// The gathered text that is kept after one more line: nothing, where the line
/// completed a statement.
pub open spec fn kept_after(buffer: Seq<char>, line: Seq<char>) -> Seq<char> {
    if !is_skipped(trimmed(line)) && is_complete(gathered(buffer, line)) {
        Seq::empty()
    } else {
        gathered(buffer, line)
    }
}

/// The statement that one more line completes, if it completes one.
pub open spec fn emitted_after(buffer: Seq<char>, line: Seq<char>) -> Option<Seq<char>> {
    if !is_skipped(trimmed(line)) && is_complete(gathered(buffer, line)) {
        Some(trimmed(gathered(buffer, line)))
    } else {
        None
    }
}

/// The statements that a run of lines completes, in order, starting with the
/// gathered text `buffer`.
pub open spec fn statements_of(buffer: Seq<char>, lines: Seq<Seq<char>>) -> Seq<Seq<char>>
    decreases lines.len(),
{
    if lines.len() == 0 {
        Seq::empty()
    } else {
        let rest = statements_of(kept_after(buffer, lines[0]), lines.drop_first());
        match emitted_after(buffer, lines[0]) {
            Some(statement) => seq![statement] + rest,
            None => rest,
        }
    }
}

/// Gathers lines into statements.
#[derive(Debug)]
pub struct Reassembler {
    /// the text of the statement that is being gathered
    pub current_statement: Vec<char>,
}

impl View for Reassembler {
    type V = Seq<char>;

    open spec fn view(&self) -> Seq<char> {
        self.current_statement@
    }
}

impl Reassembler {
    /// A reassembler that has gathered nothing.
    pub fn new() -> (reassembler: Reassembler)
        ensures
            reassembler@ == Seq::<char>::empty(),
    {
        Reassembler { current_statement: Vec::new() }
    }

    /// Takes the next line of the input, and gives the statement that it
    /// completes, if it completes one.
    pub fn push_line(&mut self, line: &str) -> (statement: Option<String>)
        ensures
            final(self)@ == kept_after(old(self)@, line@),
            match statement {
                Some(text) => emitted_after(old(self)@, line@) == Some(text@),
                None => emitted_after(old(self)@, line@) is None,
            },
    {
        let chars = chars_of(line);
        let content = trim(&chars);
        let line_comment = chars_of("--");
        let block_start = chars_of("/*");
        let block_end = chars_of("*/;");
        if content.len() == 0 || starts_with(&content, &line_comment) || (starts_with(
            &content,
            &block_start,
        ) && ends_with(&content, &block_end)) {
            return None;
        }
        let definition = chars_of("CREATE TABLE");
        let mut addition = if starts_with(&self.current_statement, &definition) {
            cleaned_chars(&content)
        } else {
            content
        };
        self.current_statement.append(&mut addition);
        let len = self.current_statement.len();
        if len > 0 && self.current_statement[len - 1] == ';' {
            let statement = trim(&self.current_statement);
            self.current_statement.clear();
            Some(string_of(&statement))
        } else {
            None
        }
    }

    /// Ends the input. A statement that was begun and not completed is dropped;
    /// its text comes back, so that it can be reported.
    pub fn finish(&mut self) -> (dropped: Option<String>)
        ensures
            final(self)@ == Seq::<char>::empty(),
            match dropped {
                Some(text) => old(self)@.len() > 0 && text@ == old(self)@,
                None => old(self)@.len() == 0,
            },
    {
        if self.current_statement.len() == 0 {
            return None;
        }
        let text = string_of(&self.current_statement);
        self.current_statement.clear();
        Some(text)
    }
}

/// A line that carries nothing changes nothing and completes nothing.
pub proof fn lemma_skipped_line_changes_nothing(buffer: Seq<char>, line: Seq<char>)
    requires
        is_skipped(trimmed(line)),
    ensures
        kept_after(buffer, line) == buffer,
        emitted_after(buffer, line) is None,
{
}

/// An input of nothing but comments and empty lines gives no statement.
pub proof fn lemma_comments_give_no_statement(buffer: Seq<char>, lines: Seq<Seq<char>>)
    requires
        forall|i: int| 0 <= i < lines.len() ==> is_skipped(trimmed(#[trigger] lines[i])),
    ensures
        statements_of(buffer, lines) == Seq::<Seq<char>>::empty(),
    decreases lines.len(),
{
    if lines.len() > 0 {
        assert(is_skipped(trimmed(lines[0])));
        assert forall|i: int| 0 <= i < lines.drop_first().len() implies is_skipped(
            trimmed(#[trigger] lines.drop_first()[i]),
        ) by {
            assert(lines.drop_first()[i] == lines[i + 1]);
        }
        lemma_comments_give_no_statement(buffer, lines.drop_first());
    }
}

} // verus!
