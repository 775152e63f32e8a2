//! SQL statements.

use crate::text::{chars_of, same_chars, upper_letter};
use vstd::prelude::*;

verus! {

/// True of the characters that may stand before the first word of a statement.
pub open spec fn is_blank(c: char) -> bool {
    c == ' ' || c == '\t' || c == '\n' || c == '\r'
}

/// True of the letters of the keywords of SQL.
pub open spec fn is_letter(c: char) -> bool {
    ('a' <= c && c <= 'z') || ('A' <= c && c <= 'Z')
}

/// A text without the blanks that it starts with.
pub open spec fn without_blanks(text: Seq<char>) -> Seq<char>
    decreases text.len(),
{
    if text.len() > 0 && is_blank(text[0]) {
        without_blanks(text.skip(1))
    } else {
        text
    }
}

/// The letters that a text starts with, in upper case.
pub open spec fn leading_letters(text: Seq<char>) -> Seq<char>
    decreases text.len(),
{
    if text.len() > 0 && is_letter(text[0]) {
        seq![upper_letter(text[0])] + leading_letters(text.skip(1))
    } else {
        Seq::empty()
    }
}

/// The first word of a statement, in upper case.
pub open spec fn first_word(sql: Seq<char>) -> Seq<char> {
    leading_letters(without_blanks(sql))
}

/// True of the words that a statement of the data definition language starts with.
pub open spec fn is_ddl_word(word: Seq<char>) -> bool {
    word == "CREATE"@ || word == "ALTER"@ || word == "DROP"@ || word == "GRANT"@ || word
        == "REVOKE"@ || word == "ANALYZE"@ || word == "AUDIT"@ || word == "COMMENT"@ || word
        == "TRUNCATE"@
}

/// A SQL statement and its cursor on the server
#[derive(Debug, Clone)]
pub struct Statement {
    /// Text of the statement
    pub sql: String,
    /// Number of the cursor on the server (0 for none)
    pub cursor_id: u16,
    /// Whether the statement was executed
    pub executed: bool,
}

/// Whether a word is the given keyword
fn is_keyword(word: &[char], keyword: &str) -> (same: bool)
    ensures
        same == (word@ == keyword@),
{
    let letters = chars_of(keyword);
    same_chars(word, letters.as_slice())
}

impl Statement {
    /// True of the statements that define data: `CREATE`, `ALTER`, `DROP` and the like.
    pub open spec fn defines_data(self) -> bool {
        is_ddl_word(first_word(self.sql@))
    }

    /// Create a statement that has no cursor and was not executed
    pub fn new(sql: &str) -> (statement: Self)
        ensures
            statement.sql@ == sql@,
            statement.cursor_id == 0,
            !statement.executed,
    {
        Statement { sql: sql.to_string(), cursor_id: 0, executed: false }
    }

    /// Get the number of the cursor on the server (0 for none)
    pub fn cursor_id(&self) -> (id: u16)
        ensures
            id == self.cursor_id,
    {
        self.cursor_id
    }

    /// Set the number of the cursor on the server
    pub fn set_cursor_id(&mut self, id: u16)
        ensures
            *final(self) == (Statement { cursor_id: id, ..*old(self) }),
    {
        self.cursor_id = id;
    }

    /// Set whether the statement was executed
    pub fn set_executed(&mut self, executed: bool)
        ensures
            *final(self) == (Statement { executed, ..*old(self) }),
    {
        self.executed = executed;
    }

    /// Check if the statement defines data (CREATE, ALTER, DROP, etc.)
    pub fn is_ddl(&self) -> (ddl: bool)
        ensures
            ddl == self.defines_data(),
    {
        let chars = chars_of(self.sql.as_str());
        let mut start: usize = 0;
        assert(chars@.skip(0) =~= chars@);
        while start < chars.len() && (chars[start] == ' ' || chars[start] == '\t' || chars[start]
            == '\n' || chars[start] == '\r')
            invariant
                start <= chars@.len(),
                without_blanks(chars@.skip(start as int)) == without_blanks(chars@),
            decreases chars@.len() - start,
        {
            assert(chars@.skip(start as int).skip(1) =~= chars@.skip(start + 1));
            start = start + 1;
        }
        assert(without_blanks(chars@) == chars@.skip(start as int));
        let ghost text = chars@.skip(start as int);
        let mut word: Vec<char> = Vec::new();
        let mut i: usize = start;
        while i < chars.len() && ((chars[i] >= 'a' && chars[i] <= 'z') || (chars[i] >= 'A'
            && chars[i] <= 'Z'))
            invariant
                start <= i <= chars@.len(),
                word@ + leading_letters(chars@.skip(i as int)) =~= leading_letters(text),
            decreases chars@.len() - i,
        {
            let c = chars[i];
            let ghost rest = chars@.skip(i as int);
            assert(rest.skip(1) =~= chars@.skip(i + 1));
            let upper = if c >= 'a' && c <= 'z' {
                ((c as u8) - 32) as char
            } else {
                c
            };
            word.push(upper);
            i = i + 1;
        }
        assert(leading_letters(chars@.skip(i as int)) =~= Seq::empty());
        assert(word@ =~= first_word(self.sql@));
        is_keyword(word.as_slice(), "CREATE") || is_keyword(word.as_slice(), "ALTER")
            || is_keyword(word.as_slice(), "DROP") || is_keyword(word.as_slice(), "GRANT")
            || is_keyword(word.as_slice(), "REVOKE") || is_keyword(word.as_slice(), "ANALYZE")
            || is_keyword(word.as_slice(), "AUDIT") || is_keyword(word.as_slice(), "COMMENT")
            || is_keyword(word.as_slice(), "TRUNCATE")
    }

    /// Copy the statement, with its cursor, for another execution
    pub fn clone_for_reuse(&self) -> (copy: Self)
        ensures
            copy == *self,
    {
        Statement { sql: self.sql.clone(), cursor_id: self.cursor_id, executed: self.executed }
    }
}

} // verus!
