//! What holds of every SQL statement.

use crate::statement::{first_word, is_blank, is_letter, leading_letters, without_blanks, Statement};
use crate::statement_cache::{holds, CacheView};
use crate::statement_cache_laws::stored_statement_is_got;
use crate::text::upper_letter;
use vstd::prelude::*;

verus! {

/// True of a word that is a keyword of capital letters, in whatever case its own letters are.
pub open spec fn reads_as(word: Seq<char>, keyword: Seq<char>) -> bool {
    &&& word.len() == keyword.len()
    &&& forall|i: int|
        0 <= i < word.len() ==> (#[trigger] word[i]) == keyword[i] || word[i] as int
            == keyword[i] as int + 32
}

/// True of a statement whose first word is the given one: blanks, if any, stand before it, and no
/// letter stands behind it.
pub open spec fn starts_with_word(
    sql: Seq<char>,
    blanks: Seq<char>,
    word: Seq<char>,
    rest: Seq<char>,
) -> bool {
    &&& sql == blanks + word + rest
    &&& forall|i: int|
        0 <= i < blanks.len() ==> (#[trigger] blanks[i]) == ' ' || blanks[i] == '\t' || blanks[i]
            == '\n' || blanks[i] == '\r'
    &&& word.len() > 0
    &&& forall|i: int|
        0 <= i < word.len() ==> ('a' <= (#[trigger] word[i]) && word[i] <= 'z') || ('A' <= word[i]
            && word[i] <= 'Z')
    &&& rest.len() > 0 ==> !('a' <= rest[0] && rest[0] <= 'z') && !('A' <= rest[0] && rest[0]
        <= 'Z')
}

/// Blanks before a text that starts with none do not matter.
proof fn lemma_blanks_are_skipped(blanks: Seq<char>, text: Seq<char>)
    requires
        forall|i: int| 0 <= i < blanks.len() ==> is_blank(#[trigger] blanks[i]),
        text.len() > 0 ==> !is_blank(text[0]),
    ensures
        without_blanks(blanks + text) == text,
    decreases blanks.len(),
{
    if blanks.len() == 0 {
        assert(blanks + text =~= text);
    } else {
        assert((blanks + text)[0] == blanks[0]);
        assert((blanks + text).skip(1) =~= blanks.skip(1) + text);
        lemma_blanks_are_skipped(blanks.skip(1), text);
    }
}

/// The letters that a text starts with are those of its first word, in upper case.
proof fn lemma_word_is_taken(word: Seq<char>, rest: Seq<char>)
    requires
        forall|i: int| 0 <= i < word.len() ==> is_letter(#[trigger] word[i]),
        rest.len() > 0 ==> !is_letter(rest[0]),
    ensures
        leading_letters(word + rest).len() == word.len(),
        forall|i: int|
            0 <= i < word.len() ==> #[trigger] leading_letters(word + rest)[i] == upper_letter(
                word[i],
            ),
    decreases word.len(),
{
    if word.len() == 0 {
        assert(word + rest =~= rest);
    } else {
        let tail = word.skip(1);
        assert((word + rest)[0] == word[0]);
        assert((word + rest).skip(1) =~= tail + rest);
        lemma_word_is_taken(tail, rest);
        assert forall|i: int| 0 <= i < word.len() implies #[trigger] leading_letters(word + rest)[i]
            == upper_letter(word[i]) by {
            if i > 0 {
                assert(leading_letters(word + rest)[i] == leading_letters(tail + rest)[i - 1]);
                assert(tail[i - 1] == word[i]);
            }
        }
    }
}

/// A word in upper case is a keyword of capital letters if and only if the word reads as it.
proof fn lemma_upper_word(word: Seq<char>, upper: Seq<char>, keyword: Seq<char>)
    requires
        upper.len() == word.len(),
        forall|i: int| 0 <= i < word.len() ==> is_letter(#[trigger] word[i]),
        forall|i: int| 0 <= i < word.len() ==> #[trigger] upper[i] == upper_letter(word[i]),
        forall|i: int|
            0 <= i < keyword.len() ==> 'A' <= (#[trigger] keyword[i]) && keyword[i] <= 'Z',
    ensures
        upper == keyword <==> reads_as(word, keyword),
{
    if upper == keyword {
        assert forall|i: int| 0 <= i < word.len() implies (#[trigger] word[i]) == keyword[i]
            || word[i] as int == keyword[i] as int + 32 by {
            assert(upper[i] == upper_letter(word[i]));
        }
    }
    if reads_as(word, keyword) {
        assert forall|i: int| 0 <= i < word.len() implies upper[i] == keyword[i] by {
            assert(upper[i] == upper_letter(word[i]));
            assert('A' <= keyword[i] && keyword[i] <= 'Z');
        }
        assert(upper =~= keyword);
    }
}

/// The first word of a statement, in upper case, is a keyword of capital letters if and only if the
/// word reads as it.
proof fn lemma_first_word(
    sql: Seq<char>,
    blanks: Seq<char>,
    word: Seq<char>,
    rest: Seq<char>,
    keyword: Seq<char>,
)
    requires
        starts_with_word(sql, blanks, word, rest),
        forall|i: int|
            0 <= i < keyword.len() ==> 'A' <= (#[trigger] keyword[i]) && keyword[i] <= 'Z',
    ensures
        first_word(sql) == keyword <==> reads_as(word, keyword),
{
    assert(sql =~= blanks + (word + rest));
    assert((word + rest)[0] == word[0]);
    lemma_blanks_are_skipped(blanks, word + rest);
    lemma_word_is_taken(word, rest);
    lemma_upper_word(word, first_word(sql), keyword);
}

/// A statement defines data if and only if its first word is one of nine, in whatever case it is
/// written.
pub proof fn nine_words_define_data(
    statement: Statement,
    blanks: Seq<char>,
    word: Seq<char>,
    rest: Seq<char>,
)
    requires
        starts_with_word(statement.sql@, blanks, word, rest),
    ensures
        statement.defines_data() <==> {
            ||| reads_as(word, "CREATE"@)
            ||| reads_as(word, "ALTER"@)
            ||| reads_as(word, "DROP"@)
            ||| reads_as(word, "GRANT"@)
            ||| reads_as(word, "REVOKE"@)
            ||| reads_as(word, "ANALYZE"@)
            ||| reads_as(word, "AUDIT"@)
            ||| reads_as(word, "COMMENT"@)
            ||| reads_as(word, "TRUNCATE"@)
        },
{
    reveal_strlit("CREATE");
    reveal_strlit("ALTER");
    reveal_strlit("DROP");
    reveal_strlit("GRANT");
    reveal_strlit("REVOKE");
    reveal_strlit("ANALYZE");
    reveal_strlit("AUDIT");
    reveal_strlit("COMMENT");
    reveal_strlit("TRUNCATE");
    let sql = statement.sql@;
    lemma_first_word(sql, blanks, word, rest, "CREATE"@);
    lemma_first_word(sql, blanks, word, rest, "ALTER"@);
    lemma_first_word(sql, blanks, word, rest, "DROP"@);
    lemma_first_word(sql, blanks, word, rest, "GRANT"@);
    lemma_first_word(sql, blanks, word, rest, "REVOKE"@);
    lemma_first_word(sql, blanks, word, rest, "ANALYZE"@);
    lemma_first_word(sql, blanks, word, rest, "AUDIT"@);
    lemma_first_word(sql, blanks, word, rest, "COMMENT"@);
    lemma_first_word(sql, blanks, word, rest, "TRUNCATE"@);
}

/// Two keywords that differ in their length or in a letter are not read in one word.
proof fn lemma_other_keyword(word: Seq<char>, one: Seq<char>, two: Seq<char>)
    requires
        reads_as(word, one),
        one.len() != two.len() || one[0] != two[0],
        one.len() > 0,
        'A' <= one[0] && one[0] <= 'Z',
        'A' <= two[0] && two[0] <= 'Z',
    ensures
        !reads_as(word, two),
{
    if reads_as(word, two) {
        assert(word[0] == one[0] || word[0] as int == one[0] as int + 32);
        assert(word[0] == two[0] || word[0] as int == two[0] as int + 32);
    }
}

/// True of the first words of queries, of changes of rows, and of blocks and calls.
pub open spec fn queries_changes_or_calls(word: Seq<char>) -> bool {
    ||| reads_as(word, "SELECT"@)
    ||| reads_as(word, "INSERT"@)
    ||| reads_as(word, "UPDATE"@)
    ||| reads_as(word, "DELETE"@)
    ||| reads_as(word, "MERGE"@)
    ||| reads_as(word, "WITH"@)
    ||| reads_as(word, "BEGIN"@)
    ||| reads_as(word, "DECLARE"@)
    ||| reads_as(word, "CALL"@)
}

/// A word that reads as a keyword of another length, or with another first letter, than the nine
/// that define data, is none of these.
proof fn lemma_none_of_nine(word: Seq<char>, keyword: Seq<char>)
    requires
        reads_as(word, keyword),
        keyword.len() > 0,
        'A' <= keyword[0] && keyword[0] <= 'Z',
        keyword.len() == 4 ==> keyword[0] != 'D',
        keyword.len() == 5 ==> keyword[0] != 'A' && keyword[0] != 'G',
        keyword.len() == 6 ==> keyword[0] != 'C' && keyword[0] != 'R',
        keyword.len() == 7 ==> keyword[0] != 'A' && keyword[0] != 'C',
        keyword.len() == 8 ==> keyword[0] != 'T',
    ensures
        !reads_as(word, "CREATE"@),
        !reads_as(word, "ALTER"@),
        !reads_as(word, "DROP"@),
        !reads_as(word, "GRANT"@),
        !reads_as(word, "REVOKE"@),
        !reads_as(word, "ANALYZE"@),
        !reads_as(word, "AUDIT"@),
        !reads_as(word, "COMMENT"@),
        !reads_as(word, "TRUNCATE"@),
{
    reveal_strlit("CREATE");
    reveal_strlit("ALTER");
    reveal_strlit("DROP");
    reveal_strlit("GRANT");
    reveal_strlit("REVOKE");
    reveal_strlit("ANALYZE");
    reveal_strlit("AUDIT");
    reveal_strlit("COMMENT");
    reveal_strlit("TRUNCATE");
    lemma_other_keyword(word, keyword, "CREATE"@);
    lemma_other_keyword(word, keyword, "ALTER"@);
    lemma_other_keyword(word, keyword, "DROP"@);
    lemma_other_keyword(word, keyword, "GRANT"@);
    lemma_other_keyword(word, keyword, "REVOKE"@);
    lemma_other_keyword(word, keyword, "ANALYZE"@);
    lemma_other_keyword(word, keyword, "AUDIT"@);
    lemma_other_keyword(word, keyword, "COMMENT"@);
    lemma_other_keyword(word, keyword, "TRUNCATE"@);
}

/// The first words of queries, changes, blocks and calls are none of the nine that define data.
proof fn lemma_not_a_defining_word(word: Seq<char>)
    requires
        queries_changes_or_calls(word),
    ensures
        !reads_as(word, "CREATE"@),
        !reads_as(word, "ALTER"@),
        !reads_as(word, "DROP"@),
        !reads_as(word, "GRANT"@),
        !reads_as(word, "REVOKE"@),
        !reads_as(word, "ANALYZE"@),
        !reads_as(word, "AUDIT"@),
        !reads_as(word, "COMMENT"@),
        !reads_as(word, "TRUNCATE"@),
{
    reveal_strlit("SELECT");
    reveal_strlit("INSERT");
    reveal_strlit("UPDATE");
    reveal_strlit("DELETE");
    reveal_strlit("MERGE");
    reveal_strlit("WITH");
    reveal_strlit("BEGIN");
    reveal_strlit("DECLARE");
    reveal_strlit("CALL");
    if reads_as(word, "SELECT"@) {
        lemma_none_of_nine(word, "SELECT"@);
    } else if reads_as(word, "INSERT"@) {
        lemma_none_of_nine(word, "INSERT"@);
    } else if reads_as(word, "UPDATE"@) {
        lemma_none_of_nine(word, "UPDATE"@);
    } else if reads_as(word, "DELETE"@) {
        lemma_none_of_nine(word, "DELETE"@);
    } else if reads_as(word, "MERGE"@) {
        lemma_none_of_nine(word, "MERGE"@);
    } else if reads_as(word, "WITH"@) {
        lemma_none_of_nine(word, "WITH"@);
    } else if reads_as(word, "BEGIN"@) {
        lemma_none_of_nine(word, "BEGIN"@);
    } else if reads_as(word, "DECLARE"@) {
        lemma_none_of_nine(word, "DECLARE"@);
    } else {
        lemma_none_of_nine(word, "CALL"@);
    }
}

/// A query, a change of rows, a block or a call does not define data.
pub proof fn queries_and_changes_define_no_data(
    statement: Statement,
    blanks: Seq<char>,
    word: Seq<char>,
    rest: Seq<char>,
)
    requires
        starts_with_word(statement.sql@, blanks, word, rest),
        queries_changes_or_calls(word),
    ensures
        !statement.defines_data(),
{
    nine_words_define_data(statement, blanks, word, rest);
    lemma_not_a_defining_word(word);
}

/// A query, a change of rows, a block or a call that was executed and has a cursor is what the next
/// lookup of its SQL text gives, where the cache holds that text already, is not full, or holds a
/// statement that is not in use.
pub proof fn executed_statement_is_got(
    view: CacheView,
    statement: Statement,
    blanks: Seq<char>,
    word: Seq<char>,
    rest: Seq<char>,
    sql: Seq<char>,
    stored_at: u128,
    got_at: u128,
)
    requires
        view.wf(),
        view.max_size > 0,
        starts_with_word(statement.sql@, blanks, word, rest),
        queries_changes_or_calls(word),
        statement.cursor_id != 0,
        holds(view.entries, sql) || view.entries.len() < view.max_size || (exists|i: int|
            0 <= i < view.entries.len() && !(#[trigger] view.entries[i]).1.in_use),
    ensures
        view.stored(sql, statement, stored_at).got(sql, got_at).1 == Some(statement),
{
    queries_and_changes_define_no_data(statement, blanks, word, rest);
    stored_statement_is_got(view, sql, statement, stored_at, got_at);
}

/// A statement whose first word is one of the nine that define data is never stored.
pub proof fn defining_statement_is_not_stored(
    view: CacheView,
    statement: Statement,
    blanks: Seq<char>,
    word: Seq<char>,
    rest: Seq<char>,
    sql: Seq<char>,
    now: u128,
)
    requires
        starts_with_word(statement.sql@, blanks, word, rest),
        reads_as(word, "CREATE"@) || reads_as(word, "ALTER"@) || reads_as(word, "DROP"@)
            || reads_as(word, "GRANT"@) || reads_as(word, "REVOKE"@) || reads_as(word, "ANALYZE"@)
            || reads_as(word, "AUDIT"@) || reads_as(word, "COMMENT"@) || reads_as(
            word,
            "TRUNCATE"@,
        ),
    ensures
        view.stored(sql, statement, now) == view,
{
    nine_words_define_data(statement, blanks, word, rest);
}

/// A text in which no word stands first, such as an empty one or one that starts with a digit, does
/// not define data.
pub proof fn text_without_first_word_defines_no_data(
    statement: Statement,
    blanks: Seq<char>,
    rest: Seq<char>,
)
    requires
        statement.sql@ == blanks + rest,
        forall|i: int|
            0 <= i < blanks.len() ==> (#[trigger] blanks[i]) == ' ' || blanks[i] == '\t'
                || blanks[i] == '\n' || blanks[i] == '\r',
        rest.len() > 0 ==> rest[0] != ' ' && rest[0] != '\t' && rest[0] != '\n' && rest[0] != '\r',
        rest.len() > 0 ==> !('a' <= rest[0] && rest[0] <= 'z') && !('A' <= rest[0] && rest[0]
            <= 'Z'),
    ensures
        !statement.defines_data(),
{
    lemma_blanks_are_skipped(blanks, rest);
    assert(first_word(statement.sql@) =~= Seq::empty());
    reveal_strlit("CREATE");
    reveal_strlit("ALTER");
    reveal_strlit("DROP");
    reveal_strlit("GRANT");
    reveal_strlit("REVOKE");
    reveal_strlit("ANALYZE");
    reveal_strlit("AUDIT");
    reveal_strlit("COMMENT");
    reveal_strlit("TRUNCATE");
    assert(first_word(statement.sql@).len() == 0);
    assert("CREATE"@.len() > 0 && "ALTER"@.len() > 0 && "DROP"@.len() > 0);
    assert("GRANT"@.len() > 0 && "REVOKE"@.len() > 0 && "ANALYZE"@.len() > 0);
    assert("AUDIT"@.len() > 0 && "COMMENT"@.len() > 0 && "TRUNCATE"@.len() > 0);
}

} // verus!
