//! What holds of text: white space, letter case, the order of strings, and which statements give
//! rows.
use crate::laws::law_statement_kind_ignores_case_and_space;
use crate::query::{gives_rows, hex_digit, hex_of, query_keywords};
use crate::text::{
    before, blank, lemma_before_is_strict, lemma_trimmed_is_trimmed, lower_char, lowered, parts_at,
    trim_back, trim_front, trimmed, white_space,
};
use vstd::prelude::*;

verus! {

/// Trimming takes white space off both ends and nothing else: what it took is blank, and what is left
/// neither begins nor ends with white space.
pub proof fn law_trimming_takes_white_space_off_the_ends(text: Seq<char>) -> (taken: (
    Seq<char>,
    Seq<char>,
))
    ensures
        blank(taken.0),
        blank(taken.1),
        text == taken.0 + trimmed(text) + taken.1,
        trimmed(text).len() > 0 ==> !white_space(trimmed(text).first()) && !white_space(
            trimmed(text).last(),
        ),
        trimmed(text).len() == 0 <==> blank(text),
{
    let front = law_trimming_the_front_takes_white_space(text);
    let back = lemma_trim_back_takes_white_space(trim_front(text));
    lemma_trimmed_is_trimmed(text);
    assert(text =~= front + trimmed(text) + back);
    (front, back)
}

/// Trimming the front takes white space off it and nothing else.
pub proof fn law_trimming_the_front_takes_white_space(text: Seq<char>) -> (front: Seq<char>)
    ensures
        blank(front),
        text == front + trim_front(text),
        trim_front(text).len() > 0 ==> !white_space(trim_front(text).first()),
    decreases text.len(),
{
    if text.len() > 0 && white_space(text.first()) {
        let rest = law_trimming_the_front_takes_white_space(text.drop_first());
        let front = seq![text.first()] + rest;
        assert forall|i: int| 0 <= i < front.len() implies white_space(#[trigger] front[i]) by {
            if i > 0 {
                assert(front[i] == rest[i - 1]);
            }
        }
        assert(text =~= front + trim_front(text)) by {
            assert(text =~= seq![text.first()] + text.drop_first());
        }
        front
    } else {
        assert(text =~= Seq::empty() + trim_front(text));
        Seq::empty()
    }
}

proof fn lemma_trim_back_takes_white_space(text: Seq<char>) -> (back: Seq<char>)
    ensures
        blank(back),
        text == trim_back(text) + back,
    decreases text.len(),
{
    if text.len() > 0 && white_space(text.last()) {
        let rest = lemma_trim_back_takes_white_space(text.drop_last());
        let back = rest.push(text.last());
        assert forall|i: int| 0 <= i < back.len() implies white_space(#[trigger] back[i]) by {
            if i < rest.len() {
                assert(back[i] == rest[i]);
            }
        }
        assert(text =~= trim_back(text) + back) by {
            assert(text =~= text.drop_last().push(text.last()));
        }
        back
    } else {
        assert(text =~= trim_back(text) + Seq::empty());
        Seq::empty()
    }
}

/// A text that neither begins nor ends with white space is what trimming leaves of it.
pub proof fn law_trimming_leaves_words_alone(text: Seq<char>)
    requires
        text.len() > 0,
        !white_space(text.first()),
        !white_space(text.last()),
    ensures
        trimmed(text) == text,
        trim_front(text) == text,
        !blank(text),
{
    assert(!white_space(text[0]));
}

/// Of the ASCII characters space, tab and those that end a line or a page are white space, and no
/// other.
pub proof fn law_ascii_white_space(c: char)
    requires
        c as u32 <= 0x7f,
    ensures
        white_space(c) <==> c == ' ' || c == '\t' || c == '\n' || c == '\r' || c as u32 == 0xb
            || c as u32 == 0xc,
{
}

/// Lower case keeps the length, turns each of `A` to `Z` into the letter 32 code points on, and leaves
/// every other character as it is.
pub proof fn law_lower_case_changes_capitals_only(text: Seq<char>, i: int)
    requires
        0 <= i < text.len(),
    ensures
        lowered(text).len() == text.len(),
        'A' <= text[i] <= 'Z' ==> lowered(text)[i] as u32 == text[i] as u32 + 32,
        !('A' <= text[i] <= 'Z') ==> lowered(text)[i] == text[i],
        !('A' <= lowered(text)[i] <= 'Z'),
{
    assert(lowered(text)[i] == lower_char(text[i]));
}

/// Strings stand in the order of the first characters that differ, by code point, and a string stands
/// before each that begins with it and goes on; never the other way round.
pub proof fn law_strings_stand_by_code_point(
    front: Seq<char>,
    c: char,
    d: char,
    a: Seq<char>,
    b: Seq<char>,
)
    ensures
        c < d ==> before(front.push(c) + a, front.push(d) + b) && !before(
            front.push(d) + b,
            front.push(c) + a,
        ),
        before(front, front.push(c) + a),
        !before(front.push(c) + a, front),
        !before(front, front),
{
    let k = front.len() as int;
    if c < d {
        assert(parts_at(front.push(c) + a, front.push(d) + b, k));
        lemma_before_is_strict(front.push(c) + a, front.push(d) + b);
    }
    assert(parts_at(front, front.push(c) + a, k));
    lemma_before_is_strict(front, front.push(c) + a);
    if before(front, front) {
        lemma_before_is_strict(front, front);
    }
}

/// The words with which a statement that gives rows begins.
pub open spec fn opens_a_query(word: Seq<char>) -> bool {
    ||| word == "select"@
    ||| word == "with"@
    ||| word == "show"@
    ||| word == "pragma"@
    ||| word == "explain"@
    ||| word == "describe"@
    ||| word == "values"@
    ||| word == "table"@
    ||| word == "call"@
}

proof fn lemma_query_words(word: Seq<char>)
    ensures
        query_keywords().contains(word) <==> opens_a_query(word),
        opens_a_query(word) ==> word.len() > 0 && !white_space(word.first()),
{
    let words = query_keywords();
    assert(words.len() == 9);
    assert(words[0] == "select"@ && words[1] == "with"@ && words[2] == "show"@);
    assert(words[3] == "pragma"@ && words[4] == "explain"@ && words[5] == "describe"@);
    assert(words[6] == "values"@ && words[7] == "table"@ && words[8] == "call"@);
    reveal_strlit("select");
    reveal_strlit("with");
    reveal_strlit("show");
    reveal_strlit("pragma");
    reveal_strlit("explain");
    reveal_strlit("describe");
    reveal_strlit("values");
    reveal_strlit("table");
    reveal_strlit("call");
}

/// A statement gives rows where, behind white space, it begins with one of nine words in whatever
/// case.
pub proof fn law_statements_with_such_a_word_give_rows(
    front: Seq<char>,
    word: Seq<char>,
    rest: Seq<char>,
)
    requires
        blank(front),
        opens_a_query(lowered(word)),
    ensures
        gives_rows(front + word + rest),
{
    let sql = word + rest;
    law_statement_kind_ignores_case_and_space(front, sql);
    assert(front + word + rest =~= front + sql);
    lemma_query_words(lowered(word));
    law_lower_case_changes_capitals_only(word, 0);
    assert(sql.first() == word.first());
    assert(trim_front(sql) == sql);
    assert(lowered(sql) =~= lowered(word) + lowered(rest));
    let words = query_keywords();
    let i = words.index_of(lowered(word));
    assert(lowered(word) =~= lowered(sql).subrange(0, word.len() as int));
    assert(words[i].is_prefix_of(lowered(trim_front(sql))));
}

/// No other statement gives rows: one that does has white space, such a word, and a rest.
pub proof fn law_no_other_statements_give_rows(sql: Seq<char>) -> (parts: (
    Seq<char>,
    Seq<char>,
    Seq<char>,
))
    requires
        gives_rows(sql),
    ensures
        sql == parts.0 + parts.1 + parts.2,
        blank(parts.0),
        opens_a_query(lowered(parts.1)),
{
    let words = query_keywords();
    let lead = trim_front(sql);
    let i = choose|i: int|
        0 <= i < words.len() && #[trigger] words[i].is_prefix_of(lowered(lead));
    let n = words[i].len() as int;
    let front = law_trimming_the_front_takes_white_space(sql);
    let word = lead.take(n);
    let rest = lead.skip(n);
    assert(words[i] =~= lowered(lead).subrange(0, n));
    assert(lowered(word) =~= words[i]);
    assert(words.contains(words[i]));
    lemma_query_words(words[i]);
    assert(sql =~= front + word + rest);
    (front, word, rest)
}

/// What a hexadecimal digit in lower case stands for.
pub open spec fn digit_value(digit: char) -> int {
    if '0' <= digit <= '9' {
        digit as int - '0' as int
    } else {
        digit as int - 'a' as int + 10
    }
}

/// A hexadecimal digit in lower case.
pub open spec fn is_hex_digit(digit: char) -> bool {
    '0' <= digit <= '9' || 'a' <= digit <= 'f'
}

/// Each byte can be read off its two digits, the higher half first.
pub proof fn law_bytes_can_be_read_off_their_digits(bytes: Seq<u8>, i: int)
    requires
        0 <= i < bytes.len(),
    ensures
        hex_of(bytes).len() == 2 * bytes.len(),
        is_hex_digit(hex_of(bytes)[2 * i]),
        is_hex_digit(hex_of(bytes)[2 * i + 1]),
        bytes[i] == 16 * digit_value(hex_of(bytes)[2 * i]) + digit_value(hex_of(bytes)[2 * i + 1]),
{
    let byte = bytes[i] as int;
    assert(hex_of(bytes)[2 * i] == hex_digit(byte / 16));
    assert(hex_of(bytes)[2 * i + 1] == hex_digit(byte % 16));
}

}
