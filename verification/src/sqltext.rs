//! Reading stored SQL just well enough to find the identifiers in it.
//!
//! A table rebuild replays the `CREATE` statements SQLite stored for a
//! table's indexes, triggers, and views, with renamed columns swapped in.
//! That needs the identifiers told apart from string literals and comments,
//! which is all this scanner does: it splits text into tokens and never
//! parses beyond that.

use vstd::prelude::*;
use crate::db;
use crate::db::Engine;
use crate::text;
use crate::text::{chars_of, chars_eq_ignore_case, string_of};

verus! {

/// What a token is.
#[derive(Clone, Copy, PartialEq, Eq, Structural, Debug)]
pub enum Kind {
    Word,
    /// A `'...'` string literal, whose contents are data and never an
    /// identifier.
    Literal,
    /// A `"..."`, `` `...` ``, or `[...]` quoted identifier.
    Quoted,
    Punct,
    Space,
    Comment,
}

/// One token: the characters `start..end` of the scanned text.
#[derive(Clone, Copy, Debug)]
pub struct Token {
    pub start: usize,
    pub end: usize,
    pub kind: Kind,
}

/// A token as the specification sees it: start, end, kind.
pub type SpecToken = (int, int, Kind);

impl Token {
    pub open spec fn spec(self) -> SpecToken {
        (self.start as int, self.end as int, self.kind)
    }
}

pub open spec fn spec_tokens(v: Seq<Token>) -> Seq<SpecToken> {
    v.map_values(|t: Token| t.spec())
}

/// Blank space between tokens: what the scanner skips as one run.
pub open spec fn is_gap(c: char) -> bool {
    c == ' ' || c == '\t' || c == '\r' || c == '\n'
}

/// A character that can stand in a bare word.
pub open spec fn is_word_char(c: char) -> bool {
    text::is_alnum(c) || c == '_' || c == '$'
}

/// End of the run of gap characters starting at `i`.
pub open spec fn gap_end(s: Seq<char>, i: int) -> int
    decreases s.len() - i,
{
    if 0 <= i < s.len() && is_gap(s[i]) {
        gap_end(s, i + 1)
    } else {
        i
    }
}

/// End of the run of word characters starting at `i`.
pub open spec fn word_end(s: Seq<char>, i: int) -> int
    decreases s.len() - i,
{
    if 0 <= i < s.len() && is_word_char(s[i]) {
        word_end(s, i + 1)
    } else {
        i
    }
}

/// Where a `--` comment starting at or before `i` stops: at the line break,
/// which is left to the next token.
pub open spec fn line_end(s: Seq<char>, i: int) -> int
    decreases s.len() - i,
{
    if 0 <= i < s.len() && s[i] != '\n' {
        line_end(s, i + 1)
    } else {
        i
    }
}

/// The first `*/` at or after `i`, or the end of the text.
pub open spec fn block_close(s: Seq<char>, i: int) -> int
    decreases s.len() - i,
{
    if 0 <= i < s.len() && !(s[i] == '*' && i + 1 < s.len() && s[i + 1] == '/') {
        block_close(s, i + 1)
    } else {
        i
    }
}

/// Where a run quoted with `q` stops, scanning from `i` (just past the
/// opening quote): past the closing quote, a doubled quote standing for one
/// quote character; or at the end of the text when it never closes.
pub open spec fn quoted_end(s: Seq<char>, i: int, q: char) -> int
    decreases s.len() - i,
{
    if i < 0 || i >= s.len() {
        i
    } else if s[i] == q {
        if i + 1 < s.len() && s[i + 1] == q {
            quoted_end(s, i + 2, q)
        } else {
            i + 1
        }
    } else {
        quoted_end(s, i + 1, q)
    }
}

/// Where a `[...]` identifier stops, scanning from `i` (just past the `[`).
pub open spec fn bracket_end(s: Seq<char>, i: int) -> int
    decreases s.len() - i,
{
    if 0 <= i < s.len() && s[i] != ']' {
        bracket_end(s, i + 1)
    } else if 0 <= i < s.len() {
        i + 1
    } else {
        i
    }
}

/// The token that starts at `i`: where it ends and what it is.
pub open spec fn token_at(s: Seq<char>, i: int) -> (int, Kind) {
    let c = s[i];
    if is_gap(c) {
        (gap_end(s, i), Kind::Space)
    } else if c == '-' && i + 1 < s.len() && s[i + 1] == '-' {
        (line_end(s, i), Kind::Comment)
    } else if c == '/' && i + 1 < s.len() && s[i + 1] == '*' {
        let close = block_close(s, i + 2) + 2;
        (if close < s.len() { close } else { s.len() as int }, Kind::Comment)
    } else if c == '\'' {
        (quoted_end(s, i + 1, c), Kind::Literal)
    } else if c == '"' || c == '`' {
        (quoted_end(s, i + 1, c), Kind::Quoted)
    } else if c == '[' {
        (bracket_end(s, i + 1), Kind::Quoted)
    } else if is_word_char(c) {
        (word_end(s, i), Kind::Word)
    } else {
        (i + 1, Kind::Punct)
    }
}

proof fn lemma_gap_end(s: Seq<char>, i: int)
    requires
        0 <= i <= s.len(),
    ensures
        i <= gap_end(s, i) <= s.len(),
    decreases s.len() - i,
{
    if i < s.len() && is_gap(s[i]) {
        lemma_gap_end(s, i + 1);
    }
}

proof fn lemma_word_end(s: Seq<char>, i: int)
    requires
        0 <= i <= s.len(),
    ensures
        i <= word_end(s, i) <= s.len(),
    decreases s.len() - i,
{
    if i < s.len() && is_word_char(s[i]) {
        lemma_word_end(s, i + 1);
    }
}

proof fn lemma_line_end(s: Seq<char>, i: int)
    requires
        0 <= i <= s.len(),
    ensures
        i <= line_end(s, i) <= s.len(),
    decreases s.len() - i,
{
    if i < s.len() && s[i] != '\n' {
        lemma_line_end(s, i + 1);
    }
}

proof fn lemma_block_close(s: Seq<char>, i: int)
    requires
        0 <= i <= s.len(),
    ensures
        i <= block_close(s, i) <= s.len(),
    decreases s.len() - i,
{
    if i < s.len() && !(s[i] == '*' && i + 1 < s.len() && s[i + 1] == '/') {
        lemma_block_close(s, i + 1);
    }
}

proof fn lemma_quoted_end(s: Seq<char>, i: int, q: char)
    requires
        0 <= i <= s.len(),
    ensures
        i <= quoted_end(s, i, q) <= s.len(),
    decreases s.len() - i,
{
    if i < s.len() {
        if s[i] == q {
            if i + 1 < s.len() && s[i + 1] == q {
                lemma_quoted_end(s, i + 2, q);
            }
        } else {
            lemma_quoted_end(s, i + 1, q);
        }
    }
}

proof fn lemma_bracket_end(s: Seq<char>, i: int)
    requires
        0 <= i <= s.len(),
    ensures
        i <= bracket_end(s, i) <= s.len(),
    decreases s.len() - i,
{
    if i < s.len() && s[i] != ']' {
        lemma_bracket_end(s, i + 1);
    }
}

/// Every token is at least one character long and ends inside the text.
pub proof fn lemma_token_at(s: Seq<char>, i: int)
    requires
        0 <= i < s.len(),
    ensures
        i < token_at(s, i).0 <= s.len(),
{
    let c = s[i];
    lemma_gap_end(s, i);
    lemma_word_end(s, i);
    lemma_line_end(s, i);
    lemma_quoted_end(s, i + 1, c);
    lemma_bracket_end(s, i + 1);
    if c == '/' && i + 1 < s.len() && s[i + 1] == '*' {
        lemma_block_close(s, i + 2);
    }
    if is_gap(c) {
        assert(gap_end(s, i) == gap_end(s, i + 1));
        lemma_gap_end(s, i + 1);
    } else if is_word_char(c) {
        assert(word_end(s, i) == word_end(s, i + 1));
        lemma_word_end(s, i + 1);
    }
    if c == '-' && i + 1 < s.len() && s[i + 1] == '-' {
        assert(line_end(s, i) == line_end(s, i + 1));
        lemma_line_end(s, i + 1);
    }
}

/// The tokens of `s` from position `i` on, in order.
pub open spec fn tokens_from(s: Seq<char>, i: int) -> Seq<SpecToken>
    decreases s.len() - i,
{
    if i < 0 || i >= s.len() {
        Seq::empty()
    } else {
        let (end, kind) = token_at(s, i);
        proof {
            lemma_token_at(s, i);
        }
        seq![(i, end, kind)] + tokens_from(s, end)
    }
}

/// The tokens of the whole of `s`.
pub open spec fn tokens(s: Seq<char>) -> Seq<SpecToken> {
    tokens_from(s, 0)
}

/// The text a token covers.
pub open spec fn token_text(s: Seq<char>, t: SpecToken) -> Seq<char> {
    s.subrange(t.0, t.1)
}

fn gap_char(c: char) -> (r: bool)
    ensures
        r == is_gap(c),
{
    c == ' ' || c == '\t' || c == '\r' || c == '\n'
}

fn word_char(c: char) -> (r: bool)
    ensures
        r == is_word_char(c),
{
    ('a' <= c && c <= 'z') || ('A' <= c && c <= 'Z') || ('0' <= c && c <= '9') || c == '_' || c
        == '$'
}

/// The end and kind of the token that starts at `i`.
fn scan_token(s: &Vec<char>, i: usize) -> (r: (usize, Kind))
    requires
        i < s.len(),
    ensures
        (r.0 as int, r.1) == token_at(s@, i as int),
{
    let len = s.len();
    let c = s[i];
    let mut index = i;
    if gap_char(c) {
        while index < len && gap_char(s[index])
            invariant
                i <= index <= len,
                len == s.len(),
                gap_end(s@, index as int) == gap_end(s@, i as int),
            decreases len - index,
        {
            index = index + 1;
        }
        (index, Kind::Space)
    } else if c == '-' && i + 1 < len && s[i + 1] == '-' {
        while index < len && s[index] != '\n'
            invariant
                i <= index <= len,
                len == s.len(),
                line_end(s@, index as int) == line_end(s@, i as int),
            decreases len - index,
        {
            index = index + 1;
        }
        (index, Kind::Comment)
    } else if c == '/' && i + 1 < len && s[i + 1] == '*' {
        index = i + 2;
        while index < len && !(s[index] == '*' && index + 1 < len && s[index + 1] == '/')
            invariant
                i + 2 <= index <= len,
                len == s.len(),
                block_close(s@, index as int) == block_close(s@, i + 2),
            decreases len - index,
        {
            index = index + 1;
        }
        let end = if len >= 2 && index < len - 2 {
            index + 2
        } else {
            len
        };
        (end, Kind::Comment)
    } else if c == '\'' || c == '"' || c == '`' {
        index = i + 1;
        proof {
            lemma_quoted_end(s@, index as int, c);
        }
        while index < len
            invariant
                i + 1 <= index <= len,
                i < len,
                len == s.len(),
                c == s@[i as int],
                c == '\'' || c == '"' || c == '`',
                quoted_end(s@, index as int, c) == quoted_end(s@, i + 1, c),
            decreases len - index,
        {
            if s[index] == c {
                if index + 1 < len && s[index + 1] == c {
                    index = index + 2;
                    continue;
                }
                let kind = if c == '\'' {
                    Kind::Literal
                } else {
                    Kind::Quoted
                };
                assert(quoted_end(s@, index as int, c) == index + 1);
                return (index + 1, kind);
            }
            index = index + 1;
        }
        let kind = if c == '\'' {
            Kind::Literal
        } else {
            Kind::Quoted
        };
        (index, kind)
    } else if c == '[' {
        index = i + 1;
        while index < len && s[index] != ']'
            invariant
                i + 1 <= index <= len,
                len == s.len(),
                bracket_end(s@, index as int) == bracket_end(s@, i + 1),
            decreases len - index,
        {
            index = index + 1;
        }
        if index < len {
            index = index + 1;
        }
        (index, Kind::Quoted)
    } else if word_char(c) {
        while index < len && word_char(s[index])
            invariant
                i <= index <= len,
                len == s.len(),
                word_end(s@, index as int) == word_end(s@, i as int),
            decreases len - index,
        {
            index = index + 1;
        }
        (index, Kind::Word)
    } else {
        (i + 1, Kind::Punct)
    }
}

/// Split `s` into tokens, treating comments and string literals as opaque so
/// nothing inside them is mistaken for a name.
pub fn tokenize(s: &Vec<char>) -> (r: Vec<Token>)
    ensures
        spec_tokens(r@) == tokens(s@),
{
    let mut out: Vec<Token> = Vec::new();
    let mut index: usize = 0;
    while index < s.len()
        invariant
            index <= s.len(),
            spec_tokens(out@) + tokens_from(s@, index as int) == tokens(s@),
        decreases s.len() - index,
    {
        let (end, kind) = scan_token(s, index);
        proof {
            lemma_token_at(s@, index as int);
        }
        let ghost before = spec_tokens(out@);
        out.push(Token { start: index, end, kind });
        assert(spec_tokens(out@) =~= before.push((index as int, end as int, kind)));
        assert(tokens_from(s@, index as int) =~= seq![(index as int, end as int, kind)]
            + tokens_from(s@, end as int));
        assert(spec_tokens(out@) + tokens_from(s@, end as int) =~= before + tokens_from(
            s@,
            index as int,
        ));
        index = end;
    }
    assert(spec_tokens(out@) + tokens_from(s@, index as int) =~= spec_tokens(out@));
    out
}

/// The text each token of `t` covers, laid end to end.
pub open spec fn concat_texts(s: Seq<char>, t: Seq<SpecToken>) -> Seq<char>
    decreases t.len(),
{
    if t.len() == 0 {
        Seq::empty()
    } else {
        token_text(s, t[0]) + concat_texts(s, t.drop_first())
    }
}

/// Tokens cover the text they were scanned from, in order and without gaps.
pub proof fn lemma_tokens_cover(s: Seq<char>, i: int)
    requires
        0 <= i <= s.len(),
    ensures
        concat_texts(s, tokens_from(s, i)) == s.subrange(i, s.len() as int),
        forall|k: int|
            0 <= k < tokens_from(s, i).len() ==> i <= #[trigger] tokens_from(s, i)[k].0
                < tokens_from(s, i)[k].1 <= s.len(),
    decreases s.len() - i,
{
    if i < s.len() {
        lemma_token_at(s, i);
        let end = token_at(s, i).0;
        lemma_tokens_cover(s, end);
        let t = tokens_from(s, i);
        assert(t.drop_first() =~= tokens_from(s, end));
        assert(s.subrange(i, s.len() as int) =~= s.subrange(i, end) + s.subrange(
            end,
            s.len() as int,
        ));
        assert forall|k: int| 0 <= k < t.len() implies i <= #[trigger] t[k].0 < t[k].1
            <= s.len() by {
            if k > 0 {
                assert(t[k] == tokens_from(s, end)[k - 1]);
            }
        }
    } else {
        assert(s.subrange(i, s.len() as int) =~= Seq::<char>::empty());
    }
}

/// Whether `name` can be written bare, without quotes.
pub open spec fn bare(name: Seq<char>) -> bool {
    name.len() > 0 && (text::is_alpha(name[0]) || name[0] == '_') && forall|i: int|
        0 <= i < name.len() ==> text::is_alnum(#[trigger] name[i]) || name[i] == '_'
}

/// Whether `name` can be written bare, without quotes.
pub fn is_bare(name: &Vec<char>) -> (r: bool)
    ensures
        r == bare(name@),
{
    if name.len() == 0 {
        return false;
    }
    let first = name[0];
    if !(('a' <= first && first <= 'z') || ('A' <= first && first <= 'Z') || first == '_') {
        return false;
    }
    let mut i: usize = 0;
    while i < name.len()
        invariant
            i <= name.len(),
            forall|j: int| 0 <= j < i ==> text::is_alnum(#[trigger] name@[j]) || name@[j] == '_',
        decreases name.len() - i,
    {
        let c = name[i];
        if !(('a' <= c && c <= 'z') || ('A' <= c && c <= 'Z') || ('0' <= c && c <= '9') || c
            == '_') {
            return false;
        }
        i = i + 1;
    }
    true
}

/// `s` with every `q` written twice, the way a quoted identifier escapes its
/// own quote.
pub open spec fn doubled(s: Seq<char>, q: char) -> Seq<char>
    decreases s.len(),
{
    if s.len() == 0 {
        Seq::empty()
    } else {
        (if s[0] == q {
            seq![q, q]
        } else {
            seq![s[0]]
        }) + doubled(s.drop_first(), q)
    }
}

/// `s` with each doubled `q` read back as one, scanning left to right the way
/// `str::replace` does.
pub open spec fn undoubled(s: Seq<char>, q: char) -> Seq<char>
    decreases s.len(),
{
    if s.len() == 0 {
        Seq::empty()
    } else if s.len() >= 2 && s[0] == q && s[1] == q {
        seq![q] + undoubled(s.skip(2), q)
    } else {
        seq![s[0]] + undoubled(s.drop_first(), q)
    }
}

proof fn lemma_doubled_push(s: Seq<char>, c: char, q: char)
    ensures
        doubled(s.push(c), q) == doubled(s, q) + (if c == q {
            seq![q, q]
        } else {
            seq![c]
        }),
    decreases s.len(),
{
    if s.len() == 0 {
        assert(s.push(c).drop_first() =~= Seq::<char>::empty());
        assert(doubled(Seq::<char>::empty(), q) =~= Seq::<char>::empty());
    } else {
        assert(s.push(c).drop_first() =~= s.drop_first().push(c));
        lemma_doubled_push(s.drop_first(), c, q);
    }
}

/// `v`'s characters with every `q` doubled, appended to `out`.
fn push_doubled(out: &mut Vec<char>, v: &Vec<char>, q: char)
    ensures
        final(out)@ == old(out)@ + doubled(v@, q),
{
    let mut i: usize = 0;
    while i < v.len()
        invariant
            i <= v.len(),
            out@ == old(out)@ + doubled(v@.take(i as int), q),
        decreases v.len() - i,
    {
        proof {
            lemma_doubled_push(v@.take(i as int), v@[i as int], q);
            assert(v@.take(i + 1) =~= v@.take(i as int).push(v@[i as int]));
        }
        if v[i] == q {
            out.push(q);
            out.push(q);
        } else {
            out.push(v[i]);
        }
        i = i + 1;
        assert(out@ =~= old(out)@ + doubled(v@.take(i as int), q));
    }
    assert(v@.take(v.len() as int) =~= v@);
}

/// `value` quoted the way `original` was, so a rewrite keeps the stored SQL's
/// own style.
pub open spec fn quoted_like(original: Seq<char>, value: Seq<char>) -> Seq<char> {
    if original.len() > 0 && original[0] == '[' {
        seq!['['] + value + seq![']']
    } else if original.len() > 0 && original[0] == '`' {
        seq!['`'] + doubled(value, '`') + seq!['`']
    } else {
        seq!['"'] + doubled(value, '"') + seq!['"']
    }
}

/// `value` quoted the way `original` was.
pub fn quote_like(original: &Vec<char>, value: &Vec<char>) -> (r: Vec<char>)
    ensures
        r@ == quoted_like(original@, value@),
{
    let mut out: Vec<char> = Vec::new();
    if original.len() > 0 && original[0] == '[' {
        out.push('[');
        let mut i: usize = 0;
        while i < value.len()
            invariant
                i <= value.len(),
                out@ == seq!['['] + value@.take(i as int),
            decreases value.len() - i,
        {
            out.push(value[i]);
            i = i + 1;
            assert(out@ =~= seq!['['] + value@.take(i as int));
        }
        assert(value@.take(value.len() as int) =~= value@);
        out.push(']');
    } else {
        let q = if original.len() > 0 && original[0] == '`' {
            '`'
        } else {
            '"'
        };
        out.push(q);
        push_doubled(&mut out, value, q);
        out.push(q);
    }
    out
}

/// The identifier `text` holds, with its quotes removed and a doubled quote
/// read back as one; anything not quoted comes back as it is.
pub open spec fn unquoted(text: Seq<char>) -> Seq<char> {
    if text.len() == 0 {
        Seq::empty()
    } else {
        let q = text[0];
        let close = if q == '[' {
            ']'
        } else {
            q
        };
        if !(q == '"' || q == '`' || q == '[' || q == '\'') || text.len() < 2 || text.last()
            != close {
            text
        } else {
            undoubled(text.subrange(1, text.len() - 1), q)
        }
    }
}

proof fn lemma_undoubled_step(s: Seq<char>, i: int, q: char)
    requires
        0 <= i < s.len(),
    ensures
        i + 1 < s.len() && s[i] == q && s[i + 1] == q ==> undoubled(s.skip(i), q) == seq![q]
            + undoubled(s.skip(i + 2), q),
        !(i + 1 < s.len() && s[i] == q && s[i + 1] == q) ==> undoubled(s.skip(i), q) == seq![
            s[i],
        ] + undoubled(s.skip(i + 1), q),
{
    let t = s.skip(i);
    assert(t.len() > 0);
    assert(t[0] == s[i]);
    if i + 1 < s.len() && s[i] == q && s[i + 1] == q {
        assert(t[1] == s[i + 1]);
        assert(t.skip(2) =~= s.skip(i + 2));
    } else {
        assert(t.drop_first() =~= s.skip(i + 1));
        if t.len() >= 2 {
            assert(t[1] == s[i + 1]);
        }
    }
}

/// The identifier `text` holds.
pub fn unquote(text: &Vec<char>) -> (r: Vec<char>)
    ensures
        r@ == unquoted(text@),
{
    let n = text.len();
    if n == 0 {
        return Vec::new();
    }
    let q = text[0];
    let close = if q == '[' {
        ']'
    } else {
        q
    };
    if !(q == '"' || q == '`' || q == '[' || q == '\'') || n < 2 || text[n - 1] != close {
        return text.clone();
    }
    let ghost inner = text@.subrange(1, n - 1);
    let mut out: Vec<char> = Vec::new();
    let mut i: usize = 1;
    assert(inner.skip(0) =~= inner);
    while i < n - 1
        invariant
            n == text.len(),
            n >= 2,
            1 <= i <= n - 1,
            inner == text@.subrange(1, n - 1),
            out@ + undoubled(inner.skip(i - 1), q) == undoubled(inner, q),
        decreases n - i,
    {
        proof {
            lemma_undoubled_step(inner, i - 1, q);
        }
        if i + 1 < n - 1 && text[i] == q && text[i + 1] == q {
            out.push(q);
            assert(out@ + undoubled(inner.skip(i + 1), q) =~= undoubled(inner, q));
            i = i + 2;
        } else {
            out.push(text[i]);
            assert(out@ + undoubled(inner.skip(i as int), q) =~= undoubled(inner, q));
            i = i + 1;
        }
    }
    assert(inner.skip(i - 1) =~= Seq::<char>::empty());
    assert(out@ =~= undoubled(inner, q));
    out
}


/// The characters `start..end` of `v`.
pub fn slice(v: &Vec<char>, start: usize, end: usize) -> (r: Vec<char>)
    requires
        start <= end <= v.len(),
    ensures
        r@ == v@.subrange(start as int, end as int),
{
    let mut r: Vec<char> = Vec::new();
    let mut i: usize = start;
    while i < end
        invariant
            start <= i <= end <= v.len(),
            r@ == v@.subrange(start as int, i as int),
        decreases end - i,
    {
        r.push(v[i]);
        i = i + 1;
        assert(r@ =~= v@.subrange(start as int, i as int));
    }
    r
}

/// Every token of `s` lies inside it.
pub proof fn lemma_tokens_in_bounds(s: Seq<char>)
    ensures
        forall|k: int|
            0 <= k < tokens(s).len() ==> 0 <= (#[trigger] tokens(s)[k]).0 < tokens(s)[k].1
                <= s.len(),
{
    lemma_tokens_cover(s, 0);
}

/// Whether token `t` of `s` names `identifier`, quoted or not, in any ASCII
/// case.
pub open spec fn names(s: Seq<char>, t: SpecToken, identifier: Seq<char>) -> bool {
    (t.2 == Kind::Word || t.2 == Kind::Quoted) && text::eq_ignore_case(
        unquoted(token_text(s, t)),
        identifier,
    )
}

/// Whether `sql` names `identifier` anywhere outside a string or a comment.
pub open spec fn mentions_spec(sql: Seq<char>, identifier: Seq<char>) -> bool {
    exists|k: int| 0 <= k < tokens(sql).len() && #[trigger] names(sql, tokens(sql)[k], identifier)
}

/// Whether `sql` names `identifier` anywhere outside a string or a comment.
pub fn mentions(sql: &str, identifier: &str) -> (r: bool)
    ensures
        r == mentions_spec(sql@, identifier@),
{
    let s = chars_of(sql);
    let ident = chars_of(identifier);
    let toks = tokenize(&s);
    proof {
        lemma_tokens_in_bounds(s@);
    }
    let mut k: usize = 0;
    while k < toks.len()
        invariant
            s@ == sql@,
            ident@ == identifier@,
            spec_tokens(toks@) == tokens(s@),
            forall|j: int|
                0 <= j < tokens(s@).len() ==> 0 <= (#[trigger] tokens(s@)[j]).0 < tokens(s@)[j].1
                    <= s@.len(),
            k <= toks.len(),
            forall|j: int| 0 <= j < k ==> !#[trigger] names(s@, tokens(s@)[j], ident@),
        decreases toks.len() - k,
    {
        let t = toks[k];
        assert(spec_tokens(toks@).len() == toks@.len());
        assert(t.spec() == tokens(s@)[k as int]);
        if t.kind == Kind::Word || t.kind == Kind::Quoted {
            let piece = slice(&s, t.start, t.end);
            let name = unquote(&piece);
            if chars_eq_ignore_case(&name, &ident) {
                assert(names(s@, tokens(s@)[k as int], ident@));
                return true;
            }
        }
        k = k + 1;
    }
    false
}

/// The new name of the first rename whose old name is `identifier`, in any
/// ASCII case.
pub open spec fn find_rename(renames: Seq<(Seq<char>, Seq<char>)>, identifier: Seq<char>) -> Option<
    Seq<char>,
>
    decreases renames.len(),
{
    if renames.len() == 0 {
        None
    } else if text::eq_ignore_case(renames[0].0, identifier) {
        Some(renames[0].1)
    } else {
        find_rename(renames.drop_first(), identifier)
    }
}

/// The old and new names of each rename.
pub open spec fn rename_views(v: Seq<(String, String)>) -> Seq<(Seq<char>, Seq<char>)> {
    v.map_values(|p: (String, String)| (p.0@, p.1@))
}

/// The new name `renames` gives `identifier`, if any.
pub fn lookup_rename(renames: &Vec<(String, String)>, identifier: &Vec<char>) -> (r: Option<
    Vec<char>,
>)
    ensures
        match r {
            Some(v) => find_rename(rename_views(renames@), identifier@) == Some(v@),
            None => find_rename(rename_views(renames@), identifier@) is None,
        },
{
    let ghost all = rename_views(renames@);
    let mut i: usize = 0;
    assert(all.skip(0) =~= all);
    while i < renames.len()
        invariant
            i <= renames.len(),
            all == rename_views(renames@),
            find_rename(all, identifier@) == find_rename(all.skip(i as int), identifier@),
        decreases renames.len() - i,
    {
        let old = chars_of(renames[i].0.as_str());
        assert(all.skip(i as int)[0] == all[i as int]);
        if chars_eq_ignore_case(&old, identifier) {
            let new = chars_of(renames[i].1.as_str());
            return Some(new);
        }
        assert(all.skip(i as int).drop_first() =~= all.skip(i + 1));
        i = i + 1;
    }
    None
}

/// What token `t` of `s` becomes once `renames` are applied: a renamed
/// identifier swapped for its new name, quoted the way it was (or only when it
/// has to be, for a bare word); every other token as it stands.
pub open spec fn replacement(
    s: Seq<char>,
    t: SpecToken,
    renames: Seq<(Seq<char>, Seq<char>)>,
) -> Seq<char> {
    let text = token_text(s, t);
    if t.2 == Kind::Word || t.2 == Kind::Quoted {
        match find_rename(renames, unquoted(text)) {
            Some(new) => if t.2 == Kind::Quoted {
                quoted_like(text, new)
            } else if bare(new) {
                new
            } else {
                quoted_like(seq!['"', '"'], new)
            },
            None => text,
        }
    } else {
        text
    }
}

/// The replacements of tokens `t`, laid end to end.
pub open spec fn rewrite_tokens(
    s: Seq<char>,
    t: Seq<SpecToken>,
    renames: Seq<(Seq<char>, Seq<char>)>,
) -> Seq<char>
    decreases t.len(),
{
    if t.len() == 0 {
        Seq::empty()
    } else {
        rewrite_tokens(s, t.drop_last(), renames) + replacement(s, t.last(), renames)
    }
}

/// `sql` with every identifier that names a renamed column swapped for its
/// new name.
pub open spec fn rewritten(sql: Seq<char>, renames: Seq<(Seq<char>, Seq<char>)>) -> Seq<char> {
    if renames.len() == 0 {
        sql
    } else {
        rewrite_tokens(sql, tokens(sql), renames)
    }
}

fn push_chars(out: &mut Vec<char>, v: &Vec<char>)
    ensures
        final(out)@ == old(out)@ + v@,
{
    let mut i: usize = 0;
    while i < v.len()
        invariant
            i <= v.len(),
            out@ == old(out)@ + v@.take(i as int),
        decreases v.len() - i,
    {
        out.push(v[i]);
        i = i + 1;
        assert(out@ =~= old(out)@ + v@.take(i as int));
    }
    assert(v@.take(v.len() as int) =~= v@);
}

/// `sql` with every identifier that names a renamed column swapped for its
/// new name, so a stored index, trigger, or view follows the rename it was
/// written for.
pub fn rewrite_identifiers(sql: &str, renames: &Vec<(String, String)>) -> (r: String)
    ensures
        r@ == rewritten(sql@, rename_views(renames@)),
{
    if renames.len() == 0 {
        return String::from_str(sql);
    }
    let s = chars_of(sql);
    let toks = tokenize(&s);
    proof {
        lemma_tokens_in_bounds(s@);
    }
    let ghost all = rename_views(renames@);
    let mut out: Vec<char> = Vec::new();
    let mut k: usize = 0;
    while k < toks.len()
        invariant
            s@ == sql@,
            all == rename_views(renames@),
            spec_tokens(toks@) == tokens(s@),
            forall|j: int|
                0 <= j < tokens(s@).len() ==> 0 <= (#[trigger] tokens(s@)[j]).0 < tokens(s@)[j].1
                    <= s@.len(),
            k <= toks.len(),
            out@ == rewrite_tokens(s@, tokens(s@).take(k as int), all),
        decreases toks.len() - k,
    {
        let t = toks[k];
        assert(spec_tokens(toks@).len() == toks@.len());
        assert(t.spec() == tokens(s@)[k as int]);
        let piece = slice(&s, t.start, t.end);
        let ghost before = out@;
        if t.kind == Kind::Word || t.kind == Kind::Quoted {
            let name = unquote(&piece);
            match lookup_rename(renames, &name) {
                Some(new) => {
                    if t.kind == Kind::Quoted {
                        let q = quote_like(&piece, &new);
                        push_chars(&mut out, &q);
                    } else if is_bare(&new) {
                        push_chars(&mut out, &new);
                    } else {
                        let mut plain: Vec<char> = Vec::new();
                        plain.push('"');
                        plain.push('"');
                        assert(plain@ =~= seq!['"', '"']);
                        let q = quote_like(&plain, &new);
                        push_chars(&mut out, &q);
                    }
                },
                None => {
                    push_chars(&mut out, &piece);
                },
            }
        } else {
            push_chars(&mut out, &piece);
        }
        assert(out@ == before + replacement(s@, tokens(s@)[k as int], all));
        assert(tokens(s@).take(k + 1).drop_last() =~= tokens(s@).take(k as int));
        k = k + 1;
    }
    assert(tokens(s@).take(toks.len() as int) =~= tokens(s@));
    string_of(&out)
}

/// The words of `s` outside strings and comments, raised to upper case.
pub open spec fn words_of(s: Seq<char>, t: Seq<SpecToken>) -> Seq<Seq<char>>
    decreases t.len(),
{
    if t.len() == 0 {
        Seq::empty()
    } else if t.last().2 == Kind::Word {
        words_of(s, t.drop_last()).push(text::upper_seq(token_text(s, t.last())))
    } else {
        words_of(s, t.drop_last())
    }
}

/// The words of `s` outside strings and comments, raised to upper case.
pub open spec fn words(s: Seq<char>) -> Seq<Seq<char>> {
    words_of(s, tokens(s))
}

/// The words of `sql`, raised to upper case.
pub fn upper_words(sql: &str) -> (r: Vec<Vec<char>>)
    ensures
        r@.map_values(|w: Vec<char>| w@) == words(sql@),
{
    let s = chars_of(sql);
    let toks = tokenize(&s);
    proof {
        lemma_tokens_in_bounds(s@);
    }
    let mut out: Vec<Vec<char>> = Vec::new();
    let mut k: usize = 0;
    while k < toks.len()
        invariant
            s@ == sql@,
            spec_tokens(toks@) == tokens(s@),
            forall|j: int|
                0 <= j < tokens(s@).len() ==> 0 <= (#[trigger] tokens(s@)[j]).0 < tokens(s@)[j].1
                    <= s@.len(),
            k <= toks.len(),
            out@.map_values(|w: Vec<char>| w@) == words_of(s@, tokens(s@).take(k as int)),
        decreases toks.len() - k,
    {
        let t = toks[k];
        assert(spec_tokens(toks@).len() == toks@.len());
        assert(t.spec() == tokens(s@)[k as int]);
        assert(tokens(s@).take(k + 1).drop_last() =~= tokens(s@).take(k as int));
        if t.kind == Kind::Word {
            let piece = slice(&s, t.start, t.end);
            let up = text::upper_chars(&piece);
            let ghost before = out@.map_values(|w: Vec<char>| w@);
            out.push(up);
            assert(out@.map_values(|w: Vec<char>| w@) =~= before.push(up@));
        }
        k = k + 1;
    }
    assert(tokens(s@).take(toks.len() as int) =~= tokens(s@));
    out
}

/// Tokens, laid end to end, give back exactly the text they were scanned
/// from: nothing is dropped, repeated, or reordered.
pub proof fn tokens_rebuild_the_text(s: Seq<char>)
    ensures
        concat_texts(s, tokens(s)) == s,
{
    lemma_tokens_cover(s, 0);
    assert(s.subrange(0, s.len() as int) =~= s);
}

proof fn lemma_undoubled_doubled(s: Seq<char>, q: char)
    ensures
        undoubled(doubled(s, q), q) == s,
    decreases s.len(),
{
    if s.len() > 0 {
        lemma_undoubled_doubled(s.drop_first(), q);
        let d = doubled(s, q);
        let rest = doubled(s.drop_first(), q);
        if s[0] == q {
            assert(d =~= seq![q, q] + rest);
            assert(d.skip(2) =~= rest);
        } else {
            assert(d =~= seq![s[0]] + rest);
            assert(d.drop_first() =~= rest);
        }
        assert(s =~= seq![s[0]] + s.drop_first());
    }
}

/// An identifier quoted for any engine reads back as the very name it was
/// quoted from.
pub proof fn unquote_reads_back_quoted(name: Seq<char>, engine: Engine)
    ensures
        unquoted(db::quoted(name, engine)) == name,
{
    if !bare(name) {
        let q = db::quote_char(engine);
        let t = seq![q] + doubled(name, q) + seq![q];
        assert(t[0] == q);
        assert(t.last() == q);
        assert(t.subrange(1, t.len() - 1) =~= doubled(name, q));
        lemma_undoubled_doubled(name, q);
    }
}

proof fn lemma_concat_texts_push(s: Seq<char>, t: Seq<SpecToken>, x: SpecToken)
    ensures
        concat_texts(s, t.push(x)) == concat_texts(s, t) + token_text(s, x),
    decreases t.len(),
{
    if t.len() == 0 {
        assert(t.push(x).drop_first() =~= Seq::<SpecToken>::empty());
        assert(t.push(x)[0] == x);
        assert(concat_texts(s, Seq::<SpecToken>::empty()) == Seq::<char>::empty());
        assert(concat_texts(s, t) == Seq::<char>::empty());
        assert(token_text(s, x) + Seq::<char>::empty() =~= token_text(s, x));
        assert(Seq::<char>::empty() + token_text(s, x) =~= token_text(s, x));
    } else {
        lemma_concat_texts_push(s, t.drop_first(), x);
        assert(t.push(x).drop_first() =~= t.drop_first().push(x));
        assert(t.push(x)[0] == t[0]);
        let a = token_text(s, t[0]);
        let b = concat_texts(s, t.drop_first());
        let c = token_text(s, x);
        assert(concat_texts(s, t.push(x)) == a + concat_texts(s, t.push(x).drop_first()));
        assert(concat_texts(s, t) == a + b);
        assert(a + (b + c) =~= (a + b) + c);
    }
}

proof fn lemma_rewrite_unchanged(
    s: Seq<char>,
    t: Seq<SpecToken>,
    renames: Seq<(Seq<char>, Seq<char>)>,
)
    requires
        forall|k: int|
            0 <= k < t.len() ==> replacement(s, #[trigger] t[k], renames) == token_text(s, t[k]),
    ensures
        rewrite_tokens(s, t, renames) == concat_texts(s, t),
    decreases t.len(),
{
    if t.len() > 0 {
        assert forall|k: int| 0 <= k < t.drop_last().len() implies replacement(
            s,
            #[trigger] t.drop_last()[k],
            renames,
        ) == token_text(s, t.drop_last()[k]) by {
            assert(t.drop_last()[k] == t[k]);
        }
        lemma_rewrite_unchanged(s, t.drop_last(), renames);
        lemma_concat_texts_push(s, t.drop_last(), t.last());
        assert(t.drop_last().push(t.last()) =~= t);
        assert(replacement(s, t[t.len() - 1], renames) == token_text(s, t[t.len() - 1]));
    }
}

proof fn lemma_find_rename_none(renames: Seq<(Seq<char>, Seq<char>)>, x: Seq<char>)
    requires
        forall|i: int| 0 <= i < renames.len() ==> !text::eq_ignore_case(#[trigger] renames[i].0, x),
    ensures
        find_rename(renames, x) is None,
    decreases renames.len(),
{
    if renames.len() > 0 {
        assert(!text::eq_ignore_case(renames[0].0, x));
        assert forall|i: int| 0 <= i < renames.drop_first().len() implies !text::eq_ignore_case(
            #[trigger] renames.drop_first()[i].0,
            x,
        ) by {
            assert(renames.drop_first()[i] == renames[i + 1]);
        }
        lemma_find_rename_none(renames.drop_first(), x);
    }
}

/// Renames none of whose old names `sql` mentions (outside strings and
/// comments, in any ASCII case) leave it exactly as it was.
pub proof fn unmentioned_renames_change_nothing(
    sql: Seq<char>,
    renames: Seq<(Seq<char>, Seq<char>)>,
)
    requires
        forall|i: int| 0 <= i < renames.len() ==> !mentions_spec(sql, #[trigger] renames[i].0),
    ensures
        rewritten(sql, renames) == sql,
{
    if renames.len() > 0 {
        let t = tokens(sql);
        assert forall|k: int| 0 <= k < t.len() implies replacement(sql, #[trigger] t[k], renames)
            == token_text(sql, t[k]) by {
            if t[k].2 == Kind::Word || t[k].2 == Kind::Quoted {
                let x = unquoted(token_text(sql, t[k]));
                assert forall|i: int| 0 <= i < renames.len() implies !text::eq_ignore_case(
                    #[trigger] renames[i].0,
                    x,
                ) by {
                    let old = renames[i].0;
                    if text::eq_ignore_case(old, x) {
                        assert forall|j: int| 0 <= j < x.len() implies text::lower(#[trigger] x[j])
                            == text::lower(old[j]) by {
                            assert(text::lower(old[j]) == text::lower(x[j]));
                        }
                        assert(names(sql, t[k], old));
                        assert(mentions_spec(sql, old));
                    }
                }
                lemma_find_rename_none(renames, x);
            }
        }
        lemma_rewrite_unchanged(sql, t, renames);
        tokens_rebuild_the_text(sql);
    }
}

/// Pieces of text laid end to end.
pub open spec fn joined(pieces: Seq<Seq<char>>) -> Seq<char>
    decreases pieces.len(),
{
    if pieces.len() == 0 {
        Seq::empty()
    } else {
        joined(pieces.drop_last()) + pieces.last()
    }
}

/// Whether `v` holds `q` twice running.
pub open spec fn has_pair(v: Seq<char>, q: char) -> bool {
    exists|i: int| 0 <= i < v.len() - 1 && v[i] == q && #[trigger] v[i + 1] == q
}

/// Whether `piece` is a right rewrite of token `t` of `s` under `renames`:
/// a word or quoted identifier naming a renamed column becomes text that
/// reads back as the new name (a quoted one in the same quotes, unless a
/// bracketed name is renamed to one holding `[[`, which brackets cannot
/// tell from an escaped `[`); every other token stays as it is.
pub open spec fn rewrites_token(
    s: Seq<char>,
    t: SpecToken,
    renames: Seq<(Seq<char>, Seq<char>)>,
    piece: Seq<char>,
) -> bool {
    let text = token_text(s, t);
    if (t.2 == Kind::Word || t.2 == Kind::Quoted) && find_rename(renames, unquoted(text)) is Some {
        let new = find_rename(renames, unquoted(text))->0;
        &&& (t.2 == Kind::Quoted ==> piece.len() > 0 && piece[0] == text[0])
        &&& (unquoted(piece) == new || (t.2 == Kind::Quoted && text[0] == '[' && has_pair(
            new,
            '[',
        )))
    } else {
        piece == text
    }
}

/// Every token the scanner makes records the kind of token found at its
/// start.
proof fn lemma_token_kinds(s: Seq<char>, i: int)
    requires
        0 <= i <= s.len(),
    ensures
        forall|k: int|
            0 <= k < tokens_from(s, i).len() ==> (#[trigger] tokens_from(s, i)[k]).2 == token_at(
                s,
                tokens_from(s, i)[k].0,
            ).1,
    decreases s.len() - i,
{
    if i < s.len() {
        lemma_token_at(s, i);
        let end = token_at(s, i).0;
        lemma_token_kinds(s, end);
        let t = tokens_from(s, i);
        assert forall|k: int| 0 <= k < t.len() implies (#[trigger] t[k]).2 == token_at(s, t[k].0).1 by {
            if k > 0 {
                assert(t[k] == tokens_from(s, end)[k - 1]);
            }
        }
    }
}

proof fn lemma_undoubled_no_pair(v: Seq<char>, q: char)
    requires
        !has_pair(v, q),
    ensures
        undoubled(v, q) == v,
    decreases v.len(),
{
    if v.len() > 0 {
        if v.len() >= 2 && v[0] == q && v[1] == q {
            assert(v[1] == q);
        }
        assert(!has_pair(v.drop_first(), q)) by {
            if has_pair(v.drop_first(), q) {
                let i = choose|i: int|
                    0 <= i < v.drop_first().len() - 1 && v.drop_first()[i] == q
                        && #[trigger] v.drop_first()[i + 1] == q;
                assert(v[i + 1] == q && v[(i + 1) + 1] == q);
            }
        }
        lemma_undoubled_no_pair(v.drop_first(), q);
        assert(v =~= seq![v[0]] + v.drop_first());
    }
}

/// A name quoted with `q` and its copies of `q` doubled reads back as the
/// name.
proof fn lemma_unquoted_doubled(new: Seq<char>, q: char)
    requires
        q == '"' || q == '`',
    ensures
        unquoted(seq![q] + doubled(new, q) + seq![q]) == new,
{
    let p = seq![q] + doubled(new, q) + seq![q];
    assert(p[0] == q);
    assert(p.last() == q);
    assert(p.subrange(1, p.len() - 1) =~= doubled(new, q));
    lemma_undoubled_doubled(new, q);
}

/// What `replacement` makes of a token is a right rewrite of it.
proof fn lemma_replacement_rewrites(s: Seq<char>, t: SpecToken, renames: Seq<(Seq<char>, Seq<char>)>)
    requires
        0 <= t.0 < t.1 <= s.len(),
        t.2 == token_at(s, t.0).1,
    ensures
        rewrites_token(s, t, renames, replacement(s, t, renames)),
{
    let text = token_text(s, t);
    assert(text[0] == s[t.0]);
    if (t.2 == Kind::Word || t.2 == Kind::Quoted) && find_rename(renames, unquoted(text)) is Some {
        let new = find_rename(renames, unquoted(text))->0;
        let piece = replacement(s, t, renames);
        if t.2 == Kind::Quoted {
            assert(text[0] == '"' || text[0] == '`' || text[0] == '[');
            if text[0] == '[' {
                let p = seq!['['] + new + seq![']'];
                assert(piece == p);
                assert(p.last() == ']');
                assert(p.subrange(1, p.len() - 1) =~= new);
                if !has_pair(new, '[') {
                    lemma_undoubled_no_pair(new, '[');
                }
            } else if text[0] == '`' {
                lemma_unquoted_doubled(new, '`');
            } else {
                lemma_unquoted_doubled(new, '"');
            }
        } else if bare(new) {
            assert(piece == new);
            assert(text::is_alpha(new[0]) || new[0] == '_');
        } else {
            lemma_unquoted_doubled(new, '"');
        }
    }
}

/// Rewriting tokens lays their replacements end to end.
proof fn lemma_rewrite_tokens_joined(s: Seq<char>, t: Seq<SpecToken>, renames: Seq<(Seq<char>, Seq<char>)>)
    ensures
        rewrite_tokens(s, t, renames) == joined(t.map_values(|x: SpecToken| replacement(s, x, renames))),
    decreases t.len(),
{
    if t.len() > 0 {
        lemma_rewrite_tokens_joined(s, t.drop_last(), renames);
        let m = t.map_values(|x: SpecToken| replacement(s, x, renames));
        assert(m.drop_last() =~= t.drop_last().map_values(|x: SpecToken| replacement(s, x, renames)));
        assert(m.last() == replacement(s, t.last(), renames));
    }
}

/// A rewrite swaps every identifier naming a renamed column for text that
/// reads back as its new name, a quoted one keeping its quotes, and leaves
/// every other token of `sql` (strings, comments, other names, punctuation)
/// exactly as it was, in order: the result is one piece per token, laid end
/// to end.
pub proof fn renamed_identifiers_read_as_their_new_names(
    sql: Seq<char>,
    renames: Seq<(Seq<char>, Seq<char>)>,
)
    ensures
        exists|pieces: Seq<Seq<char>>|
            pieces.len() == tokens(sql).len() && rewritten(sql, renames) == joined(pieces)
                && forall|k: int|
                0 <= k < pieces.len() ==> rewrites_token(
                    sql,
                    tokens(sql)[k],
                    renames,
                    #[trigger] pieces[k],
                ),
{
    let t = tokens(sql);
    let pieces = t.map_values(|x: SpecToken| replacement(sql, x, renames));
    lemma_tokens_cover(sql, 0);
    lemma_token_kinds(sql, 0);
    lemma_rewrite_tokens_joined(sql, t, renames);
    assert forall|k: int| 0 <= k < pieces.len() implies rewrites_token(
        sql,
        t[k],
        renames,
        #[trigger] pieces[k],
    ) by {
        lemma_replacement_rewrites(sql, t[k], renames);
    }
    if renames.len() == 0 {
        assert forall|k: int| 0 <= k < t.len() implies replacement(sql, #[trigger] t[k], renames)
            == token_text(sql, t[k]) by {}
        lemma_rewrite_unchanged(sql, t, renames);
        tokens_rebuild_the_text(sql);
    }
    assert(rewritten(sql, renames) == joined(pieces));
}

} // verus!
