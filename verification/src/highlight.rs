//! Syntax colouring of sketches in the editor: comment lines, keywords,
//! school API names and everything else.
use vstd::prelude::*;
use crate::text::{
    chars_of, contains, find, first_match, has_substring, lemma_find_from, lemma_find_from_suffix, matches_at,
    lemma_replace_all_unmatched_prefix, replace_all,
    matches_at_exec, same_chars, string_from_chars, sub_chars, trim, trim_chars,
};

verus! {

/// The colour classes of the editor.
#[derive(Clone, Copy, Debug, PartialEq, Eq, Structural)]
pub enum TokenClass {
    /// Rust keywords the school sketches use.
    Keyword,
    /// Names of the school hardware API.
    Api,
    /// Whole comment lines.
    Comment,
    /// Everything else, punctuation and line breaks included.
    Plain,
}

impl TokenClass {
    /// The colour of the class, as red, green and blue.
    pub fn rgb(&self) -> (c: (u8, u8, u8))
        ensures
            c == match *self {
                TokenClass::Keyword => (255u8, 120u8, 120u8),
                TokenClass::Api => (120u8, 200u8, 255u8),
                TokenClass::Comment => (100u8, 150u8, 100u8),
                TokenClass::Plain => (230u8, 230u8, 230u8),
            },
    {
        match self {
            TokenClass::Keyword => (255, 120, 120),
            TokenClass::Api => (120, 200, 255),
            TokenClass::Comment => (100, 150, 100),
            TokenClass::Plain => (230, 230, 230),
        }
    }
}

/// A piece of text with its colour class.
pub struct Span {
    pub text: String,
    pub class: TokenClass,
}

impl View for Span {
    type V = (Seq<char>, TokenClass);

    open spec fn view(&self) -> (Seq<char>, TokenClass) {
        (self.text@, self.class)
    }
}

/// Whether `char::is_alphanumeric` holds of `c`: Unicode `Alphabetic` or
/// `Numeric`.
pub uninterp spec fn is_alphanumeric(c: char) -> bool;

/// `char::is_alphanumeric`; the result is named by [`is_alphanumeric`], a
/// Unicode table that is not written out here. Of ASCII characters the
/// contract states the documented part: letters and digits are
/// alphanumeric, every other ASCII character is not.
#[verifier::external_body]
fn char_is_alphanumeric(c: char) -> (r: bool)
    ensures
        r == is_alphanumeric(c),
        (c as u32) < 0x80 ==> (r <==> is_ascii_alphanumeric(c)),
{
    c.is_alphanumeric()
}

/// ASCII letters and digits.
pub open spec fn is_ascii_alphanumeric(c: char) -> bool {
    let n = c as u32;
    (0x30 <= n <= 0x39) || (0x41 <= n <= 0x5a) || (0x61 <= n <= 0x7a)
}

/// Characters that make up words: alphanumeric ones and `_`.
pub open spec fn is_word_char(c: char) -> bool {
    is_alphanumeric(c) || c == '_'
}

/// Whether `c` is part of a word: alphanumeric or `_`. Of ASCII characters
/// exactly the letters, the digits and `_` are.
pub fn is_word_char_exec(c: char) -> (r: bool)
    ensures
        r == is_word_char(c),
        (c as u32) < 0x80 ==> (r <==> (is_ascii_alphanumeric(c) || c == '_')),
{
    c == '_' || char_is_alphanumeric(c)
}

/// The colour class of a word.
pub open spec fn word_class(w: Seq<char>) -> TokenClass {
    if w == "fn"@ || w == "use"@ || w == "const"@ || w == "mut"@ || w == "let"@ {
        TokenClass::Keyword
    } else if w == "digital_write"@ || w == "delay"@ || w == "digital_read"@ || w == "analog_read"@
        || w == "LED_BUILTIN"@ || has_substring(w, "school_"@) || w == "HIGH"@ || w == "LOW"@ {
        TokenClass::Api
    } else {
        TokenClass::Plain
    }
}

/// The word holds the seven characters `school_` in a row.
pub open spec fn mentions_school(w: Seq<char>) -> bool {
    exists|i: int|
        0 <= i && i + 7 <= w.len() && #[trigger] w[i] == 's' && w[i + 1] == 'c' && w[i + 2] == 'h' && w[i + 3] == 'o'
            && w[i + 4] == 'o' && w[i + 5] == 'l' && w[i + 6] == '_'
}

/// The colour classes of words: the five keywords `fn`, `use`, `const`,
/// `mut`, `let` are keywords; a word is an API name exactly when it is one
/// of `digital_write`, `delay`, `digital_read`, `analog_read`,
/// `LED_BUILTIN`, `HIGH`, `LOW` or holds `school_`; every other word is
/// plain.
pub proof fn lemma_word_classes(w: Seq<char>)
    ensures
        word_class(w) == TokenClass::Keyword <==> (w == "fn"@ || w == "use"@ || w == "const"@ || w == "mut"@ || w == "let"@),
        word_class(w) == TokenClass::Api <==> (w == "digital_write"@ || w == "delay"@ || w == "digital_read"@
            || w == "analog_read"@ || w == "LED_BUILTIN"@ || w == "HIGH"@ || w == "LOW"@ || mentions_school(w)),
        word_class(w) != TokenClass::Comment,
{
    reveal_strlit("fn");
    reveal_strlit("use");
    reveal_strlit("const");
    reveal_strlit("mut");
    reveal_strlit("let");
    reveal_strlit("digital_write");
    reveal_strlit("delay");
    reveal_strlit("digital_read");
    reveal_strlit("analog_read");
    reveal_strlit("LED_BUILTIN");
    reveal_strlit("HIGH");
    reveal_strlit("LOW");
    reveal_strlit("school_");
    let p = "school_"@;
    if has_substring(w, p) {
        let i = choose|i: int| matches_at(w, p, i);
        assert(w.subrange(i, i + 7)[0] == w[i]);
        assert(w.subrange(i, i + 7)[1] == w[i + 1]);
        assert(w.subrange(i, i + 7)[2] == w[i + 2]);
        assert(w.subrange(i, i + 7)[3] == w[i + 3]);
        assert(w.subrange(i, i + 7)[4] == w[i + 4]);
        assert(w.subrange(i, i + 7)[5] == w[i + 5]);
        assert(w.subrange(i, i + 7)[6] == w[i + 6]);
        assert(mentions_school(w));
    }
    if mentions_school(w) {
        let i = choose|i: int|
            0 <= i && i + 7 <= w.len() && #[trigger] w[i] == 's' && w[i + 1] == 'c' && w[i + 2] == 'h' && w[i + 3] == 'o'
                && w[i + 4] == 'o' && w[i + 5] == 'l' && w[i + 6] == '_';
        assert(w.subrange(i, i + 7) =~= p);
        assert(matches_at(w, p, i));
        assert(w.len() >= 7);
    }
    if w == "delay"@ {
        assert(w[0] != "const"@[0]);
    }
    if w == "LOW"@ {
        assert(w[0] != "use"@[0] && w[0] != "mut"@[0] && w[0] != "let"@[0]);
    }
    let kw = w == "fn"@ || w == "use"@ || w == "const"@ || w == "mut"@ || w == "let"@;
    let api = w == "digital_write"@ || w == "delay"@ || w == "digital_read"@ || w == "analog_read"@
        || w == "LED_BUILTIN"@ || w == "HIGH"@ || w == "LOW"@ || mentions_school(w);
    assert(has_substring(w, p) <==> mentions_school(w));
    assert(kw ==> w.len() <= 5);
    assert(api ==> !kw);
}

/// The first position at or after `k` of a character that is not part of a
/// word.
pub open spec fn separator_from(s: Seq<char>, k: int) -> Option<int>
    decreases s.len() - k,
{
    if k < 0 || k >= s.len() {
        None
    } else if !is_word_char(s[k]) {
        Some(k)
    } else {
        separator_from(s, k + 1)
    }
}

/// The spans of one piece of a line (a word followed by at most one
/// separator): the word in its class, then the separator as plain text; a
/// piece without a word is plain text.
pub open spec fn piece_spans(c: Seq<char>) -> Seq<(Seq<char>, TokenClass)> {
    let w = if c.len() > 0 && !is_word_char(c.last()) { c.drop_last() } else { c };
    if w.len() > 0 {
        if w.len() < c.len() {
            seq![(w, word_class(w)), (c.skip(w.len() as int), TokenClass::Plain)]
        } else {
            seq![(w, word_class(w))]
        }
    } else {
        seq![(c, TokenClass::Plain)]
    }
}

/// The spans of a line cut after every separator (`split_inclusive`).
pub open spec fn chunk_spans(l: Seq<char>) -> Seq<(Seq<char>, TokenClass)>
    decreases l.len(),
{
    if l.len() == 0 {
        Seq::empty()
    } else {
        match separator_from(l, 0) {
            Some(i) => {
                proof {
                    lemma_separator_from(l, 0);
                }
                piece_spans(l.take(i + 1)) + chunk_spans(l.skip(i + 1))
            },
            None => piece_spans(l),
        }
    }
}

/// The spans of one line, its line break included: a line that starts with
/// `//` after white space is a comment as a whole.
pub open spec fn line_spans(l: Seq<char>) -> Seq<(Seq<char>, TokenClass)> {
    if matches_at(trim(l), "//"@, 0) {
        seq![(l, TokenClass::Comment), ("\n"@, TokenClass::Plain)]
    } else {
        chunk_spans(l) + seq![("\n"@, TokenClass::Plain)]
    }
}

/// A line without the carriage return of a `\r\n` ending.
pub open spec fn without_cr(l: Seq<char>) -> Seq<char> {
    if l.len() > 0 && l.last() == '\r' { l.drop_last() } else { l }
}

/// The spans of a whole text, line by line as `str::lines` cuts it.
pub open spec fn text_spans(t: Seq<char>) -> Seq<(Seq<char>, TokenClass)>
    decreases t.len(),
{
    match first_match(t, "\n"@) {
        Some(i) => {
            proof {
                lemma_find_from(t, "\n"@, 0);
                reveal_strlit("\n");
            }
            line_spans(without_cr(t.take(i))) + text_spans(t.skip(i + 1))
        },
        None => if t.len() == 0 { Seq::empty() } else { line_spans(t) },
    }
}

/// `separator_from` gives the first separator at or after `k`.
pub proof fn lemma_separator_from(s: Seq<char>, k: int)
    requires
        0 <= k,
    ensures
        match separator_from(s, k) {
            Some(i) => k <= i < s.len() && !is_word_char(s[i]) && forall|j: int| k <= j < i ==> is_word_char(#[trigger] s[j]),
            None => forall|j: int| k <= j < s.len() ==> is_word_char(#[trigger] s[j]),
        },
    decreases s.len() - k,
{
    if k < s.len() && is_word_char(s[k]) {
        lemma_separator_from(s, k + 1);
    }
}

/// The text of spans, put back together.
pub open spec fn joined_text(spans: Seq<(Seq<char>, TokenClass)>) -> Seq<char>
    decreases spans.len(),
{
    if spans.len() == 0 {
        Seq::empty()
    } else {
        spans[0].0 + joined_text(spans.drop_first())
    }
}

proof fn lemma_joined_text_concat(a: Seq<(Seq<char>, TokenClass)>, b: Seq<(Seq<char>, TokenClass)>)
    ensures
        joined_text(a + b) == joined_text(a) + joined_text(b),
    decreases a.len(),
{
    if a.len() == 0 {
        assert(a + b =~= b);
        assert(joined_text(a) + joined_text(b) =~= joined_text(b));
    } else {
        assert((a + b).drop_first() =~= a.drop_first() + b);
        lemma_joined_text_concat(a.drop_first(), b);
        assert(joined_text(a + b) =~= a[0].0 + (joined_text(a.drop_first()) + joined_text(b)));
    }
}

proof fn lemma_joined_text_pair(x: (Seq<char>, TokenClass), y: (Seq<char>, TokenClass))
    ensures
        joined_text(seq![x]) == x.0,
        joined_text(seq![x, y]) == x.0 + y.0,
{
    reveal_with_fuel(joined_text, 3);
    assert(seq![x].drop_first() =~= Seq::<(Seq<char>, TokenClass)>::empty());
    assert(joined_text(Seq::<(Seq<char>, TokenClass)>::empty()) =~= Seq::<char>::empty());
    assert(joined_text(seq![x]) =~= x.0);
    assert(seq![x, y].drop_first() =~= seq![y]);
    assert(seq![y].drop_first() =~= Seq::<(Seq<char>, TokenClass)>::empty());
    assert(joined_text(seq![y]) =~= y.0);
}

proof fn lemma_piece_text(c: Seq<char>)
    ensures
        joined_text(piece_spans(c)) == c,
{
    let w = if c.len() > 0 && !is_word_char(c.last()) { c.drop_last() } else { c };
    lemma_joined_text_pair((w, word_class(w)), (c.skip(w.len() as int), TokenClass::Plain));
    lemma_joined_text_pair((c, TokenClass::Plain), (c, TokenClass::Plain));
    if w.len() > 0 && w.len() < c.len() {
        assert(w + c.skip(w.len() as int) =~= c);
    }
}

proof fn lemma_chunk_text(l: Seq<char>)
    ensures
        joined_text(chunk_spans(l)) == l,
    decreases l.len(),
{
    if l.len() == 0 {
    } else {
        lemma_separator_from(l, 0);
        match separator_from(l, 0) {
            Some(i) => {
                lemma_piece_text(l.take(i + 1));
                lemma_chunk_text(l.skip(i + 1));
                lemma_joined_text_concat(piece_spans(l.take(i + 1)), chunk_spans(l.skip(i + 1)));
                assert(l.take(i + 1) + l.skip(i + 1) =~= l);
            },
            None => {
                lemma_piece_text(l);
            },
        }
    }
}

proof fn lemma_line_text(l: Seq<char>)
    ensures
        joined_text(line_spans(l)) == l + "\n"@,
{
    lemma_joined_text_pair((l, TokenClass::Comment), ("\n"@, TokenClass::Plain));
    lemma_joined_text_pair(("\n"@, TokenClass::Plain), ("\n"@, TokenClass::Plain));
    lemma_chunk_text(l);
    lemma_joined_text_concat(chunk_spans(l), seq![("\n"@, TokenClass::Plain)]);
}

/// The text that the editor shows for `t`: `str::lines` drops the carriage
/// return of every `\r\n` line ending, and every line, the last one too,
/// ends with a line break.
pub open spec fn displayed_text(t: Seq<char>) -> Seq<char> {
    let u = replace_all(t, "\r\n"@, "\n"@);
    if t.len() == 0 || t.last() == '\n' { u } else { u.push('\n') }
}

proof fn lemma_newline_matches(t: Seq<char>)
    ensures
        forall|j: int| #[trigger] matches_at(t, "\n"@, j) <==> 0 <= j < t.len() && t[j] == '\n',
        forall|j: int| #[trigger] matches_at(t, "\r\n"@, j) ==> 0 <= j && j + 1 < t.len() && t[j] == '\r' && t[j + 1] == '\n',
{
    reveal_strlit("\n");
    reveal_strlit("\r\n");
    assert forall|j: int| #[trigger] matches_at(t, "\n"@, j) <==> 0 <= j < t.len() && t[j] == '\n' by {
        if 0 <= j < t.len() {
            assert(t.subrange(j, j + 1)[0] == t[j]);
            if t[j] == '\n' {
                assert(t.subrange(j, j + 1) =~= "\n"@);
            }
        }
    }
    assert forall|j: int| #[trigger] matches_at(t, "\r\n"@, j) implies
        0 <= j && j + 1 < t.len() && t[j] == '\r' && t[j + 1] == '\n' by {
        assert(t.subrange(j, j + 2)[0] == t[j]);
        assert(t.subrange(j, j + 2)[1] == t[j + 1]);
    }
}

/// The first line break of a text whose first line is `a`.
proof fn lemma_first_line(a: Seq<char>, rest: Seq<char>)
    requires
        !a.contains('\n'),
        rest.len() > 0,
        rest[0] == '\n',
    ensures
        first_match(a + rest, "\n"@) == Some(a.len() as int),
{
    let t = a + rest;
    lemma_newline_matches(t);
    lemma_find_from(t, "\n"@, 0);
    assert(t[a.len() as int] == '\n');
    assert(matches_at(t, "\n"@, a.len() as int));
    assert forall|j: int| 0 <= j < a.len() implies !#[trigger] matches_at(t, "\n"@, j) by {
        assert(t[j] == a[j]);
    }
    match first_match(t, "\n"@) {
        Some(i) => {
            if i < a.len() {
                assert(!matches_at(t, "\n"@, i));
            }
            if i > a.len() {
                assert(!matches_at(t, "\n"@, a.len() as int));
            }
        },
        None => {},
    }
}

/// Lines are cut as `str::lines` cuts them and each is coloured on its own:
/// a first line `a` ended by `\n` or by `\r\n` is coloured as the line `a`
/// (a `\r` before the `\n` being the line ending), the text after it on
/// its own; a last line without line break is coloured as it stands.
pub proof fn lemma_lines_coloured_separately(a: Seq<char>, b: Seq<char>)
    requires
        !a.contains('\n'),
    ensures
        text_spans(a + "\r\n"@ + b) == line_spans(a) + text_spans(b),
        !(a.len() > 0 && a.last() == '\r') ==> text_spans(a + "\n"@ + b) == line_spans(a) + text_spans(b),
        a.len() > 0 ==> text_spans(a) == line_spans(a),
        text_spans(Seq::<char>::empty()) == Seq::<(Seq<char>, TokenClass)>::empty(),
{
    reveal_strlit("\n");
    reveal_strlit("\r\n");
    let t1 = a + "\n"@ + b;
    assert(t1 =~= a + ("\n"@ + b));
    lemma_first_line(a, "\n"@ + b);
    assert(t1.take(a.len() as int) =~= a);
    assert(t1.skip(a.len() as int + 1) =~= b);
    let a2 = a.push('\r');
    assert(!a2.contains('\n')) by {
        if a2.contains('\n') {
            let j = choose|j: int| 0 <= j < a2.len() && a2[j] == '\n';
            assert(a.contains(a2[j]));
        }
    }
    let t2 = a + "\r\n"@ + b;
    assert(t2 =~= a2 + ("\n"@ + b));
    lemma_first_line(a2, "\n"@ + b);
    assert(t2.take(a2.len() as int) =~= a2);
    assert(without_cr(a2) =~= a);
    assert(t2.skip(a2.len() as int + 1) =~= b);
    lemma_find_from(a, "\n"@, 0);
    lemma_newline_matches(a);
    if first_match(a, "\n"@) is Some {
        let i = first_match(a, "\n"@)->0;
        assert(a.contains(a[i]));
    }
    lemma_find_from(Seq::<char>::empty(), "\n"@, 0);
}

/// Colouring keeps the text: the spans of a text, put back together, are
/// the text as the editor shows it ([`displayed_text`]).
pub proof fn lemma_highlight_keeps_text(t: Seq<char>)
    ensures
        joined_text(text_spans(t)) == displayed_text(t),
    decreases t.len(),
{
    reveal_strlit("\n");
    reveal_strlit("\r\n");
    let crlf = "\r\n"@;
    let lf = "\n"@;
    lemma_find_from(t, lf, 0);
    lemma_newline_matches(t);
    match first_match(t, lf) {
        Some(i) => {
            let line = t.take(i);
            let rest = t.skip(i + 1);
            assert(t[i] == '\n');
            assert forall|j: int| 0 <= j < i implies t[j] != '\n' by {
                assert(!matches_at(t, lf, j));
            }
            lemma_highlight_keeps_text(rest);
            lemma_line_text(without_cr(line));
            lemma_joined_text_concat(line_spans(without_cr(line)), text_spans(rest));
            if i > 0 && t[i - 1] == '\r' {
                assert forall|j: int| 0 <= j < i - 1 implies !#[trigger] matches_at(t, crlf, j) by {
                    if matches_at(t, crlf, j) {
                        assert(t[j + 1] == '\n');
                    }
                }
                lemma_replace_all_unmatched_prefix(t, crlf, lf, i - 1);
                let s = t.skip(i - 1);
                assert(s.subrange(0, 2) =~= crlf);
                assert(matches_at(s, crlf, 0));
                assert(first_match(s, crlf) == Some(0int));
                assert(s.take(0) =~= Seq::<char>::empty());
                assert(s.skip(2) =~= rest);
                assert(without_cr(line) =~= t.take(i - 1));
                assert(replace_all(t, crlf, lf) =~= without_cr(line) + lf + replace_all(rest, crlf, lf));
            } else {
                assert forall|j: int| 0 <= j < i + 1 implies !#[trigger] matches_at(t, crlf, j) by {
                    if matches_at(t, crlf, j) {
                        assert(t[j + 1] == '\n');
                        assert(t[j] == '\r');
                    }
                }
                lemma_replace_all_unmatched_prefix(t, crlf, lf, i + 1);
                assert(without_cr(line) == line);
                assert(t.take(i + 1) =~= line + lf);
                assert(replace_all(t, crlf, lf) =~= without_cr(line) + lf + replace_all(rest, crlf, lf));
            }
            if rest.len() == 0 {
                lemma_find_from(rest, crlf, 0);
                assert(replace_all(rest, crlf, lf) =~= rest);
                assert(t.last() == '\n');
            } else {
                assert(rest.last() == t.last());
                let x = without_cr(line) + lf;
                assert((x + replace_all(rest, crlf, lf)).push('\n') =~= x + replace_all(rest, crlf, lf).push('\n'));
            }
        },
        None => {
            assert forall|j: int| 0 <= j < t.len() implies !#[trigger] matches_at(t, crlf, j) by {
                if matches_at(t, crlf, j) {
                    assert(matches_at(t, lf, j + 1));
                }
            }
            lemma_replace_all_unmatched_prefix(t, crlf, lf, t.len() as int);
            let e = t.skip(t.len() as int);
            lemma_find_from(e, crlf, 0);
            assert(replace_all(e, crlf, lf) =~= e);
            assert(replace_all(t, crlf, lf) =~= t);
            if t.len() > 0 {
                lemma_line_text(t);
                assert(!matches_at(t, lf, t.len() - 1));
                assert(t + lf =~= t.push('\n'));
            }
        },
    }
}

/// A span that is a run of word characters, in the class of that word.
pub open spec fn is_word_span(sp: (Seq<char>, TokenClass)) -> bool {
    &&& sp.0.len() > 0
    &&& forall|k: int| 0 <= k < sp.0.len() ==> is_word_char(#[trigger] sp.0[k])
    &&& sp.1 == word_class(sp.0)
}

/// A span that is one character not belonging to a word, in plain colour.
pub open spec fn is_separator_span(sp: (Seq<char>, TokenClass)) -> bool {
    &&& sp.0.len() == 1
    &&& !is_word_char(sp.0[0])
    &&& sp.1 == TokenClass::Plain
}

/// Every span is a word run in its class or a plain separator, and no two
/// word runs are next to each other: the word spans are the maximal runs
/// of word characters.
pub open spec fn coloured_by_words(spans: Seq<(Seq<char>, TokenClass)>) -> bool {
    &&& forall|k: int| 0 <= k < spans.len() ==> is_word_span(#[trigger] spans[k]) || is_separator_span(spans[k])
    &&& forall|k: int| 0 <= k < spans.len() - 1 ==> !(is_word_span(#[trigger] spans[k]) && is_word_span(spans[k + 1]))
}

proof fn lemma_coloured_concat(a: Seq<(Seq<char>, TokenClass)>, b: Seq<(Seq<char>, TokenClass)>)
    requires
        coloured_by_words(a),
        coloured_by_words(b),
        a.len() > 0 ==> !is_word_span(a.last()),
    ensures
        coloured_by_words(a + b),
{
    let c = a + b;
    assert forall|k: int| 0 <= k < c.len() implies is_word_span(#[trigger] c[k]) || is_separator_span(c[k]) by {
        if k < a.len() {
            assert(c[k] == a[k]);
        } else {
            assert(c[k] == b[k - a.len()]);
        }
    }
    assert forall|k: int| 0 <= k < c.len() - 1 implies !(is_word_span(#[trigger] c[k]) && is_word_span(c[k + 1])) by {
        if k + 1 < a.len() {
            assert(c[k] == a[k] && c[k + 1] == a[k + 1]);
        } else if k + 1 == a.len() {
            assert(c[k] == a.last());
        } else {
            assert(c[k] == b[k - a.len()] && c[k + 1] == b[k + 1 - a.len()]);
        }
    }
}

/// A piece made of word characters and one final separator.
proof fn lemma_piece_with_separator(c: Seq<char>)
    requires
        c.len() > 0,
        !is_word_char(c.last()),
        forall|k: int| 0 <= k < c.len() - 1 ==> is_word_char(#[trigger] c[k]),
    ensures
        coloured_by_words(piece_spans(c)),
        is_separator_span(piece_spans(c).last()),
{
    let w = c.drop_last();
    if w.len() > 0 {
        assert(c.skip(w.len() as int) =~= seq![c.last()]);
        let sps = piece_spans(c);
        assert(sps =~= seq![(w, word_class(w)), (c.skip(w.len() as int), TokenClass::Plain)]);
        assert(is_word_span(sps[0]));
        assert(is_separator_span(sps[1]));
    } else {
        assert(c.len() == 1);
        assert(c[0] == c.last());
    }
}

/// A piece made of word characters only.
proof fn lemma_piece_of_word(c: Seq<char>)
    requires
        c.len() > 0,
        forall|k: int| 0 <= k < c.len() ==> is_word_char(#[trigger] c[k]),
    ensures
        piece_spans(c) == seq![(c, word_class(c))],
        coloured_by_words(piece_spans(c)),
{
    assert(is_word_char(c.last()));
    assert(is_word_span((c, word_class(c))));
}

proof fn lemma_chunk_colouring(l: Seq<char>)
    ensures
        coloured_by_words(chunk_spans(l)),
    decreases l.len(),
{
    if l.len() > 0 {
        lemma_separator_from(l, 0);
        match separator_from(l, 0) {
            Some(i) => {
                let c = l.take(i + 1);
                assert(c.last() == l[i]);
                assert forall|k: int| 0 <= k < c.len() - 1 implies is_word_char(#[trigger] c[k]) by {
                    assert(c[k] == l[k]);
                }
                lemma_piece_with_separator(c);
                lemma_chunk_colouring(l.skip(i + 1));
                lemma_coloured_concat(piece_spans(c), chunk_spans(l.skip(i + 1)));
            },
            None => {
                lemma_piece_of_word(l);
            },
        }
    }
}

/// How a line is coloured: a line whose trimmed text starts with `//` is
/// one comment span; any other line is cut into its maximal runs of word
/// characters, each in the class [`word_class`] gives the word, and single
/// plain separators between them, which put back together give the line;
/// a plain line break follows either way.
pub proof fn lemma_line_colouring(l: Seq<char>)
    ensures
        matches_at(trim(l), "//"@, 0) ==> line_spans(l) == seq![(l, TokenClass::Comment), ("\n"@, TokenClass::Plain)],
        !matches_at(trim(l), "//"@, 0) ==> {
            &&& line_spans(l) == chunk_spans(l) + seq![("\n"@, TokenClass::Plain)]
            &&& joined_text(chunk_spans(l)) == l
            &&& coloured_by_words(chunk_spans(l))
        },
{
    lemma_chunk_text(l);
    lemma_chunk_colouring(l);
}

/// The text and class of each span.
pub open spec fn span_views(s: Seq<Span>) -> Seq<(Seq<char>, TokenClass)> {
    s.map_values(|x: Span| x@)
}

fn push_span(out: &mut Vec<Span>, text: &Vec<char>, class: TokenClass)
    ensures
        span_views(final(out)@) == span_views(old(out)@).push((text@, class)),
{
    let span = Span { text: string_from_chars(text), class };
    out.push(span);
    assert(span_views(out@) =~= span_views(old(out)@).push((text@, class)));
}

/// The colour class of a word.
pub fn classify_word(w: &Vec<char>) -> (class: TokenClass)
    ensures
        class == word_class(w@),
{
    if same_chars(w, &chars_of("fn")) || same_chars(w, &chars_of("use")) || same_chars(w, &chars_of("const"))
        || same_chars(w, &chars_of("mut")) || same_chars(w, &chars_of("let")) {
        TokenClass::Keyword
    } else if same_chars(w, &chars_of("digital_write")) || same_chars(w, &chars_of("delay"))
        || same_chars(w, &chars_of("digital_read")) || same_chars(w, &chars_of("analog_read"))
        || same_chars(w, &chars_of("LED_BUILTIN")) || contains(w, &chars_of("school_"))
        || same_chars(w, &chars_of("HIGH")) || same_chars(w, &chars_of("LOW")) {
        TokenClass::Api
    } else {
        TokenClass::Plain
    }
}

fn push_piece(out: &mut Vec<Span>, c: &Vec<char>)
    ensures
        span_views(final(out)@) == span_views(old(out)@) + piece_spans(c@),
{
    let n = c.len();
    let wlen: usize = if n > 0 && !is_word_char_exec(c[n - 1]) { n - 1 } else { n };
    let ghost w = if c@.len() > 0 && !is_word_char(c@.last()) { c@.drop_last() } else { c@ };
    let word = sub_chars(c, 0, wlen);
    assert(word@ =~= w);
    if wlen > 0 {
        let class = classify_word(&word);
        push_span(out, &word, class);
        if wlen < n {
            let punct = sub_chars(c, wlen, n);
            assert(punct@ =~= c@.skip(w.len() as int));
            push_span(out, &punct, TokenClass::Plain);
        }
    } else {
        push_span(out, c, TokenClass::Plain);
    }
    assert(span_views(out@) =~= span_views(old(out)@) + piece_spans(c@));
}

/// The first separator of `s` is at `m` when `s[m]` is one and every
/// character before it is part of a word.
proof fn lemma_separator_at(s: Seq<char>, m: int)
    requires
        0 <= m < s.len(),
        !is_word_char(s[m]),
        forall|j: int| 0 <= j < m ==> is_word_char(#[trigger] s[j]),
    ensures
        separator_from(s, 0) == Some(m),
{
    lemma_separator_from(s, 0);
}

fn push_chunks(out: &mut Vec<Span>, l: &Vec<char>)
    ensures
        span_views(final(out)@) == span_views(old(out)@) + chunk_spans(l@),
{
    let ghost out0 = span_views(out@);
    let n = l.len();
    let mut cs: usize = 0;
    let mut k: usize = 0;
    assert(l@.skip(0) =~= l@);
    while k < n
        invariant
            n == l.len(),
            cs <= k <= n,
            forall|j: int| cs <= j < k ==> is_word_char(#[trigger] l@[j]),
            span_views(out@) + chunk_spans(l@.skip(cs as int)) =~= out0 + chunk_spans(l@),
        decreases n - k,
    {
        if !is_word_char_exec(l[k]) {
            let ghost s = l@.skip(cs as int);
            let ghost m = (k - cs) as int;
            proof {
                assert forall|j: int| 0 <= j < m implies is_word_char(#[trigger] s[j]) by {
                    assert(s[j] == l@[cs + j]);
                }
                lemma_separator_at(s, m);
                assert(s.take(m + 1) =~= l@.subrange(cs as int, k + 1));
                assert(s.skip(m + 1) =~= l@.skip(k + 1));
            }
            let piece = sub_chars(l, cs, k + 1);
            push_piece(out, &piece);
            cs = k + 1;
        }
        k = k + 1;
    }
    let ghost s = l@.skip(cs as int);
    if cs < n {
        proof {
            lemma_separator_from(s, 0);
            assert forall|j: int| 0 <= j < s.len() implies is_word_char(#[trigger] s[j]) by {
                assert(s[j] == l@[cs + j]);
            }
            assert(separator_from(s, 0) is None);
            assert(l@.subrange(cs as int, n as int) =~= s);
        }
        let piece = sub_chars(l, cs, n);
        push_piece(out, &piece);
    } else {
        assert(s.len() == 0);
    }
}

fn push_line(out: &mut Vec<Span>, l: &Vec<char>)
    ensures
        span_views(final(out)@) == span_views(old(out)@) + line_spans(l@),
{
    let newline = chars_of("\n");
    let trimmed = trim_chars(l);
    if matches_at_exec(&trimmed, &chars_of("//"), 0) {
        push_span(out, l, TokenClass::Comment);
        push_span(out, &newline, TokenClass::Plain);
    } else {
        push_chunks(out, l);
        push_span(out, &newline, TokenClass::Plain);
    }
    assert(span_views(out@) =~= span_views(old(out)@) + line_spans(l@));
}

/// Cuts a sketch into coloured spans, line by line: each line ends with a
/// plain line break; a line whose trimmed text starts with `//` is one
/// comment span; any other line is cut after every character that is not
/// part of a word, each word coloured by [`word_class`] and the rest plain.
#[verifier::rlimit(40)]
pub fn highlight(text: &str) -> (spans: Vec<Span>)
    ensures
        span_views(spans@) == text_spans(text@),
{
    let t = chars_of(text);
    let n = t.len();
    let newline = chars_of("\n");
    proof {
        reveal_strlit("\n");
    }
    let mut out: Vec<Span> = Vec::new();
    let mut pos: usize = 0;
    assert(t@.skip(0) =~= t@);
    assert(span_views(out@) =~= Seq::empty());
    loop
        invariant
            n == t.len(),
            t@ == text@,
            newline@ == "\n"@,
            pos <= n,
            span_views(out@) + text_spans(t@.skip(pos as int)) =~= text_spans(t@),
        decreases n - pos,
    {
        let ghost rest = t@.skip(pos as int);
        proof {
            reveal_strlit("\n");
            lemma_find_from_suffix(t@, newline@, pos as int);
            lemma_find_from(t@, newline@, pos as int);
        }
        match find(&t, &newline, pos) {
            Some(i) => {
                let ghost m = (i - pos) as int;
                assert(first_match(rest, newline@) == Some(m));
                let end: usize = if i > pos && t[i - 1] == '\r' { i - 1 } else { i };
                let line = sub_chars(&t, pos, end);
                proof {
                    assert(rest.take(m) =~= t@.subrange(pos as int, i as int));
                    assert(line@ =~= without_cr(rest.take(m)));
                    assert(rest.skip(m + 1) =~= t@.skip(i + 1));
                }
                push_line(&mut out, &line);
                pos = i + 1;
            },
            None => {
                assert(first_match(rest, newline@) is None);
                if pos < n {
                    let line = sub_chars(&t, pos, n);
                    assert(line@ =~= rest);
                    assert(text_spans(rest) == line_spans(rest));
                    push_line(&mut out, &line);
                } else {
                    assert(text_spans(rest) =~= Seq::empty());
                }
                assert(span_views(out@) =~= text_spans(t@));
                return out;
            },
        }
    }
}

} // verus!
