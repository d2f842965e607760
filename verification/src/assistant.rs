//! Turning an assistant's reply into a sketch for the editor: the code is
//! cut out of the reply, and then completed or replaced by a template so
//! that it fits the `ariel_school` entry-point macros.
use vstd::prelude::*;
use crate::text::{
    chars_of, contains, find, find_from, first_match, has_substring, matches_at,
     lemma_find_from, lemma_find_from_suffix, replace_all,
    replace_chars, string_from_chars, sub_chars, trim, trim_chars,
};

verus! {

/// The sketch the editor opens with: blink the built-in LED.
pub const STARTER_SKETCH: &'static str = "// Школьный проект на Ariel OS\nuse ariel_school::{\n    school_main, digital_write,\n    delay, LED_BUILTIN, HIGH, LOW\n};\n\n#[school_main]\nfn setup() {}\n\nfn loop_tick() {\n    digital_write(LED_BUILTIN, HIGH);\n    delay(500);\n    digital_write(LED_BUILTIN, LOW);\n    delay(500);\n}";

/// The sketch that replaces assistant code written for both cores.
pub const DUAL_CORE_TEMPLATE: &'static str = "// Автоматическая коррекция двухъядерного кода Rustino IDE\nuse ariel_school::{\n    school_dual_main, digital_write,\n    delay, LED_BUILTIN, HIGH, LOW\n};\n\n#[school_dual_main]\nfn setup() {\n    // Код настройки для двух ядер\n}\n\nfn loop_tick_1() {\n    // Задача для первого ядра\n    digital_write(LED_BUILTIN, HIGH);\n    delay(500);\n    digital_write(LED_BUILTIN, LOW);\n    delay(500);\n}\n\nfn loop_tick_2() {\n    // Задача для второго ядра\n    delay(10);\n}";

/// The sketch that replaces assistant code that writes its own loop.
pub const SINGLE_CORE_TEMPLATE: &'static str = "// Автоматическая коррекция одноядерного кода Rustino IDE\nuse ariel_school::{\n    school_main, digital_write,\n    delay, LED_BUILTIN, HIGH, LOW\n};\n\n#[school_main]\nfn setup() {\n    // Код настройки\n}\n\nfn loop_tick() {\n    digital_write(LED_BUILTIN, HIGH);\n    delay(500);\n    digital_write(LED_BUILTIN, LOW);\n    delay(500);\n}";

/// The import block put in front of assistant code that lacks one.
pub const IMPORT_HEADER: &'static str = "// Код дополнен Rustino IDE\nuse ariel_school::{\n    school_main, digital_write,\n    delay, LED_BUILTIN, HIGH, LOW\n};\n\n";

/// The trimmed text between the fence that ends at `start` and the next
/// closing fence; empty when no closing fence follows.
pub open spec fn fenced_body(t: Seq<char>, start: int) -> Seq<char> {
    match first_match(t.skip(start), "```"@) {
        Some(e) => trim(t.subrange(start, start + e)),
        None => Seq::empty(),
    }
}

/// The code contained in an assistant reply: the body of the first
/// "```rust" block; else the body of the first "```" block; else, when the
/// reply mentions `use ariel_school` or `fn loop_tick`, the whole reply;
/// always trimmed, and empty when nothing qualifies.
pub open spec fn extracted_code(t: Seq<char>) -> Seq<char> {
    match first_match(t, "```rust"@) {
        Some(s) => fenced_body(t, s + "```rust"@.len()),
        None => match first_match(t, "```"@) {
            Some(s) => fenced_body(t, s + "```"@.len()),
            None => if has_substring(t, "use ariel_school"@) || has_substring(t, "fn loop_tick"@) {
                trim(t)
            } else {
                Seq::empty()
            },
        },
    }
}

/// Code that does not write its own loop, completed into a single-core
/// sketch: the import block is added when `use ariel_school` is missing,
/// and `#[school_main]` is put before `fn setup` when no entry attribute is
/// present.
pub open spec fn completed_sketch(c: Seq<char>) -> Seq<char> {
    let imported = if has_substring(c, "use ariel_school"@) {
        c
    } else {
        IMPORT_HEADER@ + c
    };
    if !has_substring(imported, "#[school_main]"@) && !has_substring(imported, "#[school_dual_main]"@) {
        replace_all(imported, "fn setup"@, "#[school_main]\nfn setup"@)
    } else {
        imported
    }
}

/// Extracted code as the editor receives it: after the misspelling
/// "digital Write" is corrected, code for two cores becomes the dual-core
/// template, code with a loop of its own (or a `Duration`) the single-core
/// template, and anything else is completed.
pub open spec fn corrected_code(c: Seq<char>) -> Seq<char> {
    let fixed = replace_all(c, "digital Write"@, "digital_write"@);
    if has_substring(fixed, "school_dual_main"@) || has_substring(fixed, "loop_tick_1"@)
        || has_substring(fixed, "loop_tick_2"@) {
        DUAL_CORE_TEMPLATE@
    } else if has_substring(fixed, "loop_tick"@) || has_substring(fixed, "loop"@)
        || has_substring(fixed, "Duration"@) {
        SINGLE_CORE_TEMPLATE@
    } else {
        completed_sketch(fixed)
    }
}

/// The trimmed body of the code block whose opening fence ends at `start`.
fn fenced_body_exec(t: &Vec<char>, start: usize) -> (code: Vec<char>)
    requires
        start <= t.len(),
    ensures
        code@ == fenced_body(t@, start as int),
{
    let fence = chars_of("```");
    proof {
        lemma_find_from_suffix(t@, fence@, start as int);
    }
    match find(t, &fence, start) {
        Some(e) => {
            proof {
                lemma_find_from(t@, fence@, start as int);
            }
            let body = sub_chars(t, start, e);
            trim_chars(&body)
        },
        None => Vec::new(),
    }
}

/// Cuts the code out of an assistant reply.
pub fn extract_code(ai_text: &str) -> (code: Vec<char>)
    ensures
        code@ == extracted_code(ai_text@),
{
    let t = chars_of(ai_text);
    // The length of a vector fits in `usize`.
    let _len = t.len();
    let rust_fence = chars_of("```rust");
    let fence = chars_of("```");
    proof {
        lemma_find_from(t@, rust_fence@, 0);
        lemma_find_from(t@, fence@, 0);
    }
    match find(&t, &rust_fence, 0) {
        Some(s) => {
            assert(matches_at(t@, rust_fence@, s as int));
            fenced_body_exec(&t, s + rust_fence.len())
        },
        None => match find(&t, &fence, 0) {
            Some(s) => {
                assert(matches_at(t@, fence@, s as int));
                fenced_body_exec(&t, s + fence.len())
            },
            None => {
                if contains(&t, &chars_of("use ariel_school")) || contains(&t, &chars_of("fn loop_tick")) {
                    trim_chars(&t)
                } else {
                    Vec::new()
                }
            },
        },
    }
}

/// Completes code that does not write its own loop into a single-core sketch.
fn complete_sketch(c: Vec<char>) -> (r: Vec<char>)
    ensures
        r@ == completed_sketch(c@),
{
    let imported = if contains(&c, &chars_of("use ariel_school")) {
        c
    } else {
        let mut h = chars_of(IMPORT_HEADER);
        let mut rest = c;
        h.append(&mut rest);
        h
    };
    if !contains(&imported, &chars_of("#[school_main]")) && !contains(&imported, &chars_of("#[school_dual_main]")) {
        let from = chars_of("fn setup");
        proof {
            reveal_strlit("fn setup");
        }
        replace_chars(&imported, &from, &chars_of("#[school_main]\nfn setup"))
    } else {
        imported
    }
}

/// Corrects extracted code as [`corrected_code`] says.
pub fn correct_code(c: &Vec<char>) -> (r: Vec<char>)
    ensures
        r@ == corrected_code(c@),
{
    let from = chars_of("digital Write");
    proof {
        reveal_strlit("digital Write");
    }
    let fixed = replace_chars(c, &from, &chars_of("digital_write"));
    if contains(&fixed, &chars_of("school_dual_main")) || contains(&fixed, &chars_of("loop_tick_1"))
        || contains(&fixed, &chars_of("loop_tick_2")) {
        chars_of(DUAL_CORE_TEMPLATE)
    } else if contains(&fixed, &chars_of("loop_tick")) || contains(&fixed, &chars_of("loop"))
        || contains(&fixed, &chars_of("Duration")) {
        chars_of(SINGLE_CORE_TEMPLATE)
    } else {
        complete_sketch(fixed)
    }
}

/// The sketch that the editor receives for an assistant reply: `None` when
/// the reply holds no code, and otherwise the corrected code.
pub fn code_for_editor(ai_text: &str) -> (code: Option<String>)
    ensures
        match code {
            Some(s) => extracted_code(ai_text@).len() > 0 && s@ == corrected_code(extracted_code(ai_text@)),
            None => extracted_code(ai_text@).len() == 0,
        },
{
    let extracted = extract_code(ai_text);
    if extracted.len() == 0 {
        None
    } else {
        let corrected = correct_code(&extracted);
        Some(string_from_chars(&corrected))
    }
}

/// A code block ends at the first closing fence: when the opening fence
/// ends at `start` and the first ``` at or after `start` begins at `e`, the
/// body is the trimmed text between them, which holds no ``` itself; with no
/// ``` at or after `start` the body is empty.
pub proof fn lemma_fenced_body_ends_at_first_fence(t: Seq<char>, start: int)
    requires
        0 <= start <= t.len(),
    ensures
        (forall|j: int| start <= j ==> !#[trigger] matches_at(t, "```"@, j)) ==> fenced_body(t, start) == Seq::<char>::empty(),
        forall|e: int|
            start <= e && #[trigger] matches_at(t, "```"@, e) && (forall|j: int| start <= j < e ==> !#[trigger] matches_at(t, "```"@, j))
            ==> fenced_body(t, start) == trim(t.subrange(start, e)) && !has_substring(t.subrange(start, e), "```"@),
{
    let fence = "```"@;
    reveal_strlit("```");
    lemma_find_from_suffix(t, fence, start);
    lemma_find_from(t, fence, start);
    assert forall|e: int|
        start <= e && #[trigger] matches_at(t, fence, e) && (forall|j: int| start <= j < e ==> !#[trigger] matches_at(t, fence, j))
        implies fenced_body(t, start) == trim(t.subrange(start, e)) && !has_substring(t.subrange(start, e), fence) by {
        match find_from(t, fence, start) {
            Some(i) => {
                if i < e {
                    assert(!matches_at(t, fence, i));
                }
                if e < i {
                    assert(!matches_at(t, fence, e));
                }
                assert(i == e);
                assert(first_match(t.skip(start), fence) == Some(e - start));
                assert(fenced_body(t, start) == trim(t.subrange(start, start + (e - start))));
            },
            None => {
                assert(!matches_at(t, fence, e));
            },
        }
        let b = t.subrange(start, e);
        if has_substring(b, fence) {
            let k = choose|k: int| matches_at(b, fence, k);
            assert(b.subrange(k, k + fence.len()) =~= t.subrange(start + k, start + k + fence.len()));
            assert(matches_at(t, fence, start + k));
        }
    }
}

/// The code comes from the first code block: the first "```rust" fence
/// when there is one, otherwise the first "```" fence; a reply without any
/// fence gives its trimmed whole when it mentions `use ariel_school` or
/// `fn loop_tick`, and nothing otherwise.
pub proof fn lemma_extracted_code_from_first_block(t: Seq<char>)
    ensures
        forall|s: int|
            #[trigger] matches_at(t, "```rust"@, s) && (forall|j: int| 0 <= j < s ==> !#[trigger] matches_at(t, "```rust"@, j))
            ==> extracted_code(t) == fenced_body(t, s + 7),
        (forall|j: int| !#[trigger] matches_at(t, "```rust"@, j)) ==> forall|s: int|
            #[trigger] matches_at(t, "```"@, s) && (forall|j: int| 0 <= j < s ==> !#[trigger] matches_at(t, "```"@, j))
            ==> extracted_code(t) == fenced_body(t, s + 3),
        (forall|j: int| !#[trigger] matches_at(t, "```"@, j)) ==> extracted_code(t) == if has_substring(t, "use ariel_school"@)
            || has_substring(t, "fn loop_tick"@) {
            trim(t)
        } else {
            Seq::<char>::empty()
        },
{
    reveal_strlit("```rust");
    reveal_strlit("```");
    lemma_find_from(t, "```rust"@, 0);
    lemma_find_from(t, "```"@, 0);
    assert forall|s: int|
        #[trigger] matches_at(t, "```rust"@, s) && (forall|j: int| 0 <= j < s ==> !#[trigger] matches_at(t, "```rust"@, j))
        implies extracted_code(t) == fenced_body(t, s + 7) by {
        match first_match(t, "```rust"@) {
            Some(i) => {
                if i < s {
                    assert(!matches_at(t, "```rust"@, i));
                }
                if s < i {
                    assert(!matches_at(t, "```rust"@, s));
                }
            },
            None => {
                assert(!matches_at(t, "```rust"@, s));
            },
        }
    }
    if forall|j: int| !#[trigger] matches_at(t, "```rust"@, j) {
        assert(first_match(t, "```rust"@) is None);
        assert forall|s: int|
            #[trigger] matches_at(t, "```"@, s) && (forall|j: int| 0 <= j < s ==> !#[trigger] matches_at(t, "```"@, j))
            implies extracted_code(t) == fenced_body(t, s + 3) by {
            match first_match(t, "```"@) {
                Some(i) => {
                    if i < s {
                        assert(!matches_at(t, "```"@, i));
                    }
                    if s < i {
                        assert(!matches_at(t, "```"@, s));
                    }
                },
                None => {
                    assert(!matches_at(t, "```"@, s));
                },
            }
        }
    }
    if forall|j: int| !#[trigger] matches_at(t, "```"@, j) {
        if first_match(t, "```rust"@) is Some {
            let i = first_match(t, "```rust"@)->0;
            assert(t.subrange(i, i + 3) =~= t.subrange(i, i + 7).subrange(0, 3));
            assert("```rust"@.subrange(0, 3) =~= "```"@);
            assert(matches_at(t, "```"@, i));
        }
    }
}

/// No occurrence of `p` can overlap an occurrence of `f`, in any text.
pub open spec fn never_overlap(p: Seq<char>, f: Seq<char>) -> bool {
    forall|s: Seq<char>, a: int, b: int|
        #![trigger matches_at(s, p, a), matches_at(s, f, b)]
        matches_at(s, p, a) && matches_at(s, f, b) ==> a + p.len() <= b || b + f.len() <= a
}

/// Replacing occurrences of `from` keeps every occurrence of a pattern that
/// can never overlap `from`.
pub proof fn lemma_replace_all_keeps(t: Seq<char>, from: Seq<char>, to: Seq<char>, p: Seq<char>, k: int)
    requires
        from.len() > 0,
        matches_at(t, p, k),
        never_overlap(p, from),
    ensures
        has_substring(replace_all(t, from, to), p),
    decreases t.len(),
{
    lemma_find_from(t, from, 0);
    let r = replace_all(t, from, to);
    match first_match(t, from) {
        Some(i) => {
            assert(matches_at(t, p, k) && matches_at(t, from, i));
            let rest = t.skip(i + from.len());
            let tail = replace_all(rest, from, to);
            assert(r == t.take(i) + to + tail);
            if k + p.len() <= i {
                assert(r.subrange(k, k + p.len()) =~= t.subrange(k, k + p.len()));
                assert(matches_at(r, p, k));
            } else {
                let k2 = k - i - from.len();
                assert(rest.subrange(k2, k2 + p.len()) =~= t.subrange(k, k + p.len()));
                assert(matches_at(rest, p, k2));
                lemma_replace_all_keeps(rest, from, to, p, k2);
                let m = choose|m: int| matches_at(tail, p, m);
                let at = i + to.len() + m;
                assert(r.subrange(at, at + p.len()) =~= tail.subrange(m, m + p.len()));
                assert(matches_at(r, p, at));
            }
        },
        None => {
            assert(matches_at(r, p, k));
        },
    }
}

/// Replacing every `from` by `to` leaves no occurrence of `p` when `p` can
/// never overlap `to` and every occurrence of `p` in `t` is one of those
/// replaced: either `p` is `from` itself, or `t` holds no `p` at all.
pub proof fn lemma_replace_all_leaves_none(t: Seq<char>, from: Seq<char>, to: Seq<char>, p: Seq<char>)
    requires
        from.len() > 0,
        never_overlap(p, to),
        p == from || !has_substring(t, p),
    ensures
        !has_substring(replace_all(t, from, to), p),
    decreases t.len(),
{
    lemma_find_from(t, from, 0);
    let r = replace_all(t, from, to);
    match first_match(t, from) {
        Some(i) => {
            let rest = t.skip(i + from.len());
            let tail = replace_all(rest, from, to);
            assert(r == t.take(i) + to + tail);
            if p != from && has_substring(rest, p) {
                let m = choose|m: int| matches_at(rest, p, m);
                assert(rest.subrange(m, m + p.len()) =~= t.subrange(i + from.len() + m, i + from.len() + m + p.len()));
                assert(matches_at(t, p, i + from.len() + m));
            }
            lemma_replace_all_leaves_none(rest, from, to, p);
            assert(r.subrange(i, i + to.len()) =~= to);
            assert(matches_at(r, to, i));
            if has_substring(r, p) {
                let a = choose|a: int| matches_at(r, p, a);
                if a + p.len() <= i {
                    assert(r.subrange(a, a + p.len()) =~= t.subrange(a, a + p.len()));
                    assert(matches_at(t, p, a));
                } else if a >= i + to.len() {
                    let a2 = a - i - to.len();
                    assert(r.subrange(a, a + p.len()) =~= tail.subrange(a2, a2 + p.len()));
                    assert(matches_at(tail, p, a2));
                } else {
                    assert(matches_at(r, p, a) && matches_at(r, to, i));
                }
            }
        },
        None => {},
    }
}

/// `digital Write` can never overlap `digital_write`, nor the text
/// `#[school_main]\nfn setup` that replaces `fn setup`.
proof fn lemma_misspelling_never_overlaps_replacements()
    ensures
        never_overlap("digital Write"@, "digital_write"@),
        never_overlap("digital Write"@, "#[school_main]\nfn setup"@),
{
    reveal_strlit("digital Write");
    reveal_strlit("digital_write");
    reveal_strlit("#[school_main]\nfn setup");
    let p = "digital Write"@;
    let f = "digital_write"@;
    let g = "#[school_main]\nfn setup"@;
    assert forall|s: Seq<char>, a: int, b: int|
        #![trigger matches_at(s, p, a), matches_at(s, f, b)]
        matches_at(s, p, a) && matches_at(s, f, b) implies a + p.len() <= b || b + f.len() <= a by {
        if !(a + p.len() <= b || b + f.len() <= a) {
            assert(s.subrange(a, a + 13)[0] == s[a]);
            assert(s.subrange(b, b + 13)[0] == s[b]);
            if a <= b {
                assert(s.subrange(a, a + 13)[b - a] == s[b]);
                assert(p[b - a] == 'd');
                assert(b == a);
                assert(s.subrange(a, a + 13)[7] == s.subrange(b, b + 13)[7]);
            } else {
                assert(s.subrange(b, b + 13)[a - b] == s[a]);
                assert(f[a - b] == 'd');
            }
        }
    }
    assert forall|s: Seq<char>, a: int, b: int|
        #![trigger matches_at(s, p, a), matches_at(s, g, b)]
        matches_at(s, p, a) && matches_at(s, g, b) implies a + p.len() <= b || b + g.len() <= a by {
        if !(a + p.len() <= b || b + g.len() <= a) {
            assert(s.subrange(a, a + 13)[0] == s[a]);
            assert(s.subrange(b, b + 23)[0] == s[b]);
            if a <= b {
                assert(s.subrange(a, a + 13)[b - a] == s[b]);
                assert(p[b - a] == '#');
            } else {
                assert(s.subrange(b, b + 23)[a - b] == s[a]);
                assert(g[a - b] == 'd');
            }
        }
    }
}

/// The import block holds no `digital Write`, and putting it in front of a
/// text without one creates none.
proof fn lemma_import_header_adds_no_misspelling(x: Seq<char>)
    requires
        !has_substring(x, "digital Write"@),
    ensures
        !has_substring(IMPORT_HEADER@ + x, "digital Write"@),
{
    reveal_strlit("// Код дополнен Rustino IDE\nuse ariel_school::{\n    school_main, digital_write,\n    delay, LED_BUILTIN, HIGH, LOW\n};\n\n");
    reveal_strlit("digital Write");
    let h = IMPORT_HEADER@;
    let p = "digital Write"@;
    assert(h.len() == 118);
    assert forall|k: int| !#[trigger] matches_at(h, p, k) by {
        if 0 <= k && k + 13 <= h.len() {
            if k <= 52 {
                if k <= 26 {
                    if k <= 13 {
                        if k <= 6 {
                            if k <= 3 {
                                if k <= 1 {
                                    if k <= 0 {
                                        assert(h.subrange(0, 13)[0] == h[0]);
                                    } else {
                                        assert(h.subrange(1, 14)[0] == h[1]);
                                    }
                                } else {
                                    if k <= 2 {
                                        assert(h.subrange(2, 15)[0] == h[2]);
                                    } else {
                                        assert(h.subrange(3, 16)[0] == h[3]);
                                    }
                                }
                            } else {
                                if k <= 5 {
                                    if k <= 4 {
                                        assert(h.subrange(4, 17)[0] == h[4]);
                                    } else {
                                        assert(h.subrange(5, 18)[0] == h[5]);
                                    }
                                } else {
                                    assert(h.subrange(6, 19)[0] == h[6]);
                                }
                            }
                        } else {
                            if k <= 10 {
                                if k <= 8 {
                                    if k <= 7 {
                                        assert(h.subrange(7, 20)[0] == h[7]);
                                    } else {
                                        assert(h.subrange(8, 21)[0] == h[8]);
                                    }
                                } else {
                                    if k <= 9 {
                                        assert(h.subrange(9, 22)[0] == h[9]);
                                    } else {
                                        assert(h.subrange(10, 23)[0] == h[10]);
                                    }
                                }
                            } else {
                                if k <= 12 {
                                    if k <= 11 {
                                        assert(h.subrange(11, 24)[0] == h[11]);
                                    } else {
                                        assert(h.subrange(12, 25)[0] == h[12]);
                                    }
                                } else {
                                    assert(h.subrange(13, 26)[0] == h[13]);
                                }
                            }
                        }
                    } else {
                        if k <= 20 {
                            if k <= 17 {
                                if k <= 15 {
                                    if k <= 14 {
                                        assert(h.subrange(14, 27)[0] == h[14]);
                                    } else {
                                        assert(h.subrange(15, 28)[0] == h[15]);
                                    }
                                } else {
                                    if k <= 16 {
                                        assert(h.subrange(16, 29)[0] == h[16]);
                                    } else {
                                        assert(h.subrange(17, 30)[0] == h[17]);
                                    }
                                }
                            } else {
                                if k <= 19 {
                                    if k <= 18 {
                                        assert(h.subrange(18, 31)[0] == h[18]);
                                    } else {
                                        assert(h.subrange(19, 32)[0] == h[19]);
                                    }
                                } else {
                                    assert(h.subrange(20, 33)[0] == h[20]);
                                }
                            }
                        } else {
                            if k <= 23 {
                                if k <= 22 {
                                    if k <= 21 {
                                        assert(h.subrange(21, 34)[0] == h[21]);
                                    } else {
                                        assert(h.subrange(22, 35)[0] == h[22]);
                                    }
                                } else {
                                    assert(h.subrange(23, 36)[0] == h[23]);
                                }
                            } else {
                                if k <= 25 {
                                    if k <= 24 {
                                        assert(h.subrange(24, 37)[0] == h[24]);
                                    } else {
                                        assert(h.subrange(25, 38)[0] == h[25]);
                                    }
                                } else {
                                    assert(h.subrange(26, 39)[0] == h[26]);
                                }
                            }
                        }
                    }
                } else {
                    if k <= 39 {
                        if k <= 33 {
                            if k <= 30 {
                                if k <= 28 {
                                    if k <= 27 {
                                        assert(h.subrange(27, 40)[0] == h[27]);
                                    } else {
                                        assert(h.subrange(28, 41)[0] == h[28]);
                                    }
                                } else {
                                    if k <= 29 {
                                        assert(h.subrange(29, 42)[0] == h[29]);
                                    } else {
                                        assert(h.subrange(30, 43)[0] == h[30]);
                                    }
                                }
                            } else {
                                if k <= 32 {
                                    if k <= 31 {
                                        assert(h.subrange(31, 44)[0] == h[31]);
                                    } else {
                                        assert(h.subrange(32, 45)[0] == h[32]);
                                    }
                                } else {
                                    assert(h.subrange(33, 46)[0] == h[33]);
                                }
                            }
                        } else {
                            if k <= 36 {
                                if k <= 35 {
                                    if k <= 34 {
                                        assert(h.subrange(34, 47)[0] == h[34]);
                                    } else {
                                        assert(h.subrange(35, 48)[0] == h[35]);
                                    }
                                } else {
                                    assert(h.subrange(36, 49)[0] == h[36]);
                                }
                            } else {
                                if k <= 38 {
                                    if k <= 37 {
                                        assert(h.subrange(37, 50)[0] == h[37]);
                                    } else {
                                        assert(h.subrange(38, 51)[0] == h[38]);
                                    }
                                } else {
                                    assert(h.subrange(39, 52)[0] == h[39]);
                                }
                            }
                        }
                    } else {
                        if k <= 46 {
                            if k <= 43 {
                                if k <= 41 {
                                    if k <= 40 {
                                        assert(h.subrange(40, 53)[0] == h[40]);
                                    } else {
                                        assert(h.subrange(41, 54)[0] == h[41]);
                                    }
                                } else {
                                    if k <= 42 {
                                        assert(h.subrange(42, 55)[0] == h[42]);
                                    } else {
                                        assert(h.subrange(43, 56)[0] == h[43]);
                                    }
                                }
                            } else {
                                if k <= 45 {
                                    if k <= 44 {
                                        assert(h.subrange(44, 57)[0] == h[44]);
                                    } else {
                                        assert(h.subrange(45, 58)[0] == h[45]);
                                    }
                                } else {
                                    assert(h.subrange(46, 59)[0] == h[46]);
                                }
                            }
                        } else {
                            if k <= 49 {
                                if k <= 48 {
                                    if k <= 47 {
                                        assert(h.subrange(47, 60)[0] == h[47]);
                                    } else {
                                        assert(h.subrange(48, 61)[0] == h[48]);
                                    }
                                } else {
                                    assert(h.subrange(49, 62)[0] == h[49]);
                                }
                            } else {
                                if k <= 51 {
                                    if k <= 50 {
                                        assert(h.subrange(50, 63)[0] == h[50]);
                                    } else {
                                        assert(h.subrange(51, 64)[0] == h[51]);
                                    }
                                } else {
                                    assert(h.subrange(52, 65)[0] == h[52]);
                                }
                            }
                        }
                    }
                }
            } else {
                if k <= 79 {
                    if k <= 66 {
                        if k <= 59 {
                            if k <= 56 {
                                if k <= 54 {
                                    if k <= 53 {
                                        assert(h.subrange(53, 66)[0] == h[53]);
                                    } else {
                                        assert(h.subrange(54, 67)[0] == h[54]);
                                    }
                                } else {
                                    if k <= 55 {
                                        assert(h.subrange(55, 68)[0] == h[55]);
                                    } else {
                                        assert(h.subrange(56, 69)[0] == h[56]);
                                    }
                                }
                            } else {
                                if k <= 58 {
                                    if k <= 57 {
                                        assert(h.subrange(57, 70)[0] == h[57]);
                                    } else {
                                        assert(h.subrange(58, 71)[0] == h[58]);
                                    }
                                } else {
                                    assert(h.subrange(59, 72)[0] == h[59]);
                                }
                            }
                        } else {
                            if k <= 63 {
                                if k <= 61 {
                                    if k <= 60 {
                                        assert(h.subrange(60, 73)[0] == h[60]);
                                    } else {
                                        assert(h.subrange(61, 74)[0] == h[61]);
                                    }
                                } else {
                                    if k <= 62 {
                                        assert(h.subrange(62, 75)[0] == h[62]);
                                    } else {
                                        assert(h.subrange(63, 76)[0] == h[63]);
                                    }
                                }
                            } else {
                                if k <= 65 {
                                    if k <= 64 {
                                        assert(h.subrange(64, 77)[0] == h[64]);
                                    } else {
                                        assert(h.subrange(65, 78)[7] == h[72]);
                                    }
                                } else {
                                    assert(h.subrange(66, 79)[0] == h[66]);
                                }
                            }
                        }
                    } else {
                        if k <= 73 {
                            if k <= 70 {
                                if k <= 68 {
                                    if k <= 67 {
                                        assert(h.subrange(67, 80)[0] == h[67]);
                                    } else {
                                        assert(h.subrange(68, 81)[0] == h[68]);
                                    }
                                } else {
                                    if k <= 69 {
                                        assert(h.subrange(69, 82)[0] == h[69]);
                                    } else {
                                        assert(h.subrange(70, 83)[0] == h[70]);
                                    }
                                }
                            } else {
                                if k <= 72 {
                                    if k <= 71 {
                                        assert(h.subrange(71, 84)[0] == h[71]);
                                    } else {
                                        assert(h.subrange(72, 85)[0] == h[72]);
                                    }
                                } else {
                                    assert(h.subrange(73, 86)[0] == h[73]);
                                }
                            }
                        } else {
                            if k <= 76 {
                                if k <= 75 {
                                    if k <= 74 {
                                        assert(h.subrange(74, 87)[0] == h[74]);
                                    } else {
                                        assert(h.subrange(75, 88)[0] == h[75]);
                                    }
                                } else {
                                    assert(h.subrange(76, 89)[0] == h[76]);
                                }
                            } else {
                                if k <= 78 {
                                    if k <= 77 {
                                        assert(h.subrange(77, 90)[0] == h[77]);
                                    } else {
                                        assert(h.subrange(78, 91)[0] == h[78]);
                                    }
                                } else {
                                    assert(h.subrange(79, 92)[0] == h[79]);
                                }
                            }
                        }
                    }
                } else {
                    if k <= 92 {
                        if k <= 86 {
                            if k <= 83 {
                                if k <= 81 {
                                    if k <= 80 {
                                        assert(h.subrange(80, 93)[0] == h[80]);
                                    } else {
                                        assert(h.subrange(81, 94)[0] == h[81]);
                                    }
                                } else {
                                    if k <= 82 {
                                        assert(h.subrange(82, 95)[0] == h[82]);
                                    } else {
                                        assert(h.subrange(83, 96)[0] == h[83]);
                                    }
                                }
                            } else {
                                if k <= 85 {
                                    if k <= 84 {
                                        assert(h.subrange(84, 97)[1] == h[85]);
                                    } else {
                                        assert(h.subrange(85, 98)[0] == h[85]);
                                    }
                                } else {
                                    assert(h.subrange(86, 99)[0] == h[86]);
                                }
                            }
                        } else {
                            if k <= 89 {
                                if k <= 88 {
                                    if k <= 87 {
                                        assert(h.subrange(87, 100)[0] == h[87]);
                                    } else {
                                        assert(h.subrange(88, 101)[0] == h[88]);
                                    }
                                } else {
                                    assert(h.subrange(89, 102)[0] == h[89]);
                                }
                            } else {
                                if k <= 91 {
                                    if k <= 90 {
                                        assert(h.subrange(90, 103)[0] == h[90]);
                                    } else {
                                        assert(h.subrange(91, 104)[0] == h[91]);
                                    }
                                } else {
                                    assert(h.subrange(92, 105)[0] == h[92]);
                                }
                            }
                        }
                    } else {
                        if k <= 99 {
                            if k <= 96 {
                                if k <= 94 {
                                    if k <= 93 {
                                        assert(h.subrange(93, 106)[0] == h[93]);
                                    } else {
                                        assert(h.subrange(94, 107)[0] == h[94]);
                                    }
                                } else {
                                    if k <= 95 {
                                        assert(h.subrange(95, 108)[0] == h[95]);
                                    } else {
                                        assert(h.subrange(96, 109)[0] == h[96]);
                                    }
                                }
                            } else {
                                if k <= 98 {
                                    if k <= 97 {
                                        assert(h.subrange(97, 110)[0] == h[97]);
                                    } else {
                                        assert(h.subrange(98, 111)[0] == h[98]);
                                    }
                                } else {
                                    assert(h.subrange(99, 112)[0] == h[99]);
                                }
                            }
                        } else {
                            if k <= 102 {
                                if k <= 101 {
                                    if k <= 100 {
                                        assert(h.subrange(100, 113)[0] == h[100]);
                                    } else {
                                        assert(h.subrange(101, 114)[0] == h[101]);
                                    }
                                } else {
                                    assert(h.subrange(102, 115)[0] == h[102]);
                                }
                            } else {
                                if k <= 104 {
                                    if k <= 103 {
                                        assert(h.subrange(103, 116)[0] == h[103]);
                                    } else {
                                        assert(h.subrange(104, 117)[0] == h[104]);
                                    }
                                } else {
                                    assert(h.subrange(105, 118)[0] == h[105]);
                                }
                            }
                        }
                    }
                }
            }
        }
    }
    let t = h + x;
    if has_substring(t, p) {
        let a = choose|a: int| matches_at(t, p, a);
        if a + 13 <= h.len() {
            assert(t.subrange(a, a + 13) =~= h.subrange(a, a + 13));
            assert(matches_at(h, p, a));
        } else if a >= h.len() {
            assert(t.subrange(a, a + 13) =~= x.subrange(a - h.len(), a - h.len() + 13));
            assert(matches_at(x, p, a - h.len()));
        } else {
            assert(t.subrange(a, a + 13)[h.len() - 1 - a] == t[h.len() - 1]);
            assert(t[h.len() - 1] == h[h.len() - 1]);
        }
    }
}

/// Every misspelling is corrected: a sketch that the editor receives and
/// that is not one of the two templates holds no `digital Write` at all, as
/// `str::replace` corrects every occurrence and the completion adds none.
pub proof fn lemma_editor_code_has_no_misspelling(c: Seq<char>)
    ensures
        corrected_code(c) != DUAL_CORE_TEMPLATE@ && corrected_code(c) != SINGLE_CORE_TEMPLATE@
            ==> !has_substring(corrected_code(c), "digital Write"@),
{
    reveal_strlit("digital Write");
    reveal_strlit("fn setup");
    let p = "digital Write"@;
    let fixed = replace_all(c, p, "digital_write"@);
    lemma_misspelling_never_overlaps_replacements();
    lemma_replace_all_leaves_none(c, p, "digital_write"@, p);
    let imported = if has_substring(fixed, "use ariel_school"@) { fixed } else { IMPORT_HEADER@ + fixed };
    if !has_substring(fixed, "use ariel_school"@) {
        lemma_import_header_adds_no_misspelling(fixed);
    }
    assert(!has_substring(imported, p));
    if !has_substring(imported, "#[school_main]"@) && !has_substring(imported, "#[school_dual_main]"@) {
        lemma_replace_all_leaves_none(imported, "fn setup"@, "#[school_main]\nfn setup"@, p);
    }
    assert(!has_substring(completed_sketch(fixed), p));
}

/// `use ariel_school` and `fn setup` can never overlap.
proof fn lemma_import_and_setup_never_overlap()
    ensures
        never_overlap("use ariel_school"@, "fn setup"@),
{
    reveal_strlit("use ariel_school");
    reveal_strlit("fn setup");
    let p = "use ariel_school"@;
    let f = "fn setup"@;
    assert forall|s: Seq<char>, a: int, b: int|
        #![trigger matches_at(s, p, a), matches_at(s, f, b)]
        matches_at(s, p, a) && matches_at(s, f, b) implies a + p.len() <= b || b + f.len() <= a by {
        if !(a + p.len() <= b || b + f.len() <= a) {
            if a < b {
                assert(s[b] == f[0]);
                assert(s.subrange(a, a + 16)[b - a] == s[b]);
                assert(p[b - a] == 'f');
            } else {
                assert(s.subrange(b, b + 8)[a - b] == s[a]);
                assert(s.subrange(a, a + 16)[0] == s[a]);
                assert(f[a - b] == 'u');
                assert(a - b == 6);
                assert(s.subrange(b, b + 8)[7] == s[a + 1]);
                assert(s.subrange(a, a + 16)[1] == s[a + 1]);
            }
        }
    }
}

/// Every sketch that the editor receives imports `ariel_school`: the two
/// templates do, and completed code either did already or gets the import
/// block, which the insertion of `#[school_main]` leaves in place.
pub proof fn lemma_editor_code_imports_ariel_school(c: Seq<char>)
    ensures
        has_substring(corrected_code(c), "use ariel_school"@),
{
    let p = "use ariel_school"@;
    reveal_strlit("use ariel_school");
    reveal_strlit("digital Write");
    reveal_strlit("fn setup");
    let fixed = replace_all(c, "digital Write"@, "digital_write"@);
    if has_substring(fixed, "school_dual_main"@) || has_substring(fixed, "loop_tick_1"@)
        || has_substring(fixed, "loop_tick_2"@) {
        reveal_strlit("// Автоматическая коррекция двухъядерного кода Rustino IDE\nuse ariel_school::{\n    school_dual_main, digital_write,\n    delay, LED_BUILTIN, HIGH, LOW\n};\n\n#[school_dual_main]\nfn setup() {\n    // Код настройки для двух ядер\n}\n\nfn loop_tick_1() {\n    // Задача для первого ядра\n    digital_write(LED_BUILTIN, HIGH);\n    delay(500);\n    digital_write(LED_BUILTIN, LOW);\n    delay(500);\n}\n\nfn loop_tick_2() {\n    // Задача для второго ядра\n    delay(10);\n}");
        assert(DUAL_CORE_TEMPLATE@.subrange(59, 75) =~= p);
        assert(matches_at(DUAL_CORE_TEMPLATE@, p, 59));
    } else if has_substring(fixed, "loop_tick"@) || has_substring(fixed, "loop"@)
        || has_substring(fixed, "Duration"@) {
        reveal_strlit("// Автоматическая коррекция одноядерного кода Rustino IDE\nuse ariel_school::{\n    school_main, digital_write,\n    delay, LED_BUILTIN, HIGH, LOW\n};\n\n#[school_main]\nfn setup() {\n    // Код настройки\n}\n\nfn loop_tick() {\n    digital_write(LED_BUILTIN, HIGH);\n    delay(500);\n    digital_write(LED_BUILTIN, LOW);\n    delay(500);\n}");
        assert(SINGLE_CORE_TEMPLATE@.subrange(58, 74) =~= p);
        assert(matches_at(SINGLE_CORE_TEMPLATE@, p, 58));
    } else {
        let imported = if has_substring(fixed, p) {
            fixed
        } else {
            IMPORT_HEADER@ + fixed
        };
        let k = if has_substring(fixed, p) {
            choose|k: int| matches_at(fixed, p, k)
        } else {
            reveal_strlit("// Код дополнен Rustino IDE\nuse ariel_school::{\n    school_main, digital_write,\n    delay, LED_BUILTIN, HIGH, LOW\n};\n\n");
            assert(imported.subrange(28, 44) =~= p);
            28
        };
        assert(matches_at(imported, p, k));
        if !has_substring(imported, "#[school_main]"@) && !has_substring(imported, "#[school_dual_main]"@) {
            lemma_import_and_setup_never_overlap();
            lemma_replace_all_keeps(imported, "fn setup"@, "#[school_main]\nfn setup"@, p, k);
        }
    }
}

} // verus!
