use ariel_school::assistant::{
    code_for_editor, correct_code, extract_code, DUAL_CORE_TEMPLATE, IMPORT_HEADER, SINGLE_CORE_TEMPLATE,
    STARTER_SKETCH,
};
use ariel_school::text::{chars_of, contains, replace_chars, trim_chars};

fn s(v: Vec<char>) -> String {
    v.into_iter().collect()
}

#[test]
fn extracts_rust_fenced_block_trimmed() {
    let reply = "Вот код:\n```rust\n  fn setup() {}\n```\nУдачи!";
    assert_eq!(s(extract_code(reply)), "fn setup() {}");
}

#[test]
fn rust_fence_wins_over_earlier_plain_fence() {
    let reply = "```\nplain\n``` then ```rust\nfn a() {}\n```";
    assert_eq!(s(extract_code(reply)), "fn a() {}");
}

#[test]
fn plain_fence_used_without_rust_fence() {
    let reply = "text ```\n digital_write(1, 1); \n``` more";
    assert_eq!(s(extract_code(reply)), "digital_write(1, 1);");
}

#[test]
fn unclosed_fence_gives_nothing() {
    assert_eq!(s(extract_code("```rust\nfn setup() {}")), "");
    assert_eq!(code_for_editor("```rust\nfn setup() {}"), None);
}

#[test]
fn bare_code_mentioning_api_is_taken_whole() {
    let reply = "  use ariel_school::*;\nfn setup() {}\n ";
    assert_eq!(s(extract_code(reply)), "use ariel_school::*;\nfn setup() {}");
    assert_eq!(s(extract_code("\tfn loop_tick() {}\n")), "fn loop_tick() {}");
}

#[test]
fn prose_without_code_gives_nothing() {
    assert_eq!(code_for_editor("Привет! Чем помочь?"), None);
    assert_eq!(code_for_editor(""), None);
}

#[test]
fn dual_core_markers_give_dual_template() {
    let reply = "```rust\nfn loop_tick_2() { delay(1); }\n```";
    assert_eq!(code_for_editor(reply).unwrap(), DUAL_CORE_TEMPLATE);
    let reply = "```\n#[school_dual_main]\nfn setup() {}\n```";
    assert_eq!(code_for_editor(reply).unwrap(), DUAL_CORE_TEMPLATE);
}

#[test]
fn own_loops_give_single_template() {
    assert_eq!(code_for_editor("```rust\nloop { }\n```").unwrap(), SINGLE_CORE_TEMPLATE);
    assert_eq!(code_for_editor("```rust\nlet d = Duration::from_millis(5);\n```").unwrap(), SINGLE_CORE_TEMPLATE);
    assert_eq!(code_for_editor("```rust\nfn loop_tick() {}\n```").unwrap(), SINGLE_CORE_TEMPLATE);
}

#[test]
fn misspelled_call_is_corrected_and_sketch_completed() {
    let reply = "```rust\nfn setup() {\n    digital Write(LED_BUILTIN, HIGH);\n}\n```";
    let expected = format!(
        "{}#[school_main]\nfn setup() {{\n    digital_write(LED_BUILTIN, HIGH);\n}}",
        IMPORT_HEADER
    );
    assert_eq!(code_for_editor(reply).unwrap(), expected);
}

#[test]
fn existing_import_and_attribute_are_kept() {
    let code = "use ariel_school::{delay};\n#[school_main]\nfn setup() { delay(5); }";
    let reply = format!("```rust\n{}\n```", code);
    assert_eq!(code_for_editor(&reply).unwrap(), code);
}

#[test]
fn every_setup_gets_attribute() {
    let code = chars_of("use ariel_school::x;\nfn setup() {}\nfn setup_leds() {}");
    assert_eq!(
        s(correct_code(&code)),
        "use ariel_school::x;\n#[school_main]\nfn setup() {}\n#[school_main]\nfn setup_leds() {}"
    );
}

#[test]
fn corrected_code_always_imports_ariel_school() {
    let replies = [
        "```rust\nfn setup() {}\n```",
        "```rust\nlet x = 5;\n```",
        "```\nfn loop_tick_1() {}\n```",
        "```\nwhile true {}\n```",
        "```rust\nuse ariel_school::{HIGH};\n```",
        "```rust\nfn main() { digital Write(1, 0); }\n```",
    ];
    for reply in replies {
        let code = code_for_editor(reply).unwrap();
        assert!(code.contains("use ariel_school"), "{}", code);
    }
}

#[test]
fn templates_are_sketches() {
    for t in [DUAL_CORE_TEMPLATE, SINGLE_CORE_TEMPLATE, STARTER_SKETCH] {
        assert!(t.contains("use ariel_school"));
        assert!(t.contains("fn setup()"));
    }
    assert!(STARTER_SKETCH.starts_with("// Школьный проект на Ariel OS\n"));
    assert!(DUAL_CORE_TEMPLATE.contains("#[school_dual_main]"));
    assert!(SINGLE_CORE_TEMPLATE.contains("#[school_main]"));
}

#[test]
fn text_helpers_agree_with_std() {
    let samples = [
        "", " a ", "\u{2003}x\u{3000}", "\t\r\n", "abc", "  ab  cd  ", "\u{85}z\u{a0}", "\u{1680}é\u{200b}",
    ];
    for t in samples {
        assert_eq!(s(trim_chars(&chars_of(t))), t.trim(), "{:?}", t);
        for p in ["a", "b", " ", "ab", "cd", "zz", ""] {
            assert_eq!(contains(&chars_of(t), &chars_of(p)), t.contains(p));
        }
    }
    let t = "aaaa a aaa";
    assert_eq!(s(replace_chars(&chars_of(t), &chars_of("aa"), &chars_of("b"))), t.replace("aa", "b"));
}

#[test]
fn white_space_matches_char_is_whitespace() {
    for n in 0..=0x3100u32 {
        if let Some(c) = char::from_u32(n) {
            assert_eq!(ariel_school::text::is_white_space_exec(c), c.is_whitespace(), "{:x}", n);
        }
    }
}
