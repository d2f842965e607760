use ariel_school::chat::{
    clear_conversation, queue_prompt, record_outcome, ChatOutcome, Message, CLEARED_TEXT, EMPTY_REPLY_TEXT,
    MALFORMED_REPLY_TEXT, SYSTEM_PROMPT,
};
use ariel_school::highlight::{classify_word, highlight, TokenClass};
use ariel_school::highlight::TokenClass::{Api, Comment, Keyword, Plain};
use ariel_school::laze::{
    append_log_line, build_step, failure_log, finish_build_log, forward_slashes, laze_command, laze_project_config,
    BuildEvent, BuildState, BUILD_FAILED_TEXT, BUILD_STARTED_TEXT, BUILD_SUCCEEDED_TEXT, CREATE_DIR_FAILED_PREFIX,
    WRITE_CONFIG_FAILED_PREFIX, WRITE_SKETCH_FAILED_PREFIX,
};
use ariel_school::assistant::STARTER_SKETCH as STARTER;
use ariel_school::text::chars_of;

fn spans(text: &str) -> Vec<(String, TokenClass)> {
    highlight(text).into_iter().map(|s| (s.text, s.class)).collect()
}

fn sp(t: &str, c: TokenClass) -> (String, TokenClass) {
    (t.to_string(), c)
}

#[test]
fn highlight_splits_words_and_punctuation() {
    assert_eq!(
        spans("let x = delay(500);"),
        vec![
            sp("let", Keyword),
            sp(" ", Plain),
            sp("x", Plain),
            sp(" ", Plain),
            sp("=", Plain),
            sp(" ", Plain),
            sp("delay", Api),
            sp("(", Plain),
            sp("500", Plain),
            sp(")", Plain),
            sp(";", Plain),
            sp("\n", Plain),
        ]
    );
}

#[test]
fn highlight_comment_lines_whole() {
    assert_eq!(
        spans("  // fn setup\nfn a() {}\n"),
        vec![
            sp("  // fn setup", Comment),
            sp("\n", Plain),
            sp("fn", Keyword),
            sp(" ", Plain),
            sp("a", Plain),
            sp("(", Plain),
            sp(")", Plain),
            sp(" ", Plain),
            sp("{", Plain),
            sp("}", Plain),
            sp("\n", Plain),
        ]
    );
}

#[test]
fn highlight_lines_like_str_lines() {
    assert_eq!(spans(""), vec![]);
    assert_eq!(spans("\n"), vec![sp("\n", Plain)]);
    assert_eq!(spans("a\r\nb"), vec![sp("a", Plain), sp("\n", Plain), sp("b", Plain), sp("\n", Plain)]);
}

#[test]
fn highlight_unicode_words_and_school_names() {
    assert_eq!(
        spans("привет school_main"),
        vec![sp("привет", Plain), sp(" ", Plain), sp("school_main", Api), sp("\n", Plain)]
    );
    assert_eq!(spans("x2_y"), vec![sp("x2_y", Plain), sp("\n", Plain)]);
}

#[test]
fn word_classes() {
    for w in ["fn", "use", "const", "mut", "let"] {
        assert_eq!(classify_word(&chars_of(w)), TokenClass::Keyword);
    }
    for w in ["digital_write", "delay", "digital_read", "analog_read", "LED_BUILTIN", "HIGH", "LOW", "my_school_x"] {
        assert_eq!(classify_word(&chars_of(w)), TokenClass::Api);
    }
    for w in ["loop_tick", "setup", "Delay", "fnx"] {
        assert_eq!(classify_word(&chars_of(w)), TokenClass::Plain);
    }
    assert_eq!(TokenClass::Keyword.rgb(), (255, 120, 120));
    assert_eq!(TokenClass::Api.rgb(), (120, 200, 255));
    assert_eq!(TokenClass::Comment.rgb(), (100, 150, 100));
    assert_eq!(TokenClass::Plain.rgb(), (230, 230, 230));
}

#[test]
fn laze_files_and_commands() {
    assert_eq!(
        laze_project_config("C:/x/ariel-os"),
        "imports:\n  - path: \"C:/x/ariel-os\"\napps:\n  - name: school_app\n    sources:\n      - src/main.rs\n    depends:\n      - ariel-os\n"
    );
    assert_eq!(laze_command(true), "laze build -b rpi-pico run");
    assert_eq!(laze_command(false), "laze build -b rpi-pico");
    assert_eq!(forward_slashes("C:\\Users\\kid\\ariel-os"), "C:/Users/kid/ariel-os");
}

#[test]
fn build_log_grows() {
    let mut log = String::from("start\n");
    append_log_line(&mut log, "Compiling x");
    assert_eq!(log, "start\nCompiling x\n");
    finish_build_log(&mut log, true);
    assert_eq!(log, format!("start\nCompiling x\n{}", BUILD_SUCCEEDED_TEXT));
    let mut log = String::new();
    finish_build_log(&mut log, false);
    assert_eq!(log, BUILD_FAILED_TEXT);
    assert_eq!(failure_log("E: ", "denied"), "E: denied\n");
}

fn roles(h: &[Message]) -> Vec<(&str, &str)> {
    h.iter().map(|m| (m.role.as_str(), m.content.as_str())).collect()
}

#[test]
fn conversation_opens_with_system_prompt() {
    let mut h: Vec<Message> = Vec::new();
    assert!(!queue_prompt(&mut h, ""));
    assert!(h.is_empty());
    assert!(queue_prompt(&mut h, "мигай"));
    assert_eq!(roles(&h), vec![("system", SYSTEM_PROMPT), ("user", "мигай")]);
    let shown = record_outcome(&mut h, ChatOutcome::Reply(String::from("ok")));
    assert_eq!(shown, "ok");
    assert!(queue_prompt(&mut h, "ещё"));
    assert_eq!(
        roles(&h),
        vec![("system", SYSTEM_PROMPT), ("user", "мигай"), ("assistant", "ok"), ("user", "ещё")]
    );
}

#[test]
fn failures_are_explained_and_not_recorded() {
    let mut h: Vec<Message> = Vec::new();
    queue_prompt(&mut h, "q");
    assert_eq!(record_outcome(&mut h, ChatOutcome::EmptyReply), EMPTY_REPLY_TEXT);
    assert_eq!(record_outcome(&mut h, ChatOutcome::MalformedReply), MALFORMED_REPLY_TEXT);
    assert_eq!(
        record_outcome(&mut h, ChatOutcome::HttpError(String::from("404 Not Found"))),
        "Ошибка Ollama: Код статуса 404 Not Found"
    );
    assert_eq!(
        record_outcome(&mut h, ChatOutcome::NetworkError(String::from("refused"))),
        "Ошибка сети: Проверьте Ollama. Причина: refused"
    );
    assert_eq!(h.len(), 2);
}

#[test]
fn clearing_forgets_everything() {
    let mut h: Vec<Message> = Vec::new();
    queue_prompt(&mut h, "q");
    assert_eq!(clear_conversation(&mut h), CLEARED_TEXT);
    assert!(h.is_empty());
    queue_prompt(&mut h, "q2");
    assert_eq!(h[0].role, "system");
}

#[test]
fn highlight_keeps_the_text() {
    for text in [STARTER, "fn a() {}\n// c\n\nlet x=1;", "a\n", "", "привет, мир!\n\tb_c(1)"] {
        let joined: String = highlight(text).into_iter().map(|s| s.text).collect();
        let expected = if text.is_empty() || text.ends_with('\n') { text.to_string() } else { format!("{}\n", text) };
        assert_eq!(joined, expected);
    }
}

#[test]
fn highlight_keeps_text_with_carriage_returns() {
    for text in ["a\r\nb\rc\r\n\r", "\r\n", "\r", "x\r\r\ny", "a\nb\r\n"] {
        let joined: String = highlight(text).into_iter().map(|s| s.text).collect();
        let shown = text.replace("\r\n", "\n");
        let expected = if text.is_empty() || text.ends_with('\n') { shown } else { format!("{}\n", shown) };
        assert_eq!(joined, expected, "{:?}", text);
    }
}

#[test]
fn ascii_alphanumerics_are_letters_and_digits() {
    for n in 0..128u8 {
        let c = n as char;
        assert_eq!(c.is_alphanumeric(), c.is_ascii_alphanumeric(), "{:?}", c);
    }
}

#[test]
fn code_lines_are_coloured_by_maximal_word_runs() {
    let is_word = |c: char| c.is_alphanumeric() || c == '_';
    for line in ["let x = delay(500);", "  fn loop_tick() { digital_write(LED_BUILTIN, HIGH); }", "a__b==c", "(( ))", "привет_мир 42"] {
        let spans = highlight(line);
        let body = &spans[..spans.len() - 1];
        assert_eq!(spans.last().map(|s| (s.text.as_str(), s.class)), Some(("\n", Plain)));
        let joined: String = body.iter().map(|s| s.text.as_str()).collect();
        assert_eq!(joined, line);
        for (k, span) in body.iter().enumerate() {
            let word = span.text.chars().all(is_word);
            if word {
                assert!(!span.text.is_empty());
                assert_eq!(span.class, classify_word(&chars_of(&span.text)));
                if k + 1 < body.len() {
                    assert!(!body[k + 1].text.chars().all(is_word));
                }
            } else {
                assert_eq!(span.text.chars().count(), 1);
                assert_eq!(span.class, Plain);
            }
        }
    }
}

#[test]
fn word_chars_in_ascii_are_letters_digits_underscore() {
    for n in 0..128u8 {
        let c = n as char;
        assert_eq!(ariel_school::highlight::is_word_char_exec(c), c.is_ascii_alphanumeric() || c == '_', "{:?}", c);
    }
    assert!(ariel_school::highlight::is_word_char_exec('ж'));
    assert!(!ariel_school::highlight::is_word_char_exec('—'));
}

#[test]
fn build_state_machine() {
    let mut state = BuildState { log: String::from("old"), compiling: false };
    build_step(&mut state, BuildEvent::Started);
    assert!(state.compiling);
    assert_eq!(state.log, BUILD_STARTED_TEXT);
    build_step(&mut state, BuildEvent::OutputLine(String::from("Compiling")));
    assert!(state.compiling);
    assert_eq!(state.log, format!("{}Compiling\n", BUILD_STARTED_TEXT));
    build_step(&mut state, BuildEvent::Finished(false));
    assert!(!state.compiling);
    assert_eq!(state.log, format!("{}Compiling\n{}", BUILD_STARTED_TEXT, BUILD_FAILED_TEXT));

    for (event, prefix) in [
        (BuildEvent::CreateDirFailed(String::from("denied")), CREATE_DIR_FAILED_PREFIX),
        (BuildEvent::WriteSketchFailed(String::from("denied")), WRITE_SKETCH_FAILED_PREFIX),
        (BuildEvent::WriteConfigFailed(String::from("denied")), WRITE_CONFIG_FAILED_PREFIX),
    ] {
        let mut state = BuildState { log: String::new(), compiling: false };
        build_step(&mut state, BuildEvent::Started);
        build_step(&mut state, event);
        assert!(!state.compiling);
        assert_eq!(state.log, format!("{}denied\n", prefix));
    }

    let mut state = BuildState { log: String::new(), compiling: true };
    build_step(&mut state, BuildEvent::ShellMissing(String::from("no such file")));
    assert!(!state.compiling);
    assert_eq!(
        state.log,
        "❌ Критическая ошибка: Не найден Git Bash или bash в системе. Установите Git для Windows. (no such file)"
    );
}
