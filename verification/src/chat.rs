//! The conversation with the local assistant model: which messages are
//! sent, and what the panel shows for each kind of reply.
use vstd::prelude::*;

verus! {

/// Reference of the school API shown next to the assistant panel.
pub const HELP_TEXT: &'static str = "СПРАВКА ПО API (надстройка ariel_school):\n1. Макросы:\n #[school_main] - обычный поток\n #[school_dual_main] - 2 ядра параллельно\n2. Структура:\n fn setup() - запуск один раз\n fn loop_tick() - цикл (для school_main)\n fn loop_tick_1(), fn loop_tick_2() - для двух ядер\n3. Команды управления:\n digital_write(pin, state) -> HIGH (1) / LOW (0)\n digital_read(pin) -> возвращает HIGH / LOW\n delay(ms) -> задержка в миллисекундах\n LED_BUILTIN -> встроенный светодиод";

/// The instructions that open every conversation with the assistant.
pub const SYSTEM_PROMPT: &'static str = "Ты — ИИ-помощник в школьной IDE робототехники на Rust (Ariel OS).\nТвоя задача — генерировать код строго под кастомную библиотеку ariel_school.\nКАТЕГОРИЧЕСКИ ЗАПРЕЩЕНО использовать: fn main(), loop {}, while true, async, await, .unwrap().\nКод должен состоять только из функций fn setup() и циклов loop_tick.\nПРАВИЛА ОДНОЯДЕРНОГО РЕЖИМА:\nИспользуй макрос #[school_main], пустую fn setup() и бесконечный цикл fn loop_tick().\nПРАВИЛА ДВУХЪЯДЕРНОГО РЕЖИМА:\nИспользуй макрос #[school_dual_main], пустую fn setup() и две функции для параллельных ядер: fn loop_tick_1() и fn loop_tick_2().\nДОСТУПНЫЙ НАБОР СИСТЕМНЫХ ФУНКЦИЙ И КОНСТАНТ:\n- digital_write(pin: u32, state: u8) -> устанавливает HIGH (1) или LOW (0)\n- digital_read(pin: u32) -> возвращает u8 (HIGH/LOW)\n- delay(ms: u32) -> приостанавливает поток на миллисекунды\n- LED_BUILTIN -> константа встроенного светодиода. Для инверсии используй (1 - digital_read(LED_BUILTIN)).\nОтвечай только кратко, на русском языке, код оборачивай в тройные кавычки ```rust.";

/// Shown when the model answered without any choice.
pub const EMPTY_REPLY_TEXT: &'static str = "Пустой ответ от Ollama.";

/// Shown when the model's answer is not the expected JSON.
pub const MALFORMED_REPLY_TEXT: &'static str = "Ошибка формата JSON локального сервера.";

/// Put in front of the HTTP status of a refused request.
pub const HTTP_ERROR_PREFIX: &'static str = "Ошибка Ollama: Код статуса ";

/// Put in front of the description of a failed connection.
pub const NETWORK_ERROR_PREFIX: &'static str = "Ошибка сети: Проверьте Ollama. Причина: ";

/// Shown in the assistant panel when the IDE starts.
pub const GREETING_TEXT: &'static str = "Привет! Я твой локальный ИИ-помощник.";

/// Shown in the assistant panel while a request is under way.
pub const THINKING_TEXT: &'static str = "ИИ обрабатывает манифест трансформации...";

/// The model that the IDE asks.
pub const MODEL_NAME: &'static str = "rustino";

/// Shown after the conversation was cleared.
pub const CLEARED_TEXT: &'static str = "Память ИИ очищена! Задайте новый вопрос.";

/// One message of the conversation, in the chat-completion format.
pub struct Message {
    /// `system`, `user` or `assistant`.
    pub role: String,
    /// The text of the message.
    pub content: String,
}

/// `m` has role `role` and text `content`.
pub open spec fn message_is(m: Message, role: Seq<char>, content: Seq<char>) -> bool {
    m.role@ == role && m.content@ == content
}

/// A conversation is either empty or opens with the system prompt.
pub open spec fn opens_with_system_prompt(history: Seq<Message>) -> bool {
    history.len() == 0 || message_is(history[0], "system"@, SYSTEM_PROMPT@)
}

/// What became of a request to the model.
pub enum ChatOutcome {
    /// The model answered with this text (its first choice).
    Reply(String),
    /// The model answered with no choice at all.
    EmptyReply,
    /// The model's answer could not be read.
    MalformedReply,
    /// The server refused the request with this HTTP status.
    HttpError(String),
    /// The server could not be reached, for this reason.
    NetworkError(String),
}

fn message(role: &str, content: &str) -> (m: Message)
    ensures
        message_is(m, role@, content@),
{
    Message { role: String::from_str(role), content: String::from_str(content) }
}

/// Adds a question to the conversation: an empty prompt sends nothing; a
/// conversation that has no message yet first gets the system prompt; then
/// the prompt follows as a user message. Returns whether a request is due.
pub fn queue_prompt(history: &mut Vec<Message>, prompt: &str) -> (sent: bool)
    ensures
        sent == (prompt@.len() > 0),
        !sent ==> final(history)@ == old(history)@,
        sent ==> {
            let start = if old(history)@.len() == 0 { 1int } else { 0int };
            &&& final(history)@.len() == old(history)@.len() + start + 1
            &&& final(history)@.take(old(history)@.len() as int) == old(history)@
            &&& old(history)@.len() == 0 ==> message_is(final(history)@[0], "system"@, SYSTEM_PROMPT@)
            &&& message_is(final(history)@.last(), "user"@, prompt@)
        },
        opens_with_system_prompt(old(history)@) ==> opens_with_system_prompt(final(history)@),
        sent ==> final(history)@.len() > 0,
{
    if prompt.is_empty() {
        return false;
    }
    let ghost before = history@;
    if history.len() == 0 {
        history.push(message("system", SYSTEM_PROMPT));
    }
    history.push(message("user", prompt));
    proof {
        assert(history@.take(before.len() as int) =~= before);
        if before.len() > 0 {
            assert(history@[0] == before[0]);
        }
    }
    true
}

/// Records the outcome of a request and returns the text that the assistant
/// panel shows: a reply is shown and added to the conversation as an
/// assistant message; for every failure an explanation is shown and the
/// conversation stays as it was.
pub fn record_outcome(history: &mut Vec<Message>, outcome: ChatOutcome) -> (shown: String)
    ensures
        match outcome {
            ChatOutcome::Reply(text) => {
                &&& shown@ == text@
                &&& final(history)@.len() == old(history)@.len() + 1
                &&& final(history)@.drop_last() == old(history)@
                &&& message_is(final(history)@.last(), "assistant"@, text@)
            },
            ChatOutcome::EmptyReply => shown@ == EMPTY_REPLY_TEXT@ && final(history)@ == old(history)@,
            ChatOutcome::MalformedReply => shown@ == MALFORMED_REPLY_TEXT@ && final(history)@ == old(history)@,
            ChatOutcome::HttpError(status) => {
                shown@ == HTTP_ERROR_PREFIX@ + status@ && final(history)@ == old(history)@
            },
            ChatOutcome::NetworkError(reason) => {
                shown@ == NETWORK_ERROR_PREFIX@ + reason@ && final(history)@ == old(history)@
            },
        },
        opens_with_system_prompt(old(history)@) && old(history)@.len() > 0 ==> opens_with_system_prompt(final(history)@),
{
    match outcome {
        ChatOutcome::Reply(text) => {
            let ghost before = history@;
            let shown = text.clone();
            history.push(Message { role: String::from_str("assistant"), content: text });
            proof {
                assert(history@.drop_last() =~= before);
                if before.len() > 0 {
                    assert(history@[0] == before[0]);
                }
            }
            shown
        },
        ChatOutcome::EmptyReply => String::from_str(EMPTY_REPLY_TEXT),
        ChatOutcome::MalformedReply => String::from_str(MALFORMED_REPLY_TEXT),
        ChatOutcome::HttpError(status) => String::from_str(HTTP_ERROR_PREFIX).concat(status.as_str()),
        ChatOutcome::NetworkError(reason) => String::from_str(NETWORK_ERROR_PREFIX).concat(reason.as_str()),
    }
}

/// Forgets the conversation and returns the text the assistant panel shows.
pub fn clear_conversation(history: &mut Vec<Message>) -> (shown: String)
    ensures
        final(history)@ == Seq::<Message>::empty(),
        shown@ == CLEARED_TEXT@,
{
    history.clear();
    String::from_str(CLEARED_TEXT)
}

} // verus!
