//! Building and flashing a sketch with the laze meta build system: the
//! project file, the command line and the build log.
use vstd::prelude::*;
use crate::text::{chars_of, replace_all, replace_chars, string_from_chars};

verus! {

/// The build log when the IDE starts.
pub const READY_TEXT: &'static str = "Система готова к работе. Подключите Pico.\n";

/// Put in front of the reason why `workspace/src` could not be created.
pub const CREATE_DIR_FAILED_PREFIX: &'static str = "❌ Ошибка создания папки workspace/src: ";

/// Put in front of the reason why the sketch could not be saved.
pub const WRITE_SKETCH_FAILED_PREFIX: &'static str = "❌ Ошибка записи файла main.rs: ";

/// Put in front of the reason why the laze project file could not be saved.
pub const WRITE_CONFIG_FAILED_PREFIX: &'static str = "❌ Ошибка конфигурации laze: ";

/// Put in front of the reason why no shell could run laze.
pub const SHELL_MISSING_PREFIX: &'static str =
    "❌ Критическая ошибка: Не найден Git Bash или bash в системе. Установите Git для Windows. (";

/// The first line of the build log.
pub const BUILD_STARTED_TEXT: &'static str = "⚙️ Запуск нативной компиляции проекта через мета-сборщик laze...\n";

/// Appended to the build log when laze succeeded.
pub const BUILD_SUCCEEDED_TEXT: &'static str =
    "\n🎉 СБОРКА УСПЕШНО ЗАВЕРШЕНА!\nМета-сборщик laze успешно скомпилировал проект под Raspberry Pi Pico.\n";

/// Appended to the build log when laze failed.
pub const BUILD_FAILED_TEXT: &'static str =
    "\n=== АНАЛИЗ ОШИБОК ===\n❌ Ошибка компиляции laze. Проверьте лог выше.\n";

/// The part of the project file before the Ariel OS path.
pub const CONFIG_HEAD: &'static str = "imports:\n  - path: \"";

/// The part of the project file after the Ariel OS path.
pub const CONFIG_TAIL: &'static str =
    "\"\napps:\n  - name: school_app\n    sources:\n      - src/main.rs\n    depends:\n      - ariel-os\n";

/// The laze project file that builds `src/main.rs` as the application
/// `school_app` against the Ariel OS tree at `ariel_os_path`.
pub fn laze_project_config(ariel_os_path: &str) -> (config: String)
    ensures
        config@ == CONFIG_HEAD@ + ariel_os_path@ + CONFIG_TAIL@,
{
    String::from_str(CONFIG_HEAD).concat(ariel_os_path).concat(CONFIG_TAIL)
}

/// The shell command that builds the sketch for the Raspberry Pi Pico, and
/// flashes the board as well when `flash_board` is set.
pub fn laze_command(flash_board: bool) -> (command: &'static str)
    ensures
        command@ == if flash_board { "laze build -b rpi-pico run"@ } else { "laze build -b rpi-pico"@ },
{
    if flash_board {
        "laze build -b rpi-pico run"
    } else {
        "laze build -b rpi-pico"
    }
}

/// `path` with every backslash turned into a slash.
pub fn forward_slashes(path: &str) -> (r: String)
    ensures
        r@ == replace_all(path@, "\\"@, "/"@),
{
    let from = chars_of("\\");
    proof {
        reveal_strlit("\\");
    }
    let replaced = replace_chars(&chars_of(path), &from, &chars_of("/"));
    string_from_chars(&replaced)
}

/// The build log after a step before the build failed: the step's message
/// followed by the reason and a line break.
pub fn failure_log(prefix: &str, reason: &str) -> (log: String)
    ensures
        log@ == prefix@ + reason@ + "\n"@,
{
    String::from_str(prefix).concat(reason).concat("\n")
}

/// Appends one line of laze output to the build log.
pub fn append_log_line(logs: &mut String, line: &str)
    ensures
        final(logs)@ == old(logs)@ + line@ + "\n"@,
{
    logs.append(line);
    logs.append("\n");
}

/// Appends the verdict of a finished build to the build log.
pub fn finish_build_log(logs: &mut String, success: bool)
    ensures
        final(logs)@ == old(logs)@ + if success { BUILD_SUCCEEDED_TEXT@ } else { BUILD_FAILED_TEXT@ },
{
    if success {
        logs.append(BUILD_SUCCEEDED_TEXT);
    } else {
        logs.append(BUILD_FAILED_TEXT);
    }
}

/// The build as the IDE shows it: its log and whether a build is running.
pub struct BuildState {
    pub log: String,
    pub compiling: bool,
}

/// What happens during a build.
pub enum BuildEvent {
    /// A build was asked for.
    Started,
    /// `workspace/src` could not be created, for this reason.
    CreateDirFailed(String),
    /// The sketch could not be saved, for this reason.
    WriteSketchFailed(String),
    /// The laze project file could not be saved, for this reason.
    WriteConfigFailed(String),
    /// No shell could be started, for this reason.
    ShellMissing(String),
    /// laze printed this line.
    OutputLine(String),
    /// laze ended, successfully or not.
    Finished(bool),
}

/// The next state of a build after `event`: a build that starts shows the
/// start line and runs; every way a build ends (a failed preparation step,
/// a missing shell, laze ending) stops it and shows why; laze output is
/// appended line by line while the build runs on.
pub fn build_step(state: &mut BuildState, event: BuildEvent)
    ensures
        match event {
            BuildEvent::Started => final(state).log@ == BUILD_STARTED_TEXT@ && final(state).compiling,
            BuildEvent::CreateDirFailed(reason) => {
                final(state).log@ == CREATE_DIR_FAILED_PREFIX@ + reason@ + "\n"@ && !final(state).compiling
            },
            BuildEvent::WriteSketchFailed(reason) => {
                final(state).log@ == WRITE_SKETCH_FAILED_PREFIX@ + reason@ + "\n"@ && !final(state).compiling
            },
            BuildEvent::WriteConfigFailed(reason) => {
                final(state).log@ == WRITE_CONFIG_FAILED_PREFIX@ + reason@ + "\n"@ && !final(state).compiling
            },
            BuildEvent::ShellMissing(reason) => {
                final(state).log@ == SHELL_MISSING_PREFIX@ + reason@ + ")"@ && !final(state).compiling
            },
            BuildEvent::OutputLine(line) => {
                final(state).log@ == old(state).log@ + line@ + "\n"@ && final(state).compiling == old(state).compiling
            },
            BuildEvent::Finished(success) => {
                &&& final(state).log@ == old(state).log@ + if success { BUILD_SUCCEEDED_TEXT@ } else { BUILD_FAILED_TEXT@ }
                &&& !final(state).compiling
            },
        },
{
    match event {
        BuildEvent::Started => {
            state.log = String::from_str(BUILD_STARTED_TEXT);
            state.compiling = true;
        },
        BuildEvent::CreateDirFailed(reason) => {
            state.log = failure_log(CREATE_DIR_FAILED_PREFIX, reason.as_str());
            state.compiling = false;
        },
        BuildEvent::WriteSketchFailed(reason) => {
            state.log = failure_log(WRITE_SKETCH_FAILED_PREFIX, reason.as_str());
            state.compiling = false;
        },
        BuildEvent::WriteConfigFailed(reason) => {
            state.log = failure_log(WRITE_CONFIG_FAILED_PREFIX, reason.as_str());
            state.compiling = false;
        },
        BuildEvent::ShellMissing(reason) => {
            state.log = String::from_str(SHELL_MISSING_PREFIX).concat(reason.as_str()).concat(")");
            state.compiling = false;
        },
        BuildEvent::OutputLine(line) => {
            append_log_line(&mut state.log, line.as_str());
        },
        BuildEvent::Finished(success) => {
            finish_build_log(&mut state.log, success);
            state.compiling = false;
        },
    }
}

} // verus!
