//! The settings of a schedule, and the LaunchAgent that carries it out.
pub mod laws;
pub mod property_list;

use crate::filepath;
use crate::filepath::{FilePath, ShownPath, ShownPathView};
use crate::flow;
use crate::text;
use vstd::prelude::*;
use vstd::utf8::*;

verus! {

/// The name under which the schedule is known to the system.
pub const LABEL: &'static str = "org.nixos.lop";

/// How often a schedule runs, unless its settings say otherwise, in seconds.
pub const DEFAULT_INTERVAL_SECONDS: u64 = 1_800;

/// How often a schedule may run at most.
pub const MINIMUM_INTERVAL_SECONDS: u64 = 300;

/// How often a schedule has to run at least.
pub const MAXIMUM_INTERVAL_SECONDS: u64 = 604_800;

/// What a scheduled run does.
#[derive(Debug, Clone, Copy, PartialEq, Eq, Structural)]
pub enum ScheduleMode {
    Scan,
    Prune,
}

impl DeepView for ScheduleMode {
    type V = ScheduleMode;

    open spec fn deep_view(&self) -> ScheduleMode {
        *self
    }
}

/// The name of a mode.
pub open spec fn mode_label(mode: ScheduleMode) -> Seq<char> {
    match mode {
        ScheduleMode::Scan => "scan"@,
        ScheduleMode::Prune => "prune"@,
    }
}

impl ScheduleMode {
    /// The name of the mode.
    pub fn label(self) -> (label: &'static str)
        ensures
            label@ == mode_label(self),
    {
        match self {
            ScheduleMode::Scan => "scan",
            ScheduleMode::Prune => "prune",
        }
    }
}

/// The settings of a schedule.
#[derive(Debug, Clone, Copy, PartialEq, Eq, Structural)]
pub struct ScheduleSettings {
    pub mode: ScheduleMode,
    pub interval_seconds: u64,
}

impl DeepView for ScheduleSettings {
    type V = ScheduleSettings;

    open spec fn deep_view(&self) -> ScheduleSettings {
        *self
    }
}

impl Default for ScheduleSettings {
    fn default() -> (settings: Self)
        ensures
            settings == default_settings(),
    {
        ScheduleSettings {
            mode: ScheduleMode::Scan,
            interval_seconds: DEFAULT_INTERVAL_SECONDS,
        }
    }
}

/// The settings with which a schedule starts: it only looks.
pub open spec fn default_settings() -> ScheduleSettings {
    ScheduleSettings { mode: ScheduleMode::Scan, interval_seconds: DEFAULT_INTERVAL_SECONDS }
}

/// Whether settings can be used.
pub open spec fn settings_valid(settings: ScheduleSettings) -> bool {
    MINIMUM_INTERVAL_SECONDS <= settings.interval_seconds <= MAXIMUM_INTERVAL_SECONDS
}

/// What is said of settings that cannot be used.
pub open spec fn interval_message() -> Seq<char> {
    "interval_seconds must be between "@ + text::decimal_text(MINIMUM_INTERVAL_SECONDS as nat)
        + " and "@ + text::decimal_text(MAXIMUM_INTERVAL_SECONDS as nat)
}

/// Settings as they are written down.
pub open spec fn encoded_settings(settings: ScheduleSettings) -> Seq<char> {
    "# Managed by `lop schedule`; edit with `lop schedule edit`.\nmode = \""@ + mode_label(
        settings.mode,
    ) + "\"\ninterval_seconds = "@ + text::decimal_text(settings.interval_seconds as nat) + "\n"@
}

impl ScheduleSettings {
    /// Checks the settings. It is an error where the interval is too short or too long.
    pub fn validate(&self) -> (result: Result<(), String>)
        ensures
            flow::result_view(result) == (if settings_valid(*self) {
                Ok::<(), Seq<char>>(())
            } else {
                Err(interval_message())
            }),
    {
        if self.interval_seconds < MINIMUM_INTERVAL_SECONDS || self.interval_seconds
            > MAXIMUM_INTERVAL_SECONDS {
            let minimum = text::decimal(MINIMUM_INTERVAL_SECONDS);
            let maximum = text::decimal(MAXIMUM_INTERVAL_SECONDS);
            return Err(
                text::concat4(
                    "interval_seconds must be between ",
                    minimum.as_str(),
                    " and ",
                    maximum.as_str(),
                ),
            );
        }
        Ok(())
    }

    /// The settings as they are written down.
    pub fn encode(&self) -> (text: String)
        ensures
            text@ == encoded_settings(*self),
    {
        let number = text::decimal(self.interval_seconds);
        text::concat5(
            "# Managed by `lop schedule`; edit with `lop schedule edit`.\nmode = \"",
            self.mode.label(),
            "\"\ninterval_seconds = ",
            number.as_str(),
            "\n",
        )
    }
}

/// The files of a schedule.
#[derive(Debug, PartialEq, Eq)]
pub struct SchedulePaths {
    pub settings: FilePath,
    pub launch_agent: FilePath,
    pub log_directory: FilePath,
}

/// The content of a [`SchedulePaths`].
pub struct SchedulePathsView {
    pub settings: Seq<u8>,
    pub launch_agent: Seq<u8>,
    pub log_directory: Seq<u8>,
}

impl DeepView for SchedulePaths {
    type V = SchedulePathsView;

    open spec fn deep_view(&self) -> SchedulePathsView {
        SchedulePathsView {
            settings: self.settings@,
            launch_agent: self.launch_agent@,
            log_directory: self.log_directory@,
        }
    }
}

impl Clone for SchedulePaths {
    fn clone(&self) -> (copy: Self)
        ensures
            copy.deep_view() == self.deep_view(),
    {
        SchedulePaths {
            settings: self.settings.clone(),
            launch_agent: self.launch_agent.clone(),
            log_directory: self.log_directory.clone(),
        }
    }
}

/// The programs that a scheduled run needs.
#[derive(Debug, PartialEq, Eq)]
pub struct Programs {
    pub lop: FilePath,
    pub git: FilePath,
    pub worktrunk: FilePath,
    /// The directories that programs are looked up in.
    pub path: String,
}

/// The content of a [`Programs`].
pub struct ProgramsView {
    pub lop: Seq<u8>,
    pub git: Seq<u8>,
    pub worktrunk: Seq<u8>,
    pub path: Seq<char>,
}

impl DeepView for Programs {
    type V = ProgramsView;

    open spec fn deep_view(&self) -> ProgramsView {
        ProgramsView {
            lop: self.lop@,
            git: self.git@,
            worktrunk: self.worktrunk@,
            path: self.path@,
        }
    }
}

impl Clone for Programs {
    fn clone(&self) -> (copy: Self)
        ensures
            copy.deep_view() == self.deep_view(),
    {
        Programs {
            lop: self.lop.clone(),
            git: self.git.clone(),
            worktrunk: self.worktrunk.clone(),
            path: self.path.clone(),
        }
    }
}

/// What a scheduled run finds around it.
#[derive(Debug, PartialEq, Eq)]
pub struct ScheduleEnvironment {
    pub programs: Programs,
    pub ssh_auth_sock: Option<ShownPath>,
}

/// The content of a [`ScheduleEnvironment`].
pub struct ScheduleEnvironmentView {
    pub programs: ProgramsView,
    pub ssh_auth_sock: Option<ShownPathView>,
}

impl DeepView for ScheduleEnvironment {
    type V = ScheduleEnvironmentView;

    open spec fn deep_view(&self) -> ScheduleEnvironmentView {
        ScheduleEnvironmentView {
            programs: self.programs.deep_view(),
            ssh_auth_sock: self.ssh_auth_sock.deep_view(),
        }
    }
}

impl Clone for ScheduleEnvironment {
    fn clone(&self) -> (copy: Self)
        ensures
            copy.deep_view() == self.deep_view(),
    {
        ScheduleEnvironment {
            programs: self.programs.clone(),
            ssh_auth_sock: filepath::clone_shown(&self.ssh_auth_sock),
        }
    }
}

/// The LaunchAgent of a schedule.
#[derive(Debug, PartialEq, Eq)]
pub struct LaunchAgent {
    pub contents: String,
}

/// The content of a [`LaunchAgent`].
pub struct LaunchAgentView {
    pub contents: Seq<char>,
}

impl DeepView for LaunchAgent {
    type V = LaunchAgentView;

    open spec fn deep_view(&self) -> LaunchAgentView {
        LaunchAgentView {
            contents: self.contents@,
        }
    }
}

/// A character as it is written in XML.
pub open spec fn escaped_char(c: char) -> Seq<char> {
    if c == '&' {
        "&amp;"@
    } else if c == '<' {
        "&lt;"@
    } else if c == '>' {
        "&gt;"@
    } else if c == '"' {
        "&quot;"@
    } else if c == '\'' {
        "&apos;"@
    } else {
        seq![c]
    }
}

/// A text as it is written in XML.
pub open spec fn escaped(value: Seq<char>) -> Seq<char>
    decreases value.len(),
{
    if value.len() == 0 {
        Seq::empty()
    } else {
        escaped(value.drop_last()) + escaped_char(value.last())
    }
}

/// A text as it is written in XML.
pub fn xml_escape(value: &str) -> (result: String)
    ensures
        result@ == escaped(value@),
{
    let chars = text::to_chars(value);
    let mut result = String::new();
    let mut i: usize = 0;
    assert(chars@.take(0) =~= Seq::empty());
    while i < chars.len()
        invariant
            i <= chars.len(),
            result@ == escaped(chars@.take(i as int)),
        decreases chars.len() - i,
    {
        let ghost before = result@;
        assert(chars@.take(i + 1).drop_last() =~= chars@.take(i as int));
        let c = chars[i];
        let piece = if c == '&' {
            "&amp;".to_owned()
        } else if c == '<' {
            "&lt;".to_owned()
        } else if c == '>' {
            "&gt;".to_owned()
        } else if c == '"' {
            "&quot;".to_owned()
        } else if c == '\'' {
            "&apos;".to_owned()
        } else {
            let mut alone = String::new();
            alone.push(c);
            assert(alone@ =~= seq![c]);
            alone
        };
        assert(piece@ == escaped_char(c));
        result = text::concat2(result.as_str(), piece.as_str());
        i += 1;
    }
    assert(chars@.take(i as int) =~= chars@);
    result
}

/// The arguments that make a run do what the mode says.
pub open spec fn mode_arguments(mode: ScheduleMode) -> Seq<Seq<char>> {
    match mode {
        ScheduleMode::Scan => seq!["scan"@],
        ScheduleMode::Prune => seq!["prune"@, "--yes"@],
    }
}

/// The command of a scheduled run.
pub open spec fn scheduled_command(mode: ScheduleMode, lop: Seq<u8>) -> Seq<Seq<char>> {
    seq![text::lossy_text(lop)] + mode_arguments(mode)
}

/// A line with a tag.
pub open spec fn tag_line(indent: Seq<char>, tag: Seq<char>) -> Seq<char> {
    indent + "<"@ + tag + ">"@
}

/// A line with a tag, a text and the tag that ends it.
pub open spec fn element_line(indent: Seq<char>, name: Seq<char>, value: Seq<char>) -> Seq<char> {
    indent + "<"@ + name + ">"@ + value + "</"@ + name + ">"@
}

/// The line with one argument.
pub open spec fn argument_line(argument: Seq<char>) -> Seq<char> {
    element_line("        "@, "string"@, escaped(argument))
}

/// The lines before the arguments.
pub open spec fn head_lines() -> Seq<Seq<char>> {
    seq![
        tag_line(""@, "?xml version=\"1.0\" encoding=\"UTF-8\"?"@),
        tag_line(
            ""@,
            "!DOCTYPE plist PUBLIC \"-//Apple//DTD PLIST 1.0//EN\" \"http://www.apple.com/DTDs/PropertyList-1.0.dtd\""@,
        ),
        tag_line(""@, "plist version=\"1.0\""@),
        tag_line(""@, "dict"@),
        element_line("    "@, "key"@, "Label"@),
        element_line("    "@, "string"@, LABEL@),
        element_line("    "@, "key"@, "ProgramArguments"@),
        tag_line("    "@, "array"@),
    ]
}

/// The lines with the arguments.
pub open spec fn argument_lines(arguments: Seq<Seq<char>>) -> Seq<Seq<char>> {
    Seq::new(arguments.len(), |i: int| argument_line(arguments[i]))
}

/// The lines behind the arguments, up to the interval.
pub open spec fn interval_lines(interval: u64) -> Seq<Seq<char>> {
    seq![
        tag_line("    "@, "/array"@),
        element_line("    "@, "key"@, "RunAtLoad"@),
        tag_line("    "@, "true/"@),
        element_line("    "@, "key"@, "StartInterval"@),
        element_line("    "@, "integer"@, text::decimal_text(interval as nat)),
    ]
}

/// The lines with the environment of a run.
pub open spec fn environment_lines(environment: ScheduleEnvironmentView) -> Seq<Seq<char>> {
    seq![
        "    <key>EnvironmentVariables</key>"@,
        "    <dict>"@,
        "        <key>GIT_TERMINAL_PROMPT</key>"@,
        "        <string>0</string>"@,
        "        <key>GIT_SSH_COMMAND</key>"@,
        "        <string>/usr/bin/ssh -o BatchMode=yes</string>"@,
        "        <key>PATH</key>"@,
        argument_line(environment.programs.path),
    ] + match environment.ssh_auth_sock {
        None => Seq::empty(),
        Some(socket) => seq![
            "        <key>SSH_AUTH_SOCK</key>"@,
            argument_line(text::lossy_text(socket.path)),
        ],
    }
}

/// The line with the path of a log.
pub open spec fn log_line(directory: Seq<u8>, name: Seq<char>) -> Seq<char> {
    "    <string>"@ + escaped(text::lossy_text(filepath::joined(directory, encode_utf8(name))))
        + "</string>"@
}

/// The lines with the logs, and the end.
pub open spec fn tail_lines(log_directory: Seq<u8>) -> Seq<Seq<char>> {
    seq![
        "    </dict>"@,
        "    <key>StandardOutPath</key>"@,
        log_line(log_directory, "lop.out.log"@),
        "    <key>StandardErrorPath</key>"@,
        log_line(log_directory, "lop.err.log"@),
        "</dict>"@,
        "</plist>"@,
        ""@,
    ]
}

/// The lines of a LaunchAgent up to the interval.
pub open spec fn front_lines(settings: ScheduleSettings, lop: Seq<u8>) -> Seq<Seq<char>> {
    head_lines() + argument_lines(scheduled_command(settings.mode, lop)) + interval_lines(
        settings.interval_seconds,
    )
}

/// The LaunchAgent for a schedule. It runs at load, and carries no order to be kept alive.
pub open spec fn launch_agent_text(
    settings: ScheduleSettings,
    environment: ScheduleEnvironmentView,
    paths: SchedulePathsView,
) -> Seq<char> {
    text::joined_text(
        front_lines(settings, environment.programs.lop) + environment_lines(environment)
            + tail_lines(paths.log_directory),
        seq!['\n'],
    )
}

fn push_tag(lines: &mut Vec<String>, indent: &str, tag: &str)
    ensures
        final(lines).deep_view() == old(lines).deep_view().push(tag_line(indent@, tag@)),
{
    let line = text::concat4(indent, "<", tag, ">");
    text::push_text(lines, line.as_str());
}

fn push_element(lines: &mut Vec<String>, indent: &str, name: &str, value: &str)
    ensures
        final(lines).deep_view() == old(lines).deep_view().push(
            element_line(indent@, name@, value@),
        ),
{
    let front = text::concat5(indent, "<", name, ">", value);
    let line = text::concat4(front.as_str(), "</", name, ">");
    text::push_text(lines, line.as_str());
}

fn push_argument(lines: &mut Vec<String>, argument: &str)
    ensures
        final(lines).deep_view() == old(lines).deep_view().push(argument_line(argument@)),
{
    let value = xml_escape(argument);
    push_element(lines, "        ", "string", value.as_str());
}

fn push_log(lines: &mut Vec<String>, directory: &FilePath, name: &str)
    ensures
        final(lines).deep_view() == old(lines).deep_view().push(log_line(directory@, name@)),
{
    let shown = directory.join_text(name).display();
    let value = xml_escape(shown.as_str());
    let line = text::concat3("    <string>", value.as_str(), "</string>");
    text::push_text(lines, line.as_str());
}

fn push_front(lines: &mut Vec<String>, settings: &ScheduleSettings, lop: &FilePath)
    requires
        old(lines).deep_view().len() == 0,
    ensures
        final(lines).deep_view() == front_lines(*settings, lop@),
{
    push_tag(lines, "", "?xml version=\"1.0\" encoding=\"UTF-8\"?");
    push_tag(
        lines,
        "",
        "!DOCTYPE plist PUBLIC \"-//Apple//DTD PLIST 1.0//EN\" \"http://www.apple.com/DTDs/PropertyList-1.0.dtd\"",
    );
    push_tag(lines, "", "plist version=\"1.0\"");
    push_tag(lines, "", "dict");
    push_element(lines, "    ", "key", "Label");
    push_element(lines, "    ", "string", LABEL);
    push_element(lines, "    ", "key", "ProgramArguments");
    push_tag(lines, "    ", "array");
    assert(lines.deep_view() =~= head_lines());
    let shown = lop.display();
    push_argument(lines, shown.as_str());
    match settings.mode {
        ScheduleMode::Scan => push_argument(lines, "scan"),
        ScheduleMode::Prune => {
            push_argument(lines, "prune");
            push_argument(lines, "--yes");
        },
    }
    proof {
        let arguments = scheduled_command(settings.mode, lop@);
        assert(argument_lines(arguments) =~= match settings.mode {
            ScheduleMode::Scan => seq![argument_line(shown@), argument_line("scan"@)],
            ScheduleMode::Prune => seq![
                argument_line(shown@),
                argument_line("prune"@),
                argument_line("--yes"@),
            ],
        });
        assert(lines.deep_view() =~= head_lines() + argument_lines(arguments));
    }
    let ghost before = lines.deep_view();
    push_tag(lines, "    ", "/array");
    push_element(lines, "    ", "key", "RunAtLoad");
    push_tag(lines, "    ", "true/");
    push_element(lines, "    ", "key", "StartInterval");
    let number = text::decimal(settings.interval_seconds);
    push_element(lines, "    ", "integer", number.as_str());
    assert(lines.deep_view() =~= before + interval_lines(settings.interval_seconds));
}

fn push_environment(lines: &mut Vec<String>, environment: &ScheduleEnvironment)
    ensures
        final(lines).deep_view() == old(lines).deep_view() + environment_lines(
            environment.deep_view(),
        ),
{
    let ghost before = lines.deep_view();
    text::push_text(lines, "    <key>EnvironmentVariables</key>");
    text::push_text(lines, "    <dict>");
    text::push_text(lines, "        <key>GIT_TERMINAL_PROMPT</key>");
    text::push_text(lines, "        <string>0</string>");
    text::push_text(lines, "        <key>GIT_SSH_COMMAND</key>");
    text::push_text(lines, "        <string>/usr/bin/ssh -o BatchMode=yes</string>");
    text::push_text(lines, "        <key>PATH</key>");
    push_argument(lines, environment.programs.path.as_str());
    if let Some(socket) = &environment.ssh_auth_sock {
        text::push_text(lines, "        <key>SSH_AUTH_SOCK</key>");
        push_argument(lines, socket.path.display().as_str());
    }
    assert(lines.deep_view() =~= before + environment_lines(environment.deep_view()));
}

/// Writes the LaunchAgent for a schedule.
pub fn generate_launch_agent(
    settings: &ScheduleSettings,
    environment: &ScheduleEnvironment,
    paths: &SchedulePaths,
) -> (agent: LaunchAgent)
    ensures
        agent.deep_view().contents == launch_agent_text(
            *settings,
            environment.deep_view(),
            paths.deep_view(),
        ),
{
    let mut lines: Vec<String> = Vec::new();
    push_front(&mut lines, settings, &environment.programs.lop);
    push_environment(&mut lines, environment);
    let ghost before = lines.deep_view();
    text::push_text(&mut lines, "    </dict>");
    text::push_text(&mut lines, "    <key>StandardOutPath</key>");
    push_log(&mut lines, &paths.log_directory, "lop.out.log");
    text::push_text(&mut lines, "    <key>StandardErrorPath</key>");
    push_log(&mut lines, &paths.log_directory, "lop.err.log");
    text::push_text(&mut lines, "</dict>");
    text::push_text(&mut lines, "</plist>");
    text::push_text(&mut lines, "");
    assert(lines.deep_view() =~= before + tail_lines(paths.log_directory@));
    proof {
        reveal_strlit("\n");
        assert("\n"@ =~= seq!['\n']);
    }
    LaunchAgent { contents: text::join_texts(&lines, "\n") }
}

/// What a LaunchAgent says that is run, and how often.
#[derive(Debug, PartialEq, Eq)]
pub struct InstalledCommand {
    pub arguments: Vec<String>,
    pub interval_seconds: u64,
}

/// The content of a [`InstalledCommand`].
pub struct InstalledCommandView {
    pub arguments: Seq<Seq<char>>,
    pub interval_seconds: u64,
}

impl DeepView for InstalledCommand {
    type V = InstalledCommandView;

    open spec fn deep_view(&self) -> InstalledCommandView {
        InstalledCommandView {
            arguments: self.arguments.deep_view(),
            interval_seconds: self.interval_seconds,
        }
    }
}

/// A text that was written in XML, read back.
pub open spec fn unescaped(value: Seq<char>) -> Seq<char>
    decreases value.len(),
{
    if value.len() == 0 {
        Seq::empty()
    } else if value.len() >= 5 && "&amp;"@.is_prefix_of(value) {
        seq!['&'] + unescaped(value.skip(5))
    } else if value.len() >= 4 && "&lt;"@.is_prefix_of(value) {
        seq!['<'] + unescaped(value.skip(4))
    } else if value.len() >= 4 && "&gt;"@.is_prefix_of(value) {
        seq!['>'] + unescaped(value.skip(4))
    } else if value.len() >= 6 && "&quot;"@.is_prefix_of(value) {
        seq!['"'] + unescaped(value.skip(6))
    } else if value.len() >= 6 && "&apos;"@.is_prefix_of(value) {
        seq!['\''] + unescaped(value.skip(6))
    } else {
        seq![value[0]] + unescaped(value.skip(1))
    }
}

/// A text that was written in XML, read back.
pub fn xml_unescape(value: &str) -> (result: String)
    ensures
        result@ == unescaped(value@),
{
    let chars = text::to_chars(value);
    let mut result = String::new();
    let mut i: usize = 0;
    assert(chars@.skip(0) =~= chars@);
    assert(result@ + unescaped(chars@) =~= unescaped(chars@));
    while i < chars.len()
        invariant
            i <= chars.len(),
            chars@ == value@,
            unescaped(value@) == result@ + unescaped(chars@.skip(i as int)),
        decreases chars.len() - i,
    {
        let ghost rest = chars@.skip(i as int);
        let ghost before = result@;
        proof {
            reveal_strlit("&amp;");
            reveal_strlit("&lt;");
            reveal_strlit("&gt;");
            reveal_strlit("&quot;");
            reveal_strlit("&apos;");
        }
        let tail = text::from_chars(&chars, i, chars.len());
        assert(tail@ =~= rest);
        let mut width: usize = 1;
        let mut c: char = chars[i];
        if text::starts_with(tail.as_str(), "&amp;") {
            width = 5;
            c = '&';
        } else if text::starts_with(tail.as_str(), "&lt;") {
            width = 4;
            c = '<';
        } else if text::starts_with(tail.as_str(), "&gt;") {
            width = 4;
            c = '>';
        } else if text::starts_with(tail.as_str(), "&quot;") {
            width = 6;
            c = '"';
        } else if text::starts_with(tail.as_str(), "&apos;") {
            width = 6;
            c = '\'';
        }
        result.push(c);
        assert(rest.skip(width as int) =~= chars@.skip(i + width));
        assert(before + (seq![c] + unescaped(rest.skip(width as int))) =~= result@ + unescaped(
            rest.skip(width as int),
        ));
        i += width;
    }
    assert(chars@.skip(i as int) =~= Seq::empty());
    assert(result@ + unescaped(Seq::empty()) =~= result@);
    result
}

/// What a LaunchAgent says that is run, and how often; nothing where it does not say so.
pub open spec fn installed_command(contents: Seq<char>) -> Option<InstalledCommandView> {
    let marks = property_list::marks(contents);
    match (
        property_list::strings_of(marks, "ProgramArguments"@),
        property_list::number_of(marks, "StartInterval"@),
    ) {
        (Some(arguments), Some(interval)) => Some(
            InstalledCommandView { arguments, interval_seconds: interval as u64 },
        ),
        _ => None,
    }
}

/// What a LaunchAgent says that is run, and how often.
pub fn read_launch_agent(contents: &str) -> (installed: Option<InstalledCommand>)
    ensures
        installed.deep_view() == installed_command(contents@),
{
    let marks = property_list::read_marks(contents);
    match (
        property_list::find_strings(&marks, "ProgramArguments"),
        property_list::find_number(&marks, "StartInterval"),
    ) {
        (Some(arguments), Some(interval_seconds)) => Some(
            InstalledCommand { arguments, interval_seconds },
        ),
        _ => None,
    }
}

/// Whether what is installed does what the settings say, as often as they say.
pub open spec fn matches_settings(
    installed: Option<InstalledCommandView>,
    settings: ScheduleSettings,
) -> bool {
    installed matches Some(installed) && installed.arguments.len() > 0 && installed.arguments.skip(
        1,
    ) == mode_arguments(settings.mode) && installed.interval_seconds == settings.interval_seconds
}

/// Whether what is installed does what the settings say, as often as they say.
pub fn is_in_step(
    installed: &Option<InstalledCommand>,
    settings: &ScheduleSettings,
) -> (result: bool)
    ensures
        result == matches_settings(installed.deep_view(), *settings),
{
    let installed = match installed {
        None => return false,
        Some(installed) => installed,
    };
    let ghost all = installed.arguments.deep_view();
    if installed.interval_seconds != settings.interval_seconds || installed.arguments.len() == 0 {
        return false;
    }
    match settings.mode {
        ScheduleMode::Scan => {
            let result = installed.arguments.len() == 2 && text::same_text(
                installed.arguments[1].as_str(),
                "scan",
            );
            proof {
                if all.len() == 2 {
                    assert(all[1] == installed.arguments[1]@);
                    assert(all.skip(1) =~= seq![all[1]]);
                }
                if all.skip(1) == mode_arguments(settings.mode) {
                    assert(all.skip(1).len() == 1);
                    assert(all.skip(1)[0] == "scan"@);
                }
            }
            result
        },
        ScheduleMode::Prune => {
            let result = installed.arguments.len() == 3 && text::same_text(
                installed.arguments[1].as_str(),
                "prune",
            ) && text::same_text(installed.arguments[2].as_str(), "--yes");
            proof {
                if all.len() == 3 {
                    assert(all[1] == installed.arguments[1]@);
                    assert(all[2] == installed.arguments[2]@);
                    assert(all.skip(1) =~= seq![all[1], all[2]]);
                }
                if all.skip(1) == mode_arguments(settings.mode) {
                    assert(all.skip(1).len() == 2);
                    assert(all.skip(1)[0] == "prune"@);
                    assert(all.skip(1)[1] == "--yes"@);
                }
            }
            result
        },
    }
}

/// The command of a scheduled run names what it does: it only looks, or it prunes and says `--yes`
/// right behind it.
pub proof fn law_scheduled_pruning_is_explicit(mode: ScheduleMode, lop: Seq<u8>)
    ensures
        mode == ScheduleMode::Scan ==> scheduled_command(mode, lop) == seq![
            text::lossy_text(lop),
            "scan"@,
        ],
        mode == ScheduleMode::Prune ==> scheduled_command(mode, lop) == seq![
            text::lossy_text(lop),
            "prune"@,
            "--yes"@,
        ],
{
    match mode {
        ScheduleMode::Scan => {
            assert(scheduled_command(mode, lop) =~= seq![text::lossy_text(lop), "scan"@]);
        },
        ScheduleMode::Prune => {
            assert(scheduled_command(mode, lop) =~= seq![
                text::lossy_text(lop),
                "prune"@,
                "--yes"@,
            ]);
        },
    }
}

/// A schedule starts with settings that are valid, and under which it only looks.
pub proof fn law_schedules_start_by_looking()
    ensures
        settings_valid(default_settings()),
        default_settings().mode == ScheduleMode::Scan,
        default_settings().interval_seconds == 1_800,
{
}

proof fn lemma_escaped_front(value: Seq<char>)
    requires
        value.len() > 0,
    ensures
        escaped(value) == escaped_char(value[0]) + escaped(value.skip(1)),
    decreases value.len(),
{
    if value.len() == 1 {
        assert(value.drop_last() =~= Seq::empty());
        assert(value.skip(1) =~= Seq::empty());
        assert(escaped(Seq::<char>::empty()) =~= Seq::empty());
        assert(escaped(value) =~= escaped_char(value[0]) + escaped(value.skip(1)));
    } else {
        let shorter = value.drop_last();
        lemma_escaped_front(shorter);
        assert(shorter.skip(1) =~= value.skip(1).drop_last());
        assert(value.skip(1).last() == value.last());
        assert(escaped(value) =~= escaped_char(value[0]) + escaped(value.skip(1)));
    }
}

proof fn lemma_unescaped_char(c: char, rest: Seq<char>)
    ensures
        unescaped(escaped_char(c) + rest) == seq![c] + unescaped(rest),
{
    reveal_strlit("&amp;");
    reveal_strlit("&lt;");
    reveal_strlit("&gt;");
    reveal_strlit("&quot;");
    reveal_strlit("&apos;");
    let value = escaped_char(c) + rest;
    if c == '&' {
        assert("&amp;"@.is_prefix_of(value));
        assert(value.skip(5) =~= rest);
    } else if c == '<' {
        assert(value[1] == 'l');
        assert("&amp;"@[1] == 'a');
        assert("&lt;"@.is_prefix_of(value));
        assert(value.skip(4) =~= rest);
    } else if c == '>' {
        assert(value[1] == 'g');
        assert("&amp;"@[1] == 'a');
        assert("&lt;"@[1] == 'l');
        assert("&gt;"@.is_prefix_of(value));
        assert(value.skip(4) =~= rest);
    } else if c == '"' {
        assert(value[1] == 'q');
        assert("&amp;"@[1] == 'a');
        assert("&lt;"@[1] == 'l');
        assert("&gt;"@[1] == 'g');
        assert("&quot;"@.is_prefix_of(value));
        assert(value.skip(6) =~= rest);
    } else if c == '\'' {
        assert(value[2] == 'p');
        assert("&amp;"@[2] == 'm');
        assert(value[1] == 'a');
        assert("&lt;"@[1] == 'l');
        assert("&gt;"@[1] == 'g');
        assert("&quot;"@[1] == 'q');
        assert("&apos;"@.is_prefix_of(value));
        assert(value.skip(6) =~= rest);
    } else {
        assert(value[0] == c);
        assert("&amp;"@[0] == '&');
        assert("&lt;"@[0] == '&');
        assert("&gt;"@[0] == '&');
        assert("&quot;"@[0] == '&');
        assert("&apos;"@[0] == '&');
        assert(value.skip(1) =~= rest);
    }
}

/// A text that is written in XML is the same text when it is read back.
pub proof fn law_escaped_texts_read_back(value: Seq<char>)
    ensures
        unescaped(escaped(value)) == value,
    decreases value.len(),
{
    if value.len() == 0 {
        assert(value =~= Seq::empty());
    } else {
        lemma_escaped_front(value);
        lemma_unescaped_char(value[0], escaped(value.skip(1)));
        law_escaped_texts_read_back(value.skip(1));
        assert(seq![value[0]] + value.skip(1) =~= value);
    }
}

/// A text that is written in XML holds nothing that ends a text, an attribute or a tag, and a
/// line break only where the text itself has one.
pub proof fn law_escaped_texts_hold_no_marks(value: Seq<char>)
    ensures
        forall|i: int|
            0 <= i < escaped(value).len() ==> {
                let c = #[trigger] escaped(value)[i];
                c != '<' && c != '>' && c != '"' && c != '\'' && (c == '\n' ==> value.contains('\n'))
            },
    decreases value.len(),
{
    if value.len() > 0 {
        let shorter = value.drop_last();
        law_escaped_texts_hold_no_marks(shorter);
        reveal_strlit("&amp;");
        reveal_strlit("&lt;");
        reveal_strlit("&gt;");
        reveal_strlit("&quot;");
        reveal_strlit("&apos;");
        assert forall|i: int| 0 <= i < escaped(value).len() implies {
            let c = #[trigger] escaped(value)[i];
            c != '<' && c != '>' && c != '"' && c != '\'' && (c == '\n' ==> value.contains('\n'))
        } by {
            let c = escaped(value)[i];
            let front = escaped(shorter);
            if i < front.len() {
                assert(c == front[i]);
                if c == '\n' {
                    let k = choose|k: int| 0 <= k < shorter.len() && shorter[k] == '\n';
                    assert(value[k] == '\n');
                }
            } else {
                assert(c == escaped_char(value.last())[i - front.len()]);
                if c == '\n' {
                    assert(value[value.len() - 1] == '\n');
                }
            }
        }
    }
}

} // verus!
