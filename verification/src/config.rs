//! The configuration of a run.
use crate::command;
use crate::command::{Reply, ReplyView, Request, RequestView};
use crate::filepath;
use crate::filepath::FilePath;
use crate::flow;
use crate::flow::{Flow, Step};
use crate::text;
use vstd::prelude::*;
use vstd::utf8::*;

verus! {

/// How deep below a root repositories are looked for, unless the configuration says otherwise.
pub const DEFAULT_SCAN_DEPTH: u32 = 3;

/// How many seconds a fetch may take, unless the configuration says otherwise.
pub const DEFAULT_FETCH_TIMEOUT_SECONDS: u64 = 60;

/// Whether processes are checked, unless the configuration says otherwise.
pub const DEFAULT_CHECK_PROCESSES: bool = true;

/// A configuration that was found valid.
#[derive(Debug, PartialEq, Eq)]
pub struct Config {
    pub roots: Vec<FilePath>,
    pub scan_depth: u32,
    pub fetch_timeout_seconds: u64,
    pub check_processes: bool,
}

/// The content of a [`Config`].
pub struct ConfigView {
    pub roots: Seq<Seq<u8>>,
    pub scan_depth: u32,
    pub fetch_timeout_seconds: u64,
    pub check_processes: bool,
}

impl DeepView for Config {
    type V = ConfigView;

    open spec fn deep_view(&self) -> ConfigView {
        ConfigView {
            roots: self.roots.deep_view(),
            scan_depth: self.scan_depth,
            fetch_timeout_seconds: self.fetch_timeout_seconds,
            check_processes: self.check_processes,
        }
    }
}

impl Clone for Config {
    fn clone(&self) -> (copy: Self)
        ensures
            copy.deep_view() == self.deep_view(),
    {
        Config {
            roots: filepath::clone_paths(&self.roots),
            scan_depth: self.scan_depth,
            fetch_timeout_seconds: self.fetch_timeout_seconds,
            check_processes: self.check_processes,
        }
    }
}

/// A configuration as it is written down.
#[derive(Debug, PartialEq, Eq)]
pub struct RawConfig {
    pub roots: Vec<String>,
    pub scan_depth: u32,
    pub fetch_timeout_seconds: u64,
    pub check_processes: bool,
}

/// The content of a [`RawConfig`].
pub struct RawConfigView {
    pub roots: Seq<Seq<char>>,
    pub scan_depth: u32,
    pub fetch_timeout_seconds: u64,
    pub check_processes: bool,
}

impl DeepView for RawConfig {
    type V = RawConfigView;

    open spec fn deep_view(&self) -> RawConfigView {
        RawConfigView {
            roots: self.roots.deep_view(),
            scan_depth: self.scan_depth,
            fetch_timeout_seconds: self.fetch_timeout_seconds,
            check_processes: self.check_processes,
        }
    }
}

impl Clone for RawConfig {
    fn clone(&self) -> (copy: Self)
        ensures
            copy.deep_view() == self.deep_view(),
    {
        RawConfig {
            roots: text::clone_texts(&self.roots),
            scan_depth: self.scan_depth,
            fetch_timeout_seconds: self.fetch_timeout_seconds,
            check_processes: self.check_processes,
        }
    }
}

/// Why a configuration file cannot be read.
#[derive(Debug, PartialEq, Eq)]
pub enum ConfigFailure {
    /// There is none.
    Missing,
    /// Reading it failed.
    Read(String),
    /// It does not have the form of a configuration.
    Parse(String),
}

/// The content of a [`ConfigFailure`].
pub enum ConfigFailureView {
    Missing,
    Read(Seq<char>),
    Parse(Seq<char>),
}

impl DeepView for ConfigFailure {
    type V = ConfigFailureView;

    open spec fn deep_view(&self) -> ConfigFailureView {
        match self {
            ConfigFailure::Missing => ConfigFailureView::Missing,
            ConfigFailure::Read(value) => ConfigFailureView::Read(value@),
            ConfigFailure::Parse(value) => ConfigFailureView::Parse(value@),
        }
    }
}

impl Clone for ConfigFailure {
    fn clone(&self) -> (copy: Self)
        ensures
            copy.deep_view() == self.deep_view(),
    {
        match self {
            ConfigFailure::Missing => ConfigFailure::Missing,
            ConfigFailure::Read(value) => ConfigFailure::Read(value.clone()),
            ConfigFailure::Parse(value) => ConfigFailure::Parse(value.clone()),
        }
    }
}

/// Why there is no valid configuration.
#[derive(Debug, PartialEq, Eq)]
pub enum ConfigError {
    Missing(FilePath),
    Read { path: FilePath, source: String },
    Parse { path: FilePath, source: String },
    NoRoots,
    EmptyRoot { root: String },
    RelativeRoot { root: String },
    MissingHome { root: String },
    UnsupportedTilde { root: String },
    InvalidScanDepth,
    InvalidFetchTimeout,
}

/// The content of a [`ConfigError`].
pub enum ConfigErrorView {
    Missing(Seq<u8>),
    Read { path: Seq<u8>, source: Seq<char> },
    Parse { path: Seq<u8>, source: Seq<char> },
    NoRoots,
    EmptyRoot { root: Seq<char> },
    RelativeRoot { root: Seq<char> },
    MissingHome { root: Seq<char> },
    UnsupportedTilde { root: Seq<char> },
    InvalidScanDepth,
    InvalidFetchTimeout,
}

impl DeepView for ConfigError {
    type V = ConfigErrorView;

    open spec fn deep_view(&self) -> ConfigErrorView {
        match self {
            ConfigError::Missing(value) => ConfigErrorView::Missing(value@),
            ConfigError::Read { path, source } => ConfigErrorView::Read {
                path: path@,
                source: source@,
            },
            ConfigError::Parse { path, source } => ConfigErrorView::Parse {
                path: path@,
                source: source@,
            },
            ConfigError::NoRoots => ConfigErrorView::NoRoots,
            ConfigError::EmptyRoot { root } => ConfigErrorView::EmptyRoot { root: root@ },
            ConfigError::RelativeRoot { root } => ConfigErrorView::RelativeRoot { root: root@ },
            ConfigError::MissingHome { root } => ConfigErrorView::MissingHome { root: root@ },
            ConfigError::UnsupportedTilde { root } => ConfigErrorView::UnsupportedTilde {
                root: root@,
            },
            ConfigError::InvalidScanDepth => ConfigErrorView::InvalidScanDepth,
            ConfigError::InvalidFetchTimeout => ConfigErrorView::InvalidFetchTimeout,
        }
    }
}

/// The message of an error.
pub open spec fn config_message(error: ConfigErrorView) -> Seq<char> {
    match error {
        ConfigErrorView::Missing(path) => "configuration not found at "@ + text::lossy_text(path)
            + "; copy config.example.toml there and set at least one root"@,
        ConfigErrorView::Read { path, source } => "failed to read configuration at "@
            + text::lossy_text(path) + ": "@ + source,
        ConfigErrorView::Parse { path, source } => "invalid configuration at "@
            + text::lossy_text(path) + ": "@ + source,
        ConfigErrorView::NoRoots => {
            "invalid configuration: roots must contain at least one explicitly configured directory"@
        },
        ConfigErrorView::EmptyRoot { root } => "invalid configuration: root "@ + text::quoted_text(
            root,
        ) + " is empty"@,
        ConfigErrorView::RelativeRoot { root } => "invalid configuration: root "@
            + text::quoted_text(root) + " must be absolute or start with '~/'"@,
        ConfigErrorView::MissingHome { root } => "invalid configuration: cannot expand "@
            + text::quoted_text(root) + " because HOME is not set"@,
        ConfigErrorView::UnsupportedTilde { root } => {
            "invalid configuration: '~user' expansion is unsupported in root "@
                + text::quoted_text(root) + "; use an absolute path"@
        },
        ConfigErrorView::InvalidScanDepth => {
            "invalid configuration: scan_depth must be greater than zero"@
        },
        ConfigErrorView::InvalidFetchTimeout => {
            "invalid configuration: fetch_timeout_seconds must be greater than zero"@
        },
    }
}

impl ConfigError {
    /// The message of the error.
    pub fn message(&self) -> (message: String)
        ensures
            message@ == config_message(self.deep_view()),
    {
        match self {
            ConfigError::Missing(path) => {
                let shown = path.display();
                text::concat3(
                    "configuration not found at ",
                    shown.as_str(),
                    "; copy config.example.toml there and set at least one root",
                )
            },
            ConfigError::Read { path, source } => {
                let shown = path.display();
                text::concat4(
                    "failed to read configuration at ",
                    shown.as_str(),
                    ": ",
                    source.as_str(),
                )
            },
            ConfigError::Parse { path, source } => {
                let shown = path.display();
                text::concat4(
                    "invalid configuration at ",
                    shown.as_str(),
                    ": ",
                    source.as_str(),
                )
            },
            ConfigError::NoRoots => {
                "invalid configuration: roots must contain at least one explicitly configured directory".to_owned()
            },
            ConfigError::EmptyRoot { root } => {
                let shown = text::quoted(root.as_str());
                text::concat3("invalid configuration: root ", shown.as_str(), " is empty")
            },
            ConfigError::RelativeRoot { root } => {
                let shown = text::quoted(root.as_str());
                text::concat3(
                    "invalid configuration: root ",
                    shown.as_str(),
                    " must be absolute or start with '~/'",
                )
            },
            ConfigError::MissingHome { root } => {
                let shown = text::quoted(root.as_str());
                text::concat3(
                    "invalid configuration: cannot expand ",
                    shown.as_str(),
                    " because HOME is not set",
                )
            },
            ConfigError::UnsupportedTilde { root } => {
                let shown = text::quoted(root.as_str());
                text::concat3(
                    "invalid configuration: '~user' expansion is unsupported in root ",
                    shown.as_str(),
                    "; use an absolute path",
                )
            },
            ConfigError::InvalidScanDepth => {
                "invalid configuration: scan_depth must be greater than zero".to_owned()
            },
            ConfigError::InvalidFetchTimeout => {
                "invalid configuration: fetch_timeout_seconds must be greater than zero".to_owned()
            },
        }
    }
}

/// The path that a configured root stands for.
pub open spec fn expanded_root(root: Seq<char>, home: Option<Seq<u8>>) -> Result<
    Seq<u8>,
    ConfigErrorView,
> {
    if root.len() == 0 {
        Err(ConfigErrorView::EmptyRoot { root })
    } else if "~/"@.is_prefix_of(root) {
        match home {
            None => Err(ConfigErrorView::MissingHome { root }),
            Some(home) => Ok(
                filepath::joined(home, encode_utf8(text::without_prefix(root, "~/"@))),
            ),
        }
    } else if "~"@.is_prefix_of(root) {
        Err(ConfigErrorView::UnsupportedTilde { root })
    } else if !filepath::absolute(encode_utf8(root)) {
        Err(ConfigErrorView::RelativeRoot { root })
    } else {
        Ok(encode_utf8(root))
    }
}

/// The path that a configured root stands for.
pub fn expand_root(root: &str, home: &Option<FilePath>) -> (result: Result<FilePath, ConfigError>)
    ensures
        flow::result_view(result) == expanded_root(root@, home.deep_view()),
{
    if text::is_blank(root) {
        return Err(ConfigError::EmptyRoot { root: root.to_owned() });
    }
    if text::starts_with(root, "~/") {
        return match home {
            None => Err(ConfigError::MissingHome { root: root.to_owned() }),
            Some(home) => {
                let suffix = text::strip_prefix(root, "~/");
                Ok(home.join_text(suffix.as_str()))
            },
        };
    }
    if text::starts_with(root, "~") {
        return Err(ConfigError::UnsupportedTilde { root: root.to_owned() });
    }
    let path = FilePath::from_text(root);
    if !path.is_absolute() {
        return Err(ConfigError::RelativeRoot { root: root.to_owned() });
    }
    Ok(path)
}

/// The paths that the roots from the one number `done.len()` on stand for, behind `done`; the
/// first root that stands for none makes all of it an error.
pub open spec fn expanded_roots(
    roots: Seq<Seq<char>>,
    home: Option<Seq<u8>>,
    done: Seq<Seq<u8>>,
) -> Result<Seq<Seq<u8>>, ConfigErrorView>
    decreases roots.len() - done.len(),
{
    if done.len() >= roots.len() {
        Ok(done)
    } else {
        match expanded_root(roots[done.len() as int], home) {
            Err(error) => Err(error),
            Ok(root) => expanded_roots(roots, home, done.push(root)),
        }
    }
}

/// The configuration that is written down, if it is valid.
pub open spec fn validated(raw: RawConfigView, home: Option<Seq<u8>>) -> Result<
    ConfigView,
    ConfigErrorView,
> {
    if raw.roots.len() == 0 {
        Err(ConfigErrorView::NoRoots)
    } else if raw.scan_depth == 0 {
        Err(ConfigErrorView::InvalidScanDepth)
    } else if raw.fetch_timeout_seconds == 0 {
        Err(ConfigErrorView::InvalidFetchTimeout)
    } else {
        match expanded_roots(raw.roots, home, Seq::empty()) {
            Err(error) => Err(error),
            Ok(roots) => Ok(
                ConfigView {
                    roots,
                    scan_depth: raw.scan_depth,
                    fetch_timeout_seconds: raw.fetch_timeout_seconds,
                    check_processes: raw.check_processes,
                },
            ),
        }
    }
}

/// The failure to read the configuration at `path`, as an error.
pub open spec fn config_error(path: Seq<u8>, failure: ConfigFailureView) -> ConfigErrorView {
    match failure {
        ConfigFailureView::Missing => ConfigErrorView::Missing(path),
        ConfigFailureView::Read(source) => ConfigErrorView::Read { path, source },
        ConfigFailureView::Parse(source) => ConfigErrorView::Parse { path, source },
    }
}

/// The configuration that a reply tells of.
pub open spec fn raw_config(reply: ReplyView) -> Result<RawConfigView, ConfigFailureView> {
    match reply {
        ReplyView::Config(result) => result,
        _ => Err(ConfigFailureView::Read(command::UNEXPECTED_REPLY@)),
    }
}

/// The reading and the validation of the configuration at `path`.
pub open spec fn load_flow(
    path: Seq<u8>,
    home: Option<Seq<u8>>,
    replies: Seq<ReplyView>,
    at: int,
) -> Flow<Result<ConfigView, ConfigErrorView>> {
    if at >= replies.len() {
        Flow::Ask(RequestView::LoadConfig(path))
    } else {
        Flow::Done(
            match raw_config(replies[at]) {
                Err(failure) => Err(config_error(path, failure)),
                Ok(raw) => validated(raw, home),
            },
            at + 1,
        )
    }
}

impl Config {
    /// Checks a configuration. It is an error when any setting is invalid.
    pub fn validate(
        raw: &RawConfig,
        home: &Option<FilePath>,
    ) -> (result: Result<Config, ConfigError>)
        ensures
            flow::result_view(result) == validated(raw.deep_view(), home.deep_view()),
    {
        if raw.roots.len() == 0 {
            return Err(ConfigError::NoRoots);
        }
        if raw.scan_depth == 0 {
            return Err(ConfigError::InvalidScanDepth);
        }
        if raw.fetch_timeout_seconds == 0 {
            return Err(ConfigError::InvalidFetchTimeout);
        }
        let ghost all = raw.roots.deep_view();
        let ghost goal = validated(raw.deep_view(), home.deep_view());
        let mut roots: Vec<FilePath> = Vec::new();
        assert(roots.deep_view() =~= Seq::empty());
        while roots.len() < raw.roots.len()
            invariant
                roots.len() <= raw.roots.len(),
                all == raw.roots.deep_view(),
                goal == validated(raw.deep_view(), home.deep_view()),
                all.len() > 0,
                raw.scan_depth > 0,
                raw.fetch_timeout_seconds > 0,
                expanded_roots(all, home.deep_view(), Seq::empty()) == expanded_roots(
                    all,
                    home.deep_view(),
                    roots.deep_view(),
                ),
            decreases raw.roots.len() - roots.len(),
        {
            let next = roots.len();
            assert(all[next as int] == raw.roots[next as int]@);
            match expand_root(raw.roots[next].as_str(), home) {
                Err(error) => return Err(error),
                Ok(root) => filepath::push_path(&mut roots, root),
            }
        }
        Ok(
            Config {
                roots,
                scan_depth: raw.scan_depth,
                fetch_timeout_seconds: raw.fetch_timeout_seconds,
                check_processes: raw.check_processes,
            },
        )
    }

    /// Loads and validates the configuration from `path`. It is an error when the file cannot be
    /// read or any setting is invalid.
    pub fn load(
        path: &FilePath,
        home: &Option<FilePath>,
        replies: &Vec<Reply>,
        at: usize,
    ) -> (step: Step<
        Result<Config, ConfigError>,
    >)
        ensures
            flow::step_view(step) == load_flow(
                path@,
                home.deep_view(),
                replies.deep_view(),
                at as int,
            ),
            step matches Step::Done(_, next) ==> next == at + 1 <= replies.len(),
    {
        if at >= replies.len() {
            return Step::Ask(Request::LoadConfig(path.clone()));
        }
        let result = match &replies[at] {
            Reply::Config(Ok(raw)) => Config::validate(raw, home),
            Reply::Config(Err(ConfigFailure::Missing)) => Err(ConfigError::Missing(path.clone())),
            Reply::Config(Err(ConfigFailure::Read(source))) => Err(
                ConfigError::Read { path: path.clone(), source: source.clone() },
            ),
            Reply::Config(Err(ConfigFailure::Parse(source))) => Err(
                ConfigError::Parse { path: path.clone(), source: source.clone() },
            ),
            _ => Err(
                ConfigError::Read {
                    path: path.clone(),
                    source: command::UNEXPECTED_REPLY.to_owned(),
                },
            ),
        };
        Step::Done(result, at + 1)
    }
}

proof fn lemma_expanded_roots(
    roots: Seq<Seq<char>>,
    home: Option<Seq<u8>>,
    done: Seq<Seq<u8>>,
)
    requires
        done.len() <= roots.len(),
        forall|k: int|
            0 <= k < done.len() ==> expanded_root(roots[k], home) == Ok::<
                Seq<u8>,
                ConfigErrorView,
            >(#[trigger] done[k]),
    ensures
        expanded_roots(roots, home, done) matches Ok(paths) ==> {
            &&& paths.len() == roots.len()
            &&& forall|k: int|
                0 <= k < paths.len() ==> expanded_root(roots[k], home) == Ok::<
                    Seq<u8>,
                    ConfigErrorView,
                >(#[trigger] paths[k])
        },
    decreases roots.len() - done.len(),
{
    if done.len() < roots.len() {
        match expanded_root(roots[done.len() as int], home) {
            Err(_) => {},
            Ok(root) => {
                let more = done.push(root);
                assert forall|k: int| 0 <= k < more.len() implies expanded_root(roots[k], home)
                    == Ok::<Seq<u8>, ConfigErrorView>(#[trigger] more[k]) by {
                    if k < done.len() {
                        assert(more[k] == done[k]);
                    }
                }
                lemma_expanded_roots(roots, home, more);
            },
        }
    }
}

/// A valid configuration has at least one root, and positive limits; its roots are those that are
/// written down, in order and repeated as often; and where the home directory is absolute, so is
/// every root.
pub proof fn law_valid_configurations_have_absolute_roots(
    raw: RawConfigView,
    home: Option<Seq<u8>>,
    config: ConfigView,
)
    requires
        validated(raw, home) == Ok::<ConfigView, ConfigErrorView>(config),
        home matches Some(home) ==> filepath::absolute(home),
    ensures
        config.roots.len() > 0,
        config.roots.len() == raw.roots.len(),
        config.scan_depth > 0,
        config.fetch_timeout_seconds > 0,
        forall|k: int|
            0 <= k < config.roots.len() ==> expanded_root(raw.roots[k], home) == Ok::<
                Seq<u8>,
                ConfigErrorView,
            >(#[trigger] config.roots[k]) && filepath::absolute(config.roots[k]),
{
    lemma_expanded_roots(raw.roots, home, Seq::empty());
    assert forall|k: int| 0 <= k < config.roots.len() implies filepath::absolute(
        #[trigger] config.roots[k],
    ) by {
        assert(expanded_root(raw.roots[k], home) == Ok::<Seq<u8>, ConfigErrorView>(
            config.roots[k],
        ));
    }
}

/// A root that is accepted is absolute and stands for itself, or begins with `~/` and stands for
/// what follows, below the home directory.
pub proof fn law_roots_are_absolute_or_below_home(root: Seq<char>, home: Option<Seq<u8>>)
    ensures
        expanded_root(root, home) matches Ok(path) ==> {
            ||| filepath::absolute(encode_utf8(root)) && path == encode_utf8(root)
            ||| "~/"@.is_prefix_of(root) && (home matches Some(home) && path == filepath::joined(
                home,
                encode_utf8(text::without_prefix(root, "~/"@)),
            ))
        },
        root == "~"@ ==> expanded_root(root, home) is Err,
{
    reveal_strlit("~");
    reveal_strlit("~/");
    if root == "~"@ {
        assert(!"~/"@.is_prefix_of(root));
        assert("~"@.is_prefix_of(root)) by {
            assert(root.subrange(0, 1) =~= "~"@);
        }
    }
}

/// Whether a configured root stands for a path: an absolute path for itself, and one that starts
/// with `~/` for what follows, seen from the home directory.
pub open spec fn stands_for(root: Seq<char>, home: Option<Seq<u8>>, path: Seq<u8>) -> bool {
    ||| root.len() > 0 && root[0] == '/' && path == encode_utf8(root)
    ||| root.len() >= 2 && root[0] == '~' && root[1] == '/' && (home matches Some(home) && path
        == filepath::joined(home, encode_utf8(root.skip(2))))
}

proof fn lemma_stands_for(root: Seq<char>, home: Option<Seq<u8>>)
    ensures
        expanded_root(root, home) matches Ok(path) ==> stands_for(root, home, path),
        forall|path: Seq<u8>| #[trigger]
            stands_for(root, home, path) ==> expanded_root(root, home) == Ok::<
                Seq<u8>,
                ConfigErrorView,
            >(path),
{
    reveal_strlit("~/");
    reveal_strlit("~");
    assert("~/"@ =~= seq!['~', '/']);
    assert("~"@ =~= seq!['~']);
    if root.len() >= 2 && root[0] == '~' && root[1] == '/' {
        assert(root.take(2) =~= "~/"@);
        assert("~/"@.is_prefix_of(root));
    }
    if "~/"@.is_prefix_of(root) {
        assert(root.take(2) =~= "~/"@);
        assert(root[0] == root.take(2)[0] && root[1] == root.take(2)[1]);
    }
    if "~"@.is_prefix_of(root) {
        assert(root.take(1) =~= "~"@);
        assert(root[0] == root.take(1)[0]);
    }
    if root.len() > 0 {
        lemma_first_byte(root);
        if root[0] == '~' {
            assert(root.take(1) =~= "~"@);
            assert("~"@.is_prefix_of(root));
        }
    }
}

/// A text starts with a slash exactly when its bytes do.
proof fn lemma_first_byte(text: Seq<char>)
    requires
        text.len() > 0,
    ensures
        filepath::absolute(encode_utf8(text)) <==> text[0] == '/',
{
    let code: u32 = text[0] as u32;
    let bytes = encode_utf8(text);
    char_is_scalar(text[0]);
    char_u32_cast(text[0], code);
    char_u32_cast('/', 47u32);
    assert(bytes == encode_scalar(code) + encode_utf8(text.drop_first()));
    assert(bytes[0] == encode_scalar(code)[0]);
    assert(has_width_1_encoding(code) ==> leading_byte_width_1(code) == code) by {
        if has_width_1_encoding(code) {
            assert((code & 0x7F) == code) by (bit_vector)
                requires
                    code <= 0x7F,
            ;
        }
    }
    assert((0xC0u8 | ((code >> 6) & 0x1F) as u8) >= 0xC0u8) by (bit_vector);
    assert((0xE0u8 | ((code >> 12) & 0x0F) as u8) >= 0xE0u8) by (bit_vector);
    assert((0xF0u8 | ((code >> 18) & 0x7) as u8) >= 0xF0u8) by (bit_vector);
}

/// A configuration is accepted exactly when it names a root, goes down at least one level, gives a
/// fetch at least a second, and every root of it stands for a path; what is accepted is what is
/// written down, root by root.
pub proof fn law_configurations_are_accepted_as_written(
    raw: RawConfigView,
    home: Option<Seq<u8>>,
    config: ConfigView,
)
    ensures
        validated(raw, home) == Ok::<ConfigView, ConfigErrorView>(config) <==> {
            &&& raw.roots.len() > 0
            &&& raw.scan_depth >= 1
            &&& raw.fetch_timeout_seconds >= 1
            &&& config.scan_depth == raw.scan_depth
            &&& config.fetch_timeout_seconds == raw.fetch_timeout_seconds
            &&& config.check_processes == raw.check_processes
            &&& config.roots.len() == raw.roots.len()
            &&& forall|k: int|
                0 <= k < raw.roots.len() ==> stands_for(
                    raw.roots[k],
                    home,
                    #[trigger] config.roots[k],
                )
        },
{
    lemma_all_stand_for(raw.roots, home, Seq::empty(), config.roots);
    if let Ok(roots) = expanded_roots(raw.roots, home, Seq::empty()) {
        lemma_all_stand_for(raw.roots, home, Seq::empty(), roots);
    }
}

proof fn lemma_all_stand_for(
    roots: Seq<Seq<char>>,
    home: Option<Seq<u8>>,
    done: Seq<Seq<u8>>,
    paths: Seq<Seq<u8>>,
)
    requires
        done.len() <= roots.len(),
        forall|k: int| 0 <= k < done.len() ==> stands_for(roots[k], home, #[trigger] done[k]),
    ensures
        expanded_roots(roots, home, done) == Ok::<Seq<Seq<u8>>, ConfigErrorView>(paths) <==> {
            &&& paths.len() == roots.len()
            &&& done =~= paths.take(done.len() as int)
            &&& forall|k: int|
                0 <= k < roots.len() ==> stands_for(roots[k], home, #[trigger] paths[k])
        },
    decreases roots.len() - done.len(),
{
    if done.len() < roots.len() {
        let i = done.len() as int;
        lemma_stands_for(roots[i], home);
        match expanded_root(roots[i], home) {
            Err(_) => {
                if paths.len() == roots.len() && forall|k: int|
                    0 <= k < roots.len() ==> stands_for(roots[k], home, #[trigger] paths[k]) {
                    assert(stands_for(roots[i], home, paths[i]));
                }
            },
            Ok(path) => {
                let more = done.push(path);
                assert forall|k: int| 0 <= k < more.len() implies stands_for(
                    roots[k],
                    home,
                    #[trigger] more[k],
                ) by {
                    if k < done.len() {
                        assert(more[k] == done[k]);
                    }
                }
                lemma_all_stand_for(roots, home, more, paths);
                if paths.len() == roots.len() {
                    if done =~= paths.take(i) && (forall|k: int|
                        0 <= k < roots.len() ==> stands_for(roots[k], home, #[trigger] paths[k])) {
                        assert(stands_for(roots[i], home, paths[i]));
                        assert(paths[i] == path);
                        assert(more =~= paths.take(i + 1));
                    }
                    if more =~= paths.take(i + 1) {
                        assert(done =~= paths.take(i)) by {
                            assert forall|k: int| 0 <= k < i implies done[k]
                                == #[trigger] paths[k] by {
                                assert(more[k] == paths.take(i + 1)[k]);
                            }
                        }
                    }
                }
            },
        }
    } else if paths.len() == roots.len() {
        assert(paths.take(done.len() as int) =~= paths);
    }
}

/// What is wrong with a configuration is told by the first thing that is: no root, no level, no
/// time, then the roots in order, each by what is wrong with it.
pub proof fn law_configurations_are_refused_for_a_reason(
    raw: RawConfigView,
    home: Option<Seq<u8>>,
    root: Seq<char>,
)
    ensures
        validated(raw, home) == Err::<ConfigView, ConfigErrorView>(ConfigErrorView::NoRoots)
            <==> raw.roots.len() == 0,
        validated(raw, home) == Err::<ConfigView, ConfigErrorView>(
            ConfigErrorView::InvalidScanDepth,
        ) <==> raw.roots.len() > 0 && raw.scan_depth == 0,
        validated(raw, home) == Err::<ConfigView, ConfigErrorView>(
            ConfigErrorView::InvalidFetchTimeout,
        ) <==> raw.roots.len() > 0 && raw.scan_depth > 0 && raw.fetch_timeout_seconds == 0,
        expanded_root(root, home) matches Err(error) ==> {
            &&& error is EmptyRoot <==> root.len() == 0
            &&& error is MissingHome <==> root.len() >= 2 && root[0] == '~' && root[1] == '/'
            &&& error is UnsupportedTilde <==> root.len() > 0 && root[0] == '~' && !(root.len() >= 2
                && root[1] == '/')
            &&& error is RelativeRoot <==> root.len() > 0 && root[0] != '~' && root[0] != '/'
        },
{
    lemma_root_errors(raw.roots, home, Seq::empty());
    lemma_root_error(root, home);
}

proof fn lemma_root_error(root: Seq<char>, home: Option<Seq<u8>>)
    ensures
        expanded_root(root, home) matches Err(error) ==> {
            &&& error is EmptyRoot <==> root.len() == 0
            &&& error is MissingHome <==> root.len() >= 2 && root[0] == '~' && root[1] == '/'
            &&& error is UnsupportedTilde <==> root.len() > 0 && root[0] == '~' && !(root.len() >= 2
                && root[1] == '/')
            &&& error is RelativeRoot <==> root.len() > 0 && root[0] != '~' && root[0] != '/'
        },
{
    lemma_stands_for(root, home);
    reveal_strlit("~/");
    reveal_strlit("~");
    assert("~/"@ =~= seq!['~', '/']);
    assert("~"@ =~= seq!['~']);
    if root.len() >= 2 && root[0] == '~' && root[1] == '/' {
        assert(root.take(2) =~= "~/"@);
        assert("~/"@.is_prefix_of(root));
    }
    if "~/"@.is_prefix_of(root) {
        assert(root.take(2) =~= "~/"@);
        assert(root[0] == root.take(2)[0] && root[1] == root.take(2)[1]);
    }
    if "~"@.is_prefix_of(root) {
        assert(root.take(1) =~= "~"@);
        assert(root[0] == root.take(1)[0]);
    }
    if root.len() > 0 {
        lemma_first_byte(root);
        if root[0] == '~' {
            assert(root.take(1) =~= "~"@);
            assert("~"@.is_prefix_of(root));
        }
    }
}

proof fn lemma_root_errors(roots: Seq<Seq<char>>, home: Option<Seq<u8>>, done: Seq<Seq<u8>>)
    ensures
        expanded_roots(roots, home, done) matches Err(error) ==> error is EmptyRoot || error
            is MissingHome || error is UnsupportedTilde || error is RelativeRoot,
    decreases roots.len() - done.len(),
{
    if done.len() < roots.len() {
        if let Ok(root) = expanded_root(roots[done.len() as int], home) {
            lemma_root_errors(roots, home, done.push(root));
        }
    }
}

/// What is left out of a configuration counts as three levels, a minute, and a look at processes.
pub proof fn law_configurations_have_defaults()
    ensures
        DEFAULT_SCAN_DEPTH == 3,
        DEFAULT_FETCH_TIMEOUT_SECONDS == 60,
        DEFAULT_CHECK_PROCESSES,
{
}

} // verus!
