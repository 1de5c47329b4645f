use vstd::prelude::*;
use vstd::string::*;

use crate::number::{first_index, lemma_first_index, parse_seconds, parse_unsigned, seconds_value, unsigned_value};
use crate::text::strings_view;

verus! {

/// What the fuzzer does with its inputs.
#[derive(Debug, PartialEq, Eq, Copy, Clone, Structural)]
pub enum LibfuzzerMode {
    Fuzz,
    Merge,
    Tmin,
    Report,
}

/// Why a command line was refused.
#[derive(Debug, Clone)]
pub enum OptionsParseError {
    /// More than one of merge, minimize_crash and report was switched on.
    MultipleModesSelected,
    /// The flag named first has a value, given second, that does not parse.
    OptionValueParseFailed(String, String),
}

/// What an [`OptionsParseError`] stands for.
pub enum ParseErrorView {
    MultipleModesSelected,
    OptionValueParseFailed(Seq<char>, Seq<char>),
}

impl View for OptionsParseError {
    type V = ParseErrorView;

    open spec fn view(&self) -> ParseErrorView {
        match self {
            OptionsParseError::MultipleModesSelected => ParseErrorView::MultipleModesSelected,
            OptionsParseError::OptionValueParseFailed(n, v) => ParseErrorView::OptionValueParseFailed(
                n@,
                v@,
            ),
        }
    }
}

impl OptionsParseError {
    pub open spec fn message(&self) -> Seq<char> {
        match self {
            OptionsParseError::MultipleModesSelected => "multiple modes selected in options"@,
            OptionsParseError::OptionValueParseFailed(name, value) => "couldn't parse value `"@
                + value@ + "' for "@ + name@,
        }
    }

    /// The message that explains this error.
    pub fn to_string(&self) -> (r: String)
        ensures
            r@ == self.message(),
    {
        match self {
            OptionsParseError::MultipleModesSelected => String::from_str(
                "multiple modes selected in options",
            ),
            OptionsParseError::OptionValueParseFailed(name, value) => String::from_str(
                "couldn't parse value `",
            ).concat(value.as_str()).concat("' for ").concat(name.as_str()),
        }
    }
}

/// One command-line argument: a directory, or a flag `-name=value`.
pub enum RawOption {
    Directory(String),
    Flag { name: String, value: String },
}

/// What a [`RawOption`] holds.
pub enum ArgView {
    Directory(Seq<char>),
    Flag(Seq<char>, Seq<char>),
}

/// How an argument reads: one starting with `--` is none of ours; one starting with
/// `-` is a flag, split at its first `=`, and none without one; any other names a
/// directory.
pub open spec fn parse_option_spec(a: Seq<char>) -> Option<ArgView> {
    if a.len() >= 2 && a[0] == '-' && a[1] == '-' {
        None
    } else if a.len() >= 1 && a[0] == '-' {
        let rest = a.drop_first();
        match first_index(rest, '=') {
            Some(i) => Some(ArgView::Flag(rest.take(i), rest.skip(i + 1))),
            None => None,
        }
    } else {
        Some(ArgView::Directory(a))
    }
}

pub open spec fn raw_option_view(o: Option<RawOption>) -> Option<ArgView> {
    match o {
        Some(RawOption::Directory(d)) => Some(ArgView::Directory(d@)),
        Some(RawOption::Flag { name, value }) => Some(ArgView::Flag(name@, value@)),
        None => None,
    }
}

/// Reads one command-line argument.
pub fn parse_option(arg: &str) -> (r: Option<RawOption>)
    ensures
        raw_option_view(r) == parse_option_spec(arg@),
{
    let n = arg.unicode_len();
    if n >= 2 && arg.get_char(0) == '-' && arg.get_char(1) == '-' {
        None
    } else if n >= 1 && arg.get_char(0) == '-' {
        let ghost rest = arg@.drop_first();
        let mut i: usize = 1;
        while i < n && arg.get_char(i) != '='
            invariant
                1 <= i <= n,
                n == arg@.len(),
                rest == arg@.drop_first(),
                forall|j: int| 0 <= j < i - 1 ==> rest[j] != '=',
            decreases n - i,
        {
            proof {
                assert(rest[i - 1] == arg@[i as int]);
            }
            i += 1;
        }
        proof {
            if i < n {
                assert(rest[i - 1] == arg@[i as int]);
            }
            lemma_first_index(rest, '=', i - 1);
        }
        if i < n {
            let name = arg.substring_char(1, i).to_owned();
            let value = arg.substring_char(i + 1, n).to_owned();
            proof {
                assert(name@ =~= rest.take(i - 1));
                assert(value@ =~= rest.skip(i as int));
            }
            Some(RawOption::Flag { name, value })
        } else {
            None
        }
    } else {
        Some(RawOption::Directory(arg.to_owned()))
    }
}

/// The directory and the file-name prefix under which artifacts are written.
#[derive(Debug, Clone)]
pub struct ArtifactPrefix {
    dir: String,
    filename_prefix: String,
}

/// The last component of the path `p`, where it has one that names a file.
pub uninterp spec fn path_file_name(p: Seq<char>) -> Option<Seq<char>>;

/// The path `p` with its last component taken off, where it has one.
pub uninterp spec fn path_parent(p: Seq<char>) -> Seq<char>;

/// Relies on `std::path::Path::file_name`: the final component of a path, unless it
/// is `..` or the path has none.
#[verifier::external_body]
fn file_name_of(path: &str) -> (r: Option<String>)
    ensures
        match r {
            Some(s) => path_file_name(path@) == Some(s@),
            None => path_file_name(path@) is None,
        },
{
    std::path::Path::new(path).file_name().map(|s| s.to_string_lossy().into_owned())
}

/// Relies on `std::path::PathBuf::pop`: the path truncated to its parent, or left as
/// it is where it has no parent.
#[verifier::external_body]
fn parent_of(path: &str) -> (r: String)
    ensures
        r@ == path_parent(path@),
{
    let mut p = std::path::PathBuf::from(path);
    p.pop();
    p.to_string_lossy().into_owned()
}

/// Where the artifacts for `path` go: the directory, then the file-name prefix. A
/// path ending in `/` is a directory with no prefix; otherwise its last component is
/// the prefix and the rest the directory.
pub open spec fn artifact_parts(path: Seq<char>) -> (Seq<char>, Seq<char>) {
    if path.len() > 0 && path.last() == '/' {
        (path, Seq::empty())
    } else {
        (
            path_parent(path),
            match path_file_name(path) {
                Some(f) => f,
                None => Seq::empty(),
            },
        )
    }
}

impl ArtifactPrefix {
    pub closed spec fn dir_spec(&self) -> Seq<char> {
        self.dir@
    }

    pub closed spec fn filename_prefix_spec(&self) -> Seq<char> {
        self.filename_prefix@
    }

    /// Splits `path` into the directory and the prefix of the artifacts' file names.
    pub fn new(path: &str) -> (r: ArtifactPrefix)
        ensures
            (r.dir_spec(), r.filename_prefix_spec()) == artifact_parts(path@),
    {
        let n = path.unicode_len();
        if n > 0 && path.get_char(n - 1) == '/' {
            ArtifactPrefix { dir: path.to_owned(), filename_prefix: String::new() }
        } else {
            let filename_prefix = match file_name_of(path) {
                Some(f) => f,
                None => String::new(),
            };
            ArtifactPrefix { dir: parent_of(path), filename_prefix }
        }
    }

    /// Artifacts go straight into `current_dir`, with no prefix.
    pub fn in_dir(current_dir: String) -> (r: ArtifactPrefix)
        ensures
            r.dir_spec() == current_dir@,
            r.filename_prefix_spec() == Seq::<char>::empty(),
    {
        ArtifactPrefix { dir: current_dir, filename_prefix: String::new() }
    }

    pub fn dir(&self) -> (r: &String)
        ensures
            r@ == self.dir_spec(),
    {
        &self.dir
    }

    pub fn filename_prefix(&self) -> (r: &str)
        ensures
            r@ == self.filename_prefix_spec(),
    {
        self.filename_prefix.as_str()
    }
}

/// The options a command line selects.
#[derive(Debug)]
pub struct LibfuzzerOptions {
    fuzzer_name: String,
    mode: LibfuzzerMode,
    artifact_prefix: ArtifactPrefix,
    timeout_secs: u64,
    timeout_nanos: u32,
    grimoire: Option<bool>,
    use_value_profile: bool,
    unicode: bool,
    forks: Option<usize>,
    dict: Option<String>,
    dirs: Vec<String>,
    ignore_crashes: bool,
    ignore_timeouts: bool,
    ignore_ooms: bool,
    rss_limit: usize,
    malloc_limit: usize,
    dedup: bool,
    shrink: bool,
    skip_tracing: bool,
    tui: bool,
    runs: usize,
    close_fd_mask: u8,
    unknown: Vec<String>,
    help: bool,
}

/// The options gathered from the arguments read so far; `None` where a flag was not given.
#[derive(Debug)]
struct LibfuzzerOptionsBuilder {
    mode: Option<LibfuzzerMode>,
    artifact_prefix: Option<String>,
    timeout: Option<(u64, u32)>,
    grimoire: Option<bool>,
    use_value_profile: Option<bool>,
    unicode: Option<bool>,
    forks: Option<usize>,
    dict: Option<String>,
    dirs: Vec<String>,
    ignore_crashes: Option<bool>,
    ignore_timeouts: Option<bool>,
    ignore_ooms: Option<bool>,
    rss_limit: Option<usize>,
    malloc_limit: Option<usize>,
    ignore_remaining: bool,
    dedup: bool,
    shrink: bool,
    skip_tracing: bool,
    tui: bool,
    runs: usize,
    close_fd_mask: u8,
    unknown: Vec<String>,
    help: bool,
}

/// What a [`LibfuzzerOptionsBuilder`] holds.
pub struct BuilderView {
    pub mode: Option<LibfuzzerMode>,
    pub artifact_prefix: Option<Seq<char>>,
    pub timeout: Option<(u64, u32)>,
    pub grimoire: Option<bool>,
    pub use_value_profile: Option<bool>,
    pub unicode: Option<bool>,
    pub forks: Option<usize>,
    pub dict: Option<Seq<char>>,
    pub dirs: Seq<Seq<char>>,
    pub ignore_crashes: Option<bool>,
    pub ignore_timeouts: Option<bool>,
    pub ignore_ooms: Option<bool>,
    pub rss_limit: Option<usize>,
    pub malloc_limit: Option<usize>,
    pub ignore_remaining: bool,
    pub dedup: bool,
    pub shrink: bool,
    pub skip_tracing: bool,
    pub tui: bool,
    pub runs: usize,
    pub close_fd_mask: u8,
    pub unknown: Seq<Seq<char>>,
    pub help: bool,
}

pub open spec fn opt_string_view(o: Option<String>) -> Option<Seq<char>> {
    match o {
        Some(s) => Some(s@),
        None => None,
    }
}

impl View for LibfuzzerOptionsBuilder {
    type V = BuilderView;

    closed spec fn view(&self) -> BuilderView {
        BuilderView {
            mode: self.mode,
            artifact_prefix: opt_string_view(self.artifact_prefix),
            timeout: self.timeout,
            grimoire: self.grimoire,
            use_value_profile: self.use_value_profile,
            unicode: self.unicode,
            forks: self.forks,
            dict: opt_string_view(self.dict),
            dirs: strings_view(self.dirs@),
            ignore_crashes: self.ignore_crashes,
            ignore_timeouts: self.ignore_timeouts,
            ignore_ooms: self.ignore_ooms,
            rss_limit: self.rss_limit,
            malloc_limit: self.malloc_limit,
            ignore_remaining: self.ignore_remaining,
            dedup: self.dedup,
            shrink: self.shrink,
            skip_tracing: self.skip_tracing,
            tui: self.tui,
            runs: self.runs,
            close_fd_mask: self.close_fd_mask,
            unknown: strings_view(self.unknown@),
            help: self.help,
        }
    }
}

/// No flag given yet.
pub open spec fn empty_builder() -> BuilderView {
    BuilderView {
        mode: None,
        artifact_prefix: None,
        timeout: None,
        grimoire: None,
        use_value_profile: None,
        unicode: None,
        forks: None,
        dict: None,
        dirs: Seq::empty(),
        ignore_crashes: None,
        ignore_timeouts: None,
        ignore_ooms: None,
        rss_limit: None,
        malloc_limit: None,
        ignore_remaining: false,
        dedup: false,
        shrink: false,
        skip_tracing: false,
        tui: false,
        runs: 0,
        close_fd_mask: 0,
        unknown: Seq::empty(),
        help: false,
    }
}

pub open spec fn parse_failed(name: Seq<char>, value: Seq<char>) -> Result<BuilderView, ParseErrorView> {
    Err(ParseErrorView::OptionValueParseFailed(name, value))
}

/// A mode flag with value `value`: a positive number selects `m`, which may not
/// differ from a mode selected before; zero changes nothing.
pub open spec fn mode_flag(b: BuilderView, name: Seq<char>, value: Seq<char>, m: LibfuzzerMode) -> Result<BuilderView, ParseErrorView> {
    match unsigned_value(value, u64::MAX as nat) {
        None => parse_failed(name, value),
        Some(v) => if v == 0 {
            Ok(b)
        } else {
            match b.mode {
                None => Ok(BuilderView { mode: Some(m), ..b }),
                Some(old) => if old == m {
                    Ok(b)
                } else {
                    Err(ParseErrorView::MultipleModesSelected)
                },
            }
        },
    }
}

/// The switch that `value` gives: a number, on where positive.
pub open spec fn switch_value(value: Seq<char>) -> Option<bool> {
    match unsigned_value(value, u64::MAX as nat) {
        Some(v) => Some(v > 0),
        None => None,
    }
}

/// What the flag `-name=value` does to `b`; `arg` is the whole argument.
pub open spec fn flag_spec(b: BuilderView, arg: Seq<char>, name: Seq<char>, value: Seq<char>) -> Result<BuilderView, ParseErrorView> {
    let sw = switch_value(value);
    let size = unsigned_value(value, usize::MAX as nat);
    if name == "merge"@ {
        mode_flag(b, name, value, LibfuzzerMode::Merge)
    } else if name == "minimize_crash"@ {
        mode_flag(b, name, value, LibfuzzerMode::Tmin)
    } else if name == "report"@ {
        mode_flag(b, name, value, LibfuzzerMode::Report)
    } else if name == "artifact_prefix"@ {
        Ok(BuilderView { artifact_prefix: Some(value), ..b })
    } else if name == "timeout"@ {
        match seconds_value(value) {
            Some(t) => Ok(BuilderView { timeout: Some(t), ..b }),
            None => parse_failed(name, value),
        }
    } else if name == "dict"@ {
        Ok(BuilderView { dict: Some(value), ..b })
    } else if name == "fork"@ || name == "jobs"@ {
        match size {
            Some(v) => Ok(BuilderView { forks: Some(v as usize), ..b }),
            None => parse_failed(name, value),
        }
    } else if name == "rss_limit_mb"@ {
        match size {
            Some(v) => Ok(BuilderView { rss_limit: Some(((v as usize) << 20usize) as usize), ..b }),
            None => parse_failed(name, value),
        }
    } else if name == "malloc_limit_mb"@ {
        match size {
            Some(v) => Ok(BuilderView { malloc_limit: Some(((v as usize) << 20usize) as usize), ..b }),
            None => parse_failed(name, value),
        }
    } else if name == "runs"@ {
        match size {
            Some(v) => Ok(BuilderView { runs: v as usize, ..b }),
            None => parse_failed(name, value),
        }
    } else if name == "close_fd_mask"@ {
        match unsigned_value(value, 255) {
            Some(v) => Ok(BuilderView { close_fd_mask: v as u8, ..b }),
            None => parse_failed(name, value),
        }
    } else if name == "help"@ {
        Ok(BuilderView { help: true, ..b })
    } else if is_switch_name(name) {
        match sw {
            Some(on) => Ok(set_switch(b, name, on)),
            None => parse_failed(name, value),
        }
    } else {
        Ok(BuilderView { unknown: b.unknown.push(arg), ..b })
    }
}

/// The flags that take an on/off number.
pub open spec fn is_switch_name(name: Seq<char>) -> bool {
    name == "grimoire"@ || name == "use_value_profile"@ || name == "unicode"@ || name
        == "ignore_crashes"@ || name == "ignore_timeouts"@ || name == "ignore_ooms"@ || name
        == "ignore_remaining_args"@ || name == "dedup"@ || name == "shrink"@ || name
        == "skip_tracing"@ || name == "tui"@
}

/// `b` with the switch `name` set to `on`; switching the terminal interface on also
/// ignores crashes, timeouts and out-of-memory errors unless they were set.
pub open spec fn set_switch(b: BuilderView, name: Seq<char>, on: bool) -> BuilderView {
    if name == "grimoire"@ {
        BuilderView { grimoire: Some(on), ..b }
    } else if name == "use_value_profile"@ {
        BuilderView { use_value_profile: Some(on), ..b }
    } else if name == "unicode"@ {
        BuilderView { unicode: Some(on), ..b }
    } else if name == "ignore_crashes"@ {
        BuilderView { ignore_crashes: Some(on), ..b }
    } else if name == "ignore_timeouts"@ {
        BuilderView { ignore_timeouts: Some(on), ..b }
    } else if name == "ignore_ooms"@ {
        BuilderView { ignore_ooms: Some(on), ..b }
    } else if name == "ignore_remaining_args"@ {
        BuilderView { ignore_remaining: on, ..b }
    } else if name == "dedup"@ {
        BuilderView { dedup: on, ..b }
    } else if name == "shrink"@ {
        BuilderView { shrink: on, ..b }
    } else if name == "skip_tracing"@ {
        BuilderView { skip_tracing: on, ..b }
    } else if on {
        BuilderView {
            tui: true,
            ignore_crashes: if b.ignore_crashes is None { Some(true) } else { b.ignore_crashes },
            ignore_timeouts: if b.ignore_timeouts is None { Some(true) } else { b.ignore_timeouts },
            ignore_ooms: if b.ignore_ooms is None { Some(true) } else { b.ignore_ooms },
            ..b
        }
    } else {
        BuilderView { tui: false, ..b }
    }
}

/// What reading the argument `arg` does to `b`. After `ignore_remaining_args` or
/// `help`, arguments are passed over; an argument that is none of ours is kept
/// among the unknown ones.
pub open spec fn consume_spec(b: BuilderView, arg: Seq<char>) -> Result<BuilderView, ParseErrorView> {
    if b.ignore_remaining || b.help {
        Ok(b)
    } else {
        match parse_option_spec(arg) {
            None => Ok(BuilderView { unknown: b.unknown.push(arg), ..b }),
            Some(ArgView::Directory(d)) => Ok(BuilderView { dirs: b.dirs.push(d), ..b }),
            Some(ArgView::Flag(name, value)) => flag_spec(b, arg, name, value),
        }
    }
}

/// What reading `args` in turn does to `b`, up to the first refusal.
pub open spec fn consume_all(b: BuilderView, args: Seq<Seq<char>>) -> Result<BuilderView, ParseErrorView>
    decreases args.len(),
{
    if args.len() == 0 {
        Ok(b)
    } else {
        match consume_all(b, args.drop_last()) {
            Ok(b1) => consume_spec(b1, args.last()),
            Err(e) => Err(e),
        }
    }
}

fn is_named(name: &String, lit: &str) -> (r: bool)
    ensures
        r == (name@ == lit@),
{
    *name == String::from_str(lit)
}

spec fn result_view(r: Result<LibfuzzerOptionsBuilder, OptionsParseError>) -> Result<BuilderView, ParseErrorView> {
    match r {
        Ok(b) => Ok(b@),
        Err(e) => Err(e@),
    }
}

impl LibfuzzerOptionsBuilder {
    fn new() -> (r: LibfuzzerOptionsBuilder)
        ensures
            r@ == empty_builder(),
            r.wf(),
    {
        let r = LibfuzzerOptionsBuilder {
            mode: None,
            artifact_prefix: None,
            timeout: None,
            grimoire: None,
            use_value_profile: None,
            unicode: None,
            forks: None,
            dict: None,
            dirs: Vec::new(),
            ignore_crashes: None,
            ignore_timeouts: None,
            ignore_ooms: None,
            rss_limit: None,
            malloc_limit: None,
            ignore_remaining: false,
            dedup: false,
            shrink: false,
            skip_tracing: false,
            tui: false,
            runs: 0,
            close_fd_mask: 0,
            unknown: Vec::new(),
            help: false,
        };
        assert(r@.dirs =~= Seq::<Seq<char>>::empty());
        assert(r@.unknown =~= Seq::<Seq<char>>::empty());
        r
    }

    fn mode_flag(self, name: String, value: String, m: LibfuzzerMode) -> (r: Result<LibfuzzerOptionsBuilder, OptionsParseError>)
        ensures
            r is Ok ==> r.unwrap().timeout == self.timeout,
            result_view(r) == mode_flag(self@, name@, value@, m),
    {
        match parse_unsigned(value.as_str(), u64::MAX) {
            None => Err(OptionsParseError::OptionValueParseFailed(name, value)),
            Some(v) => {
                if v == 0 {
                    Ok(self)
                } else {
                    match self.mode {
                        None => Ok(LibfuzzerOptionsBuilder { mode: Some(m), ..self }),
                        Some(old) => {
                            if old == m {
                                Ok(self)
                            } else {
                                Err(OptionsParseError::MultipleModesSelected)
                            }
                        },
                    }
                }
            },
        }
    }

    fn set_switch(self, name: &String, on: bool) -> (r: LibfuzzerOptionsBuilder)
        requires
            is_switch_name(name@),
        ensures
            r@ == set_switch(self@, name@, on),
            r.timeout == self.timeout,
    {
        if is_named(name, "grimoire") {
            LibfuzzerOptionsBuilder { grimoire: Some(on), ..self }
        } else if is_named(name, "use_value_profile") {
            LibfuzzerOptionsBuilder { use_value_profile: Some(on), ..self }
        } else if is_named(name, "unicode") {
            LibfuzzerOptionsBuilder { unicode: Some(on), ..self }
        } else if is_named(name, "ignore_crashes") {
            LibfuzzerOptionsBuilder { ignore_crashes: Some(on), ..self }
        } else if is_named(name, "ignore_timeouts") {
            LibfuzzerOptionsBuilder { ignore_timeouts: Some(on), ..self }
        } else if is_named(name, "ignore_ooms") {
            LibfuzzerOptionsBuilder { ignore_ooms: Some(on), ..self }
        } else if is_named(name, "ignore_remaining_args") {
            LibfuzzerOptionsBuilder { ignore_remaining: on, ..self }
        } else if is_named(name, "dedup") {
            LibfuzzerOptionsBuilder { dedup: on, ..self }
        } else if is_named(name, "shrink") {
            LibfuzzerOptionsBuilder { shrink: on, ..self }
        } else if is_named(name, "skip_tracing") {
            LibfuzzerOptionsBuilder { skip_tracing: on, ..self }
        } else if on {
            let ignore_crashes = if self.ignore_crashes.is_none() { Some(true) } else { self.ignore_crashes };
            let ignore_timeouts = if self.ignore_timeouts.is_none() { Some(true) } else { self.ignore_timeouts };
            let ignore_ooms = if self.ignore_ooms.is_none() { Some(true) } else { self.ignore_ooms };
            LibfuzzerOptionsBuilder { tui: true, ignore_crashes, ignore_timeouts, ignore_ooms, ..self }
        } else {
            LibfuzzerOptionsBuilder { tui: false, ..self }
        }
    }

    fn is_switch(name: &String) -> (r: bool)
        ensures
            r == is_switch_name(name@),
    {
        is_named(name, "grimoire") || is_named(name, "use_value_profile") || is_named(name, "unicode")
            || is_named(name, "ignore_crashes") || is_named(name, "ignore_timeouts") || is_named(
            name,
            "ignore_ooms",
        ) || is_named(name, "ignore_remaining_args") || is_named(name, "dedup") || is_named(
            name,
            "shrink",
        ) || is_named(name, "skip_tracing") || is_named(name, "tui")
    }

    fn size_flag(value: &String) -> (r: Option<usize>)
        ensures
            match unsigned_value(value@, usize::MAX as nat) {
                Some(v) => r == Some(v as usize),
                None => r is None,
            },
    {
        match parse_unsigned(value.as_str(), usize::MAX as u64) {
            Some(v) => Some(v as usize),
            None => None,
        }
    }

    fn flag(self, arg: String, name: String, value: String) -> (r: Result<LibfuzzerOptionsBuilder, OptionsParseError>)
        requires
            self.wf(),
        ensures
            r is Ok ==> r.unwrap().wf(),
            result_view(r) == flag_spec(self@, arg@, name@, value@),
    {
        if is_named(&name, "merge") {
            self.mode_flag(name, value, LibfuzzerMode::Merge)
        } else if is_named(&name, "minimize_crash") {
            self.mode_flag(name, value, LibfuzzerMode::Tmin)
        } else if is_named(&name, "report") {
            self.mode_flag(name, value, LibfuzzerMode::Report)
        } else if is_named(&name, "artifact_prefix") {
            Ok(LibfuzzerOptionsBuilder { artifact_prefix: Some(value), ..self })
        } else if is_named(&name, "timeout") {
            match parse_seconds(value.as_str()) {
                Some(t) => Ok(LibfuzzerOptionsBuilder { timeout: Some(t), ..self }),
                None => Err(OptionsParseError::OptionValueParseFailed(name, value)),
            }
        } else if is_named(&name, "dict") {
            Ok(LibfuzzerOptionsBuilder { dict: Some(value), ..self })
        } else if is_named(&name, "fork") || is_named(&name, "jobs") {
            match Self::size_flag(&value) {
                Some(v) => Ok(LibfuzzerOptionsBuilder { forks: Some(v), ..self }),
                None => Err(OptionsParseError::OptionValueParseFailed(name, value)),
            }
        } else if is_named(&name, "rss_limit_mb") {
            match Self::size_flag(&value) {
                Some(v) => Ok(LibfuzzerOptionsBuilder { rss_limit: Some(v << 20usize), ..self }),
                None => Err(OptionsParseError::OptionValueParseFailed(name, value)),
            }
        } else if is_named(&name, "malloc_limit_mb") {
            match Self::size_flag(&value) {
                Some(v) => Ok(LibfuzzerOptionsBuilder { malloc_limit: Some(v << 20usize), ..self }),
                None => Err(OptionsParseError::OptionValueParseFailed(name, value)),
            }
        } else if is_named(&name, "runs") {
            match Self::size_flag(&value) {
                Some(v) => Ok(LibfuzzerOptionsBuilder { runs: v, ..self }),
                None => Err(OptionsParseError::OptionValueParseFailed(name, value)),
            }
        } else if is_named(&name, "close_fd_mask") {
            match parse_unsigned(value.as_str(), 255) {
                Some(v) => Ok(LibfuzzerOptionsBuilder { close_fd_mask: v as u8, ..self }),
                None => Err(OptionsParseError::OptionValueParseFailed(name, value)),
            }
        } else if is_named(&name, "help") {
            Ok(LibfuzzerOptionsBuilder { help: true, ..self })
        } else if Self::is_switch(&name) {
            match parse_unsigned(value.as_str(), u64::MAX) {
                Some(v) => Ok(self.set_switch(&name, v > 0)),
                None => Err(OptionsParseError::OptionValueParseFailed(name, value)),
            }
        } else {
            let mut b = self;
            let ghost before = b.unknown@;
            b.unknown.push(arg);
            assert(strings_view(b.unknown@) =~= strings_view(before).push(arg@));
            Ok(b)
        }
    }

    /// Reads one more argument.
    fn consume(self, arg: String) -> (r: Result<LibfuzzerOptionsBuilder, OptionsParseError>)
        requires
            self.wf(),
        ensures
            result_view(r) == consume_spec(self@, arg@),
            r is Ok ==> r.unwrap().wf(),
    {
        if self.ignore_remaining || self.help {
            return Ok(self);
        }
        match parse_option(arg.as_str()) {
            None => {
                let mut b = self;
                let ghost before = b.unknown@;
                b.unknown.push(arg);
                assert(strings_view(b.unknown@) =~= strings_view(before).push(arg@));
                Ok(b)
            },
            Some(RawOption::Directory(d)) => {
                let mut b = self;
                let ghost before = b.dirs@;
                let ghost dv = d@;
                b.dirs.push(d);
                assert(strings_view(b.dirs@) =~= strings_view(before).push(dv));
                Ok(b)
            },
            Some(RawOption::Flag { name, value }) => self.flag(arg, name, value),
        }
    }
}

/// What a [`LibfuzzerOptions`] holds.
pub struct OptionsView {
    pub fuzzer_name: Seq<char>,
    pub mode: LibfuzzerMode,
    pub artifact_prefix: (Seq<char>, Seq<char>),
    pub timeout: (u64, u32),
    pub grimoire: Option<bool>,
    pub use_value_profile: bool,
    pub unicode: bool,
    pub forks: Option<usize>,
    pub dict: Option<Seq<char>>,
    pub dirs: Seq<Seq<char>>,
    pub ignore_crashes: bool,
    pub ignore_timeouts: bool,
    pub ignore_ooms: bool,
    pub rss_limit: usize,
    pub malloc_limit: usize,
    pub dedup: bool,
    pub shrink: bool,
    pub skip_tracing: bool,
    pub tui: bool,
    pub runs: usize,
    pub close_fd_mask: u8,
    pub unknown: Seq<Seq<char>>,
    pub help: bool,
}

/// A memory limit: 2 GiB where none was given, and no limit where zero was.
pub open spec fn limit_value(o: Option<usize>) -> usize {
    let v = match o {
        Some(v) => v,
        None => 2147483648usize,
    };
    if v == 0 {
        usize::MAX
    } else {
        v
    }
}

pub open spec fn unwrap_or_spec<T>(o: Option<T>, d: T) -> T {
    match o {
        Some(v) => v,
        None => d,
    }
}

/// The options that the flags gathered in `b` select, for the fuzzer `name` run in
/// `current_dir`; flags that were not given take their defaults.
pub open spec fn build_spec(b: BuilderView, name: Seq<char>, current_dir: Seq<char>) -> OptionsView {
    OptionsView {
        fuzzer_name: name,
        mode: unwrap_or_spec(b.mode, LibfuzzerMode::Fuzz),
        artifact_prefix: match b.artifact_prefix {
            Some(p) => artifact_parts(p),
            None => (current_dir, Seq::empty()),
        },
        timeout: unwrap_or_spec(b.timeout, (1200u64, 0u32)),
        grimoire: b.grimoire,
        use_value_profile: unwrap_or_spec(b.use_value_profile, false),
        unicode: unwrap_or_spec(b.unicode, true),
        forks: b.forks,
        dict: b.dict,
        dirs: b.dirs,
        ignore_crashes: unwrap_or_spec(b.ignore_crashes, false),
        ignore_timeouts: unwrap_or_spec(b.ignore_timeouts, false),
        ignore_ooms: unwrap_or_spec(b.ignore_ooms, false),
        rss_limit: limit_value(b.rss_limit),
        malloc_limit: limit_value(
            match b.malloc_limit {
                Some(v) => Some(v),
                None => b.rss_limit,
            },
        ),
        dedup: b.dedup,
        shrink: b.shrink,
        skip_tracing: b.skip_tracing,
        tui: b.tui,
        runs: b.runs,
        close_fd_mask: b.close_fd_mask,
        unknown: b.unknown,
        help: b.help,
    }
}

/// What the command line `args` (the program's name first) selects, for the fuzzer
/// `name` run in `current_dir`.
pub open spec fn options_spec(args: Seq<Seq<char>>, name: Seq<char>, current_dir: Seq<char>) -> Result<OptionsView, ParseErrorView> {
    match consume_all(empty_builder(), args.drop_first()) {
        Ok(b) => Ok(build_spec(b, name, current_dir)),
        Err(e) => Err(e),
    }
}

/// Relies on `core::time::Duration::new`, which panics only where carrying the
/// nanoseconds into the seconds overflows.
#[verifier::external_body]
fn duration_of(secs: u64, nanos: u32) -> (r: core::time::Duration)
    requires
        nanos < 1_000_000_000,
{
    core::time::Duration::new(secs, nanos)
}

fn limit(o: Option<usize>) -> (r: usize)
    ensures
        r == limit_value(o),
{
    let v = match o {
        Some(v) => v,
        None => 2147483648usize,
    };
    if v == 0 {
        usize::MAX
    } else {
        v
    }
}

impl LibfuzzerOptionsBuilder {
    closed spec fn wf(&self) -> bool {
        self.timeout is Some ==> self.timeout.unwrap().1 < 1_000_000_000
    }

    fn build(self, fuzzer_name: String, current_dir: String) -> (r: LibfuzzerOptions)
        requires
            self.wf(),
        ensures
            r@ == build_spec(self@, fuzzer_name@, current_dir@),
    {
        let artifact_prefix = match &self.artifact_prefix {
            Some(p) => ArtifactPrefix::new(p.as_str()),
            None => ArtifactPrefix::in_dir(current_dir),
        };
        let (timeout_secs, timeout_nanos) = match self.timeout {
            Some(t) => t,
            None => (1200u64, 0u32),
        };
        let malloc = match self.malloc_limit {
            Some(v) => Some(v),
            None => self.rss_limit,
        };
        LibfuzzerOptions {
            fuzzer_name,
            mode: match self.mode {
                Some(m) => m,
                None => LibfuzzerMode::Fuzz,
            },
            artifact_prefix,
            timeout_secs,
            timeout_nanos,
            grimoire: self.grimoire,
            use_value_profile: match self.use_value_profile {
                Some(v) => v,
                None => false,
            },
            unicode: match self.unicode {
                Some(v) => v,
                None => true,
            },
            forks: self.forks,
            dict: self.dict,
            dirs: self.dirs,
            ignore_crashes: match self.ignore_crashes {
                Some(v) => v,
                None => false,
            },
            ignore_timeouts: match self.ignore_timeouts {
                Some(v) => v,
                None => false,
            },
            ignore_ooms: match self.ignore_ooms {
                Some(v) => v,
                None => false,
            },
            rss_limit: limit(self.rss_limit),
            malloc_limit: limit(malloc),
            dedup: self.dedup,
            shrink: self.shrink,
            skip_tracing: self.skip_tracing,
            tui: self.tui,
            runs: self.runs,
            close_fd_mask: self.close_fd_mask,
            unknown: self.unknown,
            help: self.help,
        }
    }
}

impl View for LibfuzzerOptions {
    type V = OptionsView;

    closed spec fn view(&self) -> OptionsView {
        OptionsView {
            fuzzer_name: self.fuzzer_name@,
            mode: self.mode,
            artifact_prefix: (self.artifact_prefix.dir_spec(), self.artifact_prefix.filename_prefix_spec()),
            timeout: (self.timeout_secs, self.timeout_nanos),
            grimoire: self.grimoire,
            use_value_profile: self.use_value_profile,
            unicode: self.unicode,
            forks: self.forks,
            dict: opt_string_view(self.dict),
            dirs: strings_view(self.dirs@),
            ignore_crashes: self.ignore_crashes,
            ignore_timeouts: self.ignore_timeouts,
            ignore_ooms: self.ignore_ooms,
            rss_limit: self.rss_limit,
            malloc_limit: self.malloc_limit,
            dedup: self.dedup,
            shrink: self.shrink,
            skip_tracing: self.skip_tracing,
            tui: self.tui,
            runs: self.runs,
            close_fd_mask: self.close_fd_mask,
            unknown: strings_view(self.unknown@),
            help: self.help,
        }
    }
}

impl LibfuzzerOptions {
    #[verifier::type_invariant]
    spec fn inv(&self) -> bool {
        self.timeout_nanos < 1_000_000_000
    }

    /// Reads the command line `args`, whose first item names the program. The fuzzer
    /// is named after `executable` where given, else after that first item;
    /// artifacts go to `current_dir` unless `artifact_prefix` says otherwise.
    pub fn new(args: &Vec<String>, executable: Option<String>, current_dir: String) -> (r: Result<LibfuzzerOptions, OptionsParseError>)
        requires
            args@.len() >= 1,
        ensures
            match options_spec(
                strings_view(args@),
                match executable {
                    Some(e) => e@,
                    None => args@[0]@,
                },
                current_dir@,
            ) {
                Ok(v) => r is Ok && r.unwrap()@ == v,
                Err(e) => r is Err && r.unwrap_err()@ == e,
            },
    {
        let name = match executable {
            Some(e) => e,
            None => args[0].clone(),
        };
        let ghost all = strings_view(args@).drop_first();
        let mut b = LibfuzzerOptionsBuilder::new();
        let mut i: usize = 1;
        while i < args.len()
            invariant
                1 <= i <= args@.len(),
                all == strings_view(args@).drop_first(),
                b.wf(),
                consume_all(empty_builder(), all.take(i - 1)) == Ok::<BuilderView, ParseErrorView>(b@),
            decreases args@.len() - i,
        {
            let arg = args[i].clone();
            proof {
                assert(all.take(i as int).drop_last() =~= all.take(i - 1));
                assert(all.take(i as int).last() == arg@);
            }
            match b.consume(arg) {
                Ok(nb) => {
                    b = nb;
                },
                Err(e) => {
                    proof {
                        lemma_consume_all_err(all, i as int);
                    }
                    return Err(e);
                },
            }
            i += 1;
        }
        proof {
            assert(all.take(i - 1) =~= all);
        }
        Ok(b.build(name, current_dir))
    }

    pub fn fuzzer_name(&self) -> (r: &str)
        ensures
            r@ == self@.fuzzer_name,
    {
        self.fuzzer_name.as_str()
    }

    pub fn mode(&self) -> (r: &LibfuzzerMode)
        ensures
            *r == self@.mode,
    {
        &self.mode
    }

    pub fn artifact_prefix(&self) -> (r: &ArtifactPrefix)
        ensures
            (r.dir_spec(), r.filename_prefix_spec()) == self@.artifact_prefix,
    {
        &self.artifact_prefix
    }

    /// How long one run may take.
    pub fn timeout(&self) -> core::time::Duration {
        proof {
            use_type_invariant(self);
        }
        duration_of(self.timeout_secs, self.timeout_nanos)
    }

    /// How long one run may take, as whole seconds and nanoseconds.
    pub fn timeout_parts(&self) -> (r: (u64, u32))
        ensures
            r == self@.timeout,
            r.1 < 1_000_000_000,
    {
        proof {
            use_type_invariant(self);
        }
        (self.timeout_secs, self.timeout_nanos)
    }

    pub fn grimoire(&self) -> (r: Option<bool>)
        ensures
            r == self@.grimoire,
    {
        self.grimoire
    }

    pub fn use_value_profile(&self) -> (r: bool)
        ensures
            r == self@.use_value_profile,
    {
        self.use_value_profile
    }

    pub fn unicode(&self) -> (r: bool)
        ensures
            r == self@.unicode,
    {
        self.unicode
    }

    pub fn forks(&self) -> (r: Option<usize>)
        ensures
            r == self@.forks,
    {
        self.forks
    }

    /// The path of the dictionary of tokens, where one was given.
    pub fn dict(&self) -> (r: Option<&String>)
        ensures
            match r {
                Some(d) => self@.dict == Some(d@),
                None => self@.dict is None,
            },
    {
        self.dict.as_ref()
    }

    pub fn dirs(&self) -> (r: &Vec<String>)
        ensures
            strings_view(r@) == self@.dirs,
    {
        &self.dirs
    }

    pub fn ignore_crashes(&self) -> (r: bool)
        ensures
            r == self@.ignore_crashes,
    {
        self.ignore_crashes
    }

    pub fn ignore_timeouts(&self) -> (r: bool)
        ensures
            r == self@.ignore_timeouts,
    {
        self.ignore_timeouts
    }

    pub fn ignore_ooms(&self) -> (r: bool)
        ensures
            r == self@.ignore_ooms,
    {
        self.ignore_ooms
    }

    pub fn rss_limit(&self) -> (r: usize)
        ensures
            r == self@.rss_limit,
    {
        self.rss_limit
    }

    pub fn malloc_limit(&self) -> (r: usize)
        ensures
            r == self@.malloc_limit,
    {
        self.malloc_limit
    }

    pub fn dedup(&self) -> (r: bool)
        ensures
            r == self@.dedup,
    {
        self.dedup
    }

    pub fn shrink(&self) -> (r: bool)
        ensures
            r == self@.shrink,
    {
        self.shrink
    }

    pub fn skip_tracing(&self) -> (r: bool)
        ensures
            r == self@.skip_tracing,
    {
        self.skip_tracing
    }

    pub fn tui(&self) -> (r: bool)
        ensures
            r == self@.tui,
    {
        self.tui
    }

    pub fn runs(&self) -> (r: usize)
        ensures
            r == self@.runs,
    {
        self.runs
    }

    pub fn close_fd_mask(&self) -> (r: u8)
        ensures
            r == self@.close_fd_mask,
    {
        self.close_fd_mask
    }

    pub fn unknown(&self) -> (r: &Vec<String>)
        ensures
            strings_view(r@) == self@.unknown,
    {
        &self.unknown
    }

    /// Whether the usage text was asked for.
    pub fn help_requested(&self) -> (r: bool)
        ensures
            r == self@.help,
    {
        self.help
    }
}

proof fn lemma_consume_all_err(all: Seq<Seq<char>>, i: int)
    requires
        1 <= i <= all.len(),
        consume_all(empty_builder(), all.take(i)) is Err,
    ensures
        consume_all(empty_builder(), all) == consume_all(empty_builder(), all.take(i)),
    decreases all.len() - i,
{
    if i < all.len() {
        assert(all.take(i + 1).drop_last() =~= all.take(i));
        lemma_consume_all_err(all, i + 1);
    } else {
        assert(all.take(i) =~= all);
    }
}

} // verus!
