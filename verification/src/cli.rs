//! Command-line handling of the comparison tool: flags and their values,
//! defaults, validation, and the messages of the errors.

use vstd::prelude::*;

use crate::decimal::{decimal, lemma_parse_decimal_roundtrip, parse_usize, parse_usize_spec, IntErrorKind};
use crate::text::str_eq;

verus! {

/// The settings of one comparison run.
pub struct Args {
    /// Template file; `None` means the built-in range template.
    pub template: Option<String>,
    /// JSON data file; `None` means the built-in list of items.
    pub data: Option<String>,
    /// How many times parsing and execution are measured.
    pub loops: usize,
    /// The `missingkey` mode handed to both engines.
    pub missingkey: String,
    /// The `go` binary.
    pub go_bin: String,
    /// The Go program that runs the other engine.
    pub go_runner: String,
}

/// What the settings of a run are, as text.
pub struct ArgsModel {
    pub template: Option<Seq<char>>,
    pub data: Option<Seq<char>>,
    pub loops: usize,
    pub missingkey: Seq<char>,
    pub go_bin: Seq<char>,
    pub go_runner: Seq<char>,
}

/// The view of an optional text.
pub open spec fn opt_view(o: Option<String>) -> Option<Seq<char>> {
    match o {
        Some(s) => Some(s@),
        None => None,
    }
}

impl View for Args {
    type V = ArgsModel;

    open spec fn view(&self) -> ArgsModel {
        ArgsModel {
            template: opt_view(self.template),
            data: opt_view(self.data),
            loops: self.loops,
            missingkey: self.missingkey@,
            go_bin: self.go_bin@,
            go_runner: self.go_runner@,
        }
    }
}

/// Why a command line is refused.
pub enum ArgsError {
    /// A word that is not one of the flags.
    UnknownFlag(String),
    /// A flag that takes a value came last.
    MissingValue(String),
    /// The value of `--loops` is not a `usize`.
    InvalidLoops(IntErrorKind),
    /// `--loops` is zero.
    LoopsZero,
    /// `--missingkey` is not one of the four modes.
    InvalidMissingKey,
}

/// Why a command line is refused, as text.
pub enum ArgsErrorModel {
    UnknownFlag(Seq<char>),
    MissingValue(Seq<char>),
    InvalidLoops(IntErrorKind),
    LoopsZero,
    InvalidMissingKey,
}

impl View for ArgsError {
    type V = ArgsErrorModel;

    open spec fn view(&self) -> ArgsErrorModel {
        match self {
            ArgsError::UnknownFlag(f) => ArgsErrorModel::UnknownFlag(f@),
            ArgsError::MissingValue(f) => ArgsErrorModel::MissingValue(f@),
            ArgsError::InvalidLoops(k) => ArgsErrorModel::InvalidLoops(*k),
            ArgsError::LoopsZero => ArgsErrorModel::LoopsZero,
            ArgsError::InvalidMissingKey => ArgsErrorModel::InvalidMissingKey,
        }
    }
}

/// What an accepted command line asks for.
pub enum Command {
    /// Run the comparison with these settings.
    Run(Args),
    /// Print the usage text and stop.
    Help,
}

/// What an accepted command line asks for, as text.
pub enum CommandModel {
    Run(ArgsModel),
    Help,
}

/// The model of the outcome of reading a command line.
pub open spec fn outcome_view(r: Result<Command, ArgsError>) -> Result<CommandModel, ArgsErrorModel> {
    match r {
        Ok(Command::Run(a)) => Ok(CommandModel::Run(a@)),
        Ok(Command::Help) => Ok(CommandModel::Help),
        Err(e) => Err(e@),
    }
}

/// The settings when no flag is given.
pub open spec fn default_args() -> ArgsModel {
    ArgsModel {
        template: None,
        data: None,
        loops: 60,
        missingkey: "default"@,
        go_bin: "go"@,
        go_runner: "tools/compare_go_html_template/main.go"@,
    }
}

/// Whether `f` asks for the usage text.
pub open spec fn is_help_flag(f: Seq<char>) -> bool {
    f == "--help"@ || f == "-h"@
}

/// Whether `f` is one of the flags that take a value.
pub open spec fn is_value_flag(f: Seq<char>) -> bool {
    ||| f == "--template"@
    ||| f == "--data"@
    ||| f == "--loops"@
    ||| f == "--missingkey"@
    ||| f == "--go-bin"@
    ||| f == "--go-runner"@
}

/// Whether `m` is one of the four `missingkey` modes.
pub open spec fn is_missingkey_mode(m: Seq<char>) -> bool {
    m == "default"@ || m == "invalid"@ || m == "zero"@ || m == "error"@
}

/// The settings after the value flag `f` with value `v`.
pub open spec fn apply_value(a: ArgsModel, f: Seq<char>, v: Seq<char>) -> Result<
    ArgsModel,
    ArgsErrorModel,
> {
    if f == "--template"@ {
        Ok(ArgsModel { template: Some(v), ..a })
    } else if f == "--data"@ {
        Ok(ArgsModel { data: Some(v), ..a })
    } else if f == "--loops"@ {
        match parse_usize_spec(v) {
            Ok(n) => Ok(ArgsModel { loops: n, ..a }),
            Err(k) => Err(ArgsErrorModel::InvalidLoops(k)),
        }
    } else if f == "--missingkey"@ {
        Ok(ArgsModel { missingkey: v, ..a })
    } else if f == "--go-bin"@ {
        Ok(ArgsModel { go_bin: v, ..a })
    } else {
        Ok(ArgsModel { go_runner: v, ..a })
    }
}

/// Where reading the flags from left to right ends.
pub enum FlagScan {
    /// All words were read; these are the settings.
    Done(ArgsModel),
    /// The usage text was asked for.
    Help,
    /// The words were refused.
    Refused(ArgsErrorModel),
}

/// Reads the words of `argv` from position `i` on, starting from the
/// settings `a`.
pub open spec fn scan_flags(argv: Seq<Seq<char>>, i: nat, a: ArgsModel) -> FlagScan
    decreases argv.len() - i,
{
    if i >= argv.len() {
        FlagScan::Done(a)
    } else {
        let f = argv[i as int];
        if is_help_flag(f) {
            FlagScan::Help
        } else if is_value_flag(f) {
            if i + 1 >= argv.len() {
                FlagScan::Refused(ArgsErrorModel::MissingValue(f))
            } else {
                match apply_value(a, f, argv[i + 1int]) {
                    Ok(b) => scan_flags(argv, i + 2, b),
                    Err(e) => FlagScan::Refused(e),
                }
            }
        } else {
            FlagScan::Refused(ArgsErrorModel::UnknownFlag(f))
        }
    }
}

/// The checks made once every word has been read.
pub open spec fn finish_args(a: ArgsModel) -> Result<CommandModel, ArgsErrorModel> {
    if a.loops == 0 {
        Err(ArgsErrorModel::LoopsZero)
    } else if !is_missingkey_mode(a.missingkey) {
        Err(ArgsErrorModel::InvalidMissingKey)
    } else {
        Ok(CommandModel::Run(a))
    }
}

/// What a command line (the words after the program name) asks for.
pub open spec fn parse_args_spec(argv: Seq<Seq<char>>) -> Result<CommandModel, ArgsErrorModel> {
    match scan_flags(argv, 0, default_args()) {
        FlagScan::Done(a) => finish_args(a),
        FlagScan::Help => Ok(CommandModel::Help),
        FlagScan::Refused(e) => Err(e),
    }
}

/// The texts of a list of words.
pub open spec fn arg_views(argv: Seq<String>) -> Seq<Seq<char>> {
    argv.map_values(|s: String| s@)
}

/// The word at `pos`, which is the value of `flag`; refused when the
/// command line ends before it.
pub fn next_value(argv: &Vec<String>, pos: usize, flag: &str) -> (res: Result<String, ArgsError>)
    ensures
        pos < argv@.len() ==> (res matches Ok(v) && v@ == argv@[pos as int]@),
        pos >= argv@.len() ==> (res matches Err(e) && e@ == ArgsErrorModel::MissingValue(flag@)),
{
    if pos < argv.len() {
        Ok(argv[pos].clone())
    } else {
        Err(ArgsError::MissingValue(flag.to_owned()))
    }
}

/// Reads a command line (the words after the program name). Flags are read
/// from left to right; `--help` or `-h` stops the reading at once; each of
/// `--template`, `--data`, `--loops`, `--missingkey`, `--go-bin` and
/// `--go-runner` takes the next word as its value, and a later value replaces
/// an earlier one. Once all words are read, `--loops` must be above zero and
/// `--missingkey` one of `default`, `invalid`, `zero`, `error`.
pub fn parse_args(argv: &Vec<String>) -> (res: Result<Command, ArgsError>)
    ensures
        outcome_view(res) == parse_args_spec(arg_views(argv@)),
{
    let ghost words = arg_views(argv@);
    let mut args = Args {
        template: None,
        data: None,
        loops: 60,
        missingkey: "default".to_owned(),
        go_bin: "go".to_owned(),
        go_runner: "tools/compare_go_html_template/main.go".to_owned(),
    };
    let mut pos: usize = 0;
    while pos < argv.len()
        invariant
            pos <= argv@.len(),
            words == arg_views(argv@),
            words.len() == argv@.len(),
            scan_flags(words, pos as nat, args@) == scan_flags(words, 0, default_args()),
        decreases argv@.len() - pos,
    {
        let flag = argv[pos].as_str();
        assert(flag@ == words[pos as int]);
        if str_eq(flag, "--help") || str_eq(flag, "-h") {
            return Ok(Command::Help);
        }
        let is_template = str_eq(flag, "--template");
        let is_data = str_eq(flag, "--data");
        let is_loops = str_eq(flag, "--loops");
        let is_missingkey = str_eq(flag, "--missingkey");
        let is_go_bin = str_eq(flag, "--go-bin");
        let is_go_runner = str_eq(flag, "--go-runner");
        if !(is_template || is_data || is_loops || is_missingkey || is_go_bin || is_go_runner) {
            return Err(ArgsError::UnknownFlag(flag.to_owned()));
        }
        let value = match next_value(argv, pos + 1, flag) {
            Ok(v) => v,
            Err(e) => {
                return Err(e);
            },
        };
        assert(value@ == words[pos + 1]);
        if is_template {
            args.template = Some(value);
        } else if is_data {
            args.data = Some(value);
        } else if is_loops {
            match parse_usize(value.as_str()) {
                Ok(n) => {
                    args.loops = n;
                },
                Err(k) => {
                    return Err(ArgsError::InvalidLoops(k));
                },
            }
        } else if is_missingkey {
            args.missingkey = value;
        } else if is_go_bin {
            args.go_bin = value;
        } else {
            args.go_runner = value;
        }
        pos = pos + 2;
    }
    if args.loops == 0 {
        return Err(ArgsError::LoopsZero);
    }
    let m = args.missingkey.as_str();
    if !(str_eq(m, "default") || str_eq(m, "invalid") || str_eq(m, "zero") || str_eq(m, "error")) {
        return Err(ArgsError::InvalidMissingKey);
    }
    Ok(Command::Run(args))
}

/// The text that describes a refused `usize`.
pub open spec fn int_error_text(k: IntErrorKind) -> Seq<char> {
    match k {
        IntErrorKind::Empty => "cannot parse integer from empty string"@,
        IntErrorKind::InvalidDigit => "invalid digit found in string"@,
        IntErrorKind::PosOverflow => "number too large to fit in target type"@,
    }
}

/// The message that reports a refused command line.
pub open spec fn args_error_text(e: ArgsErrorModel) -> Seq<char> {
    match e {
        ArgsErrorModel::UnknownFlag(f) => "unknown flag: "@ + f,
        ArgsErrorModel::MissingValue(f) => f + " requires a value"@,
        ArgsErrorModel::InvalidLoops(k) => int_error_text(k),
        ArgsErrorModel::LoopsZero => "--loops must be greater than zero"@,
        ArgsErrorModel::InvalidMissingKey => "--missingkey must be one of default|invalid|zero|error"@,
    }
}

impl ArgsError {
    /// The message that reports this error.
    pub fn message(&self) -> (m: String)
        ensures
            m@ == args_error_text(self@),
    {
        match self {
            ArgsError::UnknownFlag(f) => {
                let mut m = "unknown flag: ".to_owned();
                m.append(f.as_str());
                m
            },
            ArgsError::MissingValue(f) => {
                let mut m = f.clone();
                m.append(" requires a value");
                m
            },
            ArgsError::InvalidLoops(k) => match k {
                IntErrorKind::Empty => "cannot parse integer from empty string".to_owned(),
                IntErrorKind::InvalidDigit => "invalid digit found in string".to_owned(),
                IntErrorKind::PosOverflow => "number too large to fit in target type".to_owned(),
            },
            ArgsError::LoopsZero => "--loops must be greater than zero".to_owned(),
            ArgsError::InvalidMissingKey => "--missingkey must be one of default|invalid|zero|error".to_owned(),
        }
    }
}

/// Once the words from `i` on have all been read as flags and values, words
/// appended after them are read starting from the settings reached.
proof fn lemma_scan_append(argv: Seq<Seq<char>>, tail: Seq<Seq<char>>, i: nat, a: ArgsModel)
    requires
        i <= argv.len(),
        scan_flags(argv, i, a) is Done,
    ensures
        scan_flags(argv + tail, i, a) == scan_flags(argv + tail, argv.len(), scan_flags(argv, i, a)->Done_0),
    decreases argv.len() - i,
{
    let all = argv + tail;
    if i == argv.len() {
    } else {
        let f = argv[i as int];
        assert(all[i as int] == f);
        assert(i + 1 < argv.len());
        assert(all[i + 1int] == argv[i + 1int]);
        let b = apply_value(a, f, argv[i + 1int])->Ok_0;
        lemma_scan_append(argv, tail, i + 2, b);
    }
}

/// Law: a command line that is accepted for a run asks for at least one loop
/// and for one of the four `missingkey` modes.
pub proof fn lemma_accepted_args_are_valid(argv: Seq<Seq<char>>)
    ensures
        parse_args_spec(argv) matches Ok(CommandModel::Run(a)) ==> a.loops > 0
            && is_missingkey_mode(a.missingkey),
{
}

/// Law: `--help` (or `-h`) as the first word asks for the usage text, whatever
/// follows it.
pub proof fn lemma_help_first(rest: Seq<Seq<char>>)
    ensures
        parse_args_spec(seq!["--help"@] + rest) == Ok::<CommandModel, ArgsErrorModel>(CommandModel::Help),
        parse_args_spec(seq!["-h"@] + rest) == Ok::<CommandModel, ArgsErrorModel>(CommandModel::Help),
{
    assert((seq!["--help"@] + rest)[0] == "--help"@);
    assert((seq!["-h"@] + rest)[0] == "-h"@);
}

/// Law: appending `--go-bin v` to an accepted command line gives the same
/// settings with the `go` binary replaced by `v`; a later value of a flag
/// replaces an earlier one.
pub proof fn lemma_later_value_replaces(argv: Seq<Seq<char>>, v: Seq<char>)
    requires
        parse_args_spec(argv) matches Ok(CommandModel::Run(_)),
    ensures
        parse_args_spec(argv + seq!["--go-bin"@, v]) matches Ok(CommandModel::Run(b)) && b
            == (ArgsModel { go_bin: v, ..parse_args_spec(argv)->Ok_0->Run_0 }),
{
    let tail = seq!["--go-bin"@, v];
    assert(scan_flags(argv, 0, default_args()) is Done);
    let a = scan_flags(argv, 0, default_args())->Done_0;
    lemma_scan_append(argv, tail, 0, default_args());
    let all = argv + tail;
    assert(all[argv.len() as int] == "--go-bin"@);
    assert(all[argv.len() + 1int] == v);
    reveal_strlit("--go-bin");
    reveal_strlit("--help");
    reveal_strlit("-h");
    reveal_strlit("--template");
    reveal_strlit("--data");
    reveal_strlit("--loops");
    reveal_strlit("--missingkey");
    assert("--go-bin"@.len() == 8);
    assert("--go-bin"@ != "--help"@);
    assert("--go-bin"@ != "-h"@);
    assert("--go-bin"@ != "--template"@);
    assert("--go-bin"@ != "--data"@);
    assert("--go-bin"@ != "--loops"@);
    assert("--go-bin"@ != "--missingkey"@);
    assert(scan_flags(all, argv.len() + 2, ArgsModel { go_bin: v, ..a }) == FlagScan::Done(
        ArgsModel { go_bin: v, ..a },
    ));
}

/// The flag texts are all different from one another.
pub proof fn lemma_flags_distinct()
    ensures
        !is_help_flag("--template"@),
        !is_help_flag("--data"@),
        !is_help_flag("--loops"@),
        !is_help_flag("--missingkey"@),
        !is_help_flag("--go-bin"@),
        !is_help_flag("--go-runner"@),
        "--data"@ != "--template"@,
        "--loops"@ != "--template"@,
        "--loops"@ != "--data"@,
        "--missingkey"@ != "--template"@,
        "--missingkey"@ != "--data"@,
        "--missingkey"@ != "--loops"@,
        "--go-bin"@ != "--template"@,
        "--go-bin"@ != "--data"@,
        "--go-bin"@ != "--loops"@,
        "--go-bin"@ != "--missingkey"@,
        "--go-runner"@ != "--template"@,
        "--go-runner"@ != "--data"@,
        "--go-runner"@ != "--loops"@,
        "--go-runner"@ != "--missingkey"@,
        "--go-runner"@ != "--go-bin"@,
{
    reveal_strlit("--help");
    reveal_strlit("-h");
    reveal_strlit("--template");
    reveal_strlit("--data");
    reveal_strlit("--loops");
    reveal_strlit("--missingkey");
    reveal_strlit("--go-bin");
    reveal_strlit("--go-runner");
    assert("--help"@[2] == 'h' && "--data"@[2] == 'd');
    assert("--help"@.len() == 6 && "-h"@.len() == 2);
    assert("--template"@.len() == 10 && "--data"@.len() == 6 && "--loops"@.len() == 7);
    assert("--missingkey"@.len() == 12 && "--go-bin"@.len() == 8 && "--go-runner"@.len() == 11);
}

/// Law: `--missingkey` followed by any of the four modes `default`,
/// `invalid`, `zero` and `error` is accepted, and gives the default settings
/// with that mode.
pub proof fn lemma_every_missingkey_mode_is_accepted(m: Seq<char>)
    requires
        m == "default"@ || m == "invalid"@ || m == "zero"@ || m == "error"@,
    ensures
        parse_args_spec(seq!["--missingkey"@, m]) == Ok::<CommandModel, ArgsErrorModel>(
            CommandModel::Run(
                ArgsModel {
                    template: None,
                    data: None,
                    loops: 60,
                    missingkey: m,
                    go_bin: "go"@,
                    go_runner: "tools/compare_go_html_template/main.go"@,
                },
            ),
        ),
{
    lemma_flags_distinct();
    let argv = seq!["--missingkey"@, m];
    let b = ArgsModel { missingkey: m, ..default_args() };
    assert(apply_value(default_args(), "--missingkey"@, m) == Ok::<ArgsModel, ArgsErrorModel>(b));
    assert(scan_flags(argv, 2, b) == FlagScan::Done(b));
    assert(scan_flags(argv, 0, default_args()) == FlagScan::Done(b));
}

/// Law: `--loops` followed by the decimal text of any positive count is
/// accepted, and gives the default settings with that count.
pub proof fn lemma_every_positive_loop_count_is_accepted(n: usize)
    requires
        n > 0,
    ensures
        parse_args_spec(seq!["--loops"@, decimal(n as nat)]) == Ok::<CommandModel, ArgsErrorModel>(
            CommandModel::Run(
                ArgsModel {
                    template: None,
                    data: None,
                    loops: n,
                    missingkey: "default"@,
                    go_bin: "go"@,
                    go_runner: "tools/compare_go_html_template/main.go"@,
                },
            ),
        ),
{
    lemma_flags_distinct();
    lemma_parse_decimal_roundtrip(n);
    let argv = seq!["--loops"@, decimal(n as nat)];
    let b = ArgsModel { loops: n, ..default_args() };
    assert(apply_value(default_args(), "--loops"@, decimal(n as nat)) == Ok::<
        ArgsModel,
        ArgsErrorModel,
    >(b));
    assert(scan_flags(argv, 2, b) == FlagScan::Done(b));
    assert(scan_flags(argv, 0, default_args()) == FlagScan::Done(b));
}

/// Law: a command line that gives the template, the data, a positive loop
/// count and one of the four modes, each once and in this order, is accepted
/// with exactly those settings (and the default `go` binary and runner).
pub proof fn lemma_full_command_line(t: Seq<char>, d: Seq<char>, n: usize, m: Seq<char>)
    requires
        n > 0,
        m == "default"@ || m == "invalid"@ || m == "zero"@ || m == "error"@,
    ensures
        parse_args_spec(
            seq!["--template"@, t, "--data"@, d, "--loops"@, decimal(n as nat), "--missingkey"@, m],
        ) == Ok::<CommandModel, ArgsErrorModel>(
            CommandModel::Run(
                ArgsModel {
                    template: Some(t),
                    data: Some(d),
                    loops: n,
                    missingkey: m,
                    go_bin: "go"@,
                    go_runner: "tools/compare_go_html_template/main.go"@,
                },
            ),
        ),
{
    lemma_flags_distinct();
    lemma_parse_decimal_roundtrip(n);
    let argv = seq!["--template"@, t, "--data"@, d, "--loops"@, decimal(n as nat), "--missingkey"@, m];
    let a0 = default_args();
    let a1 = ArgsModel { template: Some(t), ..a0 };
    let a2 = ArgsModel { data: Some(d), ..a1 };
    let a3 = ArgsModel { loops: n, ..a2 };
    let a4 = ArgsModel { missingkey: m, ..a3 };
    assert(apply_value(a0, "--template"@, t) == Ok::<ArgsModel, ArgsErrorModel>(a1));
    assert(apply_value(a1, "--data"@, d) == Ok::<ArgsModel, ArgsErrorModel>(a2));
    assert(apply_value(a2, "--loops"@, decimal(n as nat)) == Ok::<ArgsModel, ArgsErrorModel>(a3));
    assert(apply_value(a3, "--missingkey"@, m) == Ok::<ArgsModel, ArgsErrorModel>(a4));
    assert(scan_flags(argv, 8, a4) == FlagScan::Done(a4));
    assert(scan_flags(argv, 6, a3) == FlagScan::Done(a4));
    assert(scan_flags(argv, 4, a2) == FlagScan::Done(a4));
    assert(scan_flags(argv, 2, a1) == FlagScan::Done(a4));
    assert(scan_flags(argv, 0, a0) == FlagScan::Done(a4));
}

} // verus!
