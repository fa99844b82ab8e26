//! The comparison run of the two template engines: where the template and
//! the data come from, the temporary file names, the command that runs the
//! other engine, and the summary of how the two outputs compare.

use vstd::prelude::*;

use crate::cli::{arg_views, lemma_full_command_line, parse_args_spec, ArgsModel, ArgsErrorModel, CommandModel};
use crate::decimal::{decimal, lemma_parse_decimal_roundtrip, parse_usize_spec, IntErrorKind, push_decimal};
use crate::text::{
    first_diff_byte_index, is_first_difference, lemma_no_difference_iff_equal, pad_right_spec,
    preview_for_log, push_padded_right,
};
use vstd::string::StringSliceAdditionalSpecFns;

verus! {

/// Declares `serde_json::Error`, the error that `serde_json::to_string` may
/// return; its contents stay opaque.
#[verifier::external_type_specification]
#[verifier::external_body]
pub struct ExJsonError(serde_json::Error);

/// The template used when none is given: it prints each item with its index.
pub open spec fn default_template() -> Seq<char> {
    "{{range $i, $v := .Items}}{{$i}}:{{$v}};{{end}}"@
}

/// How many items the built-in data holds.
pub const DEFAULT_ITEMS: usize = 20000;

/// Where a file that a run reads comes from.
pub enum PathPlan {
    /// The file the user named.
    UseGiven(String),
    /// A temporary file to be written first, named after `tag`, holding `content`.
    WriteTemp { tag: String, content: String },
}

/// Why the built-in data could not be prepared.
pub enum PlanError {
    /// Serializing the data to JSON failed.
    Serialize,
}

/// The template file of a run: the one given, or a temporary file holding the
/// default template.
pub fn prepare_template_path(path: Option<String>) -> (plan: PathPlan)
    ensures
        match path {
            Some(p) => plan == PathPlan::UseGiven(p),
            None => plan matches PathPlan::WriteTemp { tag, content } && tag@ == "template"@
                && content@ == default_template(),
        },
{
    match path {
        Some(p) => PathPlan::UseGiven(p),
        None => PathPlan::WriteTemp {
            tag: "template".to_owned(),
            content: "{{range $i, $v := .Items}}{{$i}}:{{$v}};{{end}}".to_owned(),
        },
    }
}

/// The numbers `0 .. count - 1`, in order.
pub fn default_items(count: usize) -> (items: Vec<u64>)
    ensures
        items@ == Seq::new(count as nat, |i: int| i as u64),
{
    let mut items: Vec<u64> = Vec::new();
    let mut i: usize = 0;
    while i < count
        invariant
            i <= count,
            items@ == Seq::new(i as nat, |j: int| j as u64),
        decreases count - i,
    {
        items.push(i as u64);
        assert(items@ =~= Seq::new((i + 1) as nat, |j: int| j as u64));
        i = i + 1;
    }
    items
}

/// The JSON text of a list of numbers, without the brackets: the numbers in
/// decimal, separated by commas.
pub open spec fn json_number_list(items: Seq<u64>) -> Seq<char>
    decreases items.len(),
{
    if items.len() == 0 {
        Seq::empty()
    } else if items.len() == 1 {
        decimal(items[0] as nat)
    } else {
        json_number_list(items.drop_last()) + ","@ + decimal(items.last() as nat)
    }
}

/// The compact JSON text of an object with the single member `key`, whose
/// value is the array `items`.
pub open spec fn json_object_text(key: Seq<char>, items: Seq<u64>) -> Seq<char> {
    "{\""@ + key + "\":["@ + json_number_list(items) + "]}"@
}

/// Whether `key` is written in JSON as it stands, between quotes: it holds no
/// quote, no backslash and no control character.
pub open spec fn is_plain_json_key(key: Seq<char>) -> bool {
    forall|i: int|
        0 <= i < key.len() ==> key[i] != '"' && key[i] != '\\' && (key[i] as u32) >= 0x20
}

/// Serializes the object `{key: items}` with `serde_json::to_string`, after
/// building it with `serde_json::Map::insert` and `serde_json::Value::from`.
/// Claimed: the call succeeds (the value is an object with a string key and an
/// array of numbers, and the text goes to an in-memory buffer, so none of the
/// documented causes of failure can occur), and when the key needs no
/// escaping the text is the compact form `{"key":[n0,n1,...]}` with each number
/// in decimal. Not claimed: the text for a key that needs escaping.
#[verifier::external_body]
fn json_object_with_number_array(key: &str, items: &Vec<u64>) -> (res: Result<
    String,
    serde_json::Error,
>)
    ensures
        res is Ok,
        is_plain_json_key(key@) ==> (res matches Ok(s) ==> s@ == json_object_text(key@, items@)),
{
    let mut map = serde_json::Map::new();
    map.insert(key.to_owned(), serde_json::Value::from(items.clone()));
    serde_json::to_string(&serde_json::Value::Object(map))
}

/// The JSON text of the built-in data: `{"Items":[0,1,...,19999]}`.
pub open spec fn default_data_text() -> Seq<char> {
    json_object_text("Items"@, Seq::new(DEFAULT_ITEMS as nat, |i: int| i as u64))
}

/// The plan for the built-in data once it has been serialized: a temporary
/// file tagged `data` holding the text, or the serialization error.
pub fn plan_from_serialized_data(serialized: Result<String, serde_json::Error>) -> (res: Result<
    PathPlan,
    PlanError,
>)
    ensures
        match serialized {
            Ok(text) => res matches Ok(PathPlan::WriteTemp { tag, content }) && tag@ == "data"@
                && content == text,
            Err(_) => res == Err::<PathPlan, PlanError>(PlanError::Serialize),
        },
{
    match serialized {
        Ok(text) => Ok(PathPlan::WriteTemp { tag: "data".to_owned(), content: text }),
        Err(_) => Err(PlanError::Serialize),
    }
}

/// The data file of a run: the one given, or a temporary file holding the
/// built-in data, an object whose `Items` are the numbers from zero up.
pub fn prepare_data_path(path: Option<String>) -> (res: Result<PathPlan, PlanError>)
    ensures
        path matches Some(p) ==> res == Ok::<PathPlan, PlanError>(PathPlan::UseGiven(p)),
        path is None ==> (res matches Ok(PathPlan::WriteTemp { tag, content }) && tag@ == "data"@
            && content@ == default_data_text()),
{
    match path {
        Some(p) => Ok(PathPlan::UseGiven(p)),
        None => {
            let items = default_items(DEFAULT_ITEMS);
            proof {
                reveal_strlit("Items");
                assert(is_plain_json_key("Items"@));
            }
            plan_from_serialized_data(json_object_with_number_array("Items", &items))
        },
    }
}

/// The name of a temporary file of the comparison run.
pub open spec fn temp_file_name_spec(tag: Seq<char>, pid: nat, timestamp: nat) -> Seq<char> {
    "go_html_template_compare_"@ + tag + "_"@ + decimal(pid) + "_"@ + decimal(timestamp) + ".tmp"@
}

/// The name of a temporary file, made unique by the process id and the time.
pub fn temp_file_name(tag: &str, pid: u32, timestamp: u128) -> (name: String)
    ensures
        name@ == temp_file_name_spec(tag@, pid as nat, timestamp as nat),
{
    let mut name = "go_html_template_compare_".to_owned();
    name.append(tag);
    name.append("_");
    push_decimal(&mut name, pid as u128);
    name.append("_");
    push_decimal(&mut name, timestamp);
    name.append(".tmp");
    name
}

/// The arguments handed to `go` to run the other engine.
pub open spec fn go_command_words(
    go_runner: Seq<char>,
    template_path: Seq<char>,
    data_path: Seq<char>,
    missingkey: Seq<char>,
    loops: nat,
) -> Seq<Seq<char>> {
    seq![
        "run"@,
        go_runner,
        "--template"@,
        template_path,
        "--data"@,
        data_path,
        "--loops"@,
        decimal(loops),
        "--missingkey"@,
        missingkey,
    ]
}

/// The arguments of `go run` that make the Go program measure the same
/// template, data, loop count and `missingkey` mode.
pub fn go_command_args(
    go_runner: &str,
    template_path: &str,
    data_path: &str,
    missingkey: &str,
    loops: usize,
) -> (args: Vec<String>)
    ensures
        arg_views(args@) == go_command_words(
            go_runner@,
            template_path@,
            data_path@,
            missingkey@,
            loops as nat,
        ),
{
    let mut loops_text = String::new();
    push_decimal(&mut loops_text, loops as u128);
    let mut args: Vec<String> = Vec::new();
    args.push("run".to_owned());
    args.push(go_runner.to_owned());
    args.push("--template".to_owned());
    args.push(template_path.to_owned());
    args.push("--data".to_owned());
    args.push(data_path.to_owned());
    args.push("--loops".to_owned());
    args.push(loops_text);
    args.push("--missingkey".to_owned());
    args.push(missingkey.to_owned());
    assert(arg_views(args@) =~= go_command_words(
        go_runner@,
        template_path@,
        data_path@,
        missingkey@,
        loops as nat,
    ));
    args
}

/// Law: the `go run` command names the runner and hands it the loop count
/// as a word that reads back as that count, right after `--loops`.
pub proof fn lemma_go_command_passes_the_loop_count(
    go_runner: Seq<char>,
    template_path: Seq<char>,
    data_path: Seq<char>,
    missingkey: Seq<char>,
    loops: usize,
)
    ensures
        go_command_words(go_runner, template_path, data_path, missingkey, loops as nat).len() == 10,
        go_command_words(go_runner, template_path, data_path, missingkey, loops as nat)[0] == "run"@,
        go_command_words(go_runner, template_path, data_path, missingkey, loops as nat)[1]
            == go_runner,
        go_command_words(go_runner, template_path, data_path, missingkey, loops as nat)[6]
            == "--loops"@,
        parse_usize_spec(
            go_command_words(go_runner, template_path, data_path, missingkey, loops as nat)[7],
        ) == Ok::<usize, IntErrorKind>(loops),
{
    lemma_parse_decimal_roundtrip(loops);
}

/// Law: the words of the `go run` command after the runner, read as a command
/// line with the same flags, give back the template, the data, the loop count
/// and the `missingkey` mode of the run (for a positive count and one of the
/// four modes).
pub proof fn lemma_go_command_carries_the_settings(
    go_runner: Seq<char>,
    template_path: Seq<char>,
    data_path: Seq<char>,
    missingkey: Seq<char>,
    loops: usize,
)
    requires
        loops > 0,
        missingkey == "default"@ || missingkey == "invalid"@ || missingkey == "zero"@ || missingkey
            == "error"@,
    ensures
        parse_args_spec(
            go_command_words(go_runner, template_path, data_path, missingkey, loops as nat).skip(2),
        ) == Ok::<CommandModel, ArgsErrorModel>(
            CommandModel::Run(
                ArgsModel {
                    template: Some(template_path),
                    data: Some(data_path),
                    loops: loops,
                    missingkey: missingkey,
                    go_bin: "go"@,
                    go_runner: "tools/compare_go_html_template/main.go"@,
                },
            ),
        ),
{
    lemma_full_command_line(template_path, data_path, loops, missingkey);
    assert(go_command_words(go_runner, template_path, data_path, missingkey, loops as nat).skip(2)
        =~= seq![
        "--template"@,
        template_path,
        "--data"@,
        data_path,
        "--loops"@,
        decimal(loops as nat),
        "--missingkey"@,
        missingkey,
    ]);
}

/// How two outputs that differ differ.
pub struct Mismatch {
    /// The first byte at which they differ.
    pub first_diff_byte: Option<usize>,
    /// The start of the first output.
    pub rust_preview: String,
    /// The start of the second output.
    pub go_preview: String,
}

/// How the two outputs compare.
pub struct OutputSummary {
    /// Whether they are equal.
    pub output_match: bool,
    /// When they are not, how they differ.
    pub mismatch: Option<Mismatch>,
}

/// The first `n` characters of `s`, or all of it.
pub open spec fn prefix_chars(s: Seq<char>, n: nat) -> Seq<char> {
    s.take(if s.len() < n { s.len() as int } else { n as int })
}

/// How many characters of each output the summary shows.
pub const PREVIEW_CHARS: usize = 200;

/// Compares the output of this engine with that of the other one; when they
/// differ, finds the first differing byte and takes the start of each.
pub fn summarize_outputs(rust_output: &str, go_output: &str) -> (summary: OutputSummary)
    ensures
        summary.output_match == (rust_output@ == go_output@),
        summary.mismatch is None <==> summary.output_match,
        summary.mismatch matches Some(m) ==> {
            &&& is_first_difference(rust_output.spec_bytes(), go_output.spec_bytes(), m.first_diff_byte)
            &&& m.first_diff_byte is Some
            &&& m.rust_preview@ == prefix_chars(rust_output@, PREVIEW_CHARS as nat)
            &&& m.go_preview@ == prefix_chars(go_output@, PREVIEW_CHARS as nat)
        },
{
    let first = first_diff_byte_index(rust_output, go_output);
    proof { lemma_no_difference_iff_equal(rust_output, go_output, first); }
    if first.is_none() {
        OutputSummary { output_match: true, mismatch: None }
    } else {
        OutputSummary {
            output_match: false,
            mismatch: Some(
                Mismatch {
                    first_diff_byte: first,
                    rust_preview: preview_for_log(rust_output, PREVIEW_CHARS),
                    go_preview: preview_for_log(go_output, PREVIEW_CHARS),
                },
            ),
        }
    }
}

/// The width of the label column of the report.
pub const LABEL_WIDTH: usize = 24;

/// A report line: the label padded to the label column, a space, the value.
pub fn report_line(label: &str, value: &str) -> (line: String)
    ensures
        line@ == pad_right_spec(label@, LABEL_WIDTH as nat) + " "@ + value@,
{
    let mut line = String::new();
    push_padded_right(&mut line, label, LABEL_WIDTH);
    line.append(" ");
    line.append(value);
    line
}

/// A byte index in decimal, or `none`.
pub fn index_text(index: Option<usize>) -> (text: String)
    ensures
        match index {
            Some(i) => text@ == decimal(i as nat),
            None => text@ == "none"@,
        },
{
    match index {
        Some(i) => {
            let mut text = String::new();
            push_decimal(&mut text, i as u128);
            text
        },
        None => "none".to_owned(),
    }
}

} // verus!
