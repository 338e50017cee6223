//! The rules around the helper scripts that the host runs: which interpreter
//! to try next, what a failed run reports, and how arguments and reports are
//! put together. Running a command is left to the caller.

use vstd::prelude::*;
use crate::pin::{signed_text, signed_to_string};
use crate::wire::{same_text, text_of};

verus! {

/// Whether `c` is white space in Unicode's sense.
pub open spec fn is_space(c: char) -> bool {
    let u = c as u32;
    (0x09 <= u <= 0x0D) || u == 0x20 || u == 0x85 || u == 0xA0 || u == 0x1680 || (0x2000 <= u
        <= 0x200A) || u == 0x2028 || u == 0x2029 || u == 0x202F || u == 0x205F || u == 0x3000
}

/// Whether `s` holds nothing but white space.
pub open spec fn is_blank(s: Seq<char>) -> bool {
    forall|i: int| 0 <= i < s.len() ==> is_space(#[trigger] s[i])
}

/// Whether `t` is `s` from `from` up to `to`, with only white space before
/// and after, and none at either end of `t`.
pub open spec fn is_trim_at(s: Seq<char>, t: Seq<char>, from: int, to: int) -> bool {
    &&& 0 <= from <= to <= s.len()
    &&& t == s.subrange(from, to)
    &&& is_blank(s.subrange(0, from))
    &&& is_blank(s.subrange(to, s.len() as int))
    &&& from < to ==> !is_space(s[from]) && !is_space(s[to - 1])
}

/// Whether `t` is `s` without its leading and trailing white space.
pub open spec fn is_trim_of(s: Seq<char>, t: Seq<char>) -> bool {
    exists|from: int, to: int| is_trim_at(s, t, from, to)
}

/// `s` with every match of `pattern` replaced by `with`, as `str::replace`
/// finds the matches.
pub uninterp spec fn replaced(s: Seq<char>, pattern: Seq<char>, with: Seq<char>) -> Seq<char>;

/// `str::trim`: the slice of `s` that is left when the white space at both
/// ends is taken away.
#[verifier::external_body]
fn trim_text(s: &str) -> (t: &str)
    ensures
        is_trim_of(s@, t@),
{
    s.trim()
}

/// `str::replace` with string patterns. The result is known by its name only.
#[verifier::external_body]
fn replace_text(s: &str, pattern: &str, with: &str) -> (r: String)
    ensures
        r@ == replaced(s@, pattern@, with@),
{
    s.replace(pattern, with)
}

/// A trimmed string is empty exactly when the string was blank.
pub proof fn lemma_trim_empty_iff_blank(s: Seq<char>, t: Seq<char>)
    requires
        is_trim_of(s, t),
    ensures
        t.len() == 0 <==> is_blank(s),
{
    let (from, to) = choose|from: int, to: int| is_trim_at(s, t, from, to);
    if t.len() == 0 {
        assert(from == to);
        assert forall|i: int| 0 <= i < s.len() implies is_space(#[trigger] s[i]) by {
            if i < from {
                assert(s.subrange(0, from)[i] == s[i]);
            } else {
                assert(s.subrange(to, s.len() as int)[i - to] == s[i]);
            }
        }
    } else {
        assert(from < to);
        assert(!is_space(s[from]));
    }
}

/// The helper scripts.
#[derive(Clone, Copy, PartialEq, Eq, Structural, Debug)]
pub enum Script {
    TabularProcessor,
    CheckGpu,
    SystemInfo,
    DatasetAnalyzer,
}

/// The directory of the helper scripts below the resource directory.
pub fn backend_dir() -> (name: &'static str)
    ensures
        name@ == "python_backend"@,
{
    "python_backend"
}

/// The file name of a helper script.
pub fn script_file(script: Script) -> (name: &'static str)
    ensures
        name@ == match script {
            Script::TabularProcessor => "tabular_processor.py"@,
            Script::CheckGpu => "check_gpu.py"@,
            Script::SystemInfo => "system_info.py"@,
            Script::DatasetAnalyzer => "dataset_analyzer.py"@,
        },
{
    match script {
        Script::TabularProcessor => "tabular_processor.py",
        Script::CheckGpu => "check_gpu.py",
        Script::SystemInfo => "system_info.py",
        Script::DatasetAnalyzer => "dataset_analyzer.py",
    }
}

/// What a failed run of a script is reported under.
pub open spec fn failure_label(script: Script) -> Seq<char> {
    match script {
        Script::TabularProcessor => ""@,
        Script::CheckGpu => "GPU detection failed: "@,
        Script::SystemInfo => "System info failed: "@,
        Script::DatasetAnalyzer => "Dataset analysis failed: "@,
    }
}

/// A script path without the marker of a verbatim Windows path.
pub fn plain_path(path: &str) -> (plain: String)
    ensures
        plain@ == replaced(path@, "\\\\?\\"@, ""@),
{
    replace_text(path, "\\\\?\\", "")
}

/// The arguments of a run of the tabular processor.
pub open spec fn tabular_args_of(
    script: Seq<char>,
    action: Seq<char>,
    file: Seq<char>,
    params: Option<Seq<char>>,
    out: Option<Seq<char>>,
) -> Seq<Seq<char>> {
    seq![script, "--action"@, action, "--file"@, file] + (match params {
        Some(p) => seq!["--params"@, p],
        None => Seq::empty(),
    }) + (match out {
        Some(o) => seq!["--out"@, o],
        None => Seq::empty(),
    })
}

/// The characters of each string of a list.
pub open spec fn texts(list: Seq<String>) -> Seq<Seq<char>> {
    list.map_values(|s: String| s@)
}

/// Builds the arguments of a run of the tabular processor.
pub fn tabular_args(
    script: String,
    action: String,
    file: String,
    params: Option<String>,
    out: Option<String>,
) -> (args: Vec<String>)
    ensures
        texts(args@) == tabular_args_of(script@, action@, file@, text_of(params), text_of(out)),
{
    let mut args: Vec<String> = Vec::new();
    args.push(script);
    args.push(String::from_str("--action"));
    args.push(action);
    args.push(String::from_str("--file"));
    args.push(file);
    if let Some(p) = params {
        args.push(String::from_str("--params"));
        args.push(p);
    }
    if let Some(o) = out {
        args.push(String::from_str("--out"));
        args.push(o);
    }
    assert(texts(args@) =~= tabular_args_of(
        script@,
        action@,
        file@,
        text_of(params),
        text_of(out),
    ));
    args
}

/// What one attempt to run a command gave.
pub enum Attempt {
    /// The command ran and exited.
    Exited { success: bool, code: Option<i32>, stdout: String, stderr: String },
    /// The command could not be started.
    NotStarted { error: String },
}

/// Whether `report` is what a run that exited without success reports: its
/// error output unless that is blank, else its output unless that is blank,
/// else its exit code, with -1 for a run that has none.
pub open spec fn is_exit_report(
    report: Seq<char>,
    code: Option<i32>,
    stdout: Seq<char>,
    stderr: Seq<char>,
) -> bool {
    if !is_blank(stderr) {
        report == stderr
    } else if !is_blank(stdout) {
        report == stdout
    } else {
        report == "Exited with code: "@ + signed_text(
            match code {
                Some(c) => c as int,
                None => -1,
            },
        )
    }
}

/// Reports a run that exited without success.
pub fn exit_report(code: Option<i32>, stdout: String, stderr: String) -> (report: String)
    ensures
        is_exit_report(report@, code, stdout@, stderr@),
{
    let stderr_rest = trim_text(stderr.as_str());
    let stdout_rest = trim_text(stdout.as_str());
    proof {
        lemma_trim_empty_iff_blank(stderr@, stderr_rest@);
        lemma_trim_empty_iff_blank(stdout@, stdout_rest@);
    }
    if !stderr_rest.is_empty() {
        stderr
    } else if !stdout_rest.is_empty() {
        stdout
    } else {
        let shown: i32 = match code {
            Some(c) => c,
            None => -1,
        };
        let number = signed_to_string(shown);
        let mut report = String::from_str("Exited with code: ");
        report.append(number.as_str());
        report
    }
}

/// The interpreters that are tried, in this order.
pub open spec fn candidates() -> Seq<Seq<char>> {
    seq!["python"@, "python3"@, "py"@]
}

/// The search for an interpreter that runs a script: how many candidates
/// were tried, and what the last failed attempt reported.
pub struct Fallback {
    tried: usize,
    last_error: String,
}

impl Fallback {
    /// How many candidates were tried.
    pub closed spec fn tried(&self) -> nat {
        self.tried as nat
    }

    /// What the last failed attempt reported; empty before the first.
    pub closed spec fn last_error(&self) -> Seq<char> {
        self.last_error@
    }

    /// A search that has tried nothing yet.
    pub fn new() -> (search: Self)
        ensures
            search.tried() == 0,
            search.last_error() == Seq::<char>::empty(),
    {
        Fallback { tried: 0, last_error: String::new() }
    }

    /// The command to try next, or `None` once all were tried.
    pub fn next_command(&self) -> (command: Option<&'static str>)
        ensures
            match command {
                Some(name) => self.tried() < candidates().len() && name@ == candidates()[self.tried() as int],
                None => self.tried() >= candidates().len(),
            },
    {
        if self.tried == 0 {
            Some("python")
        } else if self.tried == 1 {
            Some("python3")
        } else if self.tried == 2 {
            Some("py")
        } else {
            None
        }
    }

    /// The count of tried candidates after one more attempt failed.
    pub open spec fn one_more(tried: nat) -> nat {
        if tried < candidates().len() {
            tried + 1
        } else {
            tried
        }
    }

    /// Records an attempt. A run that succeeded ends the search with its
    /// output. Any other attempt counts as tried, and its report replaces
    /// the last error.
    pub fn record(&mut self, attempt: Attempt) -> (output: Option<String>)
        ensures
            match attempt {
                Attempt::Exited { success, code, stdout, stderr } => if success {
                    output == Some(stdout) && *final(self) == *old(self)
                } else {
                    output is None && final(self).tried() == Self::one_more(old(self).tried())
                        && is_exit_report(final(self).last_error(), code, stdout@, stderr@)
                },
                Attempt::NotStarted { error } => output is None && final(self).tried()
                    == Self::one_more(old(self).tried()) && final(self).last_error() == error@,
            },
    {
        match attempt {
            Attempt::Exited { success, code, stdout, stderr } => {
                if success {
                    Some(stdout)
                } else {
                    self.last_error = exit_report(code, stdout, stderr);
                    self.count_attempt();
                    None
                }
            },
            Attempt::NotStarted { error } => {
                self.last_error = error;
                self.count_attempt();
                None
            },
        }
    }

    fn count_attempt(&mut self)
        ensures
            final(self).tried() == Self::one_more(old(self).tried()),
            final(self).last_error() == old(self).last_error(),
    {
        if self.tried < 3 {
            self.tried = self.tried + 1;
        }
    }

    /// Ends a search that found no interpreter: the last error.
    pub fn into_error(self) -> (error: String)
        ensures
            error@ == self.last_error(),
    {
        self.last_error
    }
}

/// What the host reports of a script's run. The tabular processor's run is
/// reported as it is. Of any other script the output comes without the white
/// space at its ends, and a failure under the script's label.
pub fn script_report(script: Script, run: Result<String, String>) -> (report: Result<
    String,
    String,
>)
    ensures
        script == Script::TabularProcessor ==> report == run,
        script != Script::TabularProcessor ==> match run {
            Ok(output) => report is Ok && is_trim_of(output@, report->Ok_0@),
            Err(error) => report is Err && report->Err_0@ == failure_label(script) + error@,
        },
{
    let label: &'static str = match script {
        Script::TabularProcessor => {
            return run;
        },
        Script::CheckGpu => "GPU detection failed: ",
        Script::SystemInfo => "System info failed: ",
        Script::DatasetAnalyzer => "Dataset analysis failed: ",
    };
    match run {
        Ok(output) => Ok(trim_text(output.as_str()).to_owned()),
        Err(error) => {
            let mut report = String::from_str(label);
            report.append(error.as_str());
            Err(report)
        },
    }
}

/// The report of a failed dependency probe for the error `error`: a JSON
/// object that denies every dependency and quotes the error, with its double
/// quotes escaped and its line feeds turned into spaces.
pub open spec fn probe_failure_text(error: Seq<char>) -> Seq<char> {
    "{\"python\": false, \"version\": null, \"pandas\": false, \"sklearn\": false, \"torch\": false, \"timm\": false, \"optuna\": false, \"error\": \""@
        + replaced(replaced(error, "\""@, "\\\""@), "\n"@, " "@) + "\"}"@
}

/// What the host reports of the dependency probe: its trimmed output, or the
/// report of its failure. The probe's failure is no failure of the request.
pub fn dependency_report(run: Result<String, String>) -> (report: String)
    ensures
        match run {
            Ok(output) => is_trim_of(output@, report@),
            Err(error) => report@ == probe_failure_text(error@),
        },
{
    match run {
        Ok(output) => trim_text(output.as_str()).to_owned(),
        Err(error) => {
            let escaped = replace_text(error.as_str(), "\"", "\\\"");
            let flat = replace_text(escaped.as_str(), "\n", " ");
            let mut report = String::from_str(
                "{\"python\": false, \"version\": null, \"pandas\": false, \"sklearn\": false, \"torch\": false, \"timm\": false, \"optuna\": false, \"error\": \"",
            );
            report.append(flat.as_str());
            report.append("\"}");
            report
        },
    }
}

/// The one-line program that probes the interpreter for its dependencies.
pub fn dependency_probe() -> (program: &'static str)
    ensures
        program@
            == "import sys, json, importlib.util; p = lambda x: importlib.util.find_spec(x) is not None; print(json.dumps({'python': True, 'executable': sys.executable, 'version': sys.version.split()[0], 'pandas': p('pandas'), 'sklearn': p('sklearn'), 'torch': p('torch'), 'timm': p('timm'), 'optuna': p('optuna')}))"@,
{
    "import sys, json, importlib.util; p = lambda x: importlib.util.find_spec(x) is not None; print(json.dumps({'python': True, 'executable': sys.executable, 'version': sys.version.split()[0], 'pandas': p('pandas'), 'sklearn': p('sklearn'), 'torch': p('torch'), 'timm': p('timm'), 'optuna': p('optuna')}))"
}

/// Whether a file with this extension holds the record of a run.
pub fn is_run_record(extension: Option<&str>) -> (is_record: bool)
    ensures
        is_record == (extension is Some && extension->Some_0@ == "json"@),
{
    match extension {
        Some(e) => same_text(e, "json"),
        None => false,
    }
}

/// The records of `runs` with a comma between each two.
pub open spec fn comma_joined(runs: Seq<Seq<char>>) -> Seq<char>
    decreases runs.len(),
{
    if runs.len() == 0 {
        Seq::empty()
    } else if runs.len() == 1 {
        runs[0]
    } else {
        comma_joined(runs.drop_last()) + ","@ + runs.last()
    }
}

/// Puts the records of the runs found into one JSON array.
pub fn runs_document(runs: &Vec<String>) -> (document: String)
    ensures
        document@ == "["@ + comma_joined(texts(runs@)) + "]"@,
{
    let mut document = String::from_str("[");
    let mut i: usize = 0;
    while i < runs.len()
        invariant
            0 <= i <= runs@.len(),
            document@ == "["@ + comma_joined(texts(runs@).take(i as int)),
        decreases runs@.len() - i,
    {
        if i > 0 {
            document.append(",");
        }
        document.append(runs[i].as_str());
        proof {
            let all = texts(runs@);
            assert(all.take(i + 1).drop_last() =~= all.take(i as int));
            assert(all.take(i + 1).last() == runs@[i as int]@);
            if i == 0 {
                assert(comma_joined(all.take(0)) =~= Seq::<char>::empty());
                assert(document@ =~= "["@ + comma_joined(all.take(1)));
            } else {
                assert(document@ =~= "["@ + comma_joined(all.take(i + 1)));
            }
        }
        i = i + 1;
    }
    assert(texts(runs@).take(i as int) =~= texts(runs@));
    document.append("]");
    document
}

} // verus!
