//! The code sandbox: what is refused before anything is compiled, where a
//! submission is stored, how the build tool's report is read and what is
//! answered at each step.

use vstd::prelude::*;
use vstd::string::*;
use crate::clock::local_stamp;
use crate::text::{
    all_word_chars, concat2, concat3, contains, contains_chars, ends_with, ends_with_chars,
    from_chars, is_word, lines, replace_non_alnum, replace_non_alphanumeric, slice_chars,
    split_lines, starts_with, starts_with_chars, str_contains, to_chars, trim, trim_chars, views,
};

verus! {

/// The texts that no submission may hold, in the order in which they are
/// looked for.
pub open spec fn forbidden_words() -> Seq<Seq<char>> {
    seq![
        "std::fs"@,
        "std::io"@,
        "std::path"@,
        "std::env"@,
        "std::net"@,
        "std::socket"@,
        "std::process"@,
        "std::thread"@,
        "std::sync"@,
        "Command::new"@,
        "std::ffi"@,
        "std::os"@,
        "libc"@,
        "winapi"@,
        "std::ptr"@,
        "std::mem"@,
        "std::intrinsics"@,
        "std::time::Instant"@,
        "std::time::SystemTime"@,
        "std::alloc"@,
        "include_str!"@,
        "include_bytes!"@,
        "include!"@,
        "unsafe"@,
    ]
}

/// The first of `words` that stands somewhere in `code`.
pub open spec fn first_forbidden(code: Seq<char>, words: Seq<Seq<char>>) -> Option<Seq<char>>
    decreases words.len(),
{
    if words.len() == 0 {
        None
    } else if contains(code, words[0]) {
        Some(words[0])
    } else {
        first_forbidden(code, words.drop_first())
    }
}

/// What a submission that holds the forbidden text `word` is told.
pub open spec fn rejection(word: Seq<char>) -> Seq<char> {
    "Segurança: O uso de '"@ + word + "' não é permitido."@
}

/// The views of a list of string slices.
pub open spec fn str_views(v: Seq<&'static str>) -> Seq<Seq<char>> {
    v.map_values(|s: &'static str| s@)
}

fn forbidden_list() -> (v: Vec<&'static str>)
    ensures
        str_views(v@) == forbidden_words(),
{
    let v = vec![
        "std::fs",
        "std::io",
        "std::path",
        "std::env",
        "std::net",
        "std::socket",
        "std::process",
        "std::thread",
        "std::sync",
        "Command::new",
        "std::ffi",
        "std::os",
        "libc",
        "winapi",
        "std::ptr",
        "std::mem",
        "std::intrinsics",
        "std::time::Instant",
        "std::time::SystemTime",
        "std::alloc",
        "include_str!",
        "include_bytes!",
        "include!",
        "unsafe",
    ];
    assert(str_views(v@) =~= forbidden_words());
    v
}

/// Refuses a submission that holds a forbidden text. The texts are looked
/// for in the order of [`forbidden_words`], and the message names the first
/// one found.
pub fn verify_code(code: &str) -> (r: Result<(), String>)
    ensures
        match first_forbidden(code@, forbidden_words()) {
            Some(w) => r matches Err(m) && m@ == rejection(w),
            None => r is Ok,
        },
{
    let hay = to_chars(code);
    let words = forbidden_list();
    let mut i: usize = 0;
    assert(forbidden_words().skip(0) =~= forbidden_words());
    while i < words.len()
        invariant
            i <= words.len(),
            hay@ == code@,
            str_views(words@) == forbidden_words(),
            first_forbidden(code@, forbidden_words()) == first_forbidden(
                code@,
                forbidden_words().skip(i as int),
            ),
        decreases words.len() - i,
    {
        let word: &str = words[i];
        let needle = to_chars(word);
        let ghost rest = forbidden_words().skip(i as int);
        assert(rest[0] == word@);
        if contains_chars(&hay, &needle) {
            let mut m = String::from_str("Segurança: O uso de '");
            m.append(word);
            m.append("' não é permitido.");
            return Err(m);
        }
        assert(rest.drop_first() =~= forbidden_words().skip(i + 1));
        i += 1;
    }
    Ok(())
}

/// A submission: the source text to compile.
#[derive(Debug, Clone, PartialEq, Eq)]
pub struct CodeRequest {
    pub code: String,
}

/// What the sandbox answers: the two output streams.
#[derive(Debug, Clone, PartialEq, Eq)]
pub struct CodeResponse {
    pub stdout: String,
    pub stderr: String,
}

impl View for CodeResponse {
    type V = (Seq<char>, Seq<char>);

    open spec fn view(&self) -> (Seq<char>, Seq<char>) {
        (self.stdout@, self.stderr@)
    }
}

/// An answer with nothing on the first stream and `message` on the second.
fn failure(message: String) -> (r: CodeResponse)
    ensures
        r@ == (Seq::<char>::empty(), message@),
{
    CodeResponse { stdout: String::new(), stderr: message }
}

/// The module that one line names, if it names one: the line, without the
/// white space around it, is `//#[mod=`, then the name, then `]`, and the
/// name holds only alphabetic or numeric characters and underscores.
pub open spec fn line_module_name(line: Seq<char>) -> Option<Seq<char>> {
    let t = trim(line);
    let name = t.subrange("//#[mod="@.len() as int, t.len() - "]"@.len());
    if t.len() >= "//#[mod="@.len() + "]"@.len() && starts_with(t, "//#[mod="@) && ends_with(
        t,
        "]"@,
    ) && is_word(name) {
        Some(name)
    } else {
        None
    }
}

/// The module named by the first of `ls` that names one.
pub open spec fn first_module_name(ls: Seq<Seq<char>>) -> Option<Seq<char>>
    decreases ls.len(),
{
    if ls.len() == 0 {
        None
    } else if line_module_name(ls[0]) is Some {
        line_module_name(ls[0])
    } else {
        first_module_name(ls.drop_first())
    }
}

/// The module that a submission asks to be stored as.
pub open spec fn module_name(code: Seq<char>) -> Option<Seq<char>> {
    first_module_name(lines(code))
}

/// The name of the file a submission is stored in, and whether that file is
/// the program's entry point.
pub open spec fn routed_file(code: Seq<char>) -> (Seq<char>, bool) {
    match module_name(code) {
        Some(n) => (n + ".rs"@, false),
        None => ("main.rs"@, true),
    }
}

/// The module that a submission asks to be stored as: the one named by its
/// first line of the form `//#[mod=NAME]`.
pub fn extract_module_name(code: &str) -> (r: Option<String>)
    ensures
        match module_name(code@) {
            Some(n) => r matches Some(s) && s@ == n,
            None => r is None,
        },
{
    let text = to_chars(code);
    let ls = split_lines(&text);
    let marker = to_chars("//#[mod=");
    let close = to_chars("]");
    let mut i: usize = 0;
    assert(lines(code@).skip(0) =~= lines(code@));
    while i < ls.len()
        invariant
            i <= ls.len(),
            views(ls@) == lines(code@),
            marker@ == "//#[mod="@,
            close@ == "]"@,
            module_name(code@) == first_module_name(lines(code@).skip(i as int)),
        decreases ls.len() - i,
    {
        let ghost rest = lines(code@).skip(i as int);
        assert(rest[0] == ls@[i as int]@);
        let trimmed = trim_chars(&ls[i]);
        if trimmed.len() >= marker.len() && trimmed.len() - marker.len() >= close.len()
            && starts_with_chars(&trimmed, &marker) && ends_with_chars(&trimmed, &close) {
            let name = slice_chars(&trimmed, marker.len(), trimmed.len() - close.len());
            if all_word_chars(&name) {
                return Some(from_chars(&name));
            }
        }
        assert(rest.drop_first() =~= lines(code@).skip(i + 1));
        i += 1;
    }
    None
}

/// The name of the file a submission is stored in, and whether that file is
/// the program's entry point: `NAME.rs` for a submission that names a module,
/// `main.rs` for any other.
pub fn route_module(code: &str) -> (r: (String, bool))
    ensures
        (r.0@, r.1) == routed_file(code@),
{
    match extract_module_name(code) {
        Some(name) => (concat2(name.as_str(), ".rs"), false),
        None => (String::from_str("main.rs"), true),
    }
}

/// The key under which a caller's files are kept: the caller's address with
/// every character that is neither alphabetic nor numeric replaced by an
/// underscore.
pub fn safe_ip(ip: &str) -> (r: String)
    ensures
        r@ == replace_non_alnum(ip@, '_'),
{
    let chars = to_chars(ip);
    let safe = replace_non_alphanumeric(&chars, '_');
    from_chars(&safe)
}

/// The caller's address: what the proxy forwarded, else the peer's own.
pub fn client_ip(forwarded_for: Option<&str>, peer: &str) -> (r: String)
    ensures
        r@ == (match forwarded_for {
            Some(f) => f@,
            None => peer@,
        }),
{
    match forwarded_for {
        Some(f) => String::from_str(f),
        None => String::from_str(peer),
    }
}

/// The caller's user agent, or `Unknown Agent` where none was sent.
pub fn user_agent(header: Option<&str>) -> (r: String)
    ensures
        r@ == (match header {
            Some(h) => h@,
            None => "Unknown Agent"@,
        }),
{
    match header {
        Some(h) => String::from_str(h),
        None => String::from_str("Unknown Agent"),
    }
}

/// Where the project of one caller lives.
#[derive(Debug, Clone, PartialEq, Eq)]
pub struct Workspace {
    /// The directory of the project.
    pub user_dir: String,
    /// The directory of its sources.
    pub src_dir: String,
    /// The manifest whose presence shows that the project exists.
    pub manifest: String,
    /// The name under which the project is created.
    pub package_name: String,
}

/// Where the project of the caller with the key `ip_safe` lives.
pub open spec fn workspace_of(ip_safe: Seq<char>, w: Workspace) -> bool {
    &&& w.user_dir@ == "files/"@ + ip_safe
    &&& w.src_dir@ == "files/"@ + ip_safe + "/src"@
    &&& w.manifest@ == "files/"@ + ip_safe + "/Cargo.toml"@
    &&& w.package_name@ == "app_"@ + ip_safe
}

/// Says where the project of a caller lives: under `files/`, in a
/// directory named by the caller's key. The project is created there, under
/// the name `app_` and the key, unless its manifest is there already.
pub fn setup_user_env(ip_safe: &str) -> (w: Workspace)
    ensures
        workspace_of(ip_safe@, w),
{
    Workspace {
        user_dir: concat2("files/", ip_safe),
        src_dir: concat3("files/", ip_safe, "/src"),
        manifest: concat3("files/", ip_safe, "/Cargo.toml"),
        package_name: concat2("app_", ip_safe),
    }
}

/// The arguments with which the build tool creates the project.
pub fn init_arguments(w: &Workspace) -> (r: Vec<String>)
    ensures
        r@.len() == 5,
        r@[0]@ == "init"@,
        r@[1]@ == "--bin"@,
        r@[2]@ == "--name"@,
        r@[3]@ == w.package_name@,
        r@[4]@ == w.user_dir@,
{
    let mut r: Vec<String> = Vec::new();
    r.push(String::from_str("init"));
    r.push(String::from_str("--bin"));
    r.push(String::from_str("--name"));
    r.push(w.package_name.clone());
    r.push(w.user_dir.clone());
    r
}

/// Where a submission is written.
pub fn source_path(safe_ip: &str, file_name: &str) -> (r: String)
    ensures
        r@ == "files/"@ + safe_ip@ + "/src/"@ + file_name@,
{
    let mut r = concat3("files/", safe_ip, "/src/");
    r.append(file_name);
    r
}

/// Where the program is looked for when the build report names no
/// executable.
pub fn fallback_executable(safe_ip: &str, windows: bool) -> (r: String)
    ensures
        r@ == "files/"@ + safe_ip@ + "/target/debug/app_"@ + safe_ip@ + (if windows {
            ".exe"@
        } else {
            ""@
        }),
{
    let mut r = concat3("files/", safe_ip, "/target/debug/app_");
    r.append(safe_ip);
    if windows {
        r.append(".exe");
    } else {
        r.append("");
    }
    r
}

/// The answer when the submission could not be written.
pub fn save_failed(file_name: &str, error: &str) -> (r: CodeResponse)
    ensures
        r@ == (
            Seq::<char>::empty(),
            "Erro ao salvar arquivo "@ + file_name@ + ": "@ + error@,
        ),
{
    let mut m = concat3("Erro ao salvar arquivo ", file_name, ": ");
    m.append(error);
    failure(m)
}

/// What running the build tool gave: its two streams and whether it
/// succeeded, or why it could not be run.
#[derive(Debug, Clone, PartialEq, Eq)]
pub enum ToolOutcome {
    Finished { success: bool, stdout: String, stderr: String },
    NotRun(String),
}

/// The answer for a submission that is a module, once it has been checked.
pub fn check_response(file_name: &str, outcome: ToolOutcome) -> (r: CodeResponse)
    ensures
        match outcome {
            ToolOutcome::Finished { success, stdout, stderr } => r@ == (
                "Módulo '"@ + file_name@ + "' salvo.\nStdOut Check: "@ + stdout@,
                stderr@,
            ),
            ToolOutcome::NotRun(e) => r@ == (
                Seq::<char>::empty(),
                "Erro ao verificar módulo: "@ + e@,
            ),
        },
{
    match outcome {
        ToolOutcome::Finished { success: _, stdout, stderr } => {
            let mut out = concat3("Módulo '", file_name, "' salvo.\nStdOut Check: ");
            out.append(stdout.as_str());
            CodeResponse { stdout: out, stderr }
        },
        ToolOutcome::NotRun(e) => failure(concat2("Erro ao verificar módulo: ", e.as_str())),
    }
}

/// What one line of the build report holds: the rendered text of its
/// message and the path of the executable it announces.
#[derive(Debug, Clone, PartialEq, Eq)]
pub struct BuildRecord {
    pub rendered: Option<String>,
    pub executable: Option<String>,
}

/// Declares `serde_json::Value`, a JSON value, as a type whose inside is
/// not looked at.
#[verifier::external_type_specification]
#[verifier::external_body]
pub struct ExJsonValue(serde_json::Value);

/// The value that `serde_json::from_str` reads from a text; none where the
/// text is no JSON text.
pub uninterp spec fn parsed_json(text: Seq<char>) -> Option<serde_json::Value>;

/// The member that `Value::get` finds in a value under a key; none where
/// the value is no object or has no such member.
pub uninterp spec fn json_member(value: serde_json::Value, key: Seq<char>) -> Option<
    serde_json::Value,
>;

/// The text that `Value::as_str` finds in a value; none where the value is
/// no string.
pub uninterp spec fn json_string(value: serde_json::Value) -> Option<Seq<char>>;

/// Calls `serde_json::from_str` for a `serde_json::Value`. What is read
/// depends on the text alone and is named [`parsed_json`]; a text that is
/// no JSON text gives nothing.
#[verifier::external_body]
fn json_from_str(text: &str) -> (r: Option<serde_json::Value>)
    ensures
        r == parsed_json(text@),
{
    serde_json::from_str::<serde_json::Value>(text).ok()
}

/// Calls `Value::get` with a key. What is found depends on the value and
/// the key alone and is named [`json_member`].
#[verifier::external_body]
fn json_get<'a>(value: &'a serde_json::Value, key: &str) -> (r: Option<&'a serde_json::Value>)
    ensures
        match r {
            Some(member) => json_member(*value, key@) == Some(*member),
            None => json_member(*value, key@) is None,
        },
{
    value.get(key)
}

/// Calls `Value::as_str`. What is found depends on the value alone and is
/// named [`json_string`].
#[verifier::external_body]
fn json_as_str<'a>(value: &'a serde_json::Value) -> (r: Option<&'a str>)
    ensures
        match r {
            Some(text) => json_string(*value) == Some(text@),
            None => json_string(*value) is None,
        },
{
    value.as_str()
}

/// The text of the member of `value` under `key`, where there is such a
/// member and it is a string.
pub open spec fn string_member(value: serde_json::Value, key: Seq<char>) -> Option<Seq<char>> {
    match json_member(value, key) {
        Some(member) => json_string(member),
        None => None,
    }
}

/// What one line of the build report holds: nothing if the line is no
/// JSON text; else the string `rendered` of its member `message` and its
/// string `executable`, each where there is one.
pub open spec fn build_record(line: Seq<char>) -> Option<(Option<Seq<char>>, Option<Seq<char>>)> {
    match parsed_json(line) {
        None => None,
        Some(value) => Some(
            (
                match json_member(value, "message"@) {
                    Some(message) => string_member(message, "rendered"@),
                    None => None,
                },
                string_member(value, "executable"@),
            ),
        ),
    }
}

/// The two fields of a record as plain sequences.
pub open spec fn record_view(r: Option<BuildRecord>) -> Option<
    (Option<Seq<char>>, Option<Seq<char>>),
> {
    match r {
        None => None,
        Some(rec) => Some(
            (
                match rec.rendered {
                    Some(t) => Some(t@),
                    None => None,
                },
                match rec.executable {
                    Some(t) => Some(t@),
                    None => None,
                },
            ),
        ),
    }
}

/// The text of the member of `value` under `key`, where there is such a
/// member and it is a string.
fn read_string_member(value: &serde_json::Value, key: &str) -> (r: Option<String>)
    ensures
        match r {
            Some(text) => string_member(*value, key@) == Some(text@),
            None => string_member(*value, key@) is None,
        },
{
    match json_get(value, key) {
        Some(member) => match json_as_str(member) {
            Some(text) => Some(String::from_str(text)),
            None => None,
        },
        None => None,
    }
}

/// Reads one line of the build report: the string `rendered` of its member
/// `message` and its string `executable`, if the line is JSON text.
pub fn read_build_record(line: &str) -> (r: Option<BuildRecord>)
    ensures
        record_view(r) == build_record(line@),
{
    match json_from_str(line) {
        None => None,
        Some(value) => {
            let rendered = match json_get(&value, "message") {
                Some(message) => read_string_member(message, "rendered"),
                None => None,
            };
            let executable = read_string_member(&value, "executable");
            Some(BuildRecord { rendered, executable })
        },
    }
}

/// What has been gathered from the report so far: the diagnostics, and the
/// executable last announced.
#[derive(Debug, Clone, PartialEq, Eq)]
pub struct BuildScan {
    pub diagnostics: String,
    pub executable: Option<String>,
}

impl View for BuildScan {
    type V = (Seq<char>, Option<Seq<char>>);

    open spec fn view(&self) -> (Seq<char>, Option<Seq<char>>) {
        (
            self.diagnostics@,
            match self.executable {
                Some(p) => Some(p@),
                None => None,
            },
        )
    }
}

/// What one more line adds, given what a JSON reader found in it. A line
/// that is no JSON text adds nothing. A rendered message is appended with a
/// line feed. An executable counts only where the line holds the text
/// `"executable"` as written.
pub open spec fn scan_step(
    acc: (Seq<char>, Option<Seq<char>>),
    line: Seq<char>,
    record: Option<(Option<Seq<char>>, Option<Seq<char>>)>,
) -> (Seq<char>, Option<Seq<char>>) {
    match record {
        None => acc,
        Some((rendered, executable)) => (
            match rendered {
                Some(t) => acc.0 + t + seq!['\n'],
                None => acc.0,
            },
            if contains(line, "\"executable\""@) && executable is Some {
                executable
            } else {
                acc.1
            },
        ),
    }
}

/// What the lines `ls` of a report add up to.
pub open spec fn scan_lines(ls: Seq<Seq<char>>) -> (Seq<char>, Option<Seq<char>>)
    decreases ls.len(),
{
    if ls.len() == 0 {
        (Seq::empty(), None)
    } else {
        scan_step(scan_lines(ls.drop_last()), ls.last(), build_record(ls.last()))
    }
}

/// Adds one line of the report to what has been gathered, given the record
/// read from it.
pub fn scan_record(acc: BuildScan, line: &str, record: Option<BuildRecord>) -> (r: BuildScan)
    ensures
        r@ == scan_step(acc@, line@, record_view(record)),
{
    match record {
        None => acc,
        Some(rec) => {
            let mut diagnostics = acc.diagnostics;
            let mut executable = acc.executable;
            match rec.rendered {
                Some(t) => {
                    diagnostics.append(t.as_str());
                    diagnostics.append("\n");
                    proof {
                        reveal_strlit("\n");
                        assert("\n"@ =~= seq!['\n']);
                    }
                },
                None => {},
            }
            if str_contains(line, "\"executable\"") {
                match rec.executable {
                    Some(p) => {
                        executable = Some(p);
                    },
                    None => {},
                }
            }
            BuildScan { diagnostics, executable }
        },
    }
}

/// Reads the build tool's report line by line: gathers the rendered
/// diagnostics, each followed by a line feed, and remembers the executable
/// announced last.
pub fn scan_build_output(report: &str) -> (r: BuildScan)
    ensures
        r@ == scan_lines(lines(report@)),
{
    let text = to_chars(report);
    let ls = split_lines(&text);
    let mut acc = BuildScan { diagnostics: String::new(), executable: None };
    let mut i: usize = 0;
    assert(lines(report@).take(0) =~= Seq::<Seq<char>>::empty());
    while i < ls.len()
        invariant
            i <= ls.len(),
            views(ls@) == lines(report@),
            acc@ == scan_lines(lines(report@).take(i as int)),
        decreases ls.len() - i,
    {
        let line = from_chars(&ls[i]);
        let record = read_build_record(line.as_str());
        proof {
            let upto = lines(report@).take(i + 1);
            assert(upto.drop_last() =~= lines(report@).take(i as int));
            assert(upto.last() == ls@[i as int]@);
        }
        acc = scan_record(acc, line.as_str(), record);
        i += 1;
    }
    assert(lines(report@).take(ls.len() as int) =~= lines(report@));
    acc
}

/// What follows a build.
#[derive(Debug, Clone, PartialEq, Eq)]
pub enum BuildStep {
    /// Run the program at `path`. With `diagnostics`, they are the second
    /// stream of the answer whatever the program writes there.
    Run { path: String, diagnostics: Option<String> },
    /// Nothing is run; this is the answer.
    Reply(CodeResponse),
}

/// What follows a build, as a plain value: the path to run and the
/// diagnostics to answer with, or the two streams of the answer.
pub enum BuildStepView {
    Run { path: Seq<char>, diagnostics: Option<Seq<char>> },
    Reply { stdout: Seq<char>, stderr: Seq<char> },
}

impl View for BuildStep {
    type V = BuildStepView;

    open spec fn view(&self) -> BuildStepView {
        match self {
            BuildStep::Run { path, diagnostics } => BuildStepView::Run {
                path: path@,
                diagnostics: match diagnostics {
                    Some(d) => Some(d@),
                    None => None,
                },
            },
            BuildStep::Reply(resp) => BuildStepView::Reply {
                stdout: resp.stdout@,
                stderr: resp.stderr@,
            },
        }
    }
}

/// What follows a build whose report added up to `scan`.
pub open spec fn build_step(
    success: bool,
    scan: (Seq<char>, Option<Seq<char>>),
    stderr: Seq<char>,
    fallback: Seq<char>,
) -> BuildStepView {
    if success {
        match scan.1 {
            Some(path) => BuildStepView::Run { path, diagnostics: Some(scan.0) },
            None => BuildStepView::Run { path: fallback, diagnostics: None },
        }
    } else {
        BuildStepView::Reply {
            stdout: Seq::empty(),
            stderr: "Erro de Compilação:\n"@ + (if scan.0.len() > 0 {
                scan.0
            } else {
                stderr
            }),
        }
    }
}

/// Decides what follows a build of the entry point. After a build that
/// succeeded the announced executable is run, or the one at the usual place
/// if none was announced. After one that failed the answer holds the
/// diagnostics, or the tool's second stream where there are none. A build
/// tool that could not be run is reported as such.
pub fn after_build(safe_ip: &str, windows: bool, outcome: ToolOutcome) -> (r: BuildStep)
    ensures
        match outcome {
            ToolOutcome::Finished { success, stdout, stderr } => r@ == build_step(
                success,
                scan_lines(lines(stdout@)),
                stderr@,
                "files/"@ + safe_ip@ + "/target/debug/app_"@ + safe_ip@ + (if windows {
                    ".exe"@
                } else {
                    ""@
                }),
            ),
            ToolOutcome::NotRun(e) => r@ == (BuildStepView::Reply {
                stdout: Seq::empty(),
                stderr: "Erro ao invocar cargo: "@ + e@,
            }),
        },
{
    match outcome {
        ToolOutcome::NotRun(e) => BuildStep::Reply(
            failure(concat2("Erro ao invocar cargo: ", e.as_str())),
        ),
        ToolOutcome::Finished { success, stdout, stderr } => {
            let scan = scan_build_output(stdout.as_str());
            if success {
                match scan.executable {
                    Some(path) => BuildStep::Run { path, diagnostics: Some(scan.diagnostics) },
                    None => BuildStep::Run {
                        path: fallback_executable(safe_ip, windows),
                        diagnostics: None,
                    },
                }
            } else {
                let detail = if scan.diagnostics.as_str().unicode_len() > 0 {
                    scan.diagnostics
                } else {
                    stderr
                };
                BuildStep::Reply(failure(concat2("Erro de Compilação:\n", detail.as_str())))
            }
        },
    }
}

/// How a run of the program ended.
#[derive(Debug, Clone, PartialEq, Eq)]
pub enum RunOutcome {
    /// No file stands at the path.
    Missing,
    /// The program could not be started.
    SpawnFailed(String),
    /// The program ended within the time allowed.
    Finished { stdout: String, stderr: String },
    /// Waiting for the program failed.
    WaitFailed(String),
    /// The program was still running when the time allowed was over.
    TimedOut,
}

/// The longest a program may run, in seconds.
pub const RUN_TIMEOUT_SECS: u64 = 5;

/// The two streams that a run is reported with.
pub open spec fn run_streams(outcome: RunOutcome) -> (Seq<char>, Seq<char>) {
    match outcome {
        RunOutcome::Missing => (Seq::empty(), "Erro interno: Binário não encontrado."@),
        RunOutcome::SpawnFailed(e) => (Seq::empty(), "Erro ao iniciar execução: "@ + e@),
        RunOutcome::Finished { stdout, stderr } => (stdout@, stderr@),
        RunOutcome::WaitFailed(e) => (Seq::empty(), "Erro de I/O na execução: "@ + e@),
        RunOutcome::TimedOut => (Seq::empty(), "Erro: Tempo limite de execução excedido."@),
    }
}

/// The two streams that a run is reported with: the program's own where it
/// ended in time, else nothing and a message that says what went wrong.
pub fn run_safe_bin(outcome: RunOutcome) -> (r: (String, String))
    ensures
        (r.0@, r.1@) == run_streams(outcome),
{
    match outcome {
        RunOutcome::Missing => (
            String::new(),
            String::from_str("Erro interno: Binário não encontrado."),
        ),
        RunOutcome::SpawnFailed(e) => (
            String::new(),
            concat2("Erro ao iniciar execução: ", e.as_str()),
        ),
        RunOutcome::Finished { stdout, stderr } => (stdout, stderr),
        RunOutcome::WaitFailed(e) => (String::new(), concat2("Erro de I/O na execução: ", e.as_str())),
        RunOutcome::TimedOut => (
            String::new(),
            String::from_str("Erro: Tempo limite de execução excedido."),
        ),
    }
}

/// The two streams of the answer once the program has been run. The first
/// is the run's. The second is the build's diagnostics where the build
/// announced the executable and the program ended in time; a run that went
/// wrong, or ran out of time, is always answered with the message that says
/// so.
pub open spec fn answer_streams(diagnostics: Option<Seq<char>>, outcome: RunOutcome) -> (
    Seq<char>,
    Seq<char>,
) {
    (
        run_streams(outcome).0,
        match diagnostics {
            Some(d) if outcome is Finished => d,
            _ => run_streams(outcome).1,
        },
    )
}

/// The answer once the program has been run, as [`answer_streams`] gives
/// it.
pub fn run_response(diagnostics: Option<String>, outcome: RunOutcome) -> (r: CodeResponse)
    ensures
        r@ == answer_streams(
            match diagnostics {
                Some(d) => Some(d@),
                None => None,
            },
            outcome,
        ),
{
    let ended = match &outcome {
        RunOutcome::Finished { .. } => true,
        _ => false,
    };
    let (stdout, stderr) = run_safe_bin(outcome);
    match diagnostics {
        Some(d) => {
            if ended {
                CodeResponse { stdout, stderr: d }
            } else {
                CodeResponse { stdout, stderr }
            }
        },
        None => CodeResponse { stdout, stderr },
    }
}

/// What is written down of one request, and where.
#[derive(Debug, Clone, PartialEq, Eq)]
pub struct LogEntry {
    /// The directory that holds all logs.
    pub root: String,
    /// The directory that holds the logs of this caller.
    pub dir: String,
    /// The file that the entry is appended to.
    pub path: String,
    /// The entry.
    pub content: String,
}

/// The entry for a request received at `timestamp`.
pub open spec fn log_entry_of(
    timestamp: Seq<char>,
    codigo: Seq<char>,
    safe_ip: Seq<char>,
    real_ip: Seq<char>,
    user_agent: Seq<char>,
    e: LogEntry,
) -> bool {
    &&& e.root@ == "logs"@
    &&& e.dir@ == "logs/"@ + safe_ip
    &&& e.path@ == "logs/"@ + safe_ip + "/"@ + timestamp + ".log"@
    &&& e.content@ == "--- REQUISIÇÃO EM "@ + timestamp + " ---\nIP: "@ + real_ip
        + "\nUSER-AGENT: "@ + user_agent
        + "\n---------------------------\nCÓDIGO RECEBIDO:\n\n"@ + codigo + "\n"@
}

/// The entry for a request received at `timestamp`: it goes to the file
/// named by the time, in the caller's directory under `logs`, and holds the
/// time, the caller's address and user agent and the source received.
pub fn log_entry_at(timestamp: &str, codigo: &str, safe_ip: &str, real_ip: &str, user_agent: &str) -> (e:
    LogEntry)
    ensures
        log_entry_of(timestamp@, codigo@, safe_ip@, real_ip@, user_agent@, e),
{
    let mut path = concat3("logs/", safe_ip, "/");
    path.append(timestamp);
    path.append(".log");
    let mut content = concat3("--- REQUISIÇÃO EM ", timestamp, " ---\nIP: ");
    content.append(real_ip);
    content.append("\nUSER-AGENT: ");
    content.append(user_agent);
    content.append("\n---------------------------\nCÓDIGO RECEBIDO:\n\n");
    content.append(codigo);
    content.append("\n");
    LogEntry { root: String::from_str("logs"), dir: concat2("logs/", safe_ip), path, content }
}

/// `e` is the entry for a request received at some time.
pub open spec fn is_log_entry(
    codigo: Seq<char>,
    safe_ip: Seq<char>,
    real_ip: Seq<char>,
    user_agent: Seq<char>,
    e: LogEntry,
) -> bool {
    exists|timestamp: Seq<char>| #[trigger]
        log_entry_of(timestamp, codigo, safe_ip, real_ip, user_agent, e)
}

/// The entry for a request received now, by the local time of the
/// machine.
pub fn register_log(codigo: &str, safe_ip: &str, real_ip: &str, user_agent: &str) -> (e: LogEntry)
    ensures
        is_log_entry(codigo@, safe_ip@, real_ip@, user_agent@, e),
{
    let timestamp = local_stamp();
    let e = log_entry_at(timestamp.as_str(), codigo, safe_ip, real_ip, user_agent);
    assert(log_entry_of(timestamp@, codigo@, safe_ip@, real_ip@, user_agent@, e));
    e
}

/// How long a caller's project may lie untouched, and how often the
/// projects are looked through, in milliseconds.
pub const WORKSPACE_MAX_AGE_MS: u64 = 20 * 60 * 1000;

/// Whether a project last touched `age_secs` seconds and `age_nanos`
/// nanoseconds ago is removed: its age is more than twenty minutes.
pub fn workspace_expired(age_secs: u64, age_nanos: u32) -> (b: bool)
    requires
        age_nanos < 1_000_000_000,
    ensures
        b == (age_secs * 1_000_000_000 + age_nanos > 1_200_000_000_000),
{
    age_secs > 1200 || (age_secs == 1200 && age_nanos > 0)
}

/// A request that has been received and is about to be written down.
#[derive(Debug)]
pub struct Received {
    code: String,
    safe_ip: String,
}

/// A request that was let through; its project is about to be set up.
#[derive(Debug)]
pub struct Prepared {
    code: String,
    safe_ip: String,
}

/// A request whose source is about to be written into its project.
#[derive(Debug)]
pub struct Writing {
    safe_ip: String,
    file_name: String,
    is_main: bool,
}

/// A request whose module is about to be checked.
#[derive(Debug)]
pub struct Checking {
    file_name: String,
}

/// A request whose program is about to be built.
#[derive(Debug)]
pub struct Building {
    safe_ip: String,
}

/// A request whose program is about to be run.
#[derive(Debug)]
pub struct Running {
    diagnostics: Option<String>,
}

/// One file to write: where, and what.
#[derive(Debug, Clone, PartialEq, Eq)]
pub struct SourceFile {
    pub path: String,
    pub content: String,
}

/// What is decided of a request before anything is compiled.
#[derive(Debug)]
pub enum Screened {
    /// It holds a forbidden text; this is the answer.
    Rejected(CodeResponse),
    /// It is let through: the project is set up at `workspace`.
    Accepted { workspace: Workspace, next: Prepared },
}

/// What follows the writing of the source.
#[allow(inconsistent_fields)]
#[derive(Debug)]
pub enum Stored {
    /// It could not be written; this is the answer.
    Failed(CodeResponse),
    /// The module is checked: the build tool is run in the directory `dir`
    /// with `arguments`.
    Check { dir: String, arguments: Vec<&'static str>, next: Checking },
    /// The program is built: the build tool is run in the directory `dir`
    /// with `arguments`.
    Build { dir: String, arguments: Vec<&'static str>, next: Building },
}

/// The arguments with which the build tool checks a module.
pub open spec fn check_args() -> Seq<Seq<char>> {
    seq!["check"@]
}

/// The arguments with which the build tool builds the program: it reports
/// in JSON and is otherwise quiet.
pub open spec fn build_args() -> Seq<Seq<char>> {
    seq!["build"@, "--message-format=json"@, "-q"@]
}

/// The arguments with which the build tool checks a module.
pub fn check_arguments() -> (r: Vec<&'static str>)
    ensures
        str_views(r@) == check_args(),
{
    let r = vec!["check"];
    assert(str_views(r@) =~= check_args());
    r
}

/// The arguments with which the build tool builds the program.
pub fn build_arguments() -> (r: Vec<&'static str>)
    ensures
        str_views(r@) == build_args(),
{
    let r = vec!["build", "--message-format=json", "-q"];
    assert(str_views(r@) =~= build_args());
    r
}

/// What follows the build.
#[derive(Debug)]
pub enum Built {
    /// The program at `path` is run.
    Run { path: String, next: Running },
    /// Nothing is run; this is the answer.
    Reply(CodeResponse),
}

impl Received {
    /// The source received.
    pub closed spec fn code(&self) -> Seq<char> {
        self.code@
    }

    /// The caller's key.
    pub closed spec fn key(&self) -> Seq<char> {
        self.safe_ip@
    }

    /// Once the request has been written down, or could not be: refuses a
    /// source that holds a forbidden text, and lets any other through to the
    /// caller's project.
    pub fn screen(self) -> (r: Screened)
        ensures
            match first_forbidden(self.code(), forbidden_words()) {
                Some(w) => r matches Screened::Rejected(resp) && resp@ == (
                    Seq::<char>::empty(),
                    rejection(w),
                ),
                None => r matches Screened::Accepted { workspace, next } && workspace_of(
                    self.key(),
                    workspace,
                ) && next.code() == self.code() && next.key() == self.key(),
            },
    {
        match verify_code(self.code.as_str()) {
            Err(message) => Screened::Rejected(failure(message)),
            Ok(()) => {
                let workspace = setup_user_env(self.safe_ip.as_str());
                Screened::Accepted {
                    workspace,
                    next: Prepared { code: self.code, safe_ip: self.safe_ip },
                }
            },
        }
    }
}

impl Prepared {
    /// The source received.
    pub closed spec fn code(&self) -> Seq<char> {
        self.code@
    }

    /// The caller's key.
    pub closed spec fn key(&self) -> Seq<char> {
        self.safe_ip@
    }

    /// Once the project is set up: says where the source is written, under
    /// the file that [`routed_file`] gives.
    pub fn store(self) -> (r: (SourceFile, Writing))
        ensures
            r.0.path@ == "files/"@ + self.key() + "/src/"@ + routed_file(self.code()).0,
            r.0.content@ == self.code(),
            r.1.key() == self.key(),
            (r.1.file_name(), r.1.is_main()) == routed_file(self.code()),
    {
        let (file_name, is_main) = route_module(self.code.as_str());
        let path = source_path(self.safe_ip.as_str(), file_name.as_str());
        (
            SourceFile { path, content: self.code },
            Writing { safe_ip: self.safe_ip, file_name, is_main },
        )
    }
}

impl Writing {
    /// The caller's key.
    pub closed spec fn key(&self) -> Seq<char> {
        self.safe_ip@
    }

    /// The name of the file that holds the source.
    pub closed spec fn file_name(&self) -> Seq<char> {
        self.file_name@
    }

    /// Whether that file is the program's entry point.
    pub closed spec fn is_main(&self) -> bool {
        self.is_main
    }

    /// Once the source has been written, or could not be: a failure is
    /// answered with its reason; a module is checked and the entry point is
    /// built, both in the caller's project.
    pub fn written(self, error: Option<String>) -> (r: Stored)
        ensures
            match error {
                Some(e) => r matches Stored::Failed(resp) && resp@ == (
                    Seq::<char>::empty(),
                    "Erro ao salvar arquivo "@ + self.file_name() + ": "@ + e@,
                ),
                None => if self.is_main() {
                    r matches Stored::Build { dir, arguments, next } && dir@ == "files/"@
                        + self.key() && str_views(arguments@) == build_args() && next.key()
                        == self.key()
                } else {
                    r matches Stored::Check { dir, arguments, next } && dir@ == "files/"@
                        + self.key() && str_views(arguments@) == check_args()
                        && next.file_name() == self.file_name()
                },
            },
    {
        match error {
            Some(e) => Stored::Failed(save_failed(self.file_name.as_str(), e.as_str())),
            None => {
                let dir = concat2("files/", self.safe_ip.as_str());
                if self.is_main {
                    Stored::Build {
                        dir,
                        arguments: build_arguments(),
                        next: Building { safe_ip: self.safe_ip },
                    }
                } else {
                    Stored::Check {
                        dir,
                        arguments: check_arguments(),
                        next: Checking { file_name: self.file_name },
                    }
                }
            },
        }
    }
}

impl Checking {
    /// The name of the file that holds the module.
    pub closed spec fn file_name(&self) -> Seq<char> {
        self.file_name@
    }

    /// Once the module has been checked: the answer, as
    /// [`check_response`] gives it.
    pub fn checked(self, outcome: ToolOutcome) -> (r: CodeResponse)
        ensures
            match outcome {
                ToolOutcome::Finished { success, stdout, stderr } => r@ == (
                    "Módulo '"@ + self.file_name() + "' salvo.\nStdOut Check: "@ + stdout@,
                    stderr@,
                ),
                ToolOutcome::NotRun(e) => r@ == (
                    Seq::<char>::empty(),
                    "Erro ao verificar módulo: "@ + e@,
                ),
            },
    {
        check_response(self.file_name.as_str(), outcome)
    }
}

impl Building {
    /// The caller's key.
    pub closed spec fn key(&self) -> Seq<char> {
        self.safe_ip@
    }

    /// Once the program has been built: what [`after_build`] decides, with
    /// the diagnostics kept for the answer where the program is run.
    pub fn built(self, windows: bool, outcome: ToolOutcome) -> (r: Built)
        ensures
            match outcome {
                ToolOutcome::Finished { success, stdout, stderr } => match build_step(
                    success,
                    scan_lines(lines(stdout@)),
                    stderr@,
                    "files/"@ + self.key() + "/target/debug/app_"@ + self.key() + (if windows {
                        ".exe"@
                    } else {
                        ""@
                    }),
                ) {
                    BuildStepView::Run { path, diagnostics } => r matches Built::Run {
                        path: p,
                        next,
                    } && p@ == path && next.diagnostics() == diagnostics,
                    BuildStepView::Reply { stdout: out, stderr: err } => r matches Built::Reply(
                        resp,
                    ) && resp@ == (out, err),
                },
                ToolOutcome::NotRun(e) => r matches Built::Reply(resp) && resp@ == (
                    Seq::<char>::empty(),
                    "Erro ao invocar cargo: "@ + e@,
                ),
            },
    {
        match after_build(self.safe_ip.as_str(), windows, outcome) {
            BuildStep::Run { path, diagnostics } => Built::Run {
                path,
                next: Running { diagnostics },
            },
            BuildStep::Reply(resp) => Built::Reply(resp),
        }
    }
}

impl Running {
    /// The diagnostics of the build, where they are kept for the answer.
    pub closed spec fn diagnostics(&self) -> Option<Seq<char>> {
        match self.diagnostics {
            Some(d) => Some(d@),
            None => None,
        }
    }

    /// Once the program has been run: the answer, as [`run_response`]
    /// gives it.
    pub fn finished(self, outcome: RunOutcome) -> (r: CodeResponse)
        ensures
            r@ == answer_streams(self.diagnostics(), outcome),
    {
        run_response(self.diagnostics, outcome)
    }
}

/// Takes in a request to compile and run a source. The caller is known by
/// the address that the proxy forwarded, else by the peer's own; the
/// caller's key is that address made safe for a file name. The result is the
/// request, ready to be screened, and what is written down of it first.
pub fn verify_request(
    forwarded_for: Option<&str>,
    peer: &str,
    agent: Option<&str>,
    payload: CodeRequest,
) -> (r: (Received, LogEntry))
    ensures
        r.0.code() == payload.code@,
        r.0.key() == replace_non_alnum(
            match forwarded_for {
                Some(f) => f@,
                None => peer@,
            },
            '_',
        ),
        is_log_entry(
            payload.code@,
            r.0.key(),
            match forwarded_for {
                Some(f) => f@,
                None => peer@,
            },
            match agent {
                Some(h) => h@,
                None => "Unknown Agent"@,
            },
            r.1,
        ),
{
    let ip = client_ip(forwarded_for, peer);
    let agent = user_agent(agent);
    let key = safe_ip(ip.as_str());
    let entry = register_log(payload.code.as_str(), key.as_str(), ip.as_str(), agent.as_str());
    (Received { code: payload.code, safe_ip: key }, entry)
}

/// A source is refused exactly if it holds one of the forbidden texts, and
/// the message it is refused with holds the text that was found.
pub proof fn lemma_refusal_names_what_was_found(code: Seq<char>, words: Seq<Seq<char>>)
    ensures
        match first_forbidden(code, words) {
            Some(w) => words.contains(w) && contains(code, w) && contains(rejection(w), w),
            None => forall|i: int| 0 <= i < words.len() ==> !contains(code, #[trigger] words[i]),
        },
    decreases words.len(),
{
    if words.len() == 0 {
    } else if contains(code, words[0]) {
        let w = words[0];
        let head = "Segurança: O uso de '"@;
        let message = rejection(w);
        assert(message.subrange(head.len() as int, (head.len() + w.len()) as int) =~= w);
        assert(crate::text::occurs_at(message, w, head.len() as int));
    } else {
        let rest = words.drop_first();
        lemma_refusal_names_what_was_found(code, rest);
        match first_forbidden(code, rest) {
            Some(w) => {
                let i = choose|i: int| 0 <= i < rest.len() && rest[i] == w;
                assert(words[i + 1] == w);
            },
            None => {
                assert forall|i: int| 0 <= i < words.len() implies !contains(
                    code,
                    #[trigger] words[i],
                ) by {
                    if i > 0 {
                        assert(words[i] == rest[i - 1]);
                    }
                }
            },
        }
    }
}

/// The key of a caller is as long as the caller's address, and holds only
/// alphabetic and numeric characters and underscores.
pub proof fn lemma_key_is_safe(ip: Seq<char>)
    ensures
        replace_non_alnum(ip, '_').len() == ip.len(),
        is_word(replace_non_alnum(ip, '_')),
{
}

/// The name of a module holds only alphabetic and numeric characters and
/// underscores, so that the file it is stored in lies in the directory of
/// the sources and nowhere else.
pub proof fn lemma_module_name_is_a_word(code: Seq<char>)
    ensures
        module_name(code) matches Some(name) ==> is_word(name),
{
    lemma_first_module_name_is_a_word(lines(code));
}

proof fn lemma_first_module_name_is_a_word(ls: Seq<Seq<char>>)
    ensures
        first_module_name(ls) matches Some(name) ==> is_word(name),
    decreases ls.len(),
{
    if ls.len() > 0 && line_module_name(ls[0]) is None {
        lemma_first_module_name_is_a_word(ls.drop_first());
    }
}

} // verus!
