//! A fully resolved run configuration, and the plans of the harness runs it asks for.
use crate::errors::SuityError;
use crate::junit::{aggregate, suites_view, TestSuite, TestSuiteV};
use crate::results::{decode_stream, parse_test_results};
use vstd::prelude::*;
use vstd::string::StringSliceAdditionalSpecFns;

verus! {

/// Outcome of one workflow.
pub enum RunspecResult {
    /// Every test passed.
    Success,
    /// This many tests failed.
    Errors(u64),
}

/// The failures of all the reports together.
pub open spec fn failures_total(ss: Seq<TestSuiteV>) -> nat
    decreases ss.len(),
{
    if ss.len() == 0 {
        0
    } else {
        failures_total(ss.drop_last()) + ss.last().failures as nat
    }
}

impl RunspecResult {
    /// The outcome of a workflow that produced the reports `suites`: a success where
    /// no test failed, else the number of failures, held at `u64::MAX` where the sum
    /// does not fit.
    pub fn of_reports(suites: &Vec<TestSuite>) -> (r: RunspecResult)
        ensures
            failures_total(suites_view(suites@)) == 0 ==> r is Success,
            failures_total(suites_view(suites@)) > 0 ==> r == RunspecResult::Errors(
                if failures_total(suites_view(suites@)) > u64::MAX {
                    u64::MAX
                } else {
                    failures_total(suites_view(suites@)) as u64
                },
            ),
    {
        let ghost ss = suites_view(suites@);
        let mut total: u64 = 0;
        let mut i: usize = 0;
        assert(ss.take(0) =~= Seq::<TestSuiteV>::empty());
        while i < suites.len()
            invariant
                ss == suites_view(suites@),
                i <= suites@.len(),
                total == if failures_total(ss.take(i as int)) > u64::MAX {
                    u64::MAX as nat
                } else {
                    failures_total(ss.take(i as int))
                },
            decreases suites@.len() - i,
        {
            assert(ss.take(i + 1).drop_last() =~= ss.take(i as int));
            total = total.saturating_add(suites[i].failures);
            i = i + 1;
        }
        assert(ss.take(i as int) =~= ss);
        if total == 0 {
            RunspecResult::Success
        } else {
            RunspecResult::Errors(total)
        }
    }

    /// The process exit code for this outcome: 0, or the number of failures cut to `i32`.
    pub fn as_exit_code(&self) -> (r: i32)
        ensures
            r == match self {
                RunspecResult::Success => 0,
                RunspecResult::Errors(n) => #[verifier::truncate] (*n as i32),
            },
    {
        match self {
            RunspecResult::Success => 0,
            RunspecResult::Errors(n) => #[verifier::truncate] (*n as i32),
        }
    }
}

/// Desired output format; only JUnit exists, and it is the default.
#[derive(Debug, Clone, Copy, PartialEq, Eq, Structural)]
pub enum OutputFormat {
    JUnit,
}

impl Default for OutputFormat {
    fn default() -> (r: OutputFormat)
        ensures
            r == OutputFormat::JUnit,
    {
        OutputFormat::JUnit
    }
}

/// A fully actionable run configuration.
#[derive(Debug)]
pub struct Runspec {
    /// How to name this spec.
    pub name: String,
    /// Features to pass to cargo.
    pub features: Vec<String>,
    /// Report format.
    pub format: OutputFormat,
    /// Output directory.
    pub output: String,
    /// Run doc tests or not.
    pub doc: bool,
    /// Run unit tests or not.
    pub lib: bool,
    /// Integration tests to run; `*` stands for all of them.
    pub integration: Vec<String>,
}

pub ghost struct RunspecV {
    pub name: Seq<char>,
    pub features: Seq<Seq<char>>,
    pub format: OutputFormat,
    pub output: Seq<char>,
    pub doc: bool,
    pub lib: bool,
    pub integration: Seq<Seq<char>>,
}

pub open spec fn texts(v: Seq<String>) -> Seq<Seq<char>> {
    v.map_values(|s: String| s@)
}

impl View for Runspec {
    type V = RunspecV;

    open spec fn view(&self) -> RunspecV {
        RunspecV {
            name: self.name@,
            features: texts(self.features@),
            format: self.format,
            output: self.output@,
            doc: self.doc,
            lib: self.lib,
            integration: texts(self.integration@),
        }
    }
}

/// A copy of the strings of `v`.
pub fn clone_texts(v: &Vec<String>) -> (r: Vec<String>)
    ensures
        texts(r@) == texts(v@),
{
    let mut r: Vec<String> = Vec::new();
    let mut i: usize = 0;
    while i < v.len()
        invariant
            i <= v@.len(),
            r@.len() == i,
            texts(r@) == texts(v@).take(i as int),
        decreases v@.len() - i,
    {
        let c = v[i].clone();
        assert(c@ == v@[i as int]@);
        let ghost before = r@;
        r.push(c);
        assert forall|j: int| 0 <= j < i + 1 implies texts(r@)[j] == texts(v@)[j] by {
            if j < i {
                assert(texts(before)[j] == texts(v@).take(i as int)[j]);
                assert(r@[j] == before[j]);
            }
        }
        assert(texts(r@) =~= texts(v@).take(i + 1));
        i = i + 1;
    }
    assert(texts(v@).take(i as int) =~= texts(v@));
    r
}

pub open spec fn default_runspec() -> RunspecV {
    RunspecV {
        name: "default"@,
        features: Seq::empty(),
        format: OutputFormat::JUnit,
        output: "test-results/"@,
        doc: true,
        lib: true,
        integration: seq!["*"@],
    }
}

impl Default for Runspec {
    fn default() -> (r: Runspec)
        ensures
            r@ == default_runspec(),
    {
        let r = Runspec {
            name: "default".to_owned(),
            features: Vec::new(),
            format: OutputFormat::default(),
            output: "test-results/".to_owned(),
            doc: true,
            lib: true,
            integration: vec!["*".to_owned()],
        };
        assert(r@.features =~= Seq::<Seq<char>>::empty());
        assert(r@.integration =~= seq!["*"@]);
        r
    }
}

/// The parts in order, with `sep` between each two.
pub open spec fn joined(parts: Seq<Seq<char>>, sep: Seq<char>) -> Seq<char>
    decreases parts.len(),
{
    if parts.len() == 0 {
        Seq::empty()
    } else if parts.len() == 1 {
        parts[0]
    } else {
        joined(parts.drop_last(), sep) + sep + parts.last()
    }
}

/// Relies on itertools::join: each part written by `Display` (a `String` as it is), in
/// order, with `sep` between each two.
#[verifier::external_body]
fn join_with(parts: &Vec<String>, sep: &str) -> (r: String)
    ensures
        r@ == joined(texts(parts@), sep@),
{
    itertools::join(parts.iter(), sep)
}

/// The path `part` appended to `base` as one more component.
pub uninterp spec fn path_joined(base: Seq<char>, part: Seq<char>) -> Seq<char>;

/// The path `path` with its extension set to `xml`.
pub uninterp spec fn path_with_xml_extension(path: Seq<char>) -> Seq<char>;

/// The last component of the path `path`, if it has one.
pub uninterp spec fn path_file_name(path: Seq<char>) -> Option<Seq<char>>;

/// Relies on PathBuf::push: `part` appended to `base` as a path component.
#[verifier::external_body]
fn join_path(base: &str, part: &str) -> (r: String)
    ensures
        r@ == path_joined(base@, part@),
{
    let mut p = std::path::PathBuf::from(base);
    p.push(part);
    p.to_string_lossy().into_owned()
}

/// Relies on PathBuf::set_extension with the fixed extension `xml`, which holds no path
/// separator: the path with its extension replaced.
#[verifier::external_body]
fn set_xml_extension(path: &str) -> (r: String)
    ensures
        r@ == path_with_xml_extension(path@),
{
    let mut p = std::path::PathBuf::from(path);
    p.set_extension("xml");
    p.to_string_lossy().into_owned()
}

/// Relies on Path::file_name: the final component of the path, if there is one.
#[verifier::external_body]
fn file_name(path: &str) -> (r: Option<String>)
    ensures
        match r {
            Some(n) => path_file_name(path@) == Some(n@),
            None => path_file_name(path@) is None,
        },
{
    std::path::Path::new(path).file_name().map(|n| n.to_string_lossy().into_owned())
}

/// Whether the text `s` begins with `prefix`.
fn starts_with(s: &str, prefix: &str) -> (r: bool)
    ensures
        r == prefix@.is_prefix_of(s@),
{
    let n = prefix.unicode_len();
    if n > s.unicode_len() {
        return false;
    }
    let mut i: usize = 0;
    while i < n
        invariant
            n == prefix@.len(),
            n <= s@.len(),
            i <= n,
            forall|j: int| 0 <= j < i ==> prefix@[j] == s@[j],
        decreases n - i,
    {
        if prefix.get_char(i) != s.get_char(i) {
            return false;
        }
        i = i + 1;
    }
    true
}

/// Whether the file name of `path` begins with `prefix`; false for a path without one.
pub fn filename_starts_with(path: &str, prefix: &str) -> (r: bool)
    ensures
        r == match path_file_name(path@) {
            Some(n) => prefix@.is_prefix_of(n),
            None => false,
        },
{
    match file_name(path) {
        Some(n) => starts_with(n.as_str(), prefix),
        None => false,
    }
}

/// Appends the arguments that make the harness report events as JSON.
pub fn add_common_args(args: &mut Vec<String>)
    ensures
        texts(final(args)@) == texts(old(args)@) + seq!["-Z"@, "unstable-options"@, "--format=json"@],
{
    args.push("-Z".to_owned());
    args.push("unstable-options".to_owned());
    args.push("--format=json".to_owned());
    assert(texts(args@) =~= texts(old(args)@) + seq!["-Z"@, "unstable-options"@, "--format=json"@]);
}

/// `[name] label`: the name of a suite that a run of this workflow reports.
pub open spec fn suite_label(name: Seq<char>, label: Seq<char>) -> Seq<char> {
    "["@ + name + "] "@ + label
}

pub open spec fn shared_args(r: RunspecV) -> Seq<Seq<char>> {
    if r.features.len() == 0 {
        seq!["test"@]
    } else {
        seq!["test"@, "--features"@, joined(r.features, " "@)]
    }
}

/// The labels of the integration tests to run: those named, or `discovered` where the
/// workflow names `*` alone; `*` itself is never a test.
pub open spec fn integration_targets_of(r: RunspecV, discovered: Seq<Seq<char>>) -> Seq<Seq<char>> {
    let names = if r.integration == seq!["*"@] {
        discovered
    } else {
        r.integration
    };
    names.filter(|n: Seq<char>| n != "*"@)
}

impl Runspec {
    /// The arguments that every cargo call of this workflow begins with.
    pub fn get_shared_args(&self) -> (r: Vec<String>)
        ensures
            texts(r@) == shared_args(self@),
    {
        let mut args: Vec<String> = vec!["test".to_owned()];
        if self.features.len() > 0 {
            args.push("--features".to_owned());
            args.push(join_with(&self.features, " "));
        }
        assert(texts(args@) =~= shared_args(self@));
        args
    }

    /// The arguments that compile the tests without running them.
    pub fn compile_args(&self) -> (r: Vec<String>)
        ensures
            texts(r@) == shared_args(self@).push("--no-run"@),
    {
        let mut args = self.get_shared_args();
        args.push("--no-run".to_owned());
        assert(texts(args@) =~= shared_args(self@).push("--no-run"@));
        args
    }

    /// The arguments of the cargo run that runs one kind of tests (`--lib`, `--doc`)
    /// and reports events.
    pub fn run_args(&self, target: &str) -> (r: Vec<String>)
        ensures
            texts(r@) == shared_args(self@) + seq![target@, "--"@, "-Z"@, "unstable-options"@, "--format=json"@],
    {
        let mut args = self.get_shared_args();
        args.push(target.to_owned());
        args.push("--".to_owned());
        add_common_args(&mut args);
        assert(texts(args@) =~= shared_args(self@) + seq![target@, "--"@, "-Z"@, "unstable-options"@, "--format=json"@]);
        args
    }

    /// `[name] label`, the name of a suite that this workflow reports.
    pub fn suite_name(&self, label: &str) -> (r: String)
        ensures
            r@ == suite_label(self.name@, label@),
    {
        let mut out: Vec<char> = Vec::new();
        crate::junit::push_text(&mut out, "[");
        crate::junit::push_text(&mut out, self.name.as_str());
        crate::junit::push_text(&mut out, "] ");
        crate::junit::push_text(&mut out, label);
        assert(out@ =~= suite_label(self.name@, label@));
        crate::junit::string_from_chars(&out)
    }

    /// The integration tests to run, given the test files that were found.
    pub fn integration_targets(&self, discovered: &Vec<String>) -> (r: Vec<String>)
        ensures
            texts(r@) == integration_targets_of(self@, texts(discovered@)),
    {
        let star = "*".to_owned();
        let all = self.integration.len() == 1 && self.integration[0] == star;
        proof {
            if self@.integration == seq!["*"@] {
                assert(self@.integration[0] == "*"@);
            }
            if all {
                assert(self@.integration =~= seq!["*"@]);
            }
        }
        let names = if all {
            discovered
        } else {
            &self.integration
        };
        let ghost ns = texts(names@);
        let mut r: Vec<String> = Vec::new();
        let mut i: usize = 0;
        proof {
            reveal(Seq::filter);
            assert(ns.take(0) =~= Seq::<Seq<char>>::empty());
        }
        while i < names.len()
            invariant
                i <= names@.len(),
                ns == texts(names@),
                star@ == "*"@,
                texts(r@) == ns.take(i as int).filter(|n: Seq<char>| n != "*"@),
            decreases names@.len() - i,
        {
            proof {
                reveal(Seq::filter);
                assert(ns.take(i + 1).drop_last() =~= ns.take(i as int));
            }
            if names[i] != star {
                r.push(names[i].clone());
                assert(texts(r@) =~= ns.take(i + 1).filter(|n: Seq<char>| n != "*"@));
            }
            i = i + 1;
        }
        assert(ns.take(i as int) =~= ns);
        r
    }

    /// Where this workflow's report goes: `<output>/<name>.xml`.
    pub fn get_output_file_path(&self) -> (r: String)
        ensures
            r@ == path_with_xml_extension(path_joined(self.output@, self.name@)),
    {
        let joined = join_path(self.output.as_str(), self.name.as_str());
        set_xml_extension(joined.as_str())
    }
}

/// The report of one harness run from its captured output; `None` where the run
/// reports no tests.
pub fn parse_test_output(test_suite_name: String, stdout: &str) -> (r: Result<
    Option<TestSuite>,
    SuityError,
>)
    requires
        stdout.spec_bytes().len() < usize::MAX,
    ensures
        match decode_stream(stdout.spec_bytes()) {
            Err(n) => r matches Err(SuityError::MalformedEvent { line }) && line == n,
            Ok(evs) => match aggregate(evs, test_suite_name@) {
                None => r == Err::<Option<TestSuite>, SuityError>(SuityError::MultipleTestRuns),
                Some(s) => if s.tests > 0 {
                    r matches Ok(Some(x)) && x@ == s
                } else {
                    r matches Ok(None)
                },
            },
        },
{
    let events = match parse_test_results(stdout) {
        Ok(es) => es,
        Err(e) => return Err(e),
    };
    let suite = match TestSuite::new(events, test_suite_name) {
        Ok(s) => s,
        Err(e) => return Err(e),
    };
    if suite.tests > 0 {
        Ok(Some(suite))
    } else {
        Ok(None)
    }
}

} // verus!
