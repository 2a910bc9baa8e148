//! The JUnit report model, its construction from events, and its XML form.
use crate::errors::SuityError;
use crate::results::{event_well_formed, events_view, Event, EventKind, EventV};
use crate::xml::{
    indent, tag_end, xml_attr, xml_begin, xml_dtd, xml_end,
    xml_into_bytes, xml_new, xml_open_elems, xml_tag_open, xml_text, XmlOut,
};
use vstd::prelude::*;

verus! {

/// A test that the code has explicitly failed; holds the diagnostic text verbatim.
#[derive(Debug, PartialEq, Eq)]
pub struct Failure {
    /// Relevant data for the failure.
    pub message: String,
}

/// Result of one test case.
#[derive(Debug, PartialEq, Eq)]
pub struct TestCase {
    /// The full name of the test.
    pub name: String,
    /// Set where the test failed.
    pub failure: Option<Failure>,
}

/// The report of one run.
#[derive(Debug, PartialEq, Eq)]
pub struct TestSuite {
    /// Name of the test suite.
    pub name: String,
    /// How many tests erred out; the event protocol cannot tell, so it stays 0.
    pub errors: u64,
    /// How many tests failed.
    pub failures: u64,
    /// Total amount of tests.
    pub tests: u64,
    pub test_cases: Vec<TestCase>,
}

pub ghost struct TestCaseV {
    pub name: Seq<char>,
    /// The failure message, where the test failed.
    pub failure: Option<Seq<char>>,
}

pub ghost struct TestSuiteV {
    pub name: Seq<char>,
    pub errors: u64,
    pub failures: u64,
    pub tests: u64,
    pub test_cases: Seq<TestCaseV>,
}

impl View for TestCase {
    type V = TestCaseV;

    open spec fn view(&self) -> TestCaseV {
        TestCaseV {
            name: self.name@,
            failure: match self.failure {
                Some(f) => Some(f.message@),
                None => None,
            },
        }
    }
}

impl View for TestSuite {
    type V = TestSuiteV;

    open spec fn view(&self) -> TestSuiteV {
        TestSuiteV {
            name: self.name@,
            errors: self.errors,
            failures: self.failures,
            tests: self.tests,
            test_cases: self.test_cases@.map_values(|c: TestCase| c@),
        }
    }
}

pub open spec fn suites_view(ss: Seq<TestSuite>) -> Seq<TestSuiteV> {
    ss.map_values(|s: TestSuite| s@)
}

// Aggregation.

pub open spec fn is_run_start(e: EventV) -> bool {
    e matches EventV::Suite(s) && s.event == EventKind::Started
}

pub open spec fn is_run_end(e: EventV) -> bool {
    e matches EventV::Suite(s) && (s.event == EventKind::Passed || s.event == EventKind::Failed)
}

/// A test event that gives a final outcome.
pub open spec fn is_test_outcome(e: EventV) -> bool {
    e matches EventV::Test(t) && (t.event == EventKind::Passed || t.event == EventKind::Failed)
}

/// How many suite `started` events the stream holds.
pub open spec fn run_starts(evs: Seq<EventV>) -> nat {
    evs.filter(|e: EventV| is_run_start(e)).len()
}

/// `test_count` of the last suite `started` event, 0 where there is none.
pub open spec fn last_test_count(evs: Seq<EventV>) -> u64
    decreases evs.len(),
{
    if evs.len() == 0 {
        0
    } else if is_run_start(evs.last()) {
        match evs.last()->Suite_0.test_count {
            Some(n) => n,
            None => 0,
        }
    } else {
        last_test_count(evs.drop_last())
    }
}

/// `failed` of the last suite `ok` or `failed` event, 0 where there is none.
pub open spec fn last_failed(evs: Seq<EventV>) -> u64
    decreases evs.len(),
{
    if evs.len() == 0 {
        0
    } else if is_run_end(evs.last()) {
        match evs.last()->Suite_0.failed {
            Some(n) => n,
            None => 0,
        }
    } else {
        last_failed(evs.drop_last())
    }
}

/// The case that a test outcome event reports; a failed test without captured output
/// fails with an empty message.
pub open spec fn case_of(e: EventV) -> TestCaseV {
    let t = e->Test_0;
    TestCaseV {
        name: t.name,
        failure: if t.event == EventKind::Failed {
            match t.stdout {
                Some(m) => Some(m),
                None => Some(Seq::empty()),
            }
        } else {
            None
        },
    }
}

/// The test outcome events, in stream order.
pub open spec fn outcomes(evs: Seq<EventV>) -> Seq<EventV> {
    evs.filter(|e: EventV| is_test_outcome(e))
}

/// One case per test outcome event, in stream order.
pub open spec fn cases_of(evs: Seq<EventV>) -> Seq<TestCaseV> {
    outcomes(evs).map_values(|e: EventV| case_of(e))
}

/// The report of the single run that `evs` describes, or `None` where the stream
/// holds more than one run.
pub open spec fn aggregate(evs: Seq<EventV>, name: Seq<char>) -> Option<TestSuiteV> {
    if run_starts(evs) > 1 {
        None
    } else {
        Some(
            TestSuiteV {
                name,
                errors: 0,
                failures: last_failed(evs),
                tests: last_test_count(evs),
                test_cases: cases_of(evs),
            },
        )
    }
}

impl TestSuite {
    /// Builds the report of one run from its events. A stream with a second suite
    /// `started` event holds several runs and is refused. A counter that an event lacks
    /// counts as 0.
    pub fn new(events: Vec<Event>, name: String) -> (r: Result<TestSuite, SuityError>)
        ensures
            match r {
                Ok(s) => aggregate(events_view(events@), name@) == Some(s@),
                Err(e) => aggregate(events_view(events@), name@) is None && e
                    == SuityError::MultipleTestRuns,
            },
    {
        let ghost evs = events_view(events@);
        let ghost name_v = name@;
        let mut suite = TestSuite { name, errors: 0, failures: 0, tests: 0, test_cases: Vec::new() };
        let mut counter: u64 = 0;
        let mut i: usize = 0;
        proof {
            reveal(Seq::filter);
            assert(evs.take(0) =~= Seq::<EventV>::empty());
            assert(suite@.test_cases =~= cases_of(evs.take(0)));
        }
        while i < events.len()
            invariant
                evs == events_view(events@),
                i <= events@.len(),
                counter <= 1,
                counter == run_starts(evs.take(i as int)),
                suite@.name == name_v,
                suite.errors == 0,
                suite.tests == last_test_count(evs.take(i as int)),
                suite.failures == last_failed(evs.take(i as int)),
                suite@.test_cases == cases_of(evs.take(i as int)),
            decreases events@.len() - i,
        {
            let ghost before = evs.take(i as int);
            let ghost after = evs.take(i + 1);
            let ghost old_cases = suite.test_cases@;
            proof {
                reveal(Seq::filter);
                assert(after.drop_last() =~= before);
                assert(after.last() == events@[i as int]@);
            }
            match &events[i] {
                Event::Suite(s) => match s.event {
                    EventKind::Ignored => {},
                    EventKind::Started => {
                        suite.tests = match s.test_count {
                            Some(n) => n,
                            None => 0,
                        };
                        if counter >= 1 {
                            proof {
                                lemma_starts_grow(evs, i as int + 1);
                            }
                            return Err(SuityError::MultipleTestRuns);
                        }
                        counter = counter + 1;
                    },
                    EventKind::Passed | EventKind::Failed => {
                        suite.failures = match s.failed {
                            Some(n) => n,
                            None => 0,
                        };
                    },
                },
                Event::Test(t) => match t.event {
                    EventKind::Started | EventKind::Ignored => {},
                    EventKind::Passed => {
                        suite.test_cases.push(TestCase { name: t.name.clone(), failure: None });
                    },
                    EventKind::Failed => {
                        let message = match &t.stdout {
                            Some(m) => m.clone(),
                            None => String::new(),
                        };
                        suite.test_cases.push(
                            TestCase { name: t.name.clone(), failure: Some(Failure { message }) },
                        );
                    },
                },
            }
            proof {
                if is_test_outcome(after.last()) {
                    assert(suite@.test_cases =~= cases_of(before).push(case_of(after.last())));
                } else {
                    assert(suite@.test_cases =~= old_cases.map_values(|c: TestCase| c@));
                }
            }
            i = i + 1;
        }
        assert(evs.take(i as int) =~= evs);
        Ok(suite)
    }
}

/// Suite `started` events in a prefix are never more than in the whole stream.
proof fn lemma_starts_grow(evs: Seq<EventV>, k: int)
    requires
        0 <= k <= evs.len(),
    ensures
        run_starts(evs.take(k)) <= run_starts(evs),
    decreases evs.len() - k,
{
    reveal(Seq::filter);
    if k < evs.len() {
        lemma_starts_grow(evs, k + 1);
        assert(evs.take(k + 1).drop_last() =~= evs.take(k));
    } else {
        assert(evs.take(k) =~= evs);
    }
}

// The XML form.

pub open spec fn digit_char(d: nat) -> char {
    ((d + 48) as u8) as char
}

/// The decimal digits of `n`.
pub open spec fn decimal(n: nat) -> Seq<char>
    decreases n,
{
    if n < 10 {
        seq![digit_char(n)]
    } else {
        decimal(n / 10).push(digit_char(n % 10))
    }
}

/// `c` as it is written inside an attribute value. Markup characters and the quotes
/// become entities; line feed, carriage return and tab become character references,
/// which an XML reader does not turn into spaces.
pub open spec fn escape_char(c: char) -> Seq<char> {
    if c == '"' {
        "&quot;"@
    } else if c == '\'' {
        "&apos;"@
    } else if c == '&' {
        "&amp;"@
    } else if c == '<' {
        "&lt;"@
    } else if c == '>' {
        "&gt;"@
    } else if c == '\n' {
        "&#10;"@
    } else if c == '\r' {
        "&#13;"@
    } else if c == '\t' {
        "&#9;"@
    } else {
        seq![c]
    }
}

/// `s` as it is written inside an attribute value.
#[verifier::opaque]
pub open spec fn escaped(s: Seq<char>) -> Seq<char>
    decreases s.len(),
{
    if s.len() == 0 {
        Seq::empty()
    } else {
        escaped(s.drop_last()) + escape_char(s.last())
    }
}

pub open spec fn start_tag(depth: nat, name: Seq<char>) -> Seq<char> {
    indent(depth) + "<"@ + name
}

pub open spec fn attribute(name: Seq<char>, value: Seq<char>) -> Seq<char> {
    " "@ + name + "=\""@ + value + "\""@
}

pub open spec fn end_tag(name: Seq<char>) -> Seq<char> {
    "</"@ + name + ">"@
}

pub open spec fn case_xml(c: TestCaseV) -> Seq<char> {
    start_tag(2, "testcase"@) + attribute("name"@, escaped(c.name)) + ">"@ + match c.failure {
        Some(m) => start_tag(3, "failure"@) + attribute("message"@, escaped(m)) + ">"@ + end_tag(
            "failure"@,
        ),
        None => Seq::empty(),
    } + end_tag("testcase"@)
}

pub open spec fn cases_xml(cs: Seq<TestCaseV>) -> Seq<char>
    decreases cs.len(),
{
    if cs.len() == 0 {
        Seq::empty()
    } else {
        cases_xml(cs.drop_last()) + case_xml(cs.last())
    }
}

/// The start tag of a report's element, without its `>`.
pub open spec fn suite_head(s: TestSuiteV) -> Seq<char> {
    start_tag(1, "testsuite"@) + attribute("name"@, escaped(s.name)) + attribute(
        "errors"@,
        decimal(s.errors as nat),
    ) + attribute("failures"@, decimal(s.failures as nat)) + attribute(
        "tests"@,
        decimal(s.tests as nat),
    )
}

pub open spec fn suite_xml(s: TestSuiteV) -> Seq<char> {
    suite_head(s) + ">"@ + cases_xml(s.test_cases) + end_tag("testsuite"@)
}

pub open spec fn suites_xml(ss: Seq<TestSuiteV>) -> Seq<char>
    decreases ss.len(),
{
    if ss.len() == 0 {
        Seq::empty()
    } else {
        suites_xml(ss.drop_last()) + suite_xml(ss.last())
    }
}

/// The JUnit document for the reports `ss`: one `testsuite` element per report, one
/// `testcase` element per case, one `failure` element per failed case; names and
/// messages escaped.
pub open spec fn xml_document(ss: Seq<TestSuiteV>) -> Seq<char> {
    "<?xml version=\"1.0\" encoding=\""@ + "utf-8"@ + "\" ?>\n"@ + start_tag(0, "testsuites"@)
        + ">"@ + suites_xml(ss) + end_tag("testsuites"@)
}


/// Appends the characters of `s` to `out`.
pub(crate) fn push_text(out: &mut Vec<char>, s: &str)
    ensures
        final(out)@ == old(out)@ + s@,
{
    let ghost start = out@;
    for c in it: s.chars()
        invariant
            it.seq() == s@,
            out@ == start + s@.take(it.index() as int),
    {
        out.push(c);
        assert(out@ =~= start + s@.take(it.index() as int + 1));
    }
    assert(s@.take(s@.len() as int) =~= s@);
}

/// Appends the decimal digits of `n` to `out`.
fn push_decimal(out: &mut Vec<char>, n: u64)
    ensures
        final(out)@ == old(out)@ + decimal(n as nat),
    decreases n,
{
    if n >= 10 {
        push_decimal(out, n / 10);
    }
    let d: u8 = (n % 10) as u8;
    out.push((d + 48) as char);
    assert(out@ =~= old(out)@ + decimal(n as nat));
}

/// Relies on `FromIterator<char>` for `String`: the string of the characters, in order.
#[verifier::external_body]
pub(crate) fn string_from_chars(v: &Vec<char>) -> (r: String)
    ensures
        r@ == v@,
{
    v.iter().collect()
}

/// `s` escaped for an attribute value.
pub fn escape_attribute(s: &str) -> (r: String)
    ensures
        r@ == escaped(s@),
{
    let mut out: Vec<char> = Vec::new();
    proof {
        reveal(escaped);
        assert(s@.take(0) =~= Seq::<char>::empty());
    }
    for c in it: s.chars()
        invariant
            it.seq() == s@,
            out@ == escaped(s@.take(it.index() as int)),
    {
        let ghost k = it.index() as int;
        let ghost before = out@;
        assert(s@.take(k + 1).drop_last() =~= s@.take(k));
        if c == '"' {
            push_text(&mut out, "&quot;");
        } else if c == '\'' {
            push_text(&mut out, "&apos;");
        } else if c == '&' {
            push_text(&mut out, "&amp;");
        } else if c == '<' {
            push_text(&mut out, "&lt;");
        } else if c == '>' {
            push_text(&mut out, "&gt;");
        } else if c == '\n' {
            push_text(&mut out, "&#10;");
        } else if c == '\r' {
            push_text(&mut out, "&#13;");
        } else if c == '\t' {
            push_text(&mut out, "&#9;");
        } else {
            out.push(c);
        }
        assert(out@ =~= before + escape_char(c));
        proof {
            reveal(escaped);
        }
    }
    assert(s@.take(s@.len() as int) =~= s@);
    string_from_chars(&out)
}

/// The decimal digits of `n`.
fn decimal_text(n: u64) -> (r: String)
    ensures
        r@ == decimal(n as nat),
{
    let mut out: Vec<char> = Vec::new();
    push_decimal(&mut out, n);
    assert(out@ =~= decimal(n as nat));
    string_from_chars(&out)
}


/// Writes the element of one case.
#[verifier::rlimit(100)]
fn write_case(x: &mut XmlOut, c: &TestCase)
    requires
        xml_open_elems(*old(x)) == seq!["testsuites"@, "testsuite"@],
    ensures
        xml_open_elems(*final(x)) == seq!["testsuites"@, "testsuite"@],
        !xml_tag_open(*final(x)),
        xml_text(*final(x)) == xml_text(*old(x)) + tag_end(xml_tag_open(*old(x))) + case_xml(c@),
{
    let ghost t0 = xml_text(*x);
    let ghost o0 = xml_tag_open(*x);
    let ghost elems = xml_open_elems(*x);
    xml_begin(x, "testcase");
    let ghost tb = xml_text(*x);
    assert(tb =~= t0 + tag_end(o0) + start_tag(2, "testcase"@));
    let name = escape_attribute(c.name.as_str());
    xml_attr(x, "name", name.as_str());
    let ghost t1 = xml_text(*x);
    assert(t1 =~= tb + attribute("name"@, escaped(c@.name)));
    let ghost head = start_tag(2, "testcase"@) + attribute("name"@, escaped(c@.name));
    assert(t1 =~= t0 + tag_end(o0) + head);
    match &c.failure {
        Some(m) => {
            xml_begin(x, "failure");
            let ghost t2 = xml_text(*x);
            assert(t2 =~= t1 + ">"@ + start_tag(3, "failure"@));
            let message = escape_attribute(m.message.as_str());
            xml_attr(x, "message", message.as_str());
            let ghost t3 = xml_text(*x);
            assert(t3 =~= t2 + attribute("message"@, escaped(m.message@)));
            xml_end(x);
            let ghost t4 = xml_text(*x);
            assert(t4 =~= t3 + ">"@ + end_tag("failure"@));
            xml_end(x);
            let ghost body = start_tag(3, "failure"@) + attribute("message"@, escaped(m.message@))
                + ">"@ + end_tag("failure"@);
            assert(case_xml(c@) == head + ">"@ + body + end_tag("testcase"@));
            assert(xml_text(*x) =~= t4 + end_tag("testcase"@));
            assert(xml_text(*x) =~= t0 + tag_end(o0) + case_xml(c@));
        },
        None => {
            xml_end(x);
            assert(case_xml(c@) =~= head + ">"@ + end_tag("testcase"@));
            assert(xml_text(*x) =~= t1 + ">"@ + end_tag("testcase"@));
            assert(xml_text(*x) =~= t0 + tag_end(o0) + case_xml(c@));
        },
    }
}

/// Writes the start tag of a report's element, up to its `>`.
#[verifier::rlimit(100)]
fn write_suite_head(x: &mut XmlOut, s: &TestSuite)
    requires
        xml_open_elems(*old(x)) == seq!["testsuites"@],
    ensures
        xml_open_elems(*final(x)) == seq!["testsuites"@, "testsuite"@],
        xml_tag_open(*final(x)),
        xml_text(*final(x)) == xml_text(*old(x)) + tag_end(xml_tag_open(*old(x))) + suite_head(s@),
{
    let ghost t0 = xml_text(*x);
    let ghost o0 = xml_tag_open(*x);
    xml_begin(x, "testsuite");
    let ghost t1 = xml_text(*x);
    assert(t1 =~= t0 + tag_end(o0) + start_tag(1, "testsuite"@));
    let name = escape_attribute(s.name.as_str());
    xml_attr(x, "name", name.as_str());
    let ghost t2 = xml_text(*x);
    assert(t2 =~= t1 + attribute("name"@, escaped(s@.name)));
    let errors = decimal_text(s.errors);
    xml_attr(x, "errors", errors.as_str());
    let ghost t3 = xml_text(*x);
    assert(t3 =~= t2 + attribute("errors"@, decimal(s.errors as nat)));
    let failures = decimal_text(s.failures);
    xml_attr(x, "failures", failures.as_str());
    let ghost t4 = xml_text(*x);
    assert(t4 =~= t3 + attribute("failures"@, decimal(s.failures as nat)));
    let tests = decimal_text(s.tests);
    xml_attr(x, "tests", tests.as_str());
    assert(xml_text(*x) =~= t4 + attribute("tests"@, decimal(s.tests as nat)));
    assert(xml_text(*x) =~= t0 + tag_end(o0) + suite_head(s@));
}

/// Writes the element of one report.
#[verifier::rlimit(100)]
fn write_suite(x: &mut XmlOut, s: &TestSuite)
    requires
        xml_open_elems(*old(x)) == seq!["testsuites"@],
    ensures
        xml_open_elems(*final(x)) == seq!["testsuites"@],
        !xml_tag_open(*final(x)),
        xml_text(*final(x)) == xml_text(*old(x)) + tag_end(xml_tag_open(*old(x))) + suite_xml(s@),
{
    let ghost t0 = xml_text(*x);
    let ghost o0 = xml_tag_open(*x);
    write_suite_head(x, s);
    let ghost head = xml_text(*x);
    let ghost cases = s@.test_cases;
    let mut i: usize = 0;
    assert(cases.take(0) =~= Seq::<TestCaseV>::empty());
    assert(xml_text(*x) + tag_end(xml_tag_open(*x)) =~= head + ">"@ + cases_xml(cases.take(0)));
    while i < s.test_cases.len()
        invariant
            i <= s.test_cases@.len(),
            cases == s@.test_cases,
            xml_open_elems(*x) == seq!["testsuites"@, "testsuite"@],
            xml_text(*x) + tag_end(xml_tag_open(*x)) == head + ">"@ + cases_xml(cases.take(i as int)),
        decreases s.test_cases@.len() - i,
    {
        let ghost before = xml_text(*x) + tag_end(xml_tag_open(*x));
        write_case(x, &s.test_cases[i]);
        assert(cases.take(i + 1).drop_last() =~= cases.take(i as int));
        assert(cases_xml(cases.take(i + 1)) == cases_xml(cases.take(i as int)) + case_xml(cases[i as int]));
        assert(xml_text(*x) + tag_end(xml_tag_open(*x)) =~= before + case_xml(cases[i as int]));
        i = i + 1;
    }
    assert(cases.take(i as int) =~= cases);
    let ghost t5 = xml_text(*x) + tag_end(xml_tag_open(*x));
    xml_end(x);
    assert(xml_text(*x) =~= t5 + end_tag("testsuite"@));
    assert(xml_text(*x) =~= t0 + tag_end(o0) + suite_xml(s@));
}

/// The JUnit XML document for the reports `suites`, encoded in UTF-8.
pub fn xml_bytes(suites: &Vec<TestSuite>) -> (r: Vec<u8>)
    ensures
        r@ == vstd::utf8::encode_utf8(xml_document(suites_view(suites@))),
{
    let mut x = xml_new();
    xml_dtd(&mut x, "utf-8");
    xml_begin(&mut x, "testsuites");
    let ghost head = xml_text(x);
    let ghost ss = suites_view(suites@);
    let mut i: usize = 0;
    assert(ss.take(0) =~= Seq::<TestSuiteV>::empty());
    assert(xml_text(x) + tag_end(xml_tag_open(x)) =~= head + ">"@ + suites_xml(ss.take(0)));
    while i < suites.len()
        invariant
            i <= suites@.len(),
            ss == suites_view(suites@),
            xml_open_elems(x) == seq!["testsuites"@],
            xml_text(x) + tag_end(xml_tag_open(x)) == head + ">"@ + suites_xml(ss.take(i as int)),
        decreases suites@.len() - i,
    {
        write_suite(&mut x, &suites[i]);
        assert(ss.take(i + 1).drop_last() =~= ss.take(i as int));
        assert(xml_text(x) + tag_end(xml_tag_open(x)) =~= head + ">"@ + suites_xml(ss.take(i + 1)));
        i = i + 1;
    }
    assert(ss.take(i as int) =~= ss);
    xml_end(&mut x);
    assert(xml_text(x) =~= xml_document(ss));
    xml_into_bytes(x)
}

/// Relies on String::from_utf8, whose result is made an `Option`: the text of the
/// bytes where they are UTF-8.
#[verifier::external_body]
fn string_from_utf8(b: Vec<u8>) -> (r: Option<String>)
    ensures
        r is Some <==> vstd::utf8::valid_utf8(b@),
        r matches Some(s) ==> s@ == vstd::utf8::decode_utf8(b@),
{
    String::from_utf8(b).ok()
}

/// The JUnit XML document for the reports `suites`.
pub fn to_xml(suites: &Vec<TestSuite>) -> (r: String)
    ensures
        r@ == xml_document(suites_view(suites@)),
{
    let bytes = xml_bytes(suites);
    proof {
        let t = xml_document(suites_view(suites@));
        vstd::utf8::encode_utf8_valid_utf8(t);
        vstd::utf8::encode_utf8_decode_utf8(t);
    }
    match string_from_utf8(bytes) {
        Some(s) => s,
        None => String::new(),
    }
}

/// Appends the JUnit XML document for `suites` to `out`, encoded in UTF-8.
pub fn write_as_xml(suites: &Vec<TestSuite>, out: &mut Vec<u8>)
    ensures
        final(out)@ == old(out)@ + vstd::utf8::encode_utf8(xml_document(suites_view(suites@))),
{
    let bytes = xml_bytes(suites);
    out.extend_from_slice(bytes.as_slice());
}

// Laws of aggregation and serialization.

proof fn lemma_one_start(evs: Seq<EventV>, a: int)
    requires
        0 <= a < evs.len(),
        is_run_start(evs[a]),
    ensures
        run_starts(evs) >= 1,
    decreases evs.len(),
{
    reveal(Seq::filter);
    if a < evs.len() - 1 {
        lemma_one_start(evs.drop_last(), a);
    }
}

proof fn lemma_two_starts(evs: Seq<EventV>, a: int, b: int)
    requires
        0 <= a < b < evs.len(),
        is_run_start(evs[a]),
        is_run_start(evs[b]),
    ensures
        run_starts(evs) >= 2,
    decreases evs.len(),
{
    reveal(Seq::filter);
    if b == evs.len() - 1 {
        lemma_one_start(evs.drop_last(), a);
    } else {
        lemma_two_starts(evs.drop_last(), a, b);
    }
}

proof fn lemma_last_test_count(evs: Seq<EventV>, s: int)
    requires
        0 <= s < evs.len(),
        is_run_start(evs[s]),
        forall|j: int| s < j < evs.len() ==> !is_run_start(#[trigger] evs[j]),
    ensures
        last_test_count(evs) == match evs[s]->Suite_0.test_count {
            Some(n) => n,
            None => 0,
        },
    decreases evs.len(),
{
    if s < evs.len() - 1 {
        assert(!is_run_start(evs[evs.len() - 1]));
        lemma_last_test_count(evs.drop_last(), s);
    }
}

proof fn lemma_last_failed(evs: Seq<EventV>, t: int)
    requires
        0 <= t < evs.len(),
        is_run_end(evs[t]),
        forall|j: int| t < j < evs.len() ==> !is_run_end(#[trigger] evs[j]),
    ensures
        last_failed(evs) == match evs[t]->Suite_0.failed {
            Some(n) => n,
            None => 0,
        },
    decreases evs.len(),
{
    if t < evs.len() - 1 {
        assert(!is_run_end(evs[evs.len() - 1]));
        lemma_last_failed(evs.drop_last(), t);
    }
}

/// A stream with two suite `started` events fails aggregation, whatever else it holds.
pub proof fn lemma_two_runs_refused(evs: Seq<EventV>, name: Seq<char>, a: int, b: int)
    requires
        0 <= a < b < evs.len(),
        is_run_start(evs[a]),
        is_run_start(evs[b]),
    ensures
        aggregate(evs, name) is None,
{
    lemma_two_starts(evs, a, b);
}

/// For a well-formed stream of one run, the report's `tests` is the `test_count` of its
/// suite `started` event, and its `failures` is the `failed` counter of its closing
/// suite event (the last suite `ok` or `failed` event).
pub proof fn lemma_counts_of_one_run(evs: Seq<EventV>, name: Seq<char>, s: int, t: int)
    requires
        forall|i: int| 0 <= i < evs.len() ==> event_well_formed(#[trigger] evs[i]),
        run_starts(evs) == 1,
        0 <= s < evs.len(),
        is_run_start(evs[s]),
        0 <= t < evs.len(),
        is_run_end(evs[t]),
        forall|j: int| t < j < evs.len() ==> !is_run_end(#[trigger] evs[j]),
    ensures
        aggregate(evs, name) is Some,
        aggregate(evs, name)->0.tests == evs[s]->Suite_0.test_count->0,
        aggregate(evs, name)->0.failures == evs[t]->Suite_0.failed->0,
{
    assert(event_well_formed(evs[s]));
    assert(event_well_formed(evs[t]));
    assert forall|j: int| s < j < evs.len() implies !is_run_start(#[trigger] evs[j]) by {
        if is_run_start(evs[j]) {
            lemma_two_starts(evs, s, j);
        }
    }
    lemma_last_test_count(evs, s);
    lemma_last_failed(evs, t);
}

/// For a stream of at most one run, the report holds one case per `ok` or `failed`
/// test event, in the order of those events.
pub proof fn lemma_cases_follow_outcomes(evs: Seq<EventV>, name: Seq<char>)
    requires
        run_starts(evs) <= 1,
    ensures
        aggregate(evs, name) is Some,
        aggregate(evs, name)->0.test_cases.len() == outcomes(evs).len(),
        forall|k: int|
            0 <= k < outcomes(evs).len() ==> aggregate(evs, name)->0.test_cases[k] == case_of(
                #[trigger] outcomes(evs)[k],
            ),
{
}

/// Serializing the same reports twice gives the same document.
pub proof fn lemma_xml_repeatable(a: Seq<TestSuite>, b: Seq<TestSuite>)
    requires
        suites_view(a) == suites_view(b),
    ensures
        xml_document(suites_view(a)) == xml_document(suites_view(b)),
{
}

} // verus!
