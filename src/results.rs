use crate::errors::SuityError;
use crate::json::{json_members, members_view, parse_object, JsonScalar, Scalar};
use vstd::prelude::*;
use vstd::string::StringSliceAdditionalSpecFns;

verus! {

broadcast use vstd::utf8::group_utf8_lib;

/// Type of event generated by the test runner.
#[derive(Debug, PartialEq, Eq, Structural, Clone, Copy)]
pub enum ItemKind {
    /// One specific instance of a test.
    Test,
    /// Group of tests.
    Suite,
}

/// Lifecycle tag of an event.
#[derive(Debug, PartialEq, Eq, Structural, Clone, Copy)]
pub enum EventKind {
    Started,
    /// Wire tag `ok`.
    Passed,
    Failed,
    Ignored,
}

/// A suite-level event with its counters.
#[derive(Debug, PartialEq, Eq, Clone, Copy)]
pub struct Suite {
    pub event: EventKind,
    pub test_count: Option<u64>,
    pub passed: Option<u64>,
    pub failed: Option<u64>,
    pub allowed_fail: Option<u64>,
    pub ignored: Option<u64>,
    pub measured: Option<u64>,
    pub filtered_out: Option<u64>,
}

/// A test-level event.
#[derive(Debug, PartialEq, Eq)]
pub struct Test {
    pub event: EventKind,
    pub name: String,
    pub stdout: Option<String>,
}

#[derive(Debug, PartialEq, Eq)]
pub enum Event {
    Suite(Suite),
    Test(Test),
}

/// The mathematical value of a [`Test`].
pub ghost struct TestV {
    pub event: EventKind,
    pub name: Seq<char>,
    pub stdout: Option<Seq<char>>,
}

/// The mathematical value of an [`Event`].
pub ghost enum EventV {
    Suite(Suite),
    Test(TestV),
}

pub open spec fn text_view(s: Option<String>) -> Option<Seq<char>> {
    match s {
        Some(t) => Some(t@),
        None => None,
    }
}

impl View for Test {
    type V = TestV;

    open spec fn view(&self) -> TestV {
        TestV { event: self.event, name: self.name@, stdout: text_view(self.stdout) }
    }
}

impl View for Event {
    type V = EventV;

    open spec fn view(&self) -> EventV {
        match self {
            Event::Suite(s) => EventV::Suite(*s),
            Event::Test(t) => EventV::Test(t@),
        }
    }
}

pub open spec fn events_view(es: Seq<Event>) -> Seq<EventV> {
    es.map_values(|e: Event| e@)
}

/// A suite event carries the counters that its tag requires: `test_count` on `started`;
/// `passed`, `failed`, `allowed_fail`, `ignored`, `measured` and `filtered_out` on `ok`
/// and `failed`.
pub open spec fn suite_well_formed(s: Suite) -> bool {
    &&& s.event == EventKind::Started ==> s.test_count is Some
    &&& (s.event == EventKind::Passed || s.event == EventKind::Failed) ==> {
        &&& s.passed is Some
        &&& s.failed is Some
        &&& s.allowed_fail is Some
        &&& s.ignored is Some
        &&& s.measured is Some
        &&& s.filtered_out is Some
    }
}

/// A failed test event carries its captured output.
pub open spec fn test_well_formed(t: TestV) -> bool {
    t.event == EventKind::Failed ==> t.stdout is Some
}

pub open spec fn event_well_formed(e: EventV) -> bool {
    match e {
        EventV::Suite(s) => suite_well_formed(s),
        EventV::Test(t) => test_well_formed(t),
    }
}

impl Event {
    /// A suite event with the given tag and no counters.
    pub fn new_suite(event: EventKind) -> (r: Event)
        ensures
            r == Event::Suite(
                Suite {
                    event,
                    test_count: None,
                    passed: None,
                    failed: None,
                    allowed_fail: None,
                    ignored: None,
                    measured: None,
                    filtered_out: None,
                },
            ),
    {
        Event::Suite(
            Suite {
                event,
                test_count: None,
                passed: None,
                failed: None,
                allowed_fail: None,
                ignored: None,
                measured: None,
                filtered_out: None,
            },
        )
    }

    pub fn set_test_count(self, test_count: u64) -> (r: Event)
        requires
            self is Suite,
        ensures
            r == Event::Suite(Suite { test_count: Some(test_count), ..self->Suite_0 }),
    {
        match self {
            Event::Suite(s) => Event::Suite(Suite { test_count: Some(test_count), ..s }),
            Event::Test(t) => Event::Test(t),
        }
    }

    pub fn set_passed(self, passed: u64) -> (r: Event)
        requires
            self is Suite,
        ensures
            r == Event::Suite(Suite { passed: Some(passed), ..self->Suite_0 }),
    {
        match self {
            Event::Suite(s) => Event::Suite(Suite { passed: Some(passed), ..s }),
            Event::Test(t) => Event::Test(t),
        }
    }

    pub fn set_failed(self, failed: u64) -> (r: Event)
        requires
            self is Suite,
        ensures
            r == Event::Suite(Suite { failed: Some(failed), ..self->Suite_0 }),
    {
        match self {
            Event::Suite(s) => Event::Suite(Suite { failed: Some(failed), ..s }),
            Event::Test(t) => Event::Test(t),
        }
    }

    pub fn set_allowed_fail(self, allowed_fail: u64) -> (r: Event)
        requires
            self is Suite,
        ensures
            r == Event::Suite(Suite { allowed_fail: Some(allowed_fail), ..self->Suite_0 }),
    {
        match self {
            Event::Suite(s) => Event::Suite(Suite { allowed_fail: Some(allowed_fail), ..s }),
            Event::Test(t) => Event::Test(t),
        }
    }

    pub fn set_ignored(self, ignored: u64) -> (r: Event)
        requires
            self is Suite,
        ensures
            r == Event::Suite(Suite { ignored: Some(ignored), ..self->Suite_0 }),
    {
        match self {
            Event::Suite(s) => Event::Suite(Suite { ignored: Some(ignored), ..s }),
            Event::Test(t) => Event::Test(t),
        }
    }

    pub fn set_measured(self, measured: u64) -> (r: Event)
        requires
            self is Suite,
        ensures
            r == Event::Suite(Suite { measured: Some(measured), ..self->Suite_0 }),
    {
        match self {
            Event::Suite(s) => Event::Suite(Suite { measured: Some(measured), ..s }),
            Event::Test(t) => Event::Test(t),
        }
    }

    pub fn set_filtered_out(self, filtered_out: u64) -> (r: Event)
        requires
            self is Suite,
        ensures
            r == Event::Suite(Suite { filtered_out: Some(filtered_out), ..self->Suite_0 }),
    {
        match self {
            Event::Suite(s) => Event::Suite(Suite { filtered_out: Some(filtered_out), ..s }),
            Event::Test(t) => Event::Test(t),
        }
    }

    /// A test event with the given tag and name, without captured output.
    pub fn new_test(event: EventKind, name: String) -> (r: Event)
        ensures
            r@ == EventV::Test(TestV { event, name: name@, stdout: None }),
    {
        Event::Test(Test { event, name, stdout: None })
    }

    pub fn set_stdout(self, stdout: String) -> (r: Event)
        requires
            self is Test,
        ensures
            r@ == EventV::Test(TestV { stdout: Some(stdout@), ..self->Test_0@ }),
    {
        match self {
            Event::Test(t) => Event::Test(Test { stdout: Some(stdout), ..t }),
            Event::Suite(s) => Event::Suite(s),
        }
    }
}

// Decoding one line.

/// The value of the first member named `key`.
pub open spec fn member(ms: Seq<(Seq<char>, Scalar)>, key: Seq<char>) -> Option<Scalar>
    decreases ms.len(),
{
    if ms.len() == 0 {
        None
    } else if ms[0].0 == key {
        Some(ms[0].1)
    } else {
        member(ms.drop_first(), key)
    }
}

/// An optional counter: absent or `null` is `Some(None)`; `None` where the member
/// holds anything but an integer that fits in `u64`.
pub open spec fn counter(ms: Seq<(Seq<char>, Scalar)>, key: Seq<char>) -> Option<Option<u64>> {
    match member(ms, key) {
        None => Some(None),
        Some(Scalar::Null) => Some(None),
        Some(Scalar::Number(Some(n))) => Some(Some(n)),
        _ => None,
    }
}

/// An optional string, read as [`counter`] reads a number.
pub open spec fn optional_text(ms: Seq<(Seq<char>, Scalar)>, key: Seq<char>) -> Option<Option<Seq<char>>> {
    match member(ms, key) {
        None => Some(None),
        Some(Scalar::Null) => Some(None),
        Some(Scalar::Text(t)) => Some(Some(t)),
        _ => None,
    }
}

pub open spec fn kind_named(t: Seq<char>) -> Option<EventKind> {
    if t == "started"@ {
        Some(EventKind::Started)
    } else if t == "ok"@ {
        Some(EventKind::Passed)
    } else if t == "failed"@ {
        Some(EventKind::Failed)
    } else if t == "ignored"@ {
        Some(EventKind::Ignored)
    } else {
        None
    }
}

pub open spec fn suite_of(ms: Seq<(Seq<char>, Scalar)>, kind: EventKind) -> Option<EventV> {
    let tc = counter(ms, "test_count"@);
    let pa = counter(ms, "passed"@);
    let fa = counter(ms, "failed"@);
    let al = counter(ms, "allowed_fail"@);
    let ig = counter(ms, "ignored"@);
    let me = counter(ms, "measured"@);
    let fo = counter(ms, "filtered_out"@);
    if tc is Some && pa is Some && fa is Some && al is Some && ig is Some && me is Some
        && fo is Some {
        let s = Suite {
            event: kind,
            test_count: tc->0,
            passed: pa->0,
            failed: fa->0,
            allowed_fail: al->0,
            ignored: ig->0,
            measured: me->0,
            filtered_out: fo->0,
        };
        if suite_well_formed(s) {
            Some(EventV::Suite(s))
        } else {
            None
        }
    } else {
        None
    }
}

pub open spec fn test_of(ms: Seq<(Seq<char>, Scalar)>, kind: EventKind) -> Option<EventV> {
    match (member(ms, "name"@), optional_text(ms, "stdout"@)) {
        (Some(Scalar::Text(name)), Some(stdout)) => {
            let t = TestV { event: kind, name, stdout };
            if test_well_formed(t) {
                Some(EventV::Test(t))
            } else {
                None
            }
        },
        _ => None,
    }
}

/// The event that the members of one JSON object describe: `type` picks the shape,
/// `event` the tag; other members are ignored.
pub open spec fn event_of(ms: Seq<(Seq<char>, Scalar)>) -> Option<EventV> {
    match (member(ms, "type"@), member(ms, "event"@)) {
        (Some(Scalar::Text(ty)), Some(Scalar::Text(ev))) => match kind_named(ev) {
            Some(kind) => if ty == "suite"@ {
                suite_of(ms, kind)
            } else if ty == "test"@ {
                test_of(ms, kind)
            } else {
                None
            },
            None => None,
        },
        _ => None,
    }
}

/// Whether two strings hold the same characters.
fn same_text(a: &str, b: &str) -> (r: bool)
    ensures
        r == (a@ == b@),
{
    let x = a.as_bytes();
    let y = b.as_bytes();
    if x.len() != y.len() {
        return false;
    }
    let mut i: usize = 0;
    while i < x.len()
        invariant
            x@ == a.spec_bytes(),
            y@ == b.spec_bytes(),
            x@.len() == y@.len(),
            i <= x@.len(),
            forall|j: int| 0 <= j < i ==> x@[j] == y@[j],
        decreases x@.len() - i,
    {
        if x[i] != y[i] {
            return false;
        }
        i = i + 1;
    }
    assert(x@ =~= y@);
    proof {
        assert(vstd::utf8::decode_utf8(vstd::utf8::encode_utf8(a@)) == a@);
        assert(vstd::utf8::decode_utf8(vstd::utf8::encode_utf8(b@)) == b@);
    }
    true
}

/// The index of the first member named `key`.
fn find_member(ms: &Vec<(String, JsonScalar)>, key: &str) -> (r: Option<usize>)
    ensures
        match r {
            Some(i) => i < ms@.len() && member(members_view(ms@), key@) == Some(ms@[i as int].1@),
            None => member(members_view(ms@), key@) is None,
        },
{
    let ghost v = members_view(ms@);
    let mut i: usize = 0;
    assert(v.subrange(0, v.len() as int) =~= v);
    while i < ms.len()
        invariant
            v == members_view(ms@),
            i <= ms@.len(),
            member(v, key@) == member(v.subrange(i as int, v.len() as int), key@),
        decreases ms@.len() - i,
    {
        let ghost rest = v.subrange(i as int, v.len() as int);
        assert(rest[0] == v[i as int]);
        if same_text(ms[i].0.as_str(), key) {
            return Some(i);
        }
        assert(rest.drop_first() =~= v.subrange(i + 1, v.len() as int));
        i = i + 1;
    }
    assert(v.subrange(i as int, v.len() as int).len() == 0);
    None
}

fn read_counter(ms: &Vec<(String, JsonScalar)>, key: &str) -> (r: Option<Option<u64>>)
    ensures
        r == counter(members_view(ms@), key@),
{
    match find_member(ms, key) {
        None => Some(None),
        Some(i) => match &ms[i].1 {
            JsonScalar::Null => Some(None),
            JsonScalar::Number(Some(n)) => Some(Some(*n)),
            _ => None,
        },
    }
}

fn read_optional_text(ms: &Vec<(String, JsonScalar)>, key: &str) -> (r: Option<Option<String>>)
    ensures
        match r {
            Some(t) => optional_text(members_view(ms@), key@) == Some(text_view(t)),
            None => optional_text(members_view(ms@), key@) is None,
        },
{
    match find_member(ms, key) {
        None => Some(None),
        Some(i) => match &ms[i].1 {
            JsonScalar::Null => Some(None),
            JsonScalar::Text(t) => Some(Some(t.clone())),
            _ => None,
        },
    }
}

fn read_text(ms: &Vec<(String, JsonScalar)>, key: &str) -> (r: Option<String>)
    ensures
        match r {
            Some(t) => member(members_view(ms@), key@) == Some(Scalar::Text(t@)),
            None => !(member(members_view(ms@), key@) matches Some(Scalar::Text(_))),
        },
{
    match find_member(ms, key) {
        None => None,
        Some(i) => match &ms[i].1 {
            JsonScalar::Text(t) => Some(t.clone()),
            _ => None,
        },
    }
}

fn kind_from(t: &str) -> (r: Option<EventKind>)
    ensures
        r == kind_named(t@),
{
    if same_text(t, "started") {
        Some(EventKind::Started)
    } else if same_text(t, "ok") {
        Some(EventKind::Passed)
    } else if same_text(t, "failed") {
        Some(EventKind::Failed)
    } else if same_text(t, "ignored") {
        Some(EventKind::Ignored)
    } else {
        None
    }
}

/// The event that the members of one JSON object describe.
pub fn decode_event(ms: &Vec<(String, JsonScalar)>) -> (r: Option<Event>)
    ensures
        match r {
            Some(e) => event_of(members_view(ms@)) == Some(e@),
            None => event_of(members_view(ms@)) is None,
        },
{
    let ty = match read_text(ms, "type") {
        Some(t) => t,
        None => return None,
    };
    let ev = match read_text(ms, "event") {
        Some(t) => t,
        None => return None,
    };
    let kind = match kind_from(ev.as_str()) {
        Some(k) => k,
        None => return None,
    };
    if same_text(ty.as_str(), "suite") {
        let tc = read_counter(ms, "test_count");
        let pa = read_counter(ms, "passed");
        let fa = read_counter(ms, "failed");
        let al = read_counter(ms, "allowed_fail");
        let ig = read_counter(ms, "ignored");
        let me = read_counter(ms, "measured");
        let fo = read_counter(ms, "filtered_out");
        match (tc, pa, fa, al, ig, me, fo) {
            (Some(tc), Some(pa), Some(fa), Some(al), Some(ig), Some(me), Some(fo)) => {
                let s = Suite {
                    event: kind,
                    test_count: tc,
                    passed: pa,
                    failed: fa,
                    allowed_fail: al,
                    ignored: ig,
                    measured: me,
                    filtered_out: fo,
                };
                let complete = match kind {
                    EventKind::Started => tc.is_some(),
                    EventKind::Passed | EventKind::Failed => pa.is_some() && fa.is_some()
                        && al.is_some() && ig.is_some() && me.is_some() && fo.is_some(),
                    EventKind::Ignored => true,
                };
                if complete {
                    Some(Event::Suite(s))
                } else {
                    None
                }
            },
            _ => None,
        }
    } else if same_text(ty.as_str(), "test") {
        let name = match read_text(ms, "name") {
            Some(n) => n,
            None => return None,
        };
        let stdout = match read_optional_text(ms, "stdout") {
            Some(o) => o,
            None => return None,
        };
        if kind == EventKind::Failed && stdout.is_none() {
            None
        } else {
            Some(Event::Test(Test { event: kind, name, stdout }))
        }
    } else {
        None
    }
}

// Decoding a stream of lines.

/// The pieces of `b` between line feeds, in order: `n` line feeds make `n + 1` pieces.
pub open spec fn split_lines(b: Seq<u8>) -> Seq<Seq<u8>>
    decreases b.len(),
{
    if b.len() == 0 {
        seq![Seq::empty()]
    } else {
        let p = split_lines(b.drop_last());
        if b.last() == 10u8 {
            p.push(Seq::empty())
        } else {
            p.update(p.len() - 1, p.last().push(b.last()))
        }
    }
}

/// The pieces of a prefix of `b`, all but its last, are the first pieces of `b`.
proof fn lemma_split_prefix(b: Seq<u8>, k: int)
    requires
        0 <= k <= b.len(),
    ensures
        split_lines(b.subrange(0, k)).len() <= split_lines(b).len(),
        forall|j: int|
            0 <= j < split_lines(b.subrange(0, k)).len() - 1 ==> split_lines(b)[j]
                == #[trigger] split_lines(b.subrange(0, k))[j],
    decreases b.len() - k,
{
    if k < b.len() {
        lemma_split_prefix(b, k + 1);
        let longer = b.subrange(0, k + 1);
        assert(longer.drop_last() =~= b.subrange(0, k));
        lemma_split_nonempty(b.subrange(0, k));
        let p = split_lines(b.subrange(0, k));
        assert forall|j: int| 0 <= j < p.len() - 1 implies split_lines(b)[j] == #[trigger] p[j] by {
            assert(split_lines(longer)[j] == p[j]);
        }
    } else {
        assert(b.subrange(0, k) =~= b);
    }
}

proof fn lemma_split_nonempty(b: Seq<u8>)
    ensures
        split_lines(b).len() >= 1,
    decreases b.len(),
{
    if b.len() > 0 {
        lemma_split_nonempty(b.drop_last());
    }
}

/// An empty line, or one that holds a carriage return only.
pub open spec fn is_blank(l: Seq<u8>) -> bool {
    l.len() == 0 || l == seq![13u8]
}

pub open spec fn decode_line(l: Seq<u8>) -> Option<EventV> {
    match json_members(l) {
        Some(ms) => event_of(ms),
        None => None,
    }
}

/// The events of the lines `ls`, blank lines skipped; or the 1-based number of the
/// first line that is neither blank nor an event.
pub open spec fn decode_lines(ls: Seq<Seq<u8>>) -> Result<Seq<EventV>, int>
    decreases ls.len(),
{
    if ls.len() == 0 {
        Ok(Seq::empty())
    } else {
        match decode_lines(ls.drop_last()) {
            Err(n) => Err(n),
            Ok(es) => if is_blank(ls.last()) {
                Ok(es)
            } else {
                match decode_line(ls.last()) {
                    Some(e) => Ok(es.push(e)),
                    None => Err(ls.len() as int),
                }
            },
        }
    }
}

/// Once some lines fail, every longer list that begins with them fails the same way.
proof fn lemma_decode_error_stays(ls: Seq<Seq<u8>>, more: Seq<Seq<u8>>)
    requires
        decode_lines(ls) is Err,
        ls.len() <= more.len(),
        more.subrange(0, ls.len() as int) == ls,
    ensures
        decode_lines(more) == decode_lines(ls),
    decreases more.len(),
{
    if more.len() > ls.len() {
        assert(more.drop_last().subrange(0, ls.len() as int) =~= more.subrange(0, ls.len() as int));
        lemma_decode_error_stays(ls, more.drop_last());
    } else {
        assert(more.subrange(0, ls.len() as int) =~= more);
    }
}

/// The events of a whole captured output, one per non-blank line, in order.
pub open spec fn decode_stream(text: Seq<u8>) -> Result<Seq<EventV>, int> {
    decode_lines(split_lines(text))
}

fn decode_line_exec(piece: &[u8]) -> (r: Option<Event>)
    ensures
        match r {
            Some(e) => decode_line(piece@) == Some(e@),
            None => decode_line(piece@) is None,
        },
{
    match parse_object(piece) {
        Some(ms) => decode_event(&ms),
        None => None,
    }
}

/// Adds the event of one line to `events`; false where the line is neither blank nor
/// an event.
fn take_line(piece: &[u8], events: &mut Vec<Event>) -> (ok: bool)
    ensures
        ok == (is_blank(piece@) || decode_line(piece@) is Some),
        ok && is_blank(piece@) ==> final(events)@ == old(events)@,
        ok && !is_blank(piece@) ==> events_view(final(events)@) == events_view(old(events)@).push(
            decode_line(piece@)->0,
        ),
{
    if piece.len() == 0 || (piece.len() == 1 && piece[0] == 13) {
        assert(piece.len() == 1 ==> piece@ =~= seq![13u8] || piece@[0] != 13);
        return true;
    }
    assert(!is_blank(piece@));
    match decode_line_exec(piece) {
        Some(e) => {
            let ghost before = events@;
            events.push(e);
            assert(events_view(events@) =~= events_view(before).push(decode_line(piece@)->0));
            true
        },
        None => false,
    }
}

/// Decodes the captured output of one harness run into its events, in order. Blank
/// lines are skipped; the first line that is no event fails the whole stream.
pub fn parse_test_results(stdout: &str) -> (r: Result<Vec<Event>, SuityError>)
    requires
        stdout.spec_bytes().len() < usize::MAX,
    ensures
        match r {
            Ok(es) => decode_stream(stdout.spec_bytes()) == Ok::<Seq<EventV>, int>(
                events_view(es@),
            ),
            Err(e) => match decode_stream(stdout.spec_bytes()) {
                Err(n) => e matches SuityError::MalformedEvent { line } && line == n,
                Ok(_) => false,
            },
        },
{
    let b = stdout.as_bytes();
    let mut events: Vec<Event> = Vec::new();
    let mut start: usize = 0;
    let mut line: usize = 1;
    let ghost mut done: Seq<Seq<u8>> = Seq::empty();
    let mut i: usize = 0;
    assert(b@.subrange(0, 0) =~= Seq::<u8>::empty());
    assert(split_lines(Seq::<u8>::empty()) =~= done.push(b@.subrange(0, 0)));
    assert(events_view(events@) =~= Seq::<EventV>::empty());
    while i < b.len()
        invariant
            b@ == stdout.spec_bytes(),
            b@.len() < usize::MAX,
            start <= i <= b@.len(),
            done.len() <= i,
            line == done.len() + 1,
            split_lines(b@.subrange(0, i as int)) == done.push(b@.subrange(start as int, i as int)),
            decode_lines(done) == Ok::<Seq<EventV>, int>(events_view(events@)),
        decreases b@.len() - i,
    {
        let ghost prefix = b@.subrange(0, i + 1);
        assert(prefix.drop_last() =~= b@.subrange(0, i as int));
        if b[i] == 10 {
            let piece = vstd::slice::slice_subrange(b, start, i);
            let ghost next = done.push(piece@);
            assert(next.drop_last() =~= done);
            if !take_line(piece, &mut events) {
                proof {
                    lemma_split_prefix(b@, i + 1);
                    let whole = split_lines(b@);
                    assert(split_lines(prefix) == next.push(Seq::<u8>::empty()));
                    assert forall|j: int| 0 <= j < next.len() implies whole[j] == next[j] by {
                        assert(split_lines(prefix)[j] == next[j]);
                    }
                    assert(whole.subrange(0, next.len() as int) =~= next);
                    lemma_decode_error_stays(next, whole);
                }
                return Err(SuityError::MalformedEvent { line });
            }
            proof {
                done = next;
            }
            start = i + 1;
            line = line + 1;
            assert(b@.subrange(start as int, i + 1) =~= Seq::<u8>::empty());
        } else {
            let ghost p = done.push(b@.subrange(start as int, i as int));
            assert(b@.subrange(start as int, i as int).push(b@[i as int]) =~= b@.subrange(
                start as int,
                i + 1,
            ));
            assert(p.update(p.len() - 1, p.last().push(b@[i as int])) =~= done.push(
                b@.subrange(start as int, i + 1),
            ));
        }
        i = i + 1;
    }
    let piece = vstd::slice::slice_subrange(b, start, b.len());
    let ghost all = done.push(piece@);
    assert(all.drop_last() =~= done);
    assert(b@.subrange(0, b@.len() as int) =~= b@);
    if !take_line(piece, &mut events) {
        return Err(SuityError::MalformedEvent { line });
    }
    Ok(events)
}

/// A failed test event without captured output does not decode.
pub proof fn lemma_failed_test_needs_output(ms: Seq<(Seq<char>, Scalar)>)
    requires
        member(ms, "type"@) == Some(Scalar::Text("test"@)),
        member(ms, "event"@) == Some(Scalar::Text("failed"@)),
        member(ms, "stdout"@) is None,
    ensures
        event_of(ms) is None,
{
    reveal_strlit("test");
    reveal_strlit("suite");
    reveal_strlit("failed");
    reveal_strlit("started");
    reveal_strlit("ok");
    assert("test"@.len() != "suite"@.len());
    assert("failed"@.len() != "started"@.len());
    assert("failed"@.len() != "ok"@.len());
}

} // verus!
