use vstd::prelude::*;
use std::collections::HashMap;

use crate::cli::ExecutionCommand;
use crate::engine::http::{
    method_for, new_request, parsed_members, parsed_url, HttpRequest, HttpRequestView, Method, RequestPlan, all_text, plan_of,
};
use crate::text::{decimal, is_decimal_digit, numeral_value, push_decimal};

verus! {

broadcast use vstd::std_specs::hash::group_hash_axioms;

/// A span of time: whole seconds and the nanoseconds beyond them.
pub struct Duration {
    secs: u64,
    nanos: u32,
}

/// Nanoseconds in one second.
pub const NANOS_PER_SEC: u32 = 1_000_000_000;

/// Nanoseconds in one millisecond.
pub const NANOS_PER_MILLI: u32 = 1_000_000;

impl Duration {
    /// Whole seconds of the span.
    pub closed spec fn secs_of(&self) -> nat {
        self.secs as nat
    }

    /// Nanoseconds of the span beyond its whole seconds.
    pub closed spec fn nanos_of(&self) -> nat {
        self.nanos as nat
    }

    /// The total number of whole milliseconds in the span.
    pub open spec fn millis_of(&self) -> nat {
        self.secs_of() * 1000 + self.nanos_of() / (NANOS_PER_MILLI as nat)
    }

    /// The span of `secs` seconds and `nanos` nanoseconds.
    pub fn new(secs: u64, nanos: u32) -> (d: Duration)
        requires
            nanos < NANOS_PER_SEC,
        ensures
            d.secs_of() == secs,
            d.nanos_of() == nanos,
    {
        Duration { secs, nanos }
    }

    /// The total number of whole milliseconds in the span.
    pub fn as_millis(&self) -> (ms: u128)
        ensures
            ms == self.millis_of(),
    {
        self.secs as u128 * 1000 + (self.nanos / NANOS_PER_MILLI) as u128
    }
}

/// `millis_of` is the number of whole milliseconds in the span: that many
/// milliseconds fit in it, and one more does not.
pub proof fn lemma_millis_are_whole(d: Duration)
    ensures
        d.millis_of() * 1_000_000 <= d.secs_of() * 1_000_000_000 + d.nanos_of(),
        d.secs_of() * 1_000_000_000 + d.nanos_of() < (d.millis_of() + 1) * 1_000_000,
{
    let n = d.nanos_of() as int;
    let q = n / 1_000_000;
    assert(q * 1_000_000 <= n < (q + 1) * 1_000_000) by (nonlinear_arith)
        requires
            q == n / 1_000_000,
            n >= 0,
    ;
}

/// One call of an attack: the response text and how long it took.
pub struct AttackResult {
    response: String,
    time_taken: Duration,
}

/// The text of an attack result: the response on its own line, then the
/// time taken in milliseconds.
pub open spec fn attack_result_text(response: Seq<char>, millis: nat) -> Seq<char> {
    "response: \r\n"@ + response + "\r\ntime_taken: "@ + decimal(millis) + "\r\n"@
}

/// The text of an attack result is, in order: `response: ` and a line
/// break, the response verbatim, a line break and `time_taken: `, the
/// decimal numeral of the milliseconds (digits only, reading back as the
/// milliseconds, without a leading zero unless it is `0`), and a final
/// line break.
pub proof fn lemma_attack_result_text_parts(response: Seq<char>, millis: nat)
    ensures
        ({
            let t = attack_result_text(response, millis);
            let r = response.len() as int;
            &&& t.subrange(0, 12) == "response: \r\n"@
            &&& t.subrange(12, 12 + r) == response
            &&& t.subrange(12 + r, 26 + r) == "\r\ntime_taken: "@
            &&& t.subrange(t.len() - 2, t.len() as int) == "\r\n"@
            &&& numeral_value(t.subrange(26 + r, t.len() - 2)) == millis
            &&& t.len() > 28 + r
            &&& forall|i: int|
                26 + r <= i < t.len() - 2 ==> is_decimal_digit(#[trigger] t[i])
            &&& millis > 0 ==> t[26 + r] != '0'
        }),
{
    reveal_strlit("response: \r\n");
    reveal_strlit("\r\ntime_taken: ");
    reveal_strlit("\r\n");
    crate::text::lemma_decimal_is_numeral(millis);
    let t = attack_result_text(response, millis);
    let r = response.len() as int;
    let d = decimal(millis);
    assert(t.subrange(0, 12) =~= "response: \r\n"@);
    assert(t.subrange(12, 12 + r) =~= response);
    assert(t.subrange(12 + r, 26 + r) =~= "\r\ntime_taken: "@);
    assert(t.subrange(26 + r, t.len() - 2) =~= d);
    assert(t.subrange(t.len() - 2, t.len() as int) =~= "\r\n"@);
    assert forall|i: int| 26 + r <= i < t.len() - 2 implies is_decimal_digit(#[trigger] t[i]) by {
        assert(t[i] == d[i - 26 - r]);
    }
    assert(t[26 + r] == d[0]);
}

impl AttackResult {
    /// The result of a call with this response that took this long.
    pub fn new(response: String, time_taken: Duration) -> (r: AttackResult)
        ensures
            r.response_of() == response@,
            r.millis_of() == time_taken.millis_of(),
    {
        AttackResult { response, time_taken }
    }

    /// The response text.
    pub closed spec fn response_of(&self) -> Seq<char> {
        self.response@
    }

    /// The time the call took, in whole milliseconds.
    pub closed spec fn millis_of(&self) -> nat {
        self.time_taken.millis_of()
    }

    /// The response text.
    pub fn response(&self) -> (r: &str)
        ensures
            r@ == self.response_of(),
    {
        self.response.as_str()
    }

    /// The time the call took, in whole milliseconds.
    pub fn time_taken_millis(&self) -> (ms: u128)
        ensures
            ms == self.millis_of(),
    {
        self.time_taken.as_millis()
    }

    /// The result as text: `response: \r\n<response>\r\ntime_taken: <ms>\r\n`.
    pub fn encode(&self) -> (s: String)
        ensures
            s@ == attack_result_text(self.response_of(), self.millis_of()),
    {
        let mut s = String::from_str("response: \r\n");
        s.append(self.response.as_str());
        s.append("\r\ntime_taken: ");
        push_decimal(&mut s, self.time_taken.as_millis());
        s.append("\r\n");
        s
    }
}

/// Why an attack could not be made or run.
pub enum AttackErr {
    RequestErr(String),
    RequestExecutionErr(String),
}

/// The message of an attack error.
pub open spec fn attack_err_text(e: AttackErr) -> Seq<char> {
    match e {
        AttackErr::RequestErr(s) => "Attack Err msg: failed to create request err: "@ + s@,
        AttackErr::RequestExecutionErr(s) => "Attack Err msg: failed to execute request err: "@
            + s@,
    }
}

/// An attack error's message is a fixed prefix naming what failed,
/// followed by the error's own text verbatim.
pub proof fn lemma_attack_err_text(e: AttackErr)
    ensures
        e matches AttackErr::RequestErr(m) ==> attack_err_text(e)
            == "Attack Err msg: failed to create request err: "@ + m@,
        e matches AttackErr::RequestExecutionErr(m) ==> attack_err_text(e)
            == "Attack Err msg: failed to execute request err: "@ + m@,
{
}

impl AttackErr {
    /// The error's message.
    pub fn to_string(&self) -> (s: String)
        ensures
            s@ == attack_err_text(*self),
    {
        match self {
            AttackErr::RequestErr(m) => {
                let mut s = String::from_str("Attack Err msg: failed to create request err: ");
                s.append(m.as_str());
                s
            },
            AttackErr::RequestExecutionErr(m) => {
                let mut s = String::from_str("Attack Err msg: failed to execute request err: ");
                s.append(m.as_str());
                s
            },
        }
    }
}

/// A load test: one request, sent `run_count` times in rounds of
/// `concurrent_calls` calls.
pub struct Attack {
    http_request: HttpRequest,
    run_count: u32,
    concurrent_calls: u8,
}

/// The abstract view of an `Attack`.
pub struct AttackView {
    pub request: HttpRequestView,
    pub run_count: u32,
    pub concurrent_calls: u8,
}

impl View for Attack {
    type V = AttackView;

    closed spec fn view(&self) -> AttackView {
        AttackView {
            request: self.http_request@,
            run_count: self.run_count,
            concurrent_calls: self.concurrent_calls,
        }
    }
}

/// The same optional text.
fn copy_text(text: &Option<String>) -> (r: Option<String>)
    ensures
        r == *text,
{
    match text {
        Some(t) => Some(t.clone()),
        None => None,
    }
}

/// What `Attack::new` gives for a command and a target URL: the failure
/// to build the request, with its message, or the attack on the request
/// built from the command's method, headers, parameters and body.
pub open spec fn new_attack(command: ExecutionCommand, url: Seq<char>) -> Result<AttackView, Seq<char>> {
    match new_request(method_for(command.method@), url, command.headers, command.params, command.body, None) {
        Ok(r) => Ok(
            AttackView {
                request: r,
                run_count: command.try_count,
                concurrent_calls: command.concurrent_request,
            },
        ),
        Err(e) => Err("failed to create request err:"@ + e),
    }
}

/// An attack is built exactly when the target URL parses.  Then its request
/// has the parsed URL, the method the command names (GET for unknown
/// names), the JSON members of the command's own header text as headers
/// and of its own parameter text as parameters, the command's body, the
/// default timeouts and HTTPS only; it runs `try_count` rounds of
/// `concurrent_request` calls.  Otherwise the error message is the URL's
/// parse error after `failed to create request err:`.
pub proof fn lemma_attack_from_command(command: ExecutionCommand, url: Seq<char>)
    ensures
        new_attack(command, url) is Ok <==> parsed_url(url) is Ok,
        new_attack(command, url) matches Ok(a) ==> {
            &&& Ok::<Seq<char>, Seq<char>>(a.request.url) == parsed_url(url)
            &&& a.request.method == method_for(command.method@)
            &&& a.request.headers == parsed_members(command.headers)
            &&& a.request.params == parsed_members(command.params)
            &&& a.request.body == command.body.deep_view()
            &&& a.request.read_timeout_in_s == 5
            &&& a.request.write_timeout_in_s == 5
            &&& a.request.https_only
            &&& a.run_count == command.try_count
            &&& a.concurrent_calls == command.concurrent_request
        },
        new_attack(command, url) matches Err(m) ==> parsed_url(url) is Err && m
            == "failed to create request err:"@ + parsed_url(url)->Err_0,
{
    crate::engine::http::lemma_new_request_parts(
        method_for(command.method@),
        url,
        command.headers,
        command.params,
        command.body,
        None,
    );
}

/// What an attack built from a command sends: each header and query
/// parameter of its prepared request is the matching JSON member of the
/// command's own header and parameter texts, key and string text
/// unchanged, in order.
pub proof fn lemma_attack_sends_command_members(command: ExecutionCommand, url: Seq<char>)
    ensures
        new_attack(command, url) matches Ok(a) ==> (all_text(a.request.headers) && all_text(
            a.request.params,
        )) ==> {
            &&& parsed_members(command.headers) matches Some(m) ==> {
                &&& plan_of(a.request).headers.len() == m.len()
                &&& forall|i: int|
                    0 <= i < m.len() ==> plan_of(a.request).headers[i].0 == m[i].0 && Some(
                        plan_of(a.request).headers[i].1,
                    ) == #[trigger] m[i].1
            }
            &&& parsed_members(command.headers) is None ==> plan_of(a.request).headers.len() == 0
            &&& parsed_members(command.params) matches Some(m) ==> {
                &&& plan_of(a.request).query.len() == m.len()
                &&& forall|i: int|
                    0 <= i < m.len() ==> plan_of(a.request).query[i].0 == m[i].0 && Some(
                        plan_of(a.request).query[i].1,
                    ) == #[trigger] m[i].1
            }
            &&& parsed_members(command.params) is None ==> plan_of(a.request).query.len() == 0
        },
{
    lemma_attack_from_command(command, url);
    if let Ok(a) = new_attack(command, url) {
        if all_text(a.request.headers) && all_text(a.request.params) {
            crate::engine::http::lemma_plan_keeps_members(a.request);
        }
    }
}

impl Attack {
    /// The attack a command describes on the given URL.  Fails with
    /// `AttackErr::RequestErr` when the request cannot be built.
    pub fn new(command: &ExecutionCommand, url: &str) -> (r: Result<Attack, AttackErr>)
        ensures
            match new_attack(*command, url@) {
                Ok(v) => r matches Ok(a) && a@ == v,
                Err(m) => r matches Err(AttackErr::RequestErr(msg)) && msg@ == m,
            },
    {
        let req = match HttpRequest::new(
            Method::from_str(command.method.as_str()),
            url,
            copy_text(&command.headers),
            copy_text(&command.params),
            copy_text(&command.body),
            None,
        ) {
            Ok(r) => r,
            Err(e) => {
                let mut msg = String::from_str("failed to create request err:");
                msg.append(e.as_str());
                return Err(AttackErr::RequestErr(msg));
            },
        };
        Ok(Attack { http_request: req, run_count: command.try_count, concurrent_calls: command.concurrent_request })
    }

    /// Whether the attack's request can be sent (see
    /// `HttpRequest::is_sendable`).
    pub fn is_sendable(&self) -> (b: bool)
        ensures
            b == (all_text(self@.request.headers) && all_text(self@.request.params)),
    {
        self.http_request.is_sendable()
    }

    /// What sending the attack's request takes.
    pub fn prepare(&self) -> (plan: RequestPlan)
        requires
            all_text(self@.request.headers),
            all_text(self@.request.params),
        ensures
            plan@ == plan_of(self@.request),
    {
        self.http_request.prepare()
    }

    /// A run of this attack that has not started any round.
    pub fn start(&self) -> (run: AttackRun)
        ensures
            run@ == (AttackRunView {
                run_count: self@.run_count,
                concurrent_calls: self@.concurrent_calls,
                rounds_started: 0,
                round_open: false,
                calls: Map::empty(),
            }),
    {
        AttackRun {
            run_count: self.run_count,
            concurrent_calls: self.concurrent_calls,
            progress: Progress { rounds_started: 0, round_open: false },
            call_list: HashMap::new(),
        }
    }
}

/// The outcome of one call: how long it took in milliseconds, the HTTP
/// status of its response, and a result label.
pub struct Execution {
    pub time_taken: u128,
    pub status: u16,
    pub result: String,
}

impl Execution {
    /// The record of a call that got a response with this status after
    /// this many milliseconds; its label is `result`.
    pub fn new(time_taken: u128, status: u16) -> (e: Execution)
        ensures
            e.time_taken == time_taken,
            e.status == status,
            e.result@ == "result"@,
    {
        Execution { time_taken, status, result: String::from_str("result") }
    }
}

/// The calls of one run, by call number, with the request they belong to.
pub struct ExecutionSet {
    pub request: String,
    pub call_list: HashMap<u128, Execution>,
}

impl ExecutionSet {
    /// The set of these calls of this request.
    pub fn new(request: &str, call_list: HashMap<u128, Execution>) -> (set: ExecutionSet)
        ensures
            set.request@ == request@,
            set.call_list@ == call_list@,
    {
        ExecutionSet { request: String::from_str(request), call_list }
    }
}

/// The call numbers of round `round` (counted from zero) of a run with
/// `concurrent_calls` calls per round: the `concurrent_calls` numbers that
/// follow those of all earlier rounds, starting from one.
pub open spec fn round_ids(concurrent_calls: nat, round: nat) -> Seq<int> {
    Seq::new(concurrent_calls, |i: int| (round * concurrent_calls + 1 + i))
}

/// Calls of a run never share a number: two calls that differ in their
/// round or in their place within the round get different numbers.
pub proof fn lemma_call_ids_distinct(concurrent_calls: nat, r1: nat, i: int, r2: nat, j: int)
    requires
        0 <= i < concurrent_calls,
        0 <= j < concurrent_calls,
        r1 != r2 || i != j,
    ensures
        round_ids(concurrent_calls, r1)[i] != round_ids(concurrent_calls, r2)[j],
{
    let cc = concurrent_calls as int;
    assert(r1 * cc + i != r2 * cc + j) by (nonlinear_arith)
        requires
            0 <= i < cc,
            0 <= j < cc,
            r1 != r2 || i != j,
            r1 >= 0,
            r2 >= 0,
    {
        if r1 < r2 {
            assert(r1 * cc + cc <= r2 * cc);
        } else if r2 < r1 {
            assert(r2 * cc + cc <= r1 * cc);
        }
    }
}

/// The first `rounds` rounds of a run number their calls `1` to
/// `rounds * concurrent_calls`: every such number is the number of a call
/// of one of them, and every call of them has such a number.
pub proof fn lemma_call_ids_cover(concurrent_calls: nat, rounds: nat, id: int)
    ensures
        (1 <= id <= rounds * concurrent_calls) <==> exists|r: nat, i: int|
            #![trigger round_ids(concurrent_calls, r)[i]]
            r < rounds && 0 <= i < concurrent_calls && round_ids(concurrent_calls, r)[i] == id,
{
    let cc = concurrent_calls as int;
    if 1 <= id <= rounds * concurrent_calls {
        let r = ((id - 1) / cc) as nat;
        let i = (id - 1) % cc;
        assert(r * cc + i == id - 1 && 0 <= i < cc && r < rounds) by (nonlinear_arith)
            requires
                1 <= id <= rounds * cc,
                cc > 0,
                r == (id - 1) / cc,
                i == (id - 1) % cc,
        ;
        assert(round_ids(concurrent_calls, r)[i] == id);
    }
    assert forall|r: nat, i: int|
        r < rounds && 0 <= i < concurrent_calls && #[trigger] round_ids(concurrent_calls, r)[i] == id
    implies 1 <= id <= rounds * concurrent_calls by {
        assert(r * cc + i < rounds * cc) by (nonlinear_arith)
            requires
                r < rounds,
                0 <= i < cc,
        {
            assert(r * cc + cc <= rounds * cc);
        }
    }
}

/// The state of a run of an attack: how many rounds have been started,
/// whether the last of them is still open (its calls not all finished and
/// received), and the calls recorded so far.
pub struct AttackRun {
    run_count: u32,
    concurrent_calls: u8,
    progress: Progress,
    call_list: HashMap<u128, Execution>,
}

/// How far a run has got: the rounds started, and whether the last of them
/// is open.
#[derive(Clone, Copy)]
struct Progress {
    rounds_started: u32,
    round_open: bool,
}

/// The abstract view of an `AttackRun`.
pub struct AttackRunView {
    pub run_count: u32,
    pub concurrent_calls: u8,
    pub rounds_started: nat,
    pub round_open: bool,
    pub calls: Map<u128, Execution>,
}

impl AttackRunView {
    /// The same run with one more round started, and open.
    pub open spec fn one_more_round(self) -> AttackRunView {
        AttackRunView { rounds_started: self.rounds_started + 1, round_open: true, ..self }
    }

    /// The same run with its open round closed.
    pub open spec fn round_closed(self) -> AttackRunView {
        AttackRunView { round_open: false, ..self }
    }

    /// The same run with the outcome of call `id` recorded.
    pub open spec fn with_call(self, id: u128, execution: Execution) -> AttackRunView {
        AttackRunView { calls: self.calls.insert(id, execution), ..self }
    }

    /// The number of rounds that are started and closed.
    pub open spec fn closed_rounds(self) -> nat {
        if self.round_open {
            (self.rounds_started - 1) as nat
        } else {
            self.rounds_started
        }
    }

    /// Call `id` belongs to the open round.
    pub open spec fn in_open_round(self, id: int) -> bool {
        &&& self.round_open
        &&& (self.rounds_started - 1) * self.concurrent_calls < id
        &&& id <= self.rounds_started * self.concurrent_calls
    }

    /// Every call of the open round has been recorded.
    pub open spec fn open_round_recorded(self) -> bool {
        forall|id: u128| #[trigger] self.in_open_round(id as int) ==> self.calls.contains_key(id)
    }

    /// The numbers of the calls of the first `rounds` rounds.
    pub open spec fn numbers_up_to(self, rounds: nat) -> Set<u128> {
        Set::new(|id: u128| 1 <= id <= rounds * self.concurrent_calls)
    }
}

/// Starting a round counts one more round and opens it, keeping the
/// recorded calls; closing a round keeps everything but the open flag;
/// recording a call sets that call's outcome and leaves every other call
/// and the rounds alone.
pub proof fn lemma_run_steps(v: AttackRunView, id: u128, e: Execution)
    ensures
        v.one_more_round().rounds_started == v.rounds_started + 1,
        v.one_more_round().round_open,
        v.one_more_round().calls == v.calls,
        v.one_more_round().run_count == v.run_count,
        v.one_more_round().concurrent_calls == v.concurrent_calls,
        !v.round_closed().round_open,
        v.round_closed().rounds_started == v.rounds_started,
        v.round_closed().calls == v.calls,
        v.round_closed().run_count == v.run_count,
        v.round_closed().concurrent_calls == v.concurrent_calls,
        v.with_call(id, e).calls.contains_key(id),
        v.with_call(id, e).calls[id] == e,
        forall|k: u128| k != id ==> (#[trigger] v.with_call(id, e).calls.contains_key(k)
            == v.calls.contains_key(k)) && (v.calls.contains_key(k) ==> v.with_call(id, e).calls[k]
            == v.calls[k]),
        v.with_call(id, e).rounds_started == v.rounds_started,
        v.with_call(id, e).round_open == v.round_open,
        v.with_call(id, e).run_count == v.run_count,
        v.with_call(id, e).concurrent_calls == v.concurrent_calls,
{
}

impl View for AttackRun {
    type V = AttackRunView;

    closed spec fn view(&self) -> AttackRunView {
        AttackRunView {
            run_count: self.run_count,
            concurrent_calls: self.concurrent_calls,
            rounds_started: self.progress.rounds_started as nat,
            round_open: self.progress.round_open,
            calls: self.call_list@,
        }
    }
}

impl AttackRun {
    /// No more rounds are started than the attack has; only a started
    /// round can be open; every recorded call belongs to a started round,
    /// and every call of a closed round is recorded.
    #[verifier::type_invariant]
    closed spec fn well_formed(self) -> bool {
        let started = self.progress.rounds_started as int;
        let closed = if self.progress.round_open { started - 1 } else { started };
        let cc = self.concurrent_calls as int;
        &&& self.progress.rounds_started <= self.run_count
        &&& self.progress.round_open ==> self.progress.rounds_started > 0
        &&& forall|id: u128| #[trigger] self.call_list@.contains_key(id) ==> 1 <= id <= started * cc
        &&& forall|id: u128|
            #![trigger self.call_list@.contains_key(id)]
            1 <= id <= closed * cc ==> self.call_list@.contains_key(id)
    }

    /// Whether the last round started is still open.
    pub fn is_round_open(&self) -> (b: bool)
        ensures
            b == self@.round_open,
            b ==> self@.rounds_started > 0,
    {
        proof {
            use_type_invariant(self);
        }
        self.progress.round_open
    }

    /// Whether call `id` belongs to the open round.
    pub fn in_open_round(&self, id: u128) -> (b: bool)
        ensures
            b == self@.in_open_round(id as int),
    {
        proof {
            use_type_invariant(self);
        }
        if !self.progress.round_open {
            return false;
        }
        let cc: u128 = self.concurrent_calls as u128;
        let r: u128 = self.progress.rounds_started as u128;
        proof {
            assert(r * cc <= 0xffffffff * 255) by (nonlinear_arith)
                requires
                    r <= 0xffffffff,
                    cc <= 255,
            ;
            assert((r - 1) * cc <= r * cc) by (nonlinear_arith)
                requires
                    r >= 1,
            ;
        }
        (r - 1) * cc < id && id <= r * cc
    }

    /// Whether every call of the open round has been recorded.
    pub fn is_round_recorded(&self) -> (b: bool)
        ensures
            b == (self@.round_open && self@.open_round_recorded()),
    {
        proof {
            use_type_invariant(self);
        }
        if !self.progress.round_open {
            return false;
        }
        let cc: u128 = self.concurrent_calls as u128;
        let r: u128 = self.progress.rounds_started as u128;
        proof {
            assert(r * cc <= 0xffffffff * 255) by (nonlinear_arith)
                requires
                    r <= 0xffffffff,
                    cc <= 255,
            ;
            assert((r - 1) * cc + cc == r * cc) by (nonlinear_arith)
                requires
                    r >= 1,
            ;
        }
        let first: u128 = (r - 1) * cc;
        let mut k: u128 = 0;
        while k < cc
            invariant
                0 <= k <= cc,
                first + cc == r * cc,
                r * cc <= 0xffffffff * 255,
                self@.round_open,
                first == (self@.rounds_started - 1) * self@.concurrent_calls,
                r == self@.rounds_started,
                cc == self@.concurrent_calls,
                forall|id: u128| first < id <= first + k ==> #[trigger] self@.calls.contains_key(id),
            decreases cc - k,
        {
            let id: u128 = first + 1 + k;
            if !self.call_list.contains_key(&id) {
                assert(self@.in_open_round(id as int));
                return false;
            }
            k = k + 1;
        }
        assert forall|id: u128| #[trigger] self@.in_open_round(id as int) implies self@.calls.contains_key(
            id,
        ) by {}
        true
    }

    /// Closes the open round once all its calls have finished and their
    /// outcomes have been recorded.  Only then can the next round start.
    pub fn close_round(&mut self)
        requires
            old(self)@.round_open,
            old(self)@.open_round_recorded(),
        ensures
            final(self)@ == old(self)@.round_closed(),
    {
        proof {
            use_type_invariant(&*self);
            let v = self@;
            let cc = self.concurrent_calls as int;
            let r = self.progress.rounds_started as int;
            assert forall|id: u128| 1 <= id <= r * cc implies #[trigger] self.call_list@.contains_key(
                id,
            ) by {
                if id > (r - 1) * cc {
                    assert(v.in_open_round(id as int));
                }
            }
        }
        self.progress = Progress { rounds_started: self.progress.rounds_started, round_open: false };
    }

    /// Whether every round of the run has been started.  A run never
    /// starts more rounds than its attack has.
    pub fn is_done(&self) -> (b: bool)
        ensures
            b == (self@.rounds_started == self@.run_count),
            self@.rounds_started <= self@.run_count,
    {
        proof {
            use_type_invariant(self);
        }
        self.progress.rounds_started >= self.run_count
    }

    /// Starts the next round, if the run has one left, and gives the
    /// numbers of its calls.  The round before must have been closed: no
    /// call of a round starts while a call of an earlier round may still
    /// be running or unrecorded.
    pub fn next_round(&mut self) -> (ids: Option<Vec<u128>>)
        requires
            !old(self)@.round_open,
        ensures
            old(self)@.rounds_started < old(self)@.run_count ==> {
                &&& ids matches Some(v) && v@.map_values(|x: u128| x as int) == round_ids(
                    old(self)@.concurrent_calls as nat,
                    old(self)@.rounds_started,
                )
                &&& final(self)@ == old(self)@.one_more_round()
            },
            old(self)@.rounds_started >= old(self)@.run_count ==> {
                &&& ids is None
                &&& final(self)@ == old(self)@
            },
    {
        proof {
            use_type_invariant(&*self);
        }
        if self.progress.rounds_started >= self.run_count {
            return None;
        }
        let cc: u8 = self.concurrent_calls;
        proof {
            assert(self.progress.rounds_started as int * cc as int <= 0xffffffff * 255) by (nonlinear_arith)
                requires
                    self.progress.rounds_started <= 0xffffffff,
                    cc <= 255,
            ;
            assert(self.progress.rounds_started as int * cc as int <= (self.progress.rounds_started as int + 1)
                * cc as int) by (nonlinear_arith);
        }
        let first: u128 = self.progress.rounds_started as u128 * cc as u128;
        let mut ids: Vec<u128> = Vec::new();
        let mut k: u8 = 0;
        while k < cc
            invariant
                0 <= k <= cc,
                first <= 0xffffffff * 255,
                ids@.len() == k,
                forall|i: int| 0 <= i < k ==> ids@[i] as int == first + 1 + i,
            decreases cc - k,
        {
            ids.push(first + 1 + k as u128);
            k = k + 1;
        }
        self.progress = Progress { rounds_started: self.progress.rounds_started + 1, round_open: true };
        proof {
            assert(ids@.map_values(|x: u128| x as int) =~= round_ids(
                cc as nat,
                (self.progress.rounds_started - 1) as nat,
            ));
        }
        Some(ids)
    }

    /// Records the outcome of a call of the open round under its number; a
    /// later record for the same number replaces an earlier one.
    pub fn record(self, id: u128, execution: Execution) -> (run: AttackRun)
        requires
            self@.in_open_round(id as int),
        ensures
            run@ == self@.with_call(id, execution),
    {
        proof {
            use_type_invariant(&self);
        }
        proof {
            let r = self@.rounds_started as int;
            let cc = self@.concurrent_calls as int;
            assert((r - 1) * cc >= 0) by (nonlinear_arith)
                requires
                    r >= 1,
                    cc >= 0,
            ;
        }
        let AttackRun { run_count, concurrent_calls, progress, mut call_list } = self;
        call_list.insert(id, execution);
        AttackRun { run_count, concurrent_calls, progress, call_list }
    }

    /// The calls recorded in the run, once no round is open, as the
    /// execution set of request `req`.  Its call numbers are exactly those
    /// of the rounds started: `1` to `rounds_started * concurrent_calls`.
    pub fn finish(self) -> (set: ExecutionSet)
        requires
            !self@.round_open,
        ensures
            set.request@ == "req"@,
            set.call_list@ == self@.calls,
            set.call_list@.dom() == self@.numbers_up_to(self@.rounds_started),
    {
        proof {
            use_type_invariant(&self);
            assert(self@.calls.dom() =~= self@.numbers_up_to(self@.rounds_started));
        }
        ExecutionSet::new("req", self.call_list)
    }
}

} // verus!
