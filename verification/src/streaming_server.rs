//! Requests to run a command in a container, or to attach to it.

use vstd::prelude::*;

use crate::resources::{ObjectMeta, Pod};
use crate::text;

verus! {

/// What a request asks for.
#[derive(Debug, Clone, Default, PartialEq)]
pub struct ExecParams {
    /// The command and its arguments.
    pub command: Vec<String>,
    /// Connect stdin.
    pub stdin: bool,
    /// Stream stdout.
    pub stdout: bool,
    /// Stream stderr.
    pub stderr: bool,
    /// Allocate a terminal.
    pub tty: bool,
}

/// What a request asks for, as texts.
#[verifier::ext_equal]
pub struct ParamsView {
    pub command: Seq<Seq<char>>,
    pub stdin: bool,
    pub stdout: bool,
    pub stderr: bool,
    pub tty: bool,
}

impl View for ExecParams {
    type V = ParamsView;

    open spec fn view(&self) -> ParamsView {
        ParamsView {
            command: text::strs(self.command@),
            stdin: self.stdin,
            stdout: self.stdout,
            stderr: self.stderr,
            tty: self.tty,
        }
    }
}

/// A text with the capital ASCII letters made small.
pub open spec fn ascii_lowered(s: Seq<char>) -> Seq<char> {
    Seq::new(s.len(), |i: int| text::ascii_lower(s[i]))
}

/// Whether a value switches something on: `true` in any letter case, or `1`.
pub open spec fn switches_on(s: Seq<char>) -> bool {
    ascii_lowered(s) == "true"@ || ascii_lowered(s) == "1"@
}

/// The value of a hexadecimal digit.
pub open spec fn hex_value(c: char) -> Option<int> {
    if '0' <= c <= '9' {
        Some(c as int - 48)
    } else if 'A' <= c <= 'F' {
        Some(c as int - 55)
    } else if 'a' <= c <= 'f' {
        Some(c as int - 87)
    } else {
        None
    }
}

/// The value of two hexadecimal digits.
pub open spec fn hex_pair(a: char, b: char) -> Option<int> {
    match (hex_value(a), hex_value(b)) {
        (Some(high), Some(low)) => Some(16 * high + low),
        _ => None,
    }
}

/// What a text stands for, from the given character on: a plus sign is a
/// space, a percent sign with two hexadecimal digits behind it is the character
/// with that number, and every other character is itself.
pub open spec fn decoded(s: Seq<char>, from: int) -> Seq<char>
    decreases s.len() - from,
{
    if from < 0 || from >= s.len() {
        Seq::empty()
    } else if s[from] == '+' {
        seq![' '] + decoded(s, from + 1)
    } else if s[from] == '%' && from + 2 < s.len() && hex_pair(s[from + 1], s[from + 2]) is Some {
        seq![hex_pair(s[from + 1], s[from + 2])->0 as char] + decoded(s, from + 3)
    } else {
        seq![s[from]] + decoded(s, from + 1)
    }
}

fn hex_digit(c: char) -> (r: Option<u8>)
    ensures
        match r {
            Some(v) => hex_value(c) == Some(v as int) && v < 16,
            None => hex_value(c) is None,
        },
{
    if '0' <= c && c <= '9' {
        Some(c as u8 - 48)
    } else if 'A' <= c && c <= 'F' {
        Some(c as u8 - 55)
    } else if 'a' <= c && c <= 'f' {
        Some(c as u8 - 87)
    } else {
        None
    }
}

fn two_digits(a: char, b: char) -> (r: Option<u8>)
    ensures
        match r {
            Some(v) => hex_pair(a, b) == Some(v as int),
            None => hex_pair(a, b) is None,
        },
{
    match hex_digit(b) {
        Some(low) => match hex_digit(a) {
            Some(high) => Some(16 * high + low),
            None => None,
        },
        None => None,
    }
}

/// Decodes a value of a query.
pub fn decode_simple(s: &str) -> (r: String)
    ensures
        r@ == decoded(s@, 0),
{
    let v = text::chars_of(s);
    let mut out = String::new();
    let mut i: usize = 0;
    assert(out@ =~= Seq::<char>::empty());
    assert(Seq::<char>::empty() + decoded(v@, 0) =~= decoded(v@, 0));
    while i < v.len()
        invariant
            i <= v@.len(),
            v@ == s@,
            out@ + decoded(v@, i as int) == decoded(v@, 0),
        decreases v@.len() - i,
    {
        let ghost before = out@;
        let mut c: char = v[i];
        let mut next: usize = i + 1;
        if v[i] == '+' {
            c = ' ';
        } else if v[i] == '%' && v.len() - i > 2 {
            if let Some(n) = two_digits(v[i + 1], v[i + 2]) {
                c = n as char;
                next = i + 3;
            }
        }
        assert(decoded(v@, i as int) == seq![c] + decoded(v@, next as int));
        out.push(c);
        assert(before + (seq![c] + decoded(v@, next as int)) =~= before.push(c) + decoded(
            v@,
            next as int,
        ));
        i = next;
    }
    assert(out@ + Seq::<char>::empty() =~= out@);
    out
}

/// Whether a value switches something on: `true` in any letter case, or `1`.
pub fn is_true(s: &str) -> (r: bool)
    ensures
        r == switches_on(s@),
{
    let v = text::chars_of(s);
    let mut lowered: Vec<char> = Vec::new();
    let mut i: usize = 0;
    while i < v.len()
        invariant
            i <= v@.len(),
            v@ == s@,
            lowered@ == ascii_lowered(s@).take(i as int),
        decreases v@.len() - i,
    {
        let c = v[i];
        let low: char = if 'A' <= c && c <= 'Z' {
            ((c as u8) + 32) as char
        } else {
            c
        };
        lowered.push(low);
        assert(ascii_lowered(s@).take(i + 1) =~= ascii_lowered(s@).take(i as int).push(
            ascii_lowered(s@)[i as int],
        ));
        i = i + 1;
    }
    assert(ascii_lowered(s@).take(v@.len() as int) =~= ascii_lowered(s@));
    let t = text::text_of(&lowered);
    text::same_text(t.as_str(), "true") || text::same_text(t.as_str(), "1")
}

/// The key of a part of a query: what stands before its first equals sign.
pub open spec fn key_of(part: Seq<char>) -> Seq<char> {
    match text::char_index_from(part, '=', 0) {
        Some(i) => part.take(i),
        None => part,
    }
}

/// The value of a part of a query: what stands behind its first equals sign,
/// decoded.
pub open spec fn decoded_value(part: Seq<char>) -> Seq<char> {
    match text::char_index_from(part, '=', 0) {
        Some(i) => decoded(part.skip(i + 1), 0),
        None => Seq::empty(),
    }
}

/// What a request asks for with one more part of its query.
pub open spec fn with_part(p: ParamsView, part: Seq<char>) -> ParamsView {
    let key = key_of(part);
    let value = decoded_value(part);
    if key == "command"@ {
        if value.len() > 0 {
            ParamsView { command: p.command.push(value), ..p }
        } else {
            p
        }
    } else if key == "stdin"@ {
        ParamsView { stdin: switches_on(value), ..p }
    } else if key == "stdout"@ {
        ParamsView { stdout: switches_on(value), ..p }
    } else if key == "stderr"@ {
        ParamsView { stderr: switches_on(value), ..p }
    } else if key == "tty"@ {
        ParamsView { tty: switches_on(value), ..p }
    } else {
        p
    }
}

/// A request that asks for nothing.
pub open spec fn no_params() -> ParamsView {
    ParamsView {
        command: Seq::empty(),
        stdin: false,
        stdout: false,
        stderr: false,
        tty: false,
    }
}

/// What a request asks for with the parts of its query.
pub open spec fn params_of(parts: Seq<Seq<char>>) -> ParamsView
    decreases parts.len(),
{
    if parts.len() == 0 {
        no_params()
    } else {
        with_part(params_of(parts.drop_last()), parts.last())
    }
}

fn split_part(part: &str) -> (r: (String, String))
    ensures
        r.0@ == key_of(part@),
        r.1@ == decoded_value(part@),
{
    let v = text::chars_of(part);
    let n: usize = v.len();
    proof {
        text::lemma_char_index_from(part@, '=', 0);
    }
    match text::find_char_from(&v, '=', 0) {
        Some(i) => {
            let value = part.substring_char(i + 1, n);
            assert(value@ =~= part@.skip(i + 1));
            (part.substring_char(0, i).to_owned(), decode_simple(value))
        },
        None => (part.to_owned(), String::new()),
    }
}

impl ExecParams {
    /// Reads what a request asks for from its query. Every `command` adds one
    /// argument, and of the other keys the last one counts.
    pub fn from_query(query: &str) -> (r: Self)
        ensures
            r@ == params_of(text::split_on(query@, '&')),
    {
        let parts = text::split_char(query, '&');
        let ghost all = text::strs(parts@);
        let mut params = ExecParams {
            command: Vec::new(),
            stdin: false,
            stdout: false,
            stderr: false,
            tty: false,
        };
        let mut i: usize = 0;
        assert(all.take(0) =~= Seq::<Seq<char>>::empty());
        assert(params@ =~= no_params());
        while i < parts.len()
            invariant
                i <= parts@.len(),
                all == text::strs(parts@),
                params@ == params_of(all.take(i as int)),
            decreases parts@.len() - i,
        {
            proof {
                assert(all.take(i + 1).drop_last() =~= all.take(i as int));
                assert(all.take(i + 1).last() == all[i as int]);
            }
            let ghost before = params@;
            let (key, value) = split_part(parts[i].as_str());
            let key = key.as_str();
            if text::same_text(key, "command") {
                if value.as_str().unicode_len() > 0 {
                    text::push_text(&mut params.command, value);
                }
            } else if text::same_text(key, "stdin") {
                params.stdin = is_true(value.as_str());
            } else if text::same_text(key, "stdout") {
                params.stdout = is_true(value.as_str());
            } else if text::same_text(key, "stderr") {
                params.stderr = is_true(value.as_str());
            } else if text::same_text(key, "tty") {
                params.tty = is_true(value.as_str());
            }
            assert(params@ =~= with_part(before, all[i as int]));
            i = i + 1;
        }
        assert(all.take(parts@.len() as int) =~= all);
        params
    }
}

// ---------------------------------------------------------------------------
// The runtime
// ---------------------------------------------------------------------------

/// The container that a request is about.
#[derive(Debug, Clone, Default, PartialEq)]
pub struct ExecPath3 {
    pub namespace: String,
    pub pod: String,
    pub container: String,
}

/// The container that a request is about, with the identity of its pod.
#[derive(Debug, Clone, Default, PartialEq)]
pub struct ExecPath4 {
    pub namespace: String,
    pub pod: String,
    pub uid: String,
    pub container: String,
}

impl ExecPath3 {
    /// The same container, of whichever pod has the name.
    pub fn any_uid(self) -> (r: ExecPath4)
        ensures
            r.namespace == self.namespace,
            r.pod == self.pod,
            r.uid@.len() == 0,
            r.container == self.container,
    {
        ExecPath4 {
            namespace: self.namespace,
            pod: self.pod,
            uid: String::new(),
            container: self.container,
        }
    }
}

/// The pod by which the container of a request is looked for.
pub fn pod_for_resolve(namespace: &str, pod_name: &str, uid: &str) -> (r: Pod)
    ensures
        r.metadata.name@ == pod_name@,
        text::opt_text(r.metadata.namespace) == Some(namespace@),
        r.metadata.uid@ == uid@,
        r.metadata.annotations is None,
        r.metadata.deletion_timestamp is None,
        r.spec is None,
        r.status is None,
{
    Pod {
        metadata: ObjectMeta {
            name: pod_name.to_owned(),
            namespace: Some(namespace.to_owned()),
            uid: uid.to_owned(),
            annotations: None,
            deletion_timestamp: None,
        },
        spec: None,
        status: None,
    }
}

/// The streams that the runtime is asked for.
#[derive(Debug, Clone, Copy, PartialEq, Eq, Structural)]
pub struct Streams {
    pub tty: bool,
    pub stdin: bool,
    pub stdout: bool,
    pub stderr: bool,
}

/// The streams that the runtime is asked for: the output always, and the error
/// stream unless there is a terminal, which carries both.
pub open spec fn asked_streams(p: ParamsView) -> Streams {
    Streams { tty: p.tty, stdin: p.stdin, stdout: true, stderr: !p.tty }
}

/// The streams that the runtime is asked for.
pub fn streams(params: &ExecParams) -> (r: Streams)
    ensures
        r == asked_streams(params@),
{
    Streams { tty: params.tty, stdin: params.stdin, stdout: true, stderr: !params.tty }
}

/// A text as [`str`]'s `Debug` writes it.
pub uninterp spec fn quoted_text(s: Seq<char>) -> Seq<char>;

/// Whether a character is written as it is: a printable ASCII character that is
/// neither a quotation mark nor a backslash.
pub open spec fn is_plain(c: char) -> bool {
    ' ' <= c <= '~' && c != '"' && c != '\\'
}

/// Calls `Debug` of [`str`]: what it writes is a function of the text. Plain
/// characters are written as they are, between quotation marks.
#[verifier::external_body]
pub(crate) fn quoted(s: &str) -> (r: String)
    ensures
        r@ == quoted_text(s@),
        (forall|i: int| 0 <= i < s@.len() ==> is_plain(#[trigger] s@[i])) ==> r@ == seq!['"'] + s@
            + seq!['"'],
{
    format!("{:?}", s)
}

/// Why [`http::Uri`] does not take a text, where it does not.
pub uninterp spec fn uri_error(s: Seq<char>) -> Option<Seq<char>>;

/// Calls [`http::Uri`]'s `from_str`: whether it takes the text, and with which
/// message it refuses it, is a function of the text. It refuses the empty one.
#[verifier::external_body]
pub(crate) fn uri_refused(s: &str) -> (r: Option<String>)
    ensures
        text::opt_text(r) == uri_error(s@),
        s@.len() == 0 ==> r is Some,
{
    s.parse::<http::Uri>().err().map(|e| e.to_string())
}

/// An answer that refuses a request.
#[derive(Debug, Clone, PartialEq)]
pub struct Refusal {
    pub status: u16,
    pub message: String,
}

/// What the runtime that serves streams is asked for: to run a command in a
/// container, or to attach to it.
#[derive(Debug, Clone, PartialEq)]
pub struct StreamRequest {
    pub container_id: String,
    /// The command; none to attach.
    pub command: Option<Vec<String>>,
    pub streams: Streams,
}

/// What is being done towards the streams of a container.
#[derive(Debug, Clone, PartialEq)]
pub enum StreamPhase {
    /// The runtime is connected to.
    Connect,
    /// The runtime is asked which container it is.
    Resolve,
    /// The runtime is asked for the streams.
    Open(StreamRequest),
    /// The place of the streams is sought on this node.
    Rewrite(String),
    /// The request is handed on to this place.
    Proxy(String),
    /// The request is refused.
    Refused(Refusal),
}

/// What came of a step towards the streams of a container.
#[derive(Debug, PartialEq)]
pub enum StreamEvent {
    Connected(Result<(), String>),
    /// The container that the runtime knows, if any.
    Resolved(Result<Option<String>, String>),
    /// Where the runtime serves the streams.
    Opened(Result<String, String>),
    /// The same place, on this node.
    Rewritten(Result<String, String>),
}

/// What is being done towards the streams of a container, as texts.
#[verifier::ext_equal]
pub enum StreamView {
    Connect,
    Resolve,
    Open { container_id: Seq<char>, command: Option<Seq<Seq<char>>>, streams: Streams },
    Rewrite(Seq<char>),
    Proxy(Seq<char>),
    Refused { status: int, message: Seq<char> },
}

impl View for StreamPhase {
    type V = StreamView;

    open spec fn view(&self) -> StreamView {
        match *self {
            StreamPhase::Connect => StreamView::Connect,
            StreamPhase::Resolve => StreamView::Resolve,
            StreamPhase::Open(r) => StreamView::Open {
                container_id: r.container_id@,
                command: match r.command {
                    Some(c) => Some(text::strs(c@)),
                    None => None,
                },
                streams: r.streams,
            },
            StreamPhase::Rewrite(url) => StreamView::Rewrite(url@),
            StreamPhase::Proxy(target) => StreamView::Proxy(target@),
            StreamPhase::Refused(r) => StreamView::Refused {
                status: r.status as int,
                message: r.message@,
            },
        }
    }
}

/// A request that is refused because something has failed.
pub open spec fn failed_stream(message: Seq<char>) -> StreamView {
    StreamView::Refused { status: 500, message }
}

/// A request for a container that is not there.
pub open spec fn no_container(path: ExecPath4) -> StreamView {
    StreamView::Refused {
        status: 404,
        message: "container "@ + quoted_text(path.container@) + " not found in pod "@
            + quoted_text(path.pod@) + " (namespace "@ + quoted_text(path.namespace@) + ")"@,
    }
}

/// What follows once the place of the streams is known: the request is handed
/// on, unless the place is refused.
pub open spec fn handed_on(target: Seq<char>, refused: Option<Seq<char>>) -> StreamView {
    match refused {
        Some(message) => failed_stream(message),
        None => StreamView::Proxy(target),
    }
}

/// What is being done towards the streams of a container after an event. An
/// event that does not belong to what is being done changes nothing.
pub open spec fn stream_next(
    attach: bool,
    path: ExecPath4,
    params: ParamsView,
    phase: StreamView,
    event: StreamEvent,
) -> StreamView {
    match (phase, event) {
        (StreamView::Connect, StreamEvent::Connected(r)) => match r {
            Ok(_) => StreamView::Resolve,
            Err(e) => failed_stream(e@),
        },
        (StreamView::Resolve, StreamEvent::Resolved(r)) => match r {
            Ok(Some(id)) => StreamView::Open {
                container_id: id@,
                command: if attach {
                    None
                } else {
                    Some(params.command)
                },
                streams: asked_streams(params),
            },
            Ok(None) => no_container(path),
            Err(e) => failed_stream(e@),
        },
        (StreamView::Open { .. }, StreamEvent::Opened(r)) => match r {
            Ok(url) => StreamView::Rewrite(url@),
            Err(e) => failed_stream(e@),
        },
        (StreamView::Rewrite(_), StreamEvent::Rewritten(r)) => match r {
            Ok(target) => handed_on(target@, uri_error(target@)),
            Err(e) => failed_stream(e@),
        },
        (p, _) => p,
    }
}

/// What follows once the place of the streams is known, and whether it is
/// refused.
pub fn hand_on(target: String, refused: Option<String>) -> (r: StreamPhase)
    ensures
        r@ == handed_on(target@, text::opt_text(refused)),
{
    match refused {
        Some(message) => StreamPhase::Refused(Refusal { status: 500, message }),
        None => StreamPhase::Proxy(target),
    }
}

fn fail_stream(message: String) -> (r: StreamPhase)
    ensures
        r@ == failed_stream(message@),
{
    StreamPhase::Refused(Refusal { status: 500, message })
}

fn refuse_container(path: &ExecPath4) -> (r: StreamPhase)
    ensures
        r@ == no_container(*path),
{
    let container = quoted(path.container.as_str());
    let pod = quoted(path.pod.as_str());
    let namespace = quoted(path.namespace.as_str());
    StreamPhase::Refused(
        Refusal {
            status: 404,
            message: "container ".to_owned().concat(container.as_str()).concat(
                " not found in pod ",
            ).concat(pod.as_str()).concat(" (namespace ").concat(namespace.as_str()).concat(")"),
        },
    )
}

fn stream_turn(
    attach: bool,
    path: &ExecPath4,
    params: &ExecParams,
    phase: StreamPhase,
    event: StreamEvent,
) -> (r: StreamPhase)
    ensures
        r@ == stream_next(attach, *path, params@, phase@, event),
{
    match phase {
        StreamPhase::Connect => match event {
            StreamEvent::Connected(Ok(_)) => StreamPhase::Resolve,
            StreamEvent::Connected(Err(e)) => fail_stream(e),
            _ => StreamPhase::Connect,
        },
        StreamPhase::Resolve => match event {
            StreamEvent::Resolved(Ok(Some(container_id))) => {
                let command = if attach {
                    None
                } else {
                    Some(text::copy_list(&params.command))
                };
                StreamPhase::Open(
                    StreamRequest { container_id, command, streams: streams(params) },
                )
            },
            StreamEvent::Resolved(Ok(None)) => refuse_container(path),
            StreamEvent::Resolved(Err(e)) => fail_stream(e),
            _ => StreamPhase::Resolve,
        },
        StreamPhase::Open(request) => match event {
            StreamEvent::Opened(Ok(url)) => StreamPhase::Rewrite(url),
            StreamEvent::Opened(Err(e)) => fail_stream(e),
            _ => StreamPhase::Open(request),
        },
        StreamPhase::Rewrite(url) => match event {
            StreamEvent::Rewritten(Ok(target)) => {
                let refused = uri_refused(target.as_str());
                hand_on(target, refused)
            },
            StreamEvent::Rewritten(Err(e)) => fail_stream(e),
            _ => StreamPhase::Rewrite(url),
        },
        StreamPhase::Proxy(target) => StreamPhase::Proxy(target),
        StreamPhase::Refused(r) => StreamPhase::Refused(r),
    }
}

/// The next step towards running a command in a container, after an event.
pub fn exec_proxy(
    path: &ExecPath4,
    params: &ExecParams,
    phase: StreamPhase,
    event: StreamEvent,
) -> (r: StreamPhase)
    ensures
        r@ == stream_next(false, *path, params@, phase@, event),
{
    stream_turn(false, path, params, phase, event)
}

/// The next step towards attaching to a container, after an event.
pub fn attach_proxy(
    path: &ExecPath4,
    params: &ExecParams,
    phase: StreamPhase,
    event: StreamEvent,
) -> (r: StreamPhase)
    ensures
        r@ == stream_next(true, *path, params@, phase@, event),
{
    stream_turn(true, path, params, phase, event)
}

// ---------------------------------------------------------------------------
// Laws
// ---------------------------------------------------------------------------

/// What is being done after a row of events.
pub open spec fn stream_after(
    attach: bool,
    path: ExecPath4,
    params: ParamsView,
    events: Seq<StreamEvent>,
) -> StreamView
    decreases events.len(),
{
    if events.len() == 0 {
        StreamView::Connect
    } else {
        stream_next(
            attach,
            path,
            params,
            stream_after(attach, path, params, events.drop_last()),
            events.last(),
        )
    }
}

/// Whether the runtime named the container in one of the events.
pub open spec fn was_named(events: Seq<StreamEvent>) -> bool {
    exists|i: int|
        0 <= i < events.len() && (#[trigger] events[i] matches StreamEvent::Resolved(Ok(Some(_))))
}

/// A request is handed on only for a container that the runtime has named, and
/// only to a place that is a valid one.
pub proof fn law_only_named_containers_are_streamed(
    attach: bool,
    path: ExecPath4,
    params: ParamsView,
    events: Seq<StreamEvent>,
)
    ensures
        stream_after(attach, path, params, events) matches StreamView::Proxy(target) ==> was_named(
            events,
        ) && uri_error(target) is None,
        stream_after(attach, path, params, events) is Open ==> was_named(events),
        stream_after(attach, path, params, events) is Rewrite ==> was_named(events),
    decreases events.len(),
{
    if events.len() > 0 {
        let d = events.drop_last();
        law_only_named_containers_are_streamed(attach, path, params, d);
        if was_named(d) {
            let i = choose|i: int|
                0 <= i < d.len() && (#[trigger] d[i] matches StreamEvent::Resolved(Ok(Some(_))));
            assert(events[i] == d[i]);
        }
        assert(events[events.len() - 1] == events.last());
    }
}

/// A request that is refused or handed on stays so.
pub proof fn law_answered_requests_stay_answered(
    attach: bool,
    path: ExecPath4,
    params: ParamsView,
    phase: StreamView,
    event: StreamEvent,
)
    requires
        phase is Refused || phase is Proxy,
    ensures
        stream_next(attach, path, params, phase, event) == phase,
{
}

proof fn lemma_decoded_plain(s: Seq<char>, from: int)
    requires
        0 <= from <= s.len(),
        forall|i: int| 0 <= i < s.len() ==> (#[trigger] s[i]) != '+' && s[i] != '%',
    ensures
        decoded(s, from) == s.skip(from),
    decreases s.len() - from,
{
    if from < s.len() {
        lemma_decoded_plain(s, from + 1);
        assert(s.skip(from) =~= seq![s[from]] + s.skip(from + 1));
    } else {
        assert(s.skip(from) =~= Seq::<char>::empty());
    }
}

/// A value without plus and percent signs is what it is.
pub proof fn law_plain_values_are_kept(s: Seq<char>)
    requires
        forall|i: int| 0 <= i < s.len() ==> (#[trigger] s[i]) != '+' && s[i] != '%',
    ensures
        decoded(s, 0) == s,
{
    lemma_decoded_plain(s, 0);
    assert(s.skip(0) =~= s);
}

/// A part of a query with a key that means nothing changes nothing.
pub proof fn law_unknown_keys_mean_nothing(p: ParamsView, part: Seq<char>)
    requires
        key_of(part) != "command"@,
        key_of(part) != "stdin"@,
        key_of(part) != "stdout"@,
        key_of(part) != "stderr"@,
        key_of(part) != "tty"@,
    ensures
        with_part(p, part) == p,
{
}

/// The arguments of a command stay in the order in which they stand in the
/// query: further parts only add arguments at the end.
pub proof fn law_arguments_keep_their_order(parts: Seq<Seq<char>>, n: int)
    requires
        0 <= n <= parts.len(),
    ensures
        params_of(parts.take(n)).command.is_prefix_of(params_of(parts).command),
    decreases parts.len(),
{
    if n == parts.len() {
        assert(parts.take(n) =~= parts);
        assert(params_of(parts).command.take(params_of(parts).command.len() as int)
            =~= params_of(parts).command);
    } else {
        let d = parts.drop_last();
        law_arguments_keep_their_order(d, n);
        assert(d.take(n) =~= parts.take(n));
        let a = params_of(parts.take(n)).command;
        let b = params_of(d).command;
        let c = params_of(parts).command;
        assert(forall|i: int| 0 <= i < a.len() ==> a[i] == b[i]);
        assert(a =~= c.take(a.len() as int));
    }
}

proof fn lemma_decoded_from(s: Seq<char>, from: int)
    requires
        0 <= from <= s.len(),
    ensures
        decoded(s, from) == decoded(s.skip(from), 0),
    decreases s.len() - from,
{
    lemma_decoded_shift(s, from, 0);
}

proof fn lemma_decoded_shift(s: Seq<char>, by: int, from: int)
    requires
        0 <= by,
        0 <= from,
        by + from <= s.len(),
    ensures
        decoded(s, by + from) == decoded(s.skip(by), from),
    decreases s.len() - by - from,
{
    let t = s.skip(by);
    if from < t.len() {
        assert(t[from] == s[by + from]);
        if from + 1 < t.len() {
            assert(t[from + 1] == s[by + from + 1]);
        }
        if from + 2 < t.len() {
            assert(t[from + 2] == s[by + from + 2]);
        }
        lemma_decoded_shift(s, by, from + 1);
        if from + 3 <= t.len() {
            lemma_decoded_shift(s, by, from + 3);
        }
    }
}

/// An escaped character is decoded to the one that its two digits stand for, a
/// plus to a space, and what stands behind is decoded on its own.
pub proof fn law_escapes_are_decoded(high: char, low: char, rest: Seq<char>)
    requires
        '0' <= high <= '9' || 'A' <= high <= 'F' || 'a' <= high <= 'f',
        '0' <= low <= '9' || 'A' <= low <= 'F' || 'a' <= low <= 'f',
    ensures
        decoded(seq!['%', high, low] + rest, 0) == seq![
            (16 * hex_value(high)->0 + hex_value(low)->0) as char,
        ] + decoded(rest, 0),
        decoded(seq!['+'] + rest, 0) == seq![' '] + decoded(rest, 0),
        '0' <= high <= '9' ==> hex_value(high) == Some(high as int - '0' as int),
        'A' <= high <= 'F' ==> hex_value(high) == Some(high as int - 'A' as int + 10),
        'a' <= high <= 'f' ==> hex_value(high) == Some(high as int - 'a' as int + 10),
{
    let s = seq!['%', high, low] + rest;
    let t = seq!['+'] + rest;
    lemma_decoded_from(s, 3);
    lemma_decoded_from(t, 1);
    assert(s.skip(3) =~= rest);
    assert(t.skip(1) =~= rest);
    assert(s[0] == '%' && s[1] == high && s[2] == low);
    if rest.len() == 0 {
        assert(decoded(s, 3) =~= Seq::<char>::empty());
    }
}

/// A switch is on where it says `true` in any case of letters or `1`, and off
/// otherwise.
pub proof fn law_switches_are_read(s: Seq<char>)
    ensures
        switches_on(s) <==> (s.len() == 1 && s[0] == '1') || (s.len() == 4 && (s[0] == 't' || s[0]
            == 'T') && (s[1] == 'r' || s[1] == 'R') && (s[2] == 'u' || s[2] == 'U') && (s[3] == 'e'
            || s[3] == 'E')),
{
    reveal_strlit("true");
    reveal_strlit("1");
    let low = ascii_lowered(s);
    assert(low.len() == s.len());
    if s.len() == 1 && s[0] == '1' {
        assert(low =~= "1"@);
    }
    if s.len() == 4 && (s[0] == 't' || s[0] == 'T') && (s[1] == 'r' || s[1] == 'R') && (s[2] == 'u'
        || s[2] == 'U') && (s[3] == 'e' || s[3] == 'E') {
        assert(low =~= "true"@);
    }
    if low == "true"@ {
        assert(low[0] == 't' && low[1] == 'r' && low[2] == 'u' && low[3] == 'e');
    }
    if low == "1"@ {
        assert(low[0] == '1');
    }
}

/// Each part of a query changes what it names and nothing else: a command adds
/// an argument, and a switch is set.
pub proof fn law_part_changes_what_it_names(p: ParamsView, part: Seq<char>)
    ensures
        key_of(part) == "command"@ && decoded_value(part).len() > 0 ==> with_part(p, part)
            == (ParamsView { command: p.command.push(decoded_value(part)), ..p }),
        key_of(part) == "stdin"@ ==> with_part(p, part) == (ParamsView {
            stdin: switches_on(decoded_value(part)),
            ..p
        }),
        key_of(part) == "stdout"@ ==> with_part(p, part) == (ParamsView {
            stdout: switches_on(decoded_value(part)),
            ..p
        }),
        key_of(part) == "stderr"@ ==> with_part(p, part) == (ParamsView {
            stderr: switches_on(decoded_value(part)),
            ..p
        }),
        key_of(part) == "tty"@ ==> with_part(p, part) == (ParamsView {
            tty: switches_on(decoded_value(part)),
            ..p
        }),
        params_of(Seq::empty()) == (ParamsView {
            command: Seq::empty(),
            stdin: false,
            stdout: false,
            stderr: false,
            tty: false,
        }),
{
    reveal_strlit("command");
    reveal_strlit("stdin");
    reveal_strlit("stdout");
    reveal_strlit("stderr");
    reveal_strlit("tty");
    assert("command"@.len() == 7 && "stdin"@.len() == 5 && "tty"@.len() == 3);
    assert("stdout"@.len() == 6 && "stderr"@.len() == 6);
    assert("stdout"@[3] == 'o' && "stderr"@[3] == 'e');
}

/// A part of a query is a key and a value around its first equals sign.
pub proof fn law_part_is_key_and_value(key: Seq<char>, value: Seq<char>)
    requires
        !key.contains('='),
    ensures
        key_of(key + "="@ + value) == key,
        decoded_value(key + "="@ + value) == decoded(value, 0),
        key_of(key) == key,
        decoded_value(key).len() == 0,
{
    reveal_strlit("=");
    let s = key + "="@ + value;
    let n = key.len() as int;
    assert(s[n] == '=');
    text::law_first_and_last_character_are_found(s, '=', n);
    let i = text::char_index_from(s, '=', 0)->0;
    if i < n {
        assert(key[i] == s[i]);
        assert(key.contains(key[i]));
    }
    assert(s.take(n) =~= key);
    assert(s.skip(n + 1) =~= value);
    lemma_no_equals(key, 0);
}

proof fn lemma_no_equals(key: Seq<char>, from: int)
    requires
        0 <= from <= key.len(),
        !key.contains('='),
    ensures
        text::char_index_from(key, '=', from) is None,
    decreases key.len() - from,
{
    if from < key.len() {
        assert(key.contains(key[from]));
        lemma_no_equals(key, from + 1);
    }
}

/// A stream is opened in the container that was found, with the command that was
/// asked for, and an attachment has none.
pub proof fn law_stream_is_of_the_command(path: ExecPath4, params: ParamsView, id: String)
    ensures
        ({
            let run = stream_next(
                false,
                path,
                params,
                StreamView::Resolve,
                StreamEvent::Resolved(Ok(Some(id))),
            );
            &&& run is Open
            &&& run->container_id == id@
            &&& run->command == Some(params.command)
            &&& run->streams.stdin == params.stdin
            &&& run->streams.tty == params.tty
            &&& run->streams.stdout
            &&& run->streams.stderr == !params.tty
        }),
        ({
            let attached = stream_next(
                true,
                path,
                params,
                StreamView::Resolve,
                StreamEvent::Resolved(Ok(Some(id))),
            );
            &&& attached is Open
            &&& attached->container_id == id@
            &&& attached->command is None
        }),
{
}

/// A stream is connected, found, opened and handed on, in this order, and what
/// fails on the way is answered with an error; a container that is not there is
/// not found.
pub proof fn law_stream_goes_step_by_step(
    attach: bool,
    path: ExecPath4,
    params: ParamsView,
    phase: StreamView,
    text: String,
)
    ensures
        stream_next(attach, path, params, StreamView::Connect, StreamEvent::Connected(Ok(())))
            is Resolve,
        stream_next(attach, path, params, StreamView::Connect, StreamEvent::Connected(Err(text)))
            == (StreamView::Refused { status: 500, message: text@ }),
        stream_next(attach, path, params, StreamView::Resolve, StreamEvent::Resolved(Ok(None)))
            is Refused,
        stream_next(
            attach,
            path,
            params,
            StreamView::Resolve,
            StreamEvent::Resolved(Ok(None)),
        )->status == 404,
        stream_next(attach, path, params, StreamView::Resolve, StreamEvent::Resolved(Err(text)))
            == (StreamView::Refused { status: 500, message: text@ }),
        phase is Open ==> stream_next(attach, path, params, phase, StreamEvent::Opened(Ok(text)))
            == StreamView::Rewrite(text@),
        phase is Open ==> stream_next(attach, path, params, phase, StreamEvent::Opened(Err(text)))
            == (StreamView::Refused { status: 500, message: text@ }),
        phase is Rewrite && uri_error(text@) is None ==> stream_next(
            attach,
            path,
            params,
            phase,
            StreamEvent::Rewritten(Ok(text)),
        ) == StreamView::Proxy(text@),
        phase is Rewrite && uri_error(text@) is Some ==> stream_next(
            attach,
            path,
            params,
            phase,
            StreamEvent::Rewritten(Ok(text)),
        ) == (StreamView::Refused { status: 500, message: uri_error(text@)->0 }),
{
}

} // verus!
