//! What the server does with a line, and with a socket that is already there.

use vstd::prelude::*;
use vstd::utf8::{
    decode_utf8, encode_scalar, encode_utf8, encode_utf8_decode_utf8, encode_utf8_valid_utf8,
    valid_utf8,
};
use crate::ipc::{ErrorCode, Request, Response};
use crate::text::{concat, concat3, owned, trim, trim_start, trimmed, white_space};

verus! {

/// Maximum line length for incoming requests (64 KB).
pub const MAX_REQUEST_LINE: usize = 65_536;

/// Access rights of the socket file: its owner's alone.
pub const SOCKET_MODE: u32 = 0o600;

/// Errors from the IPC server, with the words of their cause.
#[derive(Debug, Clone, PartialEq, Eq)]
pub enum ServerError {
    Bind { path: String, source: String },
    Permissions { path: String, source: String },
}

impl ServerError {
    pub open spec fn words(self) -> Seq<char> {
        match self {
            ServerError::Bind { path, source } => "failed to bind socket at "@ + path@ + ": "@
                + source@,
            ServerError::Permissions { path, source } => "failed to set permissions on socket at "@
                + path@ + ": "@ + source@,
        }
    }

    /// The error in words.
    pub fn message(&self) -> (r: String)
        ensures
            r@ == self.words(),
    {
        match self {
            ServerError::Bind { path, source } => {
                let at = concat3("failed to bind socket at ", path.as_str(), ": ");
                concat(at.as_str(), source.as_str())
            },
            ServerError::Permissions { path, source } => {
                let at = concat3("failed to set permissions on socket at ", path.as_str(), ": ");
                concat(at.as_str(), source.as_str())
            },
        }
    }
}

/// What was found at the path of the socket.
#[derive(Debug, Clone, Copy, PartialEq, Eq, Structural)]
pub enum SocketProbe {
    /// No file.
    Absent,
    /// A file, and a server that accepted a connection.
    Answered,
    /// A file that nobody listens on.
    Stale,
}

/// What to do with the path before binding to it.
#[derive(Debug, Clone, Copy, PartialEq, Eq, Structural)]
pub enum SocketStep {
    Bind,
    /// Remove the file first.
    RemoveAndBind,
}

/// Decide whether the server may bind. A daemon that is already listening is not clobbered; a
/// stale file is removed.
pub fn start(path: &str, probe: SocketProbe) -> (r: Result<SocketStep, ServerError>)
    ensures
        probe == SocketProbe::Absent ==> r == Ok::<SocketStep, ServerError>(SocketStep::Bind),
        probe == SocketProbe::Stale ==> r == Ok::<SocketStep, ServerError>(
            SocketStep::RemoveAndBind,
        ),
        probe == SocketProbe::Answered ==> {
            &&& r is Err
            &&& r->Err_0 is Bind
            &&& r->Err_0->Bind_path@ == path@
            &&& r->Err_0->Bind_source@ == "another daemon is already listening on this socket"@
        },
{
    match probe {
        SocketProbe::Absent => Ok(SocketStep::Bind),
        SocketProbe::Stale => Ok(SocketStep::RemoveAndBind),
        SocketProbe::Answered => Err(
            ServerError::Bind {
                path: owned(path),
                source: owned("another daemon is already listening on this socket"),
            },
        ),
    }
}

/// The error of a start whose bind failed.
pub fn bind_failed(path: &str, cause: &str) -> (r: ServerError)
    ensures
        r is Bind,
        r->Bind_path@ == path@,
        r->Bind_source@ == cause@,
{
    ServerError::Bind { path: owned(path), source: owned(cause) }
}

/// The outcome of a start whose socket was given its access rights, or was not. In the second
/// case (`true` beside the error) the file is removed, so that a failed start leaves no
/// under-permissioned socket on disk.
pub fn harden_socket_permissions(path: &str, failure: Option<&str>) -> (r: Result<
    (),
    (ServerError, bool),
>)
    ensures
        r is Ok <==> failure is None,
        r is Err ==> {
            let (error, remove) = r->Err_0;
            &&& remove
            &&& error is Permissions
            &&& error->Permissions_path@ == path@
            &&& error->Permissions_source@ == failure->0@
        },
{
    match failure {
        None => Ok(()),
        Some(cause) => Err(
            (ServerError::Permissions { path: owned(path), source: owned(cause) }, true),
        ),
    }
}

/// What to do with a line that was read.
#[derive(Debug, Clone, PartialEq, Eq)]
pub enum LineStep {
    /// Nothing: the client has disconnected.
    Close,
    /// Answer that the request is refused, and close: framing is desynced.
    RefuseAndClose(ErrorCode),
    /// Answer that the request is refused, and go on.
    Refuse(ErrorCode),
    /// Read this text as a request.
    Parse(String),
}

/// Whether a line ran into the limit before it ended.
pub open spec fn too_large(line: Seq<u8>) -> bool {
    line.len() == MAX_REQUEST_LINE && line.last() != 10
}

/// Whether `step` is what to do with a line.
pub open spec fn answers(line: Seq<u8>, step: LineStep) -> bool {
    if line.len() == 0 {
        step is Close
    } else if too_large(line) {
        step == LineStep::RefuseAndClose(ErrorCode::RequestTooLarge)
    } else if !valid_utf8(line) {
        step == LineStep::Refuse(ErrorCode::InvalidUtf8)
    } else {
        step is Parse && step->Parse_0@ == trimmed(decode_utf8(line))
    }
}

/// `std::str::from_utf8`: the text of the bytes, if they are valid UTF-8.
#[verifier::external_body]
fn utf8_text(bytes: &[u8]) -> (r: Option<&str>)
    ensures
        r is Some <==> valid_utf8(bytes@),
        r is Some ==> r->0@ == decode_utf8(bytes@),
{
    std::str::from_utf8(bytes).ok()
}

/// Decide what to do with what was read up to a newline, the limit or the end of the stream.
pub fn line_received(line: &[u8]) -> (r: LineStep)
    ensures
        answers(line@, r),
{
    if line.len() == 0 {
        return LineStep::Close;
    }
    if line.len() == MAX_REQUEST_LINE && line[line.len() - 1] != 10 {
        return LineStep::RefuseAndClose(ErrorCode::RequestTooLarge);
    }
    match utf8_text(line) {
        None => LineStep::Refuse(ErrorCode::InvalidUtf8),
        Some(text) => LineStep::Parse(trim(text)),
    }
}

/// The answer to a request that is refused.
pub fn refusal<Rank>(code: ErrorCode) -> (r: Response<Rank>)
    ensures
        r.refuses(code),
{
    let message = match code {
        ErrorCode::RequestTooLarge => owned("request too large"),
        ErrorCode::InvalidUtf8 => owned("invalid UTF-8"),
        ErrorCode::InvalidRequest => owned("invalid request"),
    };
    Response::Error { ok: false, code, message }
}

/// Whether the handler can answer a line that was read as this request, or could not be, and go
/// from one state to the other by it. It runs once for a request, and not at all without one.
pub open spec fn responds<W, Rank, H: Fn(W, Request) -> (W, Response<Rank>)>(
    handler: H,
    parsed: Option<Request>,
    before: W,
    after: W,
    response: Response<Rank>,
) -> bool {
    match parsed {
        None => after == before && response.refuses(ErrorCode::InvalidRequest),
        Some(request) => call_ensures(handler, (before, request), (after, response)),
    }
}

/// The answer to a line that was read as a request, or could not be. `handler` takes the state
/// that it works on and gives back what it has left, and that comes with the answer.
pub fn respond<W, Rank, H: Fn(W, Request) -> (W, Response<Rank>)>(
    state: W,
    handler: &H,
    parsed: Option<Request>,
) -> (r: (W, Response<Rank>))
    requires
        forall|state: W, request: Request| call_requires(*handler, (state, request)),
    ensures
        responds(*handler, parsed, state, r.0, r.1),
{
    match parsed {
        None => (state, refusal(ErrorCode::InvalidRequest)),
        Some(request) => handler(state, request),
    }
}

/// Whether this is what a line is answered, and the handler can go from one state to the other
/// by it. The handler is not asked for a line that is refused.
pub open spec fn replies<
    W,
    Rank,
    P: Fn(&str) -> Option<Request>,
    H: Fn(W, Request) -> (W, Response<Rank>),
>(
    line: Seq<u8>,
    parse: P,
    handler: H,
    before: W,
    after: W,
    reply: Option<Response<Rank>>,
) -> bool {
    if line.len() == 0 {
        after == before && reply is None
    } else if too_large(line) {
        after == before && reply is Some && reply->0.refuses(ErrorCode::RequestTooLarge)
    } else if !valid_utf8(line) {
        after == before && reply is Some && reply->0.refuses(ErrorCode::InvalidUtf8)
    } else {
        reply is Some && handled(
            trimmed(decode_utf8(line)),
            parse,
            handler,
            before,
            after,
            reply->0,
        )
    }
}

/// Whether this is the answer to what the text can be read as, and the handler can go from one
/// state to the other by it.
pub open spec fn handled<
    W,
    Rank,
    P: Fn(&str) -> Option<Request>,
    H: Fn(W, Request) -> (W, Response<Rank>),
>(text: Seq<char>, parse: P, handler: H, before: W, after: W, response: Response<Rank>) -> bool {
    exists|parsed: Option<Request>| #[trigger]
        reads_as(parse, text, parsed) && responds(handler, parsed, before, after, response)
}

/// Whether the text can be read as this request, or as none.
pub open spec fn reads_as<P: Fn(&str) -> Option<Request>>(
    parse: P,
    text: Seq<char>,
    parsed: Option<Request>,
) -> bool {
    exists|given: &str| given@ == text && #[trigger] call_ensures(parse, (given,), parsed)
}

/// What came of a line: what was to be done with it, and the answer, if there is one.
#[derive(Debug, Clone, PartialEq)]
pub struct Served<Rank> {
    pub step: LineStep,
    pub reply: Option<Response<Rank>>,
}

/// Answer what was read up to a newline, the limit or the end of the stream. `parse` reads a
/// text as a request, and `handler` answers one.
pub fn serve_line<
    W,
    Rank,
    P: Fn(&str) -> Option<Request>,
    H: Fn(W, Request) -> (W, Response<Rank>),
>(state: W, line: &[u8], parse: &P, handler: &H) -> (r: (W, Served<Rank>))
    requires
        forall|text: &str| call_requires(*parse, (text,)),
        forall|state: W, request: Request| call_requires(*handler, (state, request)),
    ensures
        answers(line@, r.1.step),
        replies(line@, *parse, *handler, state, r.0, r.1.reply),
{
    let step = line_received(line);
    match step {
        LineStep::Close => (state, Served { step, reply: None }),
        LineStep::RefuseAndClose(code) => {
            let reply = refusal(code);
            (state, Served { step, reply: Some(reply) })
        },
        LineStep::Refuse(code) => {
            let reply = refusal(code);
            (state, Served { step, reply: Some(reply) })
        },
        LineStep::Parse(text) => {
            let parsed = parse(text.as_str());
            assert(reads_as(*parse, text@, parsed));
            let (after, reply) = respond(state, handler, parsed);
            (after, Served { step: LineStep::Parse(text), reply: Some(reply) })
        },
    }
}

/// The line that carries an answer.
pub fn frame(json: &str) -> (r: String)
    ensures
        r@ == json@.push('\n'),
{
    let mut out = owned(json);
    out.push('\n');
    out
}

/// What became of an answer.
#[derive(Debug, Clone, Copy, PartialEq, Eq, Structural)]
pub enum ReplyOutcome {
    Written,
    /// The client has disconnected.
    NotWritten,
    /// The answer could not be put into JSON.
    NotSerialized,
}

/// Whether the connection stays open after a step and its answer.
pub open spec fn stays_open(step: LineStep, outcome: ReplyOutcome) -> bool {
    match step {
        LineStep::Close => false,
        LineStep::RefuseAndClose(_) => false,
        LineStep::Refuse(_) => true,
        LineStep::Parse(_) => outcome == ReplyOutcome::Written,
    }
}

/// Whether the connection stays open after an answer, with the limit reset for the next line.
/// A failed answer to a line that is not text is not held against the connection.
pub fn after_reply(step: &LineStep, outcome: ReplyOutcome) -> (r: bool)
    ensures
        r == stays_open(*step, outcome),
{
    match step {
        LineStep::Close => false,
        LineStep::RefuseAndClose(_) => false,
        LineStep::Refuse(_) => true,
        LineStep::Parse(_) => outcome == ReplyOutcome::Written,
    }
}

proof fn lemma_newline_encodes()
    ensures
        encode_scalar('\n' as u32) == seq![10u8],
{
    assert('\n' as u32 == 10u32);
    assert(((10u32 & 0x7F) as u8) == 10u8) by (bit_vector);
    assert(encode_scalar(10u32) =~= seq![10u8]);
}

proof fn lemma_encode_line(text: Seq<char>)
    ensures
        encode_utf8(text.push('\n')) == encode_utf8(text).push(10u8),
    decreases text.len(),
{
    lemma_newline_encodes();
    let line = text.push('\n');
    if text.len() == 0 {
        assert(line.drop_first() =~= Seq::<char>::empty());
        assert(encode_utf8(line.drop_first()) =~= Seq::<u8>::empty());
        assert(encode_utf8(line) =~= seq![10u8]);
        assert(encode_utf8(text).push(10u8) =~= seq![10u8]);
    } else {
        lemma_encode_line(text.drop_first());
        assert(line.drop_first() =~= text.drop_first().push('\n'));
        assert(encode_utf8(line) =~= encode_utf8(text).push(10u8));
    }
}

proof fn lemma_trim_line(text: Seq<char>)
    ensures
        trimmed(text.push('\n')) == trimmed(text),
    decreases text.len(),
{
    let line = text.push('\n');
    if text.len() > 0 && white_space(text[0]) {
        assert(line.drop_first() =~= text.drop_first().push('\n'));
        lemma_trim_line(text.drop_first());
    } else if text.len() > 0 {
        assert(trim_start(line) == line);
        assert(line.drop_last() =~= text);
    } else {
        assert(line.drop_first() =~= Seq::<char>::empty());
        assert(white_space(line[0]));
        assert(trim_start(line.drop_first()) == line.drop_first());
        assert(trim_start(line) == line.drop_first());
        assert(trim_start(text) == text);
        assert(line.drop_first() =~= text);
    }
}

/// A text that a client sends as one line, and whose line was read to its end, is taken as that
/// text without the white space around it.
pub proof fn a_line_of_text_is_read_as_that_text(text: Seq<char>, step: LineStep)
    requires
        answers(encode_utf8(text).push(10u8), step),
    ensures
        step is Parse,
        step->Parse_0@ == trimmed(text),
{
    lemma_encode_line(text);
    lemma_trim_line(text);
    encode_utf8_valid_utf8(text.push('\n'));
    encode_utf8_decode_utf8(text.push('\n'));
}

/// A bad request does not end a connection: as long as the client is there and keeps its lines
/// within the limit, and answers reach it, the next line is read.
pub proof fn a_bad_request_does_not_end_a_connection(
    line: Seq<u8>,
    step: LineStep,
    outcome: ReplyOutcome,
)
    requires
        line.len() > 0,
        !too_large(line),
        answers(line, step),
        outcome == ReplyOutcome::Written,
    ensures
        stays_open(step, outcome),
{
}

/// A line that ran into the limit ends its connection, whatever became of the answer: where the
/// next line begins is not known any more.
pub proof fn an_oversized_line_ends_its_connection(
    line: Seq<u8>,
    step: LineStep,
    outcome: ReplyOutcome,
)
    requires
        too_large(line),
        answers(line, step),
    ensures
        step == LineStep::RefuseAndClose(ErrorCode::RequestTooLarge),
        !stays_open(step, outcome),
{
}

/// Only one thing can be done with a line.
pub proof fn a_line_has_one_answer(line: Seq<u8>, a: LineStep, b: LineStep)
    requires
        answers(line, a),
        answers(line, b),
    ensures
        match a {
            LineStep::Parse(text) => b is Parse && text@ == b->Parse_0@,
            _ => a == b,
        },
{
}

/// Whether the next line is read once this one has been answered, and that came out so.
pub open spec fn goes_on(line: Seq<u8>, outcome: ReplyOutcome) -> bool {
    &&& line.len() > 0
    &&& !too_large(line)
    &&& valid_utf8(line) ==> outcome == ReplyOutcome::Written
}

/// A connection goes on after a line and its answer as the step for the line says.
pub proof fn a_step_says_whether_the_next_line_is_read(
    line: Seq<u8>,
    step: LineStep,
    outcome: ReplyOutcome,
)
    requires
        answers(line, step),
    ensures
        stays_open(step, outcome) <==> goes_on(line, outcome),
{
}

/// Whether a connection on which these lines come was answered so far: each line that was read
/// has its answer, `states` has the state at first and after each, and one is read after another
/// only as long as the connection goes on.
pub open spec fn conversation<
    W,
    Rank,
    P: Fn(&str) -> Option<Request>,
    H: Fn(W, Request) -> (W, Response<Rank>),
>(
    lines: Seq<Seq<u8>>,
    outcomes: Seq<ReplyOutcome>,
    parse: P,
    handler: H,
    states: Seq<W>,
    answers: Seq<Option<Response<Rank>>>,
) -> bool {
    &&& answers.len() <= lines.len()
    &&& outcomes.len() == answers.len()
    &&& states.len() == answers.len() + 1
    &&& forall|i: int|
        0 <= i < answers.len() ==> replies(
            lines[i],
            parse,
            handler,
            states[i],
            states[i + 1],
            #[trigger] answers[i],
        )
    &&& forall|i: int|
        0 <= i < answers.len() && i + 1 < answers.len() ==> goes_on(
            #[trigger] lines[i],
            outcomes[i],
        )
}

/// Whether the conversation is over: every line was read, or it does not go on.
pub open spec fn is_over(lines: Seq<Seq<u8>>, outcomes: Seq<ReplyOutcome>) -> bool {
    let read = outcomes.len() as int;
    read == lines.len() || (read > 0 && !goes_on(lines[read - 1], outcomes[read - 1]))
}

/// The lines of a client that keeps them within the limit, and that every answer reaches, are
/// each answered, in order. What is not text or not a request is refused and leaves the handler
/// alone; it runs once for each of the others, with the request that the line holds.
pub proof fn every_line_is_answered_in_order<
    W,
    Rank,
    P: Fn(&str) -> Option<Request>,
    H: Fn(W, Request) -> (W, Response<Rank>),
>(
    lines: Seq<Seq<u8>>,
    outcomes: Seq<ReplyOutcome>,
    parse: P,
    handler: H,
    states: Seq<W>,
    answers: Seq<Option<Response<Rank>>>,
)
    requires
        conversation(lines, outcomes, parse, handler, states, answers),
        is_over(lines, outcomes),
        forall|i: int|
            0 <= i < lines.len() ==> (#[trigger] lines[i]).len() > 0 && !too_large(lines[i]),
        forall|i: int|
            0 <= i < outcomes.len() ==> #[trigger] outcomes[i] == ReplyOutcome::Written,
    ensures
        answers.len() == lines.len(),
        forall|i: int| 0 <= i < lines.len() ==> (#[trigger] answers[i]) is Some,
        forall|i: int|
            0 <= i < lines.len() && !valid_utf8(lines[i]) ==> (#[trigger] answers[i])->0.refuses(
                ErrorCode::InvalidUtf8,
            ) && states[i + 1] == states[i],
        forall|i: int|
            0 <= i < lines.len() && valid_utf8(lines[i]) ==> handled(
                trimmed(decode_utf8(lines[i])),
                parse,
                handler,
                states[i],
                states[i + 1],
                (#[trigger] answers[i])->0,
            ),
{
    let read = outcomes.len() as int;
    if read != lines.len() {
        assert(lines[read - 1].len() > 0);
        assert(outcomes[read - 1] == ReplyOutcome::Written);
    }
    assert forall|i: int| 0 <= i < lines.len() implies (#[trigger] answers[i]) is Some by {
        assert(lines[i].len() > 0);
    }
}

/// What is done with a line is decided by the line alone: nothing is a disconnected client, one
/// that fills the limit of 64 KiB without an end is refused and ends the connection, one that is
/// not text is refused, and any other is read as a request without the white space around it.
pub proof fn a_line_is_decided_on_by_its_bytes(line: &[u8], r: LineStep)
    requires
        call_ensures(line_received, (line,), r),
    ensures
        line@.len() == 0 ==> r is Close,
        line@.len() == 65_536 && line@[65_535] != 10 ==> r == LineStep::RefuseAndClose(
            ErrorCode::RequestTooLarge,
        ),
        line@.len() > 0 && !(line@.len() == 65_536 && line@[65_535] != 10) && !valid_utf8(line@)
            ==> r == LineStep::Refuse(ErrorCode::InvalidUtf8),
        line@.len() > 0 && !(line@.len() == 65_536 && line@[65_535] != 10) && valid_utf8(line@)
            ==> r is Parse && r->Parse_0@ == trimmed(decode_utf8(line@)),
{
}

/// A connection stays open after a request that was answered and after one that was not text; a
/// client that is gone, a line without an end, and an answer to a request that did not reach the
/// client end it.
pub proof fn a_connection_ends_only_when_it_has_to(
    step: LineStep,
    outcome: ReplyOutcome,
    r: bool,
)
    requires
        call_ensures(after_reply, (&step, outcome), r),
    ensures
        step is Close || step is RefuseAndClose ==> !r,
        step is Refuse ==> r,
        step is Parse ==> (r <==> outcome is Written),
{
}

/// A request is answered by the handler, which runs once, with that request; what is no request
/// is refused, and the handler does not run.
pub proof fn a_request_is_answered_by_the_handler<
    W,
    Rank,
    H: Fn(W, Request) -> (W, Response<Rank>),
>(state: W, handler: &H, parsed: Option<Request>, r: (W, Response<Rank>))
    requires
        call_ensures(respond::<W, Rank, H>, (state, handler, parsed), r),
    ensures
        parsed is None ==> r.0 == state && r.1.refuses(ErrorCode::InvalidRequest),
        parsed is Some ==> call_ensures(*handler, (state, parsed->0), r),
{
}

/// A line is answered by what it holds: a request by the handler, which runs once with it, and
/// anything else by a refusal, for which the handler does not run.
pub proof fn a_line_is_answered_by_what_it_holds<
    W,
    Rank,
    P: Fn(&str) -> Option<Request>,
    H: Fn(W, Request) -> (W, Response<Rank>),
>(state: W, line: &[u8], parse: &P, handler: &H, r: (W, Served<Rank>))
    requires
        call_ensures(serve_line::<W, Rank, P, H>, (state, line, parse, handler), r),
    ensures
        line@.len() == 0 ==> r.0 == state && r.1.reply is None && r.1.step is Close,
        line@.len() == 65_536 && line@[65_535] != 10 ==> r.0 == state && r.1.reply is Some
            && r.1.reply->0.refuses(ErrorCode::RequestTooLarge) && r.1.step is RefuseAndClose,
        line@.len() > 0 && !(line@.len() == 65_536 && line@[65_535] != 10) && !valid_utf8(line@)
            ==> r.0 == state && r.1.reply is Some && r.1.reply->0.refuses(ErrorCode::InvalidUtf8)
            && r.1.step is Refuse,
        line@.len() > 0 && !(line@.len() == 65_536 && line@[65_535] != 10) && valid_utf8(line@)
            ==> r.1.step is Parse && r.1.reply is Some && exists|
            text: &str,
            parsed: Option<Request>,
        |
            {
                &&& text@ == trimmed(decode_utf8(line@))
                &&& #[trigger] call_ensures(*parse, (text,), parsed)
                &&& parsed is None ==> r.0 == state && r.1.reply->0.refuses(
                    ErrorCode::InvalidRequest,
                )
                &&& parsed is Some ==> call_ensures(
                    *handler,
                    (state, parsed->0),
                    (r.0, r.1.reply->0),
                )
            },
{
    if line@.len() > 0 && !too_large(line@) && valid_utf8(line@) {
        let text = trimmed(decode_utf8(line@));
        let parsed = choose|parsed: Option<Request>| #[trigger]
            reads_as(*parse, text, parsed) && responds(
                *handler,
                parsed,
                state,
                r.0,
                r.1.reply->0,
            );
        let given = choose|given: &str|
            given@ == text && #[trigger] call_ensures(*parse, (given,), parsed);
        assert(call_ensures(*parse, (given,), parsed));
    }
}

/// An answer is framed by one line break, at its end.
pub proof fn an_answer_is_one_line(json: &str, r: String)
    requires
        call_ensures(frame, (json,), r),
    ensures
        r@ == json@ + seq!['\n'],
{
    assert(json@.push('\n') =~= json@ + seq!['\n']);
}

/// A server binds where nobody listens, after it has removed a file that nobody listens on, and
/// never where another one listens; a socket that could not be secured is removed.
pub proof fn a_server_takes_no_socket_from_another(
    path: &str,
    probe: SocketProbe,
    r: Result<SocketStep, ServerError>,
    failure: Option<&str>,
    secured: Result<(), (ServerError, bool)>,
)
    requires
        call_ensures(start, (path, probe), r),
        call_ensures(harden_socket_permissions, (path, failure), secured),
    ensures
        probe is Answered ==> r is Err && r->Err_0 is Bind && r->Err_0->Bind_path@ == path@
            && r->Err_0->Bind_source@ == "another daemon is already listening on this socket"@,
        probe is Absent ==> r is Ok && r->Ok_0 is Bind,
        probe is Stale ==> r is Ok && r->Ok_0 is RemoveAndBind,
        failure is None <==> secured is Ok,
        secured is Err ==> (secured->Err_0).1 && (secured->Err_0).0 is Permissions && (
        secured->Err_0).0->Permissions_path@ == path@ && (secured->Err_0).0->Permissions_source@
            == failure->0@,
{
}

/// A server error names the socket and the cause.
pub proof fn a_server_error_names_the_socket(error: ServerError, r: String)
    requires
        call_ensures(ServerError::message, (&error,), r),
    ensures
        error matches ServerError::Bind { path, source } ==> r@ == "failed to bind socket at "@
            + path@ + ": "@ + source@,
        error matches ServerError::Permissions { path, source } ==> r@
            == "failed to set permissions on socket at "@ + path@ + ": "@ + source@,
{
}

/// A refusal carries its code, and a failed bind its socket and cause.
pub proof fn a_refusal_carries_its_code<Rank>(
    code: ErrorCode,
    r: Response<Rank>,
    path: &str,
    cause: &str,
    failed: ServerError,
)
    requires
        call_ensures(refusal::<Rank>, (code,), r),
        call_ensures(bind_failed, (path, cause), failed),
    ensures
        r matches Response::Error { ok, code: said, message } && !ok && said == code,
        r.refuses(code),
        failed is Bind && failed->Bind_path@ == path@ && failed->Bind_source@ == cause@,
{
}

} // verus!
