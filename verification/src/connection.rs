//! The per-connection request loop: how the receive buffer grows, and what a
//! connection does after each receive.
use crate::syscall::OsError;
use crate::wire::{announced_length, content_length, header_views, Header, HeaderView};
use vstd::prelude::*;
use vstd::slice::{slice_subrange, slice_to_vec};

verus! {

/// The number of bytes that one receive asks for, and so the most that the
/// receive buffer grows by for each receive.
pub const BUF_SIZE: usize = 512;

/// The number of headers that a request may have.
pub const MAX_HEADERS: usize = 24;

/// The head of a request: the request line and the headers.
#[derive(Clone, Debug, PartialEq, Eq)]
pub struct RequestHead {
    /// The offset in the receive buffer at which the body starts.
    pub body_start: usize,
    pub method: Vec<u8>,
    pub path: Vec<u8>,
    pub headers: Vec<Header>,
}

/// The mathematical value of a request head.
pub ghost struct RequestHeadView {
    pub body_start: usize,
    pub method: Seq<u8>,
    pub path: Seq<u8>,
    pub headers: Seq<HeaderView>,
}

impl View for RequestHead {
    type V = RequestHeadView;

    open spec fn view(&self) -> RequestHeadView {
        RequestHeadView {
            body_start: self.body_start,
            method: self.method@,
            path: self.path@,
            headers: header_views(self.headers@),
        }
    }
}

/// What the parser makes of the bytes received so far.
#[derive(Clone, Debug, PartialEq, Eq)]
pub enum ParseStatus {
    /// The bytes begin with a complete request head.
    Complete(RequestHead),
    /// The bytes are the beginning of a request head.
    Partial,
    /// The bytes are not a request.
    Invalid,
}

/// The mathematical value of a parse status.
pub ghost enum ParseStatusView {
    Complete(RequestHeadView),
    Partial,
    Invalid,
}

impl View for ParseStatus {
    type V = ParseStatusView;

    open spec fn view(&self) -> ParseStatusView {
        match self {
            ParseStatus::Complete(head) => ParseStatusView::Complete(head@),
            ParseStatus::Partial => ParseStatusView::Partial,
            ParseStatus::Invalid => ParseStatusView::Invalid,
        }
    }
}

/// What a connection does next.
#[derive(Clone, Debug, PartialEq, Eq)]
pub enum Step {
    /// The peer closed the connection: close the stream and stop.
    Close,
    /// The request is not complete: receive again.
    Receive,
    /// The request is complete: call the handler with the head and the body,
    /// send its response and stop.
    Handle { head: RequestHead, body: Vec<u8> },
    /// The bytes are not a request: send the bad-request response and stop.
    Reject,
    /// The receive failed: give the connection up and stop. Nothing is sent,
    /// and no other task is affected.
    Abort,
}

/// The mathematical value of a step.
pub ghost enum StepView {
    Close,
    Receive,
    Handle { head: RequestHeadView, body: Seq<u8> },
    Reject,
    Abort,
}

impl View for Step {
    type V = StepView;

    open spec fn view(&self) -> StepView {
        match self {
            Step::Close => StepView::Close,
            Step::Receive => StepView::Receive,
            Step::Handle { head, body } => StepView::Handle { head: head@, body: body@ },
            Step::Reject => StepView::Reject,
            Step::Abort => StepView::Abort,
        }
    }
}

/// What `httparse::Request::parse` makes of `buf` when it is given room for
/// `max_headers` headers.
pub uninterp spec fn parsed_request(buf: Seq<u8>, max_headers: usize) -> ParseStatusView;

/// Parses a request head with `httparse::Request::parse`, into `max_headers`
/// empty headers. The contract names the outcome and claims nothing else of
/// it: a complete head with the offset of the body, the method, the path and
/// the headers as the parser reports them; a partial head; or an error, of
/// whatever kind. The room for the headers is allocated on each call, so
/// its size is bounded.
#[verifier::external_body]
fn parse_request(buf: &[u8], max_headers: usize) -> (status: ParseStatus)
    requires
        max_headers <= u16::MAX,
    ensures
        status@ == parsed_request(buf@, max_headers),
{
    let mut headers = Vec::new();
    headers.resize(max_headers, httparse::EMPTY_HEADER);
    let mut request = httparse::Request::new(&mut headers);
    match request.parse(buf) {
        Ok(httparse::Status::Complete(body_start)) => ParseStatus::Complete(RequestHead {
            body_start,
            method: request.method.unwrap_or_default().into(),
            path: request.path.unwrap_or_default().into(),
            headers: request.headers.iter()
                .map(|h| Header { name: h.name.into(), value: h.value.into() })
                .collect(),
        }),
        Ok(httparse::Status::Partial) => ParseStatus::Partial,
        Err(_) => ParseStatus::Invalid,
    }
}

/// What a connection does after a receive that brought at least one byte,
/// given the bytes received so far and what the parser makes of them.
///
/// A complete head whose headers announce a body length is handled once the
/// buffer holds that many bytes after the head, and the body is those bytes;
/// until then the connection receives again. A complete head that announces
/// no length is handled with an empty body.
pub open spec fn next_step(buf: Seq<u8>, status: ParseStatusView) -> StepView {
    match status {
        ParseStatusView::Complete(head) => match announced_length(head.headers) {
            Some(length) => if head.body_start + length <= buf.len() {
                StepView::Handle {
                    head,
                    body: buf.subrange(head.body_start as int, head.body_start + length),
                }
            } else {
                StepView::Receive
            },
            None => StepView::Handle { head, body: Seq::empty() },
        },
        ParseStatusView::Partial => StepView::Receive,
        ParseStatusView::Invalid => StepView::Reject,
    }
}

/// Decides what a connection does after a receive that brought at least one
/// byte.
pub fn decide(buf: &[u8], status: ParseStatus) -> (step: Step)
    ensures
        step@ == next_step(buf@, status@),
{
    match status {
        ParseStatus::Complete(head) => {
            match content_length(&head.headers) {
                Some(length) => {
                    if length <= buf.len() && head.body_start <= buf.len() - length {
                        let end: usize = head.body_start + length;
                        let body = slice_to_vec(slice_subrange(buf, head.body_start, end));
                        Step::Handle { head, body }
                    } else {
                        Step::Receive
                    }
                },
                None => Step::Handle { head, body: Vec::new() },
            }
        },
        ParseStatus::Partial => Step::Receive,
        ParseStatus::Invalid => Step::Reject,
    }
}

/// What a connection does after a receive, given the bytes received so far,
/// this receive included, and what the parser makes of them. A receive that
/// failed gives the connection up; one that brought nothing means that the
/// peer closed the connection; after any other, the bytes decide.
pub open spec fn step_after(
    buf: Seq<u8>,
    outcome: Result<Seq<u8>, OsError>,
    status: ParseStatusView,
) -> StepView {
    match outcome {
        Err(_) => StepView::Abort,
        Ok(data) => if data.len() == 0 {
            StepView::Close
        } else {
            next_step(buf, status)
        },
    }
}

/// The receive buffer after a receive: the bytes that the receive brought are
/// appended, and a receive that failed changes nothing.
pub open spec fn received(buf: Seq<u8>, outcome: Result<Seq<u8>, OsError>) -> Seq<u8> {
    match outcome {
        Ok(data) => buf + data,
        Err(_) => buf,
    }
}

/// The outcome of a receive, with the bytes as a sequence.
pub open spec fn outcome_view(outcome: Result<&[u8], OsError>) -> Result<Seq<u8>, OsError> {
    match outcome {
        Ok(data) => Ok(data@),
        Err(error) => Err(error),
    }
}

/// One connection's receive buffer: the bytes received so far, and nothing
/// else.
pub struct Connection {
    buf: Vec<u8>,
}

impl View for Connection {
    type V = Seq<u8>;

    closed spec fn view(&self) -> Seq<u8> {
        self.buf@
    }
}

impl Connection {
    /// A connection that has received nothing.
    pub fn new() -> (c: Connection)
        ensures
            c@ == Seq::<u8>::empty(),
    {
        Connection { buf: Vec::new() }
    }

    /// The bytes received so far.
    pub fn buffer(&self) -> (buf: &[u8])
        ensures
            buf@ == self@,
    {
        self.buf.as_slice()
    }

    /// Takes in the outcome of one receive and decides what the connection
    /// does next. The bytes that the receive brought are appended to the
    /// buffer, and the request is parsed from the whole buffer, so a request
    /// may arrive in any number of receives.
    pub fn receive(&mut self, outcome: Result<&[u8], OsError>) -> (step: Step)
        requires
            outcome matches Ok(data) ==> data@.len() <= BUF_SIZE,
        ensures
            final(self)@ == received(old(self)@, outcome_view(outcome)),
            step@ == step_after(
                final(self)@,
                outcome_view(outcome),
                parsed_request(final(self)@, MAX_HEADERS),
            ),
            outcome is Err <==> step@ is Abort,
    {
        let data: &[u8] = match outcome {
            Ok(data) => data,
            Err(_) => {
                return Step::Abort;
            },
        };
        let mut i: usize = 0;
        while i < data.len()
            invariant
                i <= data.len(),
                self.buf@ == old(self).buf@ + data@.take(i as int),
            decreases data.len() - i,
        {
            self.buf.push(data[i]);
            proof {
                assert(data@.take(i + 1) =~= data@.take(i as int).push(data@[i as int]));
            }
            i = i + 1;
        }
        proof {
            assert(data@.take(data@.len() as int) =~= data@);
        }
        if data.len() == 0 {
            return Step::Close;
        }
        let status = parse_request(self.buf.as_slice(), MAX_HEADERS);
        decide(self.buf.as_slice(), status)
    }
}

} // verus!
