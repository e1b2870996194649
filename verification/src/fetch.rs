//! The decision logic of the fetch layer.
//!
//! Transport itself is host work: the host performs the request and calls
//! back with a status, a handle to the response object, and response bytes
//! in chunks. What the library owns is the request method's wire name, the
//! mapping of host statuses to results, and the chunk-buffered reader that
//! turns the chunk stream into byte reads.

use vstd::prelude::*;
use crate::value::JsValue;

verus! {

/// The request method.
#[derive(Debug, Clone, Copy, PartialEq, Eq, Hash, Structural)]
pub enum Method {
    /// Retrieve a resource.
    GET,
    /// Like GET, without the body.
    HEAD,
    /// Submit data.
    POST,
    /// Store a resource.
    PUT,
    /// Remove a resource.
    DELETE,
    /// Open a tunnel.
    CONNECT,
    /// Ask for the options.
    OPTIONS,
    /// Echo the request.
    TRACE,
    /// Apply a partial change.
    PATCH,
}

/// Why a request failed.
#[derive(Debug, Clone, Copy, PartialEq, Eq, Structural)]
pub enum RequestError {
    /// The request timed out.
    TimedOut,
    /// The host reported an exception.
    Unexpected,
}

/// The host's verdict on a transfer step.
#[derive(Debug, Clone, Copy, PartialEq, Eq, Structural)]
pub enum FetchStatus {
    /// The step succeeded and carries data.
    Sent,
    /// The transfer timed out.
    TimedOut,
    /// The transfer failed with an exception.
    Exception,
    /// The chunk stream ended.
    Ended,
}

/// The method's name on the wire.
pub fn method_name(m: &Method) -> (r: &'static str)
    ensures
        *m is GET ==> r@ == "GET"@,
        *m is HEAD ==> r@ == "HEAD"@,
        *m is POST ==> r@ == "POST"@,
        *m is PUT ==> r@ == "PUT"@,
        *m is DELETE ==> r@ == "DELETE"@,
        *m is CONNECT ==> r@ == "CONNECT"@,
        *m is OPTIONS ==> r@ == "OPTIONS"@,
        *m is TRACE ==> r@ == "TRACE"@,
        *m is PATCH ==> r@ == "PATCH"@,
{
    match m {
        Method::GET => "GET",
        Method::HEAD => "HEAD",
        Method::POST => "POST",
        Method::PUT => "PUT",
        Method::DELETE => "DELETE",
        Method::CONNECT => "CONNECT",
        Method::OPTIONS => "OPTIONS",
        Method::TRACE => "TRACE",
        Method::PATCH => "PATCH",
    }
}

/// A request being assembled: plain values that the host marshals into its
/// C structures when the request is sent.
pub struct Builder {
    timeout_millis: Option<u64>,
    headers: Vec<(String, String)>,
    body: Option<Vec<u8>>,
}

impl Builder {
    /// The configured timeout, in milliseconds.
    pub closed spec fn spec_timeout(self) -> Option<u64> {
        self.timeout_millis
    }

    /// The headers added so far, in order.
    pub closed spec fn spec_headers(self) -> Seq<(String, String)> {
        self.headers@
    }

    /// The configured request body.
    pub closed spec fn spec_body(self) -> Option<Seq<u8>> {
        match self.body {
            Some(b) => Some(b@),
            None => None,
        }
    }

    /// A request with no timeout, no headers and no body.
    pub fn new() -> (r: Builder)
        ensures
            r.spec_timeout() is None,
            r.spec_headers() == Seq::<(String, String)>::empty(),
            r.spec_body() is None,
    {
        let r = Builder { timeout_millis: None, headers: Vec::new(), body: None };
        proof {
            assert(r.spec_headers() =~= Seq::<(String, String)>::empty());
        }
        r
    }

    /// Sets the timeout.
    pub fn timeout(&mut self, millis: u64)
        ensures
            final(self).spec_timeout() == Some(millis),
            final(self).spec_headers() == old(self).spec_headers(),
            final(self).spec_body() == old(self).spec_body(),
    {
        self.timeout_millis = Some(millis);
    }

    /// Appends one header.
    pub fn header(&mut self, key: String, value: String)
        ensures
            final(self).spec_timeout() == old(self).spec_timeout(),
            final(self).spec_headers() == old(self).spec_headers().push((key, value)),
            final(self).spec_body() == old(self).spec_body(),
    {
        self.headers.push((key, value));
    }

    /// Sets the request body.
    pub fn body(&mut self, body: Vec<u8>)
        ensures
            final(self).spec_timeout() == old(self).spec_timeout(),
            final(self).spec_headers() == old(self).spec_headers(),
            final(self).spec_body() == Some(body@),
    {
        self.body = Some(body);
    }

    /// The timeout the host is handed at send time: the configured one, or
    /// zero — the host's value for no timeout.
    pub fn timeout_for_send(&self) -> (r: u64)
        ensures
            self.spec_timeout() matches Some(ms) ==> r == ms,
            self.spec_timeout() is None ==> r == 0,
    {
        match self.timeout_millis {
            Some(ms) => ms,
            None => 0,
        }
    }

    /// How many headers were added.
    pub fn header_count(&self) -> (r: usize)
        ensures
            r == self.spec_headers().len(),
    {
        self.headers.len()
    }

    /// The header at `i`.
    pub fn header_at(&self, i: usize) -> (r: &(String, String))
        requires
            i < self.spec_headers().len(),
        ensures
            *r == self.spec_headers()[i as int],
    {
        &self.headers[i]
    }
}

/// The response body: a handle to the host's response object, read through
/// the chunk stream.
#[derive(Debug)]
pub struct ResponseBody {
    inner: JsValue,
}

impl ResponseBody {
    /// Wraps the host's response handle.
    pub fn new(inner: JsValue) -> (r: ResponseBody)
        ensures
            r.spec_handle() == inner.spec_handle(),
    {
        ResponseBody { inner }
    }

    /// The handle of the wrapped response object.
    pub closed spec fn spec_handle(self) -> usize {
        self.inner.spec_handle()
    }

    /// Gives the response handle back to drive the host's byte transfer.
    pub fn into_inner(self) -> (r: JsValue)
        ensures
            r.spec_handle() == self.spec_handle(),
    {
        self.inner
    }
}

/// Turns the host's response verdict into a result: a sent response wraps
/// the handle, a timeout and an exception map to their errors. An ended
/// stream carries no response, so the host never hands it here.
pub fn response_result(status: FetchStatus, handle: usize) -> (r: Result<ResponseBody, RequestError>)
    requires
        status is Sent ==> handle != 0,
        !(status is Ended),
    ensures
        status is Sent ==> (r matches Ok(b) && b.spec_handle() == handle),
        status is TimedOut ==> r == Result::<ResponseBody, RequestError>::Err(
            RequestError::TimedOut,
        ),
        status is Exception ==> r == Result::<ResponseBody, RequestError>::Err(
            RequestError::Unexpected,
        ),
{
    match status {
        FetchStatus::Sent => Ok(ResponseBody::new(JsValue::take_ownership(handle))),
        FetchStatus::TimedOut => Err(RequestError::TimedOut),
        FetchStatus::Exception => Err(RequestError::Unexpected),
        FetchStatus::Ended => {
            proof {
                assert(false);
            }
            vstd::pervasive::unreached()
        },
    }
}

/// A reader over the response's chunk stream: it holds one chunk at a time
/// and serves byte reads from it, asking for the next chunk when the
/// current one is spent.
pub struct ResponseReader {
    buffer: Vec<u8>,
    pos: usize,
    ended: bool,
}

impl ResponseReader {
    /// The bytes still unread in the current chunk.
    pub open spec fn available(self) -> Seq<u8> {
        self.spec_buffer().skip(self.spec_pos() as int)
    }

    /// The current chunk.
    pub closed spec fn spec_buffer(self) -> Seq<u8> {
        self.buffer@
    }

    /// The read position within the current chunk.
    pub closed spec fn spec_pos(self) -> usize {
        self.pos
    }

    /// Whether the host has reported the end of the stream.
    pub closed spec fn spec_ended(self) -> bool {
        self.ended
    }

    /// The position never runs past the chunk.
    pub open spec fn wf(self) -> bool {
        self.spec_pos() <= self.spec_buffer().len()
    }

    /// A reader with nothing buffered yet.
    pub fn new() -> (r: ResponseReader)
        ensures
            r.wf(),
            r.available() == Seq::<u8>::empty(),
            !r.spec_ended(),
    {
        let r = ResponseReader { buffer: Vec::new(), pos: 0, ended: false };
        proof {
            assert(r.available() =~= Seq::<u8>::empty());
        }
        r
    }

    /// Whether the reader needs the next chunk from the host: the current
    /// one is spent and the stream has not ended.
    pub fn needs_chunk(&self) -> (r: bool)
        requires
            self.wf(),
        ensures
            r == (self.available().len() == 0 && !self.spec_ended()),
    {
        self.pos >= self.buffer.len() && !self.ended
    }

    /// Installs the next chunk received from the host.
    pub fn supply_chunk(&mut self, chunk: Vec<u8>)
        requires
            old(self).wf(),
            old(self).available().len() == 0,
            !old(self).spec_ended(),
        ensures
            final(self).wf(),
            final(self).available() == chunk@,
            !final(self).spec_ended(),
    {
        self.buffer = chunk;
        self.pos = 0;
        proof {
            assert(self.available() =~= self.buffer@);
        }
    }

    /// Records that the host reported the end of the stream.
    pub fn mark_ended(&mut self)
        requires
            old(self).wf(),
        ensures
            final(self).wf(),
            final(self).spec_ended(),
            final(self).available() == old(self).available(),
    {
        self.ended = true;
    }

    /// Reads up to `max` bytes out of the current chunk: exactly the next
    /// `min(max, available)` bytes, in order.
    pub fn read(&mut self, max: usize) -> (r: Vec<u8>)
        requires
            old(self).wf(),
        ensures
            final(self).wf(),
            final(self).spec_ended() == old(self).spec_ended(),
            r@ == old(self).available().take(min_spec(max as int, old(self).available().len() as int)),
            final(self).available() == old(self).available().skip(r@.len() as int),
    {
        let ghost avail0 = old(self).available();
        let mut out: Vec<u8> = Vec::new();
        let end = self.buffer.len();
        let mut taken: usize = 0;
        while taken < max && self.pos < end
            invariant
                self.wf(),
                end == self.buffer@.len(),
                self.buffer@ == old(self).spec_buffer(),
                self.ended == old(self).spec_ended(),
                taken <= max,
                self.pos == old(self).spec_pos() + taken,
                out@.len() == taken,
                out@ == avail0.take(taken as int),
                avail0 == old(self).available(),
            decreases max - taken,
        {
            let b = self.buffer[self.pos];
            out.push(b);
            self.pos = self.pos + 1;
            taken = taken + 1;
            proof {
                assert(out@ =~= avail0.take(taken as int));
            }
        }
        proof {
            assert(out@.len() == min_spec(max as int, avail0.len() as int));
            assert(self.available() =~= avail0.skip(out@.len() as int));
        }
        out
    }

    /// Discards `amt` bytes of the current chunk, as a buffered reader does
    /// after its caller has used them.
    pub fn consume(&mut self, amt: usize)
        requires
            old(self).wf(),
            amt <= old(self).available().len(),
        ensures
            final(self).wf(),
            final(self).spec_ended() == old(self).spec_ended(),
            final(self).available() == old(self).available().skip(amt as int),
    {
        let end = self.buffer.len();
        proof {
            assert(self.pos + amt <= end);
        }
        self.pos = self.pos + amt;
        proof {
            assert(self.available() =~= old(self).available().skip(amt as int));
        }
    }
}

/// The smaller of two integers.
pub open spec fn min_spec(a: int, b: int) -> int {
    if a <= b {
        a
    } else {
        b
    }
}

} // verus!
