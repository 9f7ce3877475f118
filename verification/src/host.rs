//! The host boundary: the shapes of an HTTP exchange, the trait every host
//! implements, and a recorder that keeps the sequence of calls an operation
//! made, so the order of host calls can be stated and proved.
use vstd::prelude::*;

verus! {

#[derive(Debug, PartialEq, Eq)]
pub struct HttpRequest {
    pub method: String,
    pub url: String,
    pub headers: Vec<(String, String)>,
    pub body: Option<Vec<u8>>,
}

#[derive(Debug, PartialEq, Eq)]
pub struct HttpResponse {
    pub status: u16,
    pub body: Vec<u8>,
}

pub struct HttpRequestV {
    pub method: Seq<char>,
    pub url: Seq<char>,
    pub headers: Seq<(Seq<char>, Seq<char>)>,
    pub body: Option<Seq<u8>>,
}

pub open spec fn headers_view(h: Seq<(String, String)>) -> Seq<(Seq<char>, Seq<char>)> {
    h.map_values(|e: (String, String)| (e.0@, e.1@))
}

impl View for HttpRequest {
    type V = HttpRequestV;

    open spec fn view(&self) -> HttpRequestV {
        HttpRequestV {
            method: self.method@,
            url: self.url@,
            headers: headers_view(self.headers@),
            body: match self.body {
                Some(b) => Some(b@),
                None => None,
            },
        }
    }
}

pub struct HttpResponseV {
    pub status: u16,
    pub body: Seq<u8>,
}

impl View for HttpResponse {
    type V = HttpResponseV;

    open spec fn view(&self) -> HttpResponseV {
        HttpResponseV { status: self.status, body: self.body@ }
    }
}

/// One host call, as an operation issued it, with the host's reply.
pub enum HostCall {
    Secret { uri: Seq<char>, reply: Result<Seq<char>, Seq<char>> },
    Fetch { req: HttpRequestV, reply: Result<HttpResponseV, Seq<char>> },
}

pub open spec fn secret_reply(r: Result<String, String>) -> Result<Seq<char>, Seq<char>> {
    match r {
        Ok(s) => Ok(s@),
        Err(e) => Err(e@),
    }
}

pub open spec fn fetch_reply(r: Result<HttpResponse, String>) -> Result<HttpResponseV, Seq<char>> {
    match r {
        Ok(resp) => Ok(resp@),
        Err(e) => Err(e@),
    }
}

/// The calls a host offers. A non-2xx status is a successful `fetch`
/// carrying that status: status handling belongs to the parsers.
///
/// `fetch_answers` and `secret_answers` say which replies a host gives to
/// which calls. The contract of each call is that its reply is one the host
/// gives to the request actually passed, so code generic over the host can
/// only have a reply by making the call it answers.
pub trait HostCalls {
    /// Whether `reply` is an answer this host gives to `req`. A host that
    /// does not define it claims nothing.
    closed spec fn fetch_answers(&self, req: HttpRequestV, reply: Result<HttpResponseV, Seq<char>>) -> bool {
        true
    }

    /// Whether `reply` is an answer this host gives to the secret `uri`. A
    /// host that does not define it claims nothing.
    closed spec fn secret_answers(&self, uri: Seq<char>, reply: Result<Seq<char>, Seq<char>>) -> bool {
        true
    }

    /// Send one HTTP request; `Err` carries the host's transport error.
    fn fetch(&self, req: &HttpRequest) -> (r: Result<HttpResponse, String>)
        ensures
            self.fetch_answers(req@, fetch_reply(r));

    /// Resolve a secret URI; `Err` carries the host's message when the URI
    /// is undeclared or unresolvable.
    fn secret(&self, uri: &str) -> (r: Result<String, String>)
        ensures
            self.secret_answers(uri@, secret_reply(r));
}

/// `host` gives the reply recorded for this call.
pub open spec fn call_answered<H: HostCalls>(host: &H, c: HostCall) -> bool {
    match c {
        HostCall::Secret { uri, reply } => host.secret_answers(uri, reply),
        HostCall::Fetch { req, reply } => host.fetch_answers(req, reply),
    }
}

/// Every recorded call was made to `host`, with the recorded reply.
pub open spec fn answered_by<H: HostCalls>(host: &H, calls: Seq<HostCall>) -> bool {
    forall|i: int| 0 <= i < calls.len() ==> call_answered(host, #[trigger] calls[i])
}

/// A host together with the calls made through it so far. The host is
/// reached only through [`Traced::fetch`] and [`Traced::secret`], which
/// send the request they record, so the record is the sequence of calls
/// the host received.
pub struct Traced<'a, H: HostCalls> {
    host: &'a H,
    calls: Ghost<Seq<HostCall>>,
}

impl<'a, H: HostCalls> Traced<'a, H> {
    /// Every recorded call was answered by the host.
    #[verifier::type_invariant]
    spec fn recorded_calls_were_made(self) -> bool {
        answered_by(self.host, self.calls@)
    }

    /// The host the calls go to.
    pub closed spec fn host(&self) -> &'a H {
        self.host
    }

    /// The calls made so far, in order, with their replies.
    pub closed spec fn calls(&self) -> Seq<HostCall> {
        self.calls@
    }

    /// Start recording calls to `host`.
    pub fn new(host: &'a H) -> (r: Self)
        ensures
            r.host() == host,
            r.calls() == Seq::<HostCall>::empty(),
    {
        Traced { host, calls: Ghost(Seq::empty()) }
    }

    /// `fetch` through the host, recorded with its reply.
    pub fn fetch(&mut self, req: &HttpRequest) -> (r: Result<HttpResponse, String>)
        ensures
            final(self).host() == old(self).host(),
            final(self).calls() == old(self).calls().push(HostCall::Fetch { req: req@, reply: fetch_reply(r) }),
    {
        proof { use_type_invariant(&*self); }
        let r = self.host.fetch(req);
        self.calls = Ghost(self.calls@.push(HostCall::Fetch { req: req@, reply: fetch_reply(r) }));
        r
    }

    /// `secret` through the host, recorded with its reply.
    pub fn secret(&mut self, uri: &str) -> (r: Result<String, String>)
        ensures
            final(self).host() == old(self).host(),
            final(self).calls() == old(self).calls().push(HostCall::Secret { uri: uri@, reply: secret_reply(r) }),
    {
        proof { use_type_invariant(&*self); }
        let r = self.host.secret(uri);
        self.calls = Ghost(self.calls@.push(HostCall::Secret { uri: uri@, reply: secret_reply(r) }));
        r
    }

    /// Stop recording: the calls made, each of which the host answered with
    /// the recorded reply.
    pub fn finish(self) -> (r: Ghost<Seq<HostCall>>)
        ensures
            r@ == self.calls(),
            answered_by(self.host(), r@),
    {
        proof { use_type_invariant(&self); }
        self.calls
    }
}

} // verus!
