//! The two handlers, as steps: which document to read, and what to answer
//! once it was read or found missing.
//!
//! Reading is left to whoever embeds the server. A handler returns a
//! [`Step`]: either the response, or a read that is pending. The embedder
//! tries to read the pending document, reports with [`Pending::resume`]
//! whether it could, and gets the next step. Where reading is a plain call,
//! [`serve`] takes these steps itself.

use crate::media::{content_type, content_type_of};
use crate::path::{document_named, index_document, is_document, resolve, DocumentPath};
use crate::response::{not_found, success, Response, ResponseView};
use crate::route::{handler_for, route, Handler, Method};
use vstd::prelude::*;

verus! {

/// A request, as far as the server looks at it: the method, and the path of
/// the request target as it was sent, still percent-encoded.
#[derive(Debug, PartialEq, Eq)]
pub struct Request {
    pub method: Method,
    pub path: String,
}

/// A request as a mathematical value.
pub struct RequestView {
    pub method: Method,
    pub path: Seq<char>,
}

impl View for Request {
    type V = RequestView;

    open spec fn view(&self) -> RequestView {
        RequestView { method: self.method, path: self.path@ }
    }
}

/// A read that the server waits for.
#[derive(Debug, PartialEq, Eq)]
pub struct Pending {
    /// The document to read.
    pub document: DocumentPath,
    /// Whether the default document is tried next if this one is missing.
    pub fallback: bool,
}

/// A pending read as a mathematical value.
pub struct PendingView {
    pub document: Seq<Seq<char>>,
    pub fallback: bool,
}

impl View for Pending {
    type V = PendingView;

    open spec fn view(&self) -> PendingView {
        PendingView { document: self.document@, fallback: self.fallback }
    }
}

/// What the server does next.
#[derive(Debug, PartialEq, Eq)]
pub enum Step {
    /// It needs a document read.
    Read(Pending),
    /// It answers.
    Reply(Response),
}

/// A step as a mathematical value.
pub enum StepView {
    Read(PendingView),
    Reply(ResponseView),
}

impl View for Step {
    type V = StepView;

    open spec fn view(&self) -> StepView {
        match self {
            Step::Read(pending) => StepView::Read(pending@),
            Step::Reply(response) => StepView::Reply(response@),
        }
    }
}

/// What a read found, as a mathematical value: the bytes of the document, or
/// `None` where it is missing or cannot be read.
pub open spec fn bytes_of(outcome: Option<Vec<u8>>) -> Option<Seq<u8>> {
    match outcome {
        Some(bytes) => Some(bytes@),
        None => None,
    }
}

/// The read of the default document, after which nothing else is tried.
pub open spec fn index_step() -> StepView {
    StepView::Read(PendingView { document: index_document(), fallback: false })
}

/// The first step of the files handler: the read of the document that the
/// path names, with the default document to fall back on; or, where the path
/// names no document, the read of the default document at once.
pub open spec fn files_step(path: Seq<char>) -> StepView {
    match document_named(path) {
        Some(document) => StepView::Read(PendingView { document, fallback: true }),
        None => index_step(),
    }
}

/// The first step for a request: only `GET` is served; the routing table
/// picks the handler.
pub open spec fn first_step(request: RequestView) -> StepView {
    if request.method != Method::Get {
        StepView::Reply(not_found())
    } else {
        match handler_for(request.path) {
            Handler::Index => index_step(),
            Handler::Files => files_step(request.path),
        }
    }
}

/// The step after a read: a document that was read is sent with the content
/// type that its name calls for; after a missing one the default document is
/// tried, if it has not been, and otherwise nothing is found.
pub open spec fn next_step(pending: PendingView, outcome: Option<Seq<u8>>) -> StepView {
    match outcome {
        Some(bytes) => StepView::Reply(success(content_type_of(pending.document.last()), bytes)),
        None => if pending.fallback {
            index_step()
        } else {
            StepView::Reply(not_found())
        },
    }
}

/// The handler of the root path: asks for the default document.
pub fn index() -> (step: Step)
    ensures
        step@ == index_step(),
{
    Step::Read(Pending { document: DocumentPath::index(), fallback: false })
}

/// The handler of every other path: asks for the document that the path
/// names, or for the default document where it names none.
pub fn files(path: &str) -> (step: Step)
    ensures
        step@ == files_step(path@),
{
    match resolve(path) {
        Some(document) => Step::Read(Pending { document, fallback: true }),
        None => index(),
    }
}

/// Takes up a request: routes it and runs its handler up to the first read.
pub fn handle(request: &Request) -> (step: Step)
    ensures
        step@ == first_step(request@),
{
    match request.method {
        Method::Get => match route(request.path.as_str()) {
            Handler::Index => index(),
            Handler::Files => files(request.path.as_str()),
        },
        _ => Step::Reply(Response::not_found()),
    }
}

impl Pending {
    /// Goes on after the read: `outcome` holds the bytes of the document, or
    /// `None` where it is missing or could not be read.
    pub fn resume(self, outcome: Option<Vec<u8>>) -> (step: Step)
        ensures
            step@ == next_step(self@, bytes_of(outcome)),
            is_document(self@.document),
    {
        let name = self.document.file_name();
        match outcome {
            Some(bytes) => Step::Reply(Response::success(content_type(name), bytes)),
            None => if self.fallback {
                index()
            } else {
                Step::Reply(Response::not_found())
            },
        }
    }
}

/// What reading a document from a public root gives, the root being given by
/// the bytes of each document in it that can be read.
pub open spec fn read_from(site: Map<Seq<Seq<char>>, Seq<u8>>, document: Seq<Seq<char>>) -> Option<
    Seq<u8>,
> {
    if site.dom().contains(document) {
        Some(site[document])
    } else {
        None
    }
}

/// How many reads a step can still lead to.
pub open spec fn reads_left(step: StepView) -> nat {
    match step {
        StepView::Reply(_) => 0,
        StepView::Read(pending) => if pending.fallback {
            2
        } else {
            1
        },
    }
}

/// The response that a step ends in when every read it asks for is done on
/// the given public root.
pub open spec fn settle(site: Map<Seq<Seq<char>>, Seq<u8>>, step: StepView) -> ResponseView
    decreases reads_left(step),
{
    match step {
        StepView::Reply(response) => response,
        StepView::Read(pending) => settle(
            site,
            next_step(pending, read_from(site, pending.document)),
        ),
    }
}

/// The response to a request, served from the given public root.
pub open spec fn answer(site: Map<Seq<Seq<char>>, Seq<u8>>, request: RequestView) -> ResponseView {
    settle(site, first_step(request))
}

/// Whether a reader reads from the given public root: whatever it returns for
/// a document is what the root holds for it.
pub open spec fn reads_site<F: Fn(&DocumentPath) -> Option<Vec<u8>>>(
    read: F,
    site: Map<Seq<Seq<char>>, Seq<u8>>,
) -> bool {
    forall|document: &DocumentPath, outcome: Option<Vec<u8>>| #[trigger]
        call_ensures(read, (document,), outcome) ==> bytes_of(outcome) == read_from(
            site,
            document@,
        )
}

/// Whether a response is one that a step can end in with the given reader:
/// the response itself where the step is a reply, and else a response that
/// the next step can end in, after the reader has returned something for the
/// document that the step asks for.
pub open spec fn ends_in<F: Fn(&DocumentPath) -> Option<Vec<u8>>>(
    read: F,
    step: StepView,
    response: ResponseView,
) -> bool
    decreases reads_left(step),
{
    match step {
        StepView::Reply(reply) => response == reply,
        StepView::Read(pending) => exists|document: &DocumentPath, outcome: Option<Vec<u8>>|
            {
                &&& document@ == pending.document
                &&& #[trigger] call_ensures(read, (document,), outcome)
                &&& ends_in(read, next_step(pending, bytes_of(outcome)), response)
            },
    }
}

/// Answers a request, with `read` to do the reads: it is given a document and
/// returns its bytes, or `None` where the document is missing or cannot be
/// read. It is called twice at most.
///
/// The response is the one that the steps of the request end in with what the
/// reader returned. For a reader that reads from a public root, that is the
/// answer to the request from that root.
pub fn serve<F: Fn(&DocumentPath) -> Option<Vec<u8>>>(request: &Request, read: F) -> (response:
    Response)
    requires
        forall|document: &DocumentPath| call_requires(read, (document,)),
    ensures
        ends_in(read, first_step(request@), response@),
        forall|site: Map<Seq<Seq<char>>, Seq<u8>>|
            reads_site(read, site) ==> response@ == #[trigger] answer(site, request@),
{
    let mut step = handle(request);
    loop
        invariant
            forall|document: &DocumentPath| call_requires(read, (document,)),
            forall|response: ResponseView| #[trigger]
                ends_in(read, step@, response) ==> ends_in(read, first_step(request@), response),
            forall|site: Map<Seq<Seq<char>>, Seq<u8>>|
                reads_site(read, site) ==> settle(site, step@) == #[trigger] answer(
                    site,
                    request@,
                ),
        decreases reads_left(step@),
    {
        match step {
            Step::Reply(response) => {
                assert(ends_in(read, StepView::Reply(response@), response@));
                return response;
            },
            Step::Read(pending) => {
                let ghost asked = step@;
                let outcome = read(&pending.document);
                let ghost document = pending.document;
                let ghost given = outcome;
                step = pending.resume(outcome);
                proof {
                    assert forall|response: ResponseView| #[trigger]
                        ends_in(read, step@, response) implies ends_in(
                        read,
                        asked,
                        response,
                    ) by {
                        assert(call_ensures(read, (&document,), given));
                    }
                }
            },
        }
    }
}

} // verus!
