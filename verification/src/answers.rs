//! What holds of every answer of the server.
//!
//! A public root is given by the documents in it: a map from the path of
//! each document that can be read to its bytes. What is not in the map is
//! missing or unreadable, which the server does not tell apart.

use crate::media::{content_type_of, extension_of_written, html_content_type};
use crate::path::{
    document_named, index_document, index_is_document, index_name, is_document, segments_of, walk,
    walk_stays_below_root, written, written_path_names_its_document, DocumentPath,
};
use crate::response::{not_found, success, ResponseView};
use crate::route::{root_path, Method};
use crate::serve::{
    answer, bytes_of, ends_in, first_step, next_step, read_from, reads_left, settle, PendingView,
    RequestView, StepView,
};
use crate::text::split;
use vstd::prelude::*;

verus! {

/// The request for a path with `GET`.
pub open spec fn get(path: Seq<char>) -> RequestView {
    RequestView { method: Method::Get, path }
}

/// Every read brings the answer closer: a request is answered after two reads
/// at most.
pub proof fn each_read_comes_closer(pending: PendingView, outcome: Option<Seq<u8>>)
    ensures
        reads_left(next_step(pending, outcome)) < reads_left(StepView::Read(pending)),
{
}

/// The root path names no document.
pub proof fn root_names_no_document()
    ensures
        document_named(root_path()) is None,
{
    let path = root_path();
    let empty = Seq::<char>::empty();
    assert(split(path.drop_last(), '/') =~= seq![empty]);
    let segments = segments_of(path);
    assert(walk(segments.drop_last().drop_last()) == Some(Seq::<Seq<char>>::empty()));
    assert(walk(segments.drop_last()) == Some(Seq::<Seq<char>>::empty()));
}

/// The default document is sent as HTML.
pub proof fn index_is_html()
    ensures
        content_type_of(index_name()) == html_content_type(),
{
    let stem = seq!['i', 'n', 'd', 'e', 'x'];
    let extension = seq!['h', 't', 'm', 'l'];
    assert(index_name() =~= stem.push('.') + extension);
    extension_of_written(stem, extension);
    reveal_strlit("html");
    assert("html"@ =~= extension);
}

/// The response that sends the default document of a public root as HTML, or
/// says that it has none.
pub open spec fn index_answer(site: Map<Seq<Seq<char>>, Seq<u8>>) -> ResponseView {
    match read_from(site, index_document()) {
        Some(bytes) => success(html_content_type(), bytes),
        None => not_found(),
    }
}

/// A request for the root path is answered with the default document, status
/// 200, where the public root holds one.
pub proof fn root_sends_index(site: Map<Seq<Seq<char>>, Seq<u8>>)
    requires
        site.dom().contains(index_document()),
    ensures
        answer(site, get(root_path())) == success(html_content_type(), site[index_document()]),
        answer(site, get(root_path())).status.code_of() == 200,
        answer(site, get(root_path())).body == site[index_document()],
{
    root_answer(site);
}

/// A request for the root path is answered with status 404 where the public
/// root holds no default document.
pub proof fn root_without_index_is_not_found(site: Map<Seq<Seq<char>>, Seq<u8>>)
    requires
        !site.dom().contains(index_document()),
    ensures
        answer(site, get(root_path())) == not_found(),
        answer(site, get(root_path())).status.code_of() == 404,
{
    root_answer(site);
}

/// A request for the root path is answered from the default document alone.
pub proof fn root_answer(site: Map<Seq<Seq<char>>, Seq<u8>>)
    ensures
        answer(site, get(root_path())) == index_answer(site),
{
    index_is_html();
    reveal_with_fuel(settle, 3);
}

/// A request for a path that names a document of the public root is answered
/// with that document, status 200, and the content type that its name calls
/// for.
pub proof fn present_document_is_sent(
    site: Map<Seq<Seq<char>>, Seq<u8>>,
    path: Seq<char>,
    document: Seq<Seq<char>>,
)
    requires
        document_named(path) == Some(document),
        site.dom().contains(document),
    ensures
        answer(site, get(path)) == success(content_type_of(document.last()), site[document]),
        answer(site, get(path)).status.code_of() == 200,
        answer(site, get(path)).body == site[document],
{
    root_names_no_document();
    reveal_with_fuel(settle, 3);
}

/// Every document of the public root is sent when it is asked for by its
/// path written out, as long as none of its names holds a `%`, which a
/// request would have to write encoded.
pub proof fn every_document_can_be_asked_for(
    site: Map<Seq<Seq<char>>, Seq<u8>>,
    document: Seq<Seq<char>>,
)
    requires
        is_document(document),
        site.dom().contains(document),
        forall|i: int| 0 <= i < document.len() ==> !(#[trigger] document[i]).contains('%'),
    ensures
        answer(site, get(written(document))) == success(
            content_type_of(document.last()),
            site[document],
        ),
{
    written_path_names_its_document(document);
    present_document_is_sent(site, written(document), document);
}

/// A request for a path that names no document of the public root gets the
/// response that a request for the root path gets: the default document, or
/// status 404 where there is none.
pub proof fn absent_document_falls_back(site: Map<Seq<Seq<char>>, Seq<u8>>, path: Seq<char>)
    requires
        document_named(path) matches Some(document) ==> !site.dom().contains(document),
    ensures
        answer(site, get(path)) == answer(site, get(root_path())),
        answer(site, get(path)) == index_answer(site),
{
    root_answer(site);
    index_is_html();
    reveal_with_fuel(settle, 3);
}

/// Requests with another method than `GET` are answered with status 404.
pub proof fn other_methods_are_not_found(site: Map<Seq<Seq<char>>, Seq<u8>>, request: RequestView)
    requires
        request.method != Method::Get,
    ensures
        answer(site, request) == not_found(),
{
    reveal_with_fuel(settle, 3);
}

/// Whether a step asks for nothing but a document below the public root.
pub open spec fn stays_below_root(step: StepView) -> bool {
    match step {
        StepView::Read(pending) => is_document(pending.document),
        StepView::Reply(_) => true,
    }
}

/// Whatever the request path holds, the first read asked for is that of a
/// document below the public root: each name on its path is plain, so none is
/// `..`, none holds `/`, and none holds `..` between backslashes.
pub proof fn first_step_stays_below_root(request: RequestView)
    ensures
        stays_below_root(first_step(request)),
{
    index_is_document();
    walk_stays_below_root(segments_of(request.path));
}

/// Whatever a read gave, the next read asked for is that of a document below
/// the public root.
pub proof fn next_step_stays_below_root(pending: PendingView, outcome: Option<Seq<u8>>)
    ensures
        stays_below_root(next_step(pending, outcome)),
{
    index_is_document();
}

/// Whether a response sends a document that lies below the public root, with
/// the content type that its name calls for.
pub open spec fn sends_a_document(site: Map<Seq<Seq<char>>, Seq<u8>>, response: ResponseView) -> bool {
    exists|document: Seq<Seq<char>>|
        {
            &&& is_document(document)
            &&& site.dom().contains(document)
            &&& response == success(content_type_of(document.last()), #[trigger] site[document])
        }
}

/// Whatever the request, the response either sends a document that lies
/// below the public root or is not found: a path with `..` in it never brings
/// up anything from outside.
pub proof fn answer_comes_from_below_root(site: Map<Seq<Seq<char>>, Seq<u8>>, request: RequestView)
    ensures
        answer(site, request) == not_found() || sends_a_document(site, answer(site, request)),
{
    reveal_with_fuel(settle, 3);
    index_is_document();
    walk_stays_below_root(segments_of(request.path));
    if let StepView::Read(pending) = first_step(request) {
        if site.dom().contains(pending.document) {
            assert(sends_a_document(site, answer(site, request)));
        } else if site.dom().contains(index_document()) {
            assert(sends_a_document(site, answer(site, request)));
        }
    }
}

/// Whether a response sends what a reader has returned for a document below
/// the public root, with the content type that the document's name calls for.
pub open spec fn sends_a_read<F: Fn(&DocumentPath) -> Option<Vec<u8>>>(
    read: F,
    response: ResponseView,
) -> bool {
    exists|document: &DocumentPath, bytes: Vec<u8>|
        {
            &&& #[trigger] call_ensures(read, (document,), Some(bytes))
            &&& is_document(document@)
            &&& response == success(content_type_of(document@.last()), bytes@)
        }
}

/// Whatever the reader does, a response that a request can end in either
/// sends what the reader returned for a document below the public root, or is
/// not found.
pub proof fn whatever_is_sent_was_read<F: Fn(&DocumentPath) -> Option<Vec<u8>>>(
    read: F,
    request: RequestView,
    response: ResponseView,
)
    requires
        ends_in(read, first_step(request), response),
    ensures
        response == not_found() || sends_a_read(read, response),
{
    reveal_with_fuel(ends_in, 3);
    first_step_stays_below_root(request);
    index_is_document();
    if let StepView::Read(pending) = first_step(request) {
        let (document, outcome) = choose|document: &DocumentPath, outcome: Option<Vec<u8>>|
            {
                &&& document@ == pending.document
                &&& #[trigger] call_ensures(read, (document,), outcome)
                &&& ends_in(read, next_step(pending, bytes_of(outcome)), response)
            };
        match outcome {
            Some(bytes) => {
                assert(call_ensures(read, (document,), Some(bytes)));
            },
            None => {
                if let StepView::Read(second) = next_step(pending, None) {
                    let (index, again) = choose|index: &DocumentPath, again: Option<Vec<u8>>|
                        {
                            &&& index@ == second.document
                            &&& #[trigger] call_ensures(read, (index,), again)
                            &&& ends_in(read, next_step(second, bytes_of(again)), response)
                        };
                    if let Some(bytes) = again {
                        assert(call_ensures(read, (index,), Some(bytes)));
                    }
                }
            },
        }
    }
}

} // verus!
