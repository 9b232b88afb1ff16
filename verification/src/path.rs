//! Request paths, and the documents they name below the public root.
//!
//! A request path is taken apart at its slashes and each piece is decoded.
//! The segments so found are followed from the public root: a name leads down,
//! `..` leads up but never above the root, and a segment that would lead
//! somewhere else than one level down bars the way. Where the way ends below
//! the root, there lies the document that the path names.
//!
//! A backslash is an ordinary character of a name where `/` alone separates
//! levels, and separates levels itself elsewhere. A segment may hold it, as
//! long as none of the parts between its backslashes is `..`: then the
//! segment stays below the place it is joined to on either reading.

use crate::text::{
    holds, split, split_after_separator, split_text, split_without_separator, texts,
};
use vstd::prelude::*;

verus! {

/// What a segment of a path does to the place reached so far.
#[derive(Clone, Copy, Debug, PartialEq, Eq, Structural)]
pub enum SegmentKind {
    /// Empty or `.`: stays where it is.
    Stay,
    /// `..`: goes up one level.
    Up,
    /// Holds `/`, or `..` between backslashes, and so might lead somewhere
    /// else than down: never followed.
    Barred,
    /// The name of a file or directory: goes down into it.
    Name,
}

/// The segment that leads one level up.
pub open spec fn up_segment() -> Seq<char> {
    seq!['.', '.']
}

/// Whether a segment would lead up where `\` separates levels: whether one of
/// the parts between its backslashes is `..`.
pub open spec fn climbs(segment: Seq<char>) -> bool {
    split(segment, '\\').contains(up_segment())
}

/// Whether no level of a path leads up, whether its levels are separated by
/// `/` alone or by `\` as well.
pub open spec fn never_leads_up(path: Seq<char>) -> bool {
    forall|i: int| 0 <= i < split(path, '/').len() ==> !climbs(#[trigger] split(path, '/')[i])
}

/// The kind of a segment.
pub open spec fn kind_of(segment: Seq<char>) -> SegmentKind {
    if segment.len() == 0 || segment == seq!['.'] {
        SegmentKind::Stay
    } else if segment == up_segment() {
        SegmentKind::Up
    } else if segment.contains('/') || climbs(segment) {
        SegmentKind::Barred
    } else {
        SegmentKind::Name
    }
}

/// A plain segment is a name: joined to a directory, it names something
/// inside that directory.
pub open spec fn is_plain(segment: Seq<char>) -> bool {
    kind_of(segment) == SegmentKind::Name
}

/// Where one segment leads from the place `trail`, given as the names from the
/// public root down to it: `None` where the segment is barred. Going up from
/// the root stays at the root.
pub open spec fn enter(trail: Seq<Seq<char>>, segment: Seq<char>) -> Option<Seq<Seq<char>>> {
    match kind_of(segment) {
        SegmentKind::Stay => Some(trail),
        SegmentKind::Up => Some(
            if trail.len() == 0 {
                trail
            } else {
                trail.drop_last()
            },
        ),
        SegmentKind::Barred => None,
        SegmentKind::Name => Some(trail.push(segment)),
    }
}

/// Where a sequence of segments leads from the public root, followed one after
/// the other: `None` as soon as one of them is barred.
pub open spec fn walk(segments: Seq<Seq<char>>) -> Option<Seq<Seq<char>>>
    decreases segments.len(),
{
    if segments.len() == 0 {
        Some(Seq::empty())
    } else {
        match walk(segments.drop_last()) {
            Some(trail) => enter(trail, segments.last()),
            None => None,
        }
    }
}

/// Whether every one of `names` is plain.
pub open spec fn all_plain(names: Seq<Seq<char>>) -> bool {
    forall|i: int| 0 <= i < names.len() ==> is_plain(#[trigger] names[i])
}

/// Whether `names` can be the path of a document below the public root: at
/// least one name, each of them plain.
pub open spec fn is_document(names: Seq<Seq<char>>) -> bool {
    names.len() > 0 && all_plain(names)
}

/// The document that a sequence of segments names: the place they lead to,
/// unless a segment is barred or they lead to the public root itself.
pub open spec fn document_at(segments: Seq<Seq<char>>) -> Option<Seq<Seq<char>>> {
    match walk(segments) {
        Some(trail) if trail.len() > 0 => Some(trail),
        _ => None,
    }
}

/// What Rocket makes of a percent-encoded piece of a path: every `%` followed
/// by two hexadecimal digits replaced by the byte they write, and the bytes
/// read as UTF-8, with U+FFFD in place of what is not.
pub uninterp spec fn percent_decoded(raw: Seq<char>) -> Seq<char>;

/// The segment that a piece of a request path stands for: the piece itself
/// where it holds no `%`, and else the piece percent-decoded.
pub open spec fn segment_of(piece: Seq<char>) -> Seq<char> {
    if piece.contains('%') {
        percent_decoded(piece)
    } else {
        piece
    }
}

/// The segments of a request path: its pieces between slashes, each decoded.
pub open spec fn segments_of(path: Seq<char>) -> Seq<Seq<char>> {
    split(path, '/').map_values(|piece: Seq<char>| segment_of(piece))
}

/// The document that a request path names, if it names one.
pub open spec fn document_named(path: Seq<char>) -> Option<Seq<Seq<char>>> {
    document_at(segments_of(path))
}

/// The name of the default document.
pub open spec fn index_name() -> Seq<char> {
    seq!['i', 'n', 'd', 'e', 'x', '.', 'h', 't', 'm', 'l']
}

/// The path of the default document, directly below the public root.
pub open spec fn index_document() -> Seq<Seq<char>> {
    seq![index_name()]
}

/// The path of a place written out from the public root: each name on the way
/// down, with a slash before it.
pub open spec fn written(names: Seq<Seq<char>>) -> Seq<char>
    decreases names.len(),
{
    if names.len() == 0 {
        Seq::empty()
    } else {
        written(names.drop_last()).push('/') + names.last()
    }
}

/// The path of a document below the public root, as the names that lead down
/// to it. Each name is plain: none is empty, `.` or `..`, none holds `/`, and
/// none holds `..` between backslashes.
#[derive(Debug, PartialEq, Eq)]
pub struct DocumentPath {
    names: Vec<String>,
}

impl View for DocumentPath {
    type V = Seq<Seq<char>>;

    closed spec fn view(&self) -> Seq<Seq<char>> {
        texts(self.names@)
    }
}

impl DocumentPath {
    #[verifier::type_invariant]
    spec fn well_formed(&self) -> bool {
        is_document(texts(self.names@))
    }

    /// The default document, `index.html`.
    pub fn index() -> (document: DocumentPath)
        ensures
            document@ == index_document(),
    {
        let name = "index.html".to_owned();
        let mut names: Vec<String> = Vec::new();
        names.push(name);
        proof {
            reveal_strlit("index.html");
            assert(name@ =~= index_name());
            assert(texts(names@) =~= index_document());
            index_is_document();
        }
        DocumentPath { names }
    }

    /// The names from the public root down to the document.
    pub fn names(&self) -> (names: &Vec<String>)
        ensures
            texts(names@) == self@,
            is_document(self@),
    {
        proof {
            use_type_invariant(self);
        }
        &self.names
    }

    /// The document's own name: the last on its path.
    pub fn file_name(&self) -> (name: &str)
        ensures
            is_document(self@),
            name@ == self@.last(),
    {
        proof {
            use_type_invariant(self);
        }
        self.names[self.names.len() - 1].as_str()
    }
}

/// The names of a document that may be missing.
pub open spec fn names_of(found: Option<DocumentPath>) -> Option<Seq<Seq<char>>> {
    match found {
        Some(document) => Some(document@),
        None => None,
    }
}

/// Whether one of the parts between the backslashes of a segment is `..`.
pub fn leads_up(segment: &str) -> (found: bool)
    ensures
        found == climbs(segment@),
{
    let up = "..".to_owned();
    let parts = split_text(segment, '\\');
    proof {
        reveal_strlit("..");
        assert(up@ =~= up_segment());
    }
    let mut at: usize = 0;
    while at < parts.len()
        invariant
            at <= parts.len(),
            up@ == up_segment(),
            texts(parts@) == split(segment@, '\\'),
            forall|i: int| 0 <= i < at ==> texts(parts@)[i] != up_segment(),
        decreases parts.len() - at,
    {
        if parts[at] == up {
            proof {
                assert(texts(parts@)[at as int] == up_segment());
            }
            return true;
        }
        at = at + 1;
    }
    false
}

/// Tells what a segment does.
pub fn classify(segment: &str) -> (kind: SegmentKind)
    ensures
        kind == kind_of(segment@),
{
    let mut length: u8 = 0;
    let mut dots_only = true;
    let mut slash = false;
    let ghost mut seen: int = 0;
    for c in it: segment.chars()
        invariant
            it.seq() == segment@,
            seen == it.index(),
            length == if seen < 3 {
                seen
            } else {
                3
            },
            dots_only <==> forall|i: int| 0 <= i < seen ==> segment@[i] == '.',
            slash <==> segment@.take(seen).contains('/'),
    {
        proof {
            let before = segment@.take(seen);
            let after = segment@.take(seen + 1);
            if before.contains('/') {
                let i = choose|i: int| 0 <= i < before.len() && before[i] == '/';
                assert(after[i] == before[i]);
            }
            if c == '/' {
                assert(after[seen] == c);
            }
            seen = seen + 1;
        }
        if c != '.' {
            dots_only = false;
        }
        if c == '/' {
            slash = true;
        }
        if length < 3 {
            length = length + 1;
        }
    }
    proof {
        assert(segment@.take(seen) =~= segment@);
        if length == 1 && dots_only {
            assert(segment@ =~= seq!['.']);
        }
        if length == 2 && dots_only {
            assert(segment@ =~= up_segment());
        }
    }
    if length == 0 || (length == 1 && dots_only) {
        SegmentKind::Stay
    } else if length == 2 && dots_only {
        SegmentKind::Up
    } else if slash || leads_up(segment) {
        SegmentKind::Barred
    } else {
        SegmentKind::Name
    }
}

/// Once a walk has met a barred segment, no further segment brings it back.
proof fn barred_for_good(segments: Seq<Seq<char>>, upto: int)
    requires
        0 <= upto <= segments.len(),
        walk(segments.take(upto)) is None,
    ensures
        walk(segments) is None,
    decreases segments.len() - upto,
{
    if upto < segments.len() {
        assert(segments.take(upto + 1).drop_last() =~= segments.take(upto));
        barred_for_good(segments, upto + 1);
    } else {
        assert(segments.take(upto) =~= segments);
    }
}

/// The document that segments name which are decoded already.
pub fn normalize(segments: &Vec<String>) -> (found: Option<DocumentPath>)
    ensures
        names_of(found) == document_at(texts(segments@)),
{
    let mut trail: Vec<String> = Vec::new();
    let mut at: usize = 0;
    while at < segments.len()
        invariant
            at <= segments.len(),
            walk(texts(segments@).take(at as int)) == Some(texts(trail@)),
            all_plain(texts(trail@)),
        decreases segments.len() - at,
    {
        let ghost before = texts(trail@);
        proof {
            assert(texts(segments@).take(at + 1).drop_last() =~= texts(segments@).take(at as int));
        }
        match classify(segments[at].as_str()) {
            SegmentKind::Stay => {},
            SegmentKind::Up => {
                if trail.len() > 0 {
                    trail.pop();
                    proof {
                        assert(texts(trail@) =~= before.drop_last());
                    }
                }
            },
            SegmentKind::Barred => {
                proof {
                    barred_for_good(texts(segments@), at + 1);
                }
                return None;
            },
            SegmentKind::Name => {
                trail.push(segments[at].clone());
            },
        }
        at = at + 1;
    }
    proof {
        assert(texts(segments@).take(at as int) =~= texts(segments@));
    }
    if trail.len() == 0 {
        None
    } else {
        Some(DocumentPath { names: trail })
    }
}

/// Decodes a piece of a path with `rocket::http::RawStr::percent_decode_lossy`.
///
/// Trusted: the result depends on the piece alone, which is all that the
/// contract claims by naming it [`percent_decoded`].
#[verifier::external_body]
fn percent_decode(raw: &str) -> (decoded: String)
    ensures
        decoded@ == percent_decoded(raw@),
{
    rocket::http::RawStr::new(raw).percent_decode_lossy().into_owned()
}

/// Splits a request path at its slashes and decodes each piece that holds a
/// `%`.
pub fn segments(path: &str) -> (segments: Vec<String>)
    ensures
        texts(segments@) == segments_of(path@),
{
    let pieces = split_text(path, '/');
    let mut segments: Vec<String> = Vec::new();
    let mut at: usize = 0;
    while at < pieces.len()
        invariant
            at <= pieces.len(),
            segments.len() == at,
            forall|i: int| 0 <= i < at ==> (#[trigger] segments[i])@ == segment_of(pieces[i]@),
        decreases pieces.len() - at,
    {
        let piece = pieces[at].as_str();
        if holds(piece, '%') {
            segments.push(percent_decode(piece));
        } else {
            segments.push(pieces[at].clone());
        }
        at = at + 1;
    }
    segments
}

/// The document that a request path names.
///
/// The path is split at its slashes and each piece decoded. Empty segments and
/// `.` are passed over and `..` leads one level up, but never above the public
/// root. The path names no document where a decoded segment holds `/`, or
/// `..` between backslashes, or where the way ends at the public root itself.
pub fn resolve(path: &str) -> (found: Option<DocumentPath>)
    ensures
        names_of(found) == document_named(path@),
{
    normalize(&segments(path))
}

/// The default document is a document.
pub proof fn index_is_document()
    ensures
        is_document(index_document()),
{
    let name = index_name();
    assert(!name.contains('\\'));
    split_without_separator(name, '\\');
    assert(seq![name][0] == name);
    assert(name.len() == 10);
    assert(up_segment().len() == 2);
    assert(!climbs(name));
}

/// What it is for a segment to be plain: it is not empty, neither `.` nor
/// `..`, holds no `/`, and none of the parts between its backslashes is `..`.
/// So it leads down and nowhere else, whether `\` separates levels or not.
pub proof fn plain_segment_leads_down(segment: Seq<char>)
    ensures
        is_plain(segment) <==> (segment.len() > 0 && segment != seq!['.'] && segment
            != up_segment() && !segment.contains('/') && forall|i: int|
            0 <= i < split(segment, '\\').len() ==> #[trigger] split(segment, '\\')[i]
                != up_segment()),
{
}

/// Every place that a walk leads to is named by plain segments alone: none of
/// them leads up, on either reading of `\`.
pub proof fn walk_stays_below_root(segments: Seq<Seq<char>>)
    ensures
        walk(segments) matches Some(trail) ==> all_plain(trail),
    decreases segments.len(),
{
    if segments.len() > 0 {
        walk_stays_below_root(segments.drop_last());
    }
}

/// Plain names lead down one after the other from wherever the way stands.
pub proof fn walk_down(before: Seq<Seq<char>>, names: Seq<Seq<char>>)
    requires
        walk(before) is Some,
        all_plain(names),
    ensures
        walk(before + names) == Some(walk(before)->0 + names),
    decreases names.len(),
{
    if names.len() > 0 {
        let above = names.drop_last();
        walk_down(before, above);
        assert((before + names).drop_last() =~= before + above);
    }
}

/// A document's path, written out, reads level by level as the names it was
/// written from: no level of it is `..`, and joined to a directory it names
/// something inside that directory.
pub proof fn written_reads_back(names: Seq<Seq<char>>)
    requires
        all_plain(names),
    ensures
        split(written(names), '/') == seq![Seq::<char>::empty()] + names,
    decreases names.len(),
{
    if names.len() > 0 {
        let above = names.drop_last();
        written_reads_back(above);
        split_after_separator(written(above), names.last(), '/');
    }
}

/// The path written for a document names that document, as long as none of
/// its names holds a `%`: every such document can be asked for.
pub proof fn written_path_names_its_document(document: Seq<Seq<char>>)
    requires
        is_document(document),
        forall|i: int| 0 <= i < document.len() ==> !(#[trigger] document[i]).contains('%'),
    ensures
        document_named(written(document)) == Some(document),
{
    let empty = Seq::<char>::empty();
    let pieces = seq![empty] + document;
    written_reads_back(document);
    assert(segments_of(written(document)) =~= pieces) by {
        assert forall|i: int| 0 <= i < pieces.len() implies segment_of(#[trigger] pieces[i])
            == pieces[i] by {
            if i > 0 {
                assert(pieces[i] == document[i - 1]);
            }
        }
    }
    assert(walk(seq![empty]) == Some(Seq::<Seq<char>>::empty())) by {
        assert(seq![empty].drop_last() =~= Seq::<Seq<char>>::empty());
        assert(walk(seq![empty].drop_last()) == Some(Seq::<Seq<char>>::empty()));
        assert(seq![empty].last() == empty);
    }
    walk_down(seq![empty], document);
}

} // verus!
