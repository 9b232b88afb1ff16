//! What the server is started with.

use crate::path::{
    climbs, is_document, never_leads_up, up_segment, written, written_reads_back, DocumentPath,
};
use crate::text::{split, texts};
use vstd::prelude::*;
use vstd::string::StringExecFns;

verus! {

/// The settings of the server: where it listens, and the directory whose
/// documents it serves. They are fixed when it starts.
#[derive(Debug, PartialEq, Eq)]
pub struct Config {
    /// The address to bind to.
    pub address: String,
    /// The port to bind to.
    pub port: u16,
    /// The public root: the directory that holds the documents.
    pub public_root: String,
}

/// Where a document lies on disk: its path written out after the public root.
pub open spec fn location(public_root: Seq<char>, document: Seq<Seq<char>>) -> Seq<char> {
    public_root + written(document)
}

/// A document's location begins with the public root, and what follows reads
/// level by level as the names of the document. Whatever the request path
/// was, no level of it leads up again, whether `\` separates levels on the
/// disk or is part of a name.
pub proof fn location_stays_below_root(public_root: Seq<char>, document: Seq<Seq<char>>)
    requires
        is_document(document),
    ensures
        location(public_root, document).take(public_root.len() as int) == public_root,
        split(location(public_root, document).skip(public_root.len() as int), '/') == seq![
            Seq::<char>::empty(),
        ] + document,
        never_leads_up(location(public_root, document).skip(public_root.len() as int)),
{
    let place = location(public_root, document);
    let after = place.skip(public_root.len() as int);
    let empty = Seq::<char>::empty();
    written_reads_back(document);
    assert(place.take(public_root.len() as int) =~= public_root);
    assert(after =~= written(document));
    assert forall|i: int| 0 <= i < split(after, '/').len() implies !climbs(
        #[trigger] split(after, '/')[i],
    ) by {
        if i == 0 {
            assert(split(empty, '\\') =~= seq![empty]);
            assert(up_segment().len() == 2);
        } else {
            assert(split(after, '/')[i] == document[i - 1]);
        }
    }
}

impl Config {
    /// Where a document lies on disk.
    pub fn locate(&self, document: &DocumentPath) -> (place: String)
        ensures
            place@ == location(self.public_root@, document@),
    {
        let names = document.names();
        let mut place = self.public_root.clone();
        let mut at: usize = 0;
        while at < names.len()
            invariant
                at <= names.len(),
                place@ == self.public_root@ + written(texts(names@).take(at as int)),
            decreases names.len() - at,
        {
            proof {
                reveal_strlit("/");
                assert(texts(names@).take(at + 1).drop_last() =~= texts(names@).take(at as int));
            }
            place.append("/");
            place.append(names[at].as_str());
            at = at + 1;
        }
        proof {
            assert(texts(names@).take(at as int) =~= texts(names@));
        }
        place
    }
}

impl Default for Config {
    /// Port 8000 on the local host, serving `server/public`.
    fn default() -> (config: Config)
        ensures
            config.address@ == "127.0.0.1"@,
            config.port == 8000,
            config.public_root@ == "server/public"@,
    {
        Config {
            address: "127.0.0.1".to_owned(),
            port: 8000,
            public_root: "server/public".to_owned(),
        }
    }
}

} // verus!
