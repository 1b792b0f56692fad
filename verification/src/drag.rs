//! Outbound drag-and-drop: the list of file addresses that is offered, and the one slot
//! that holds it while a drag is under way.

use vstd::prelude::*;
use vstd::string::StringSliceAdditionalSpecFns;
use vstd::utf8::encode_utf8;

verus! {

/// The bytes of `file://`.
pub open spec fn uri_scheme() -> Seq<u8> {
    seq![102u8, 105u8, 108u8, 101u8, 58u8, 47u8, 47u8]
}

/// The bytes of a carriage return and a line feed.
pub open spec fn line_end() -> Seq<u8> {
    seq![13u8, 10u8]
}

/// One line of the list: `file://`, the path, and the line end.
pub open spec fn uri_line(path: Seq<u8>) -> Seq<u8> {
    uri_scheme() + path + line_end()
}

/// The list of addresses for a sequence of paths, each of which was resolved to an
/// absolute path or could not be resolved (`None`): one line for each resolved path, in
/// order. Unresolved paths leave no trace.
pub open spec fn uri_list(paths: Seq<Option<Seq<u8>>>) -> Seq<u8>
    decreases paths.len(),
{
    if paths.len() == 0 {
        Seq::empty()
    } else {
        let before = uri_list(paths.drop_last());
        match paths.last() {
            Some(path) => before + uri_line(path),
            None => before,
        }
    }
}

/// The bytes of each resolved path: its text in UTF-8.
pub open spec fn path_bytes(paths: Seq<Option<String>>) -> Seq<Option<Seq<u8>>> {
    paths.map_values(
        |p: Option<String>|
            match p {
                Some(s) => Some(encode_utf8(s@)),
                None => None,
            },
    )
}

/// The MIME type under which the list is offered.
pub const URI_LIST_MIME: &'static str = "text/uri-list";

/// The list is empty exactly if no path was resolved.
pub proof fn lemma_uri_list_empty(paths: Seq<Option<Seq<u8>>>)
    ensures
        uri_list(paths).len() == 0 <==> forall|i: int|
            0 <= i < paths.len() ==> (#[trigger] paths[i]) is None,
    decreases paths.len(),
{
    if paths.len() > 0 {
        let before = paths.drop_last();
        lemma_uri_list_empty(before);
        assert(forall|i: int| 0 <= i < before.len() ==> before[i] == paths[i]);
        if uri_list(paths).len() == 0 {
            assert(paths.last() is None);
            assert forall|i: int| 0 <= i < paths.len() implies (#[trigger] paths[i]) is None by {
                if i < before.len() {
                    assert(before[i] is None);
                }
            }
        } else {
            if paths.last() is None {
                let i = choose|i: int| 0 <= i < before.len() && !((#[trigger] before[i]) is None);
                assert(!(paths[i] is None));
            } else {
                assert(!(paths[paths.len() - 1] is None));
            }
        }
    }
}

/// Appends the bytes of a slice to a vector.
fn append_bytes(out: &mut Vec<u8>, bytes: &[u8])
    ensures
        final(out)@ == old(out)@ + bytes@,
{
    let mut i: usize = 0;
    while i < bytes.len()
        invariant
            i <= bytes@.len(),
            out@ == old(out)@ + bytes@.subrange(0, i as int),
        decreases bytes@.len() - i,
    {
        out.push(bytes[i]);
        assert(bytes@.subrange(0, i + 1) =~= bytes@.subrange(0, i as int).push(bytes@[i as int]));
        i = i + 1;
    }
    assert(bytes@.subrange(0, i as int) =~= bytes@);
}

/// Builds the list of addresses for the given paths.
pub fn build_uri_list(paths: &Vec<Option<String>>) -> (list: Vec<u8>)
    ensures
        list@ == uri_list(path_bytes(paths@)),
{
    let mut list: Vec<u8> = Vec::new();
    let mut i: usize = 0;
    while i < paths.len()
        invariant
            i <= paths@.len(),
            list@ == uri_list(path_bytes(paths@).subrange(0, i as int)),
        decreases paths@.len() - i,
    {
        let ghost done = path_bytes(paths@).subrange(0, i as int);
        let ghost next = path_bytes(paths@).subrange(0, i + 1);
        proof {
            assert(next.drop_last() =~= done);
            assert(next.last() == path_bytes(paths@)[i as int]);
        }
        match &paths[i] {
            Some(path) => {
                let scheme: [u8; 7] = [102, 105, 108, 101, 58, 47, 47];
                let end: [u8; 2] = [13, 10];
                let ghost before = list@;
                append_bytes(&mut list, scheme.as_slice());
                append_bytes(&mut list, path.as_str().as_bytes());
                append_bytes(&mut list, end.as_slice());
                proof {
                    assert(scheme@ =~= uri_scheme());
                    assert(end@ =~= line_end());
                    assert(list@ =~= before + uri_line(encode_utf8(path@)));
                }
            },
            None => {},
        }
        i = i + 1;
    }
    assert(path_bytes(paths@).subrange(0, i as int) =~= path_bytes(paths@));
    list
}

/// The one slot for an outbound drag: empty, or holding the bytes that are offered.
pub struct DragSession {
    payload: Option<Vec<u8>>,
}

impl View for DragSession {
    type V = Option<Seq<u8>>;

    closed spec fn view(&self) -> Option<Seq<u8>> {
        match self.payload {
            Some(bytes) => Some(bytes@),
            None => None,
        }
    }
}

impl DragSession {
    /// No drag is under way.
    pub fn new() -> (session: DragSession)
        ensures
            session@ is None,
    {
        DragSession { payload: None }
    }

    /// Whether a drag is under way.
    pub fn is_active(&self) -> (active: bool)
        ensures
            active == self@ is Some,
    {
        self.payload.is_some()
    }

    /// Starts a drag that offers `payload`. Fails, and changes nothing, while another drag
    /// is under way or where there is nothing to offer.
    pub fn begin(&mut self, payload: Vec<u8>) -> (started: bool)
        ensures
            started == (old(self)@ is None && payload@.len() > 0),
            final(self)@ == if started {
                Some(payload@)
            } else {
                old(self)@
            },
    {
        if self.payload.is_some() || payload.len() == 0 {
            return false;
        }
        self.payload = Some(payload);
        true
    }

    /// The bytes to send to a receiver that asks for the given MIME type: the payload,
    /// where a drag is under way and the type is the one that was offered.
    pub fn respond(&self, mime: &str) -> (bytes: Option<&Vec<u8>>)
        ensures
            match bytes {
                Some(b) => mime@ == URI_LIST_MIME@ && self@ == Some(b@),
                None => mime@ != URI_LIST_MIME@ || self@ is None,
            },
    {
        if !same_text(mime, URI_LIST_MIME) {
            return None;
        }
        match &self.payload {
            Some(bytes) => Some(bytes),
            None => None,
        }
    }

    /// The drag ended, by a drop or by cancellation: the slot is free again.
    pub fn end(&mut self)
        ensures
            final(self)@ is None,
    {
        self.payload = None;
    }
}

/// Whether two texts are the same.
pub fn same_text(a: &str, b: &str) -> (same: bool)
    ensures
        same == (a@ == b@),
{
    let left = a.to_owned();
    let right = b.to_owned();
    left == right
}

} // verus!
