//! Requests, file metadata and path lists: the values that the transfer
//! protocol carries inside `Request`, `Metadata` and `Payload` messages.
use vstd::prelude::*;

use crate::bytes::copy_bytes;
use crate::config::ClientConfig;
use crate::text::views;
use crate::paths::{dir_file_destination, file_destination, is_under, strip_trailing, trim_trailing_slashes};


verus! {

/// The direction of a request, seen from the client.
#[derive(Clone, Copy, Debug, PartialEq, Eq, Structural)]
pub enum RequestMethod {
    Upload,
    Download,
}

impl RequestMethod {
    /// The name of the method.
    pub fn name(&self) -> (r: &'static str) {
        match self {
            RequestMethod::Upload => "Upload",
            RequestMethod::Download => "Download",
        }
    }
}

/// What the server does for a request.
#[derive(Clone, Copy, Debug, PartialEq, Eq, Structural)]
pub enum ServerRole {
    /// The client uploads: the server receives a file.
    Receive,
    /// The client downloads: the server sends a file or a directory listing.
    Send,
}

/// One file-transfer request: a source path, a destination path and a method.
#[derive(Clone, Debug)]
pub struct Request {
    pub source: Vec<u8>,
    pub destination: Vec<u8>,
    pub method: RequestMethod,
}

impl Request {
    /// A request for one file.
    pub fn file(source: &[u8], destination: &[u8], method: RequestMethod) -> (r: Request)
        ensures
            r.source@ == source@,
            r.destination@ == destination@,
            r.method == method,
    {
        Request { source: copy_bytes(source), destination: copy_bytes(destination), method }
    }

    /// One request per file of the directory `source`, as its files were
    /// enumerated; each file goes to the place under
    /// `destination/<source's name>` that keeps its path relative to
    /// `source`; trailing separators of `source` are ignored. `None` when a
    /// file does not lie under `source`.
    pub fn dir(source: &[u8], destination: &[u8], files: &Vec<Vec<u8>>, method: RequestMethod) -> (r: Option<Vec<Request>>)
        ensures
            (forall|i: int| 0 <= i < files@.len() ==> is_under(strip_trailing(source@), #[trigger] files@[i]@)) <==> r is Some,
            r matches Some(rs) ==> rs@.len() == files@.len() && forall|i: int|
                0 <= i < rs@.len() ==> (#[trigger] rs@[i]).source@ == files@[i]@ && rs@[i].destination@
                    == file_destination(destination@, strip_trailing(source@), files@[i]@) && rs@[i].method == method,
    {
        let root = trim_trailing_slashes(source);
        let mut out: Vec<Request> = Vec::new();
        let mut i: usize = 0;
        while i < files.len()
            invariant
                0 <= i <= files@.len(),
                out@.len() == i,
                root@ == strip_trailing(source@),
                forall|j: int| 0 <= j < i ==> is_under(root@, #[trigger] files@[j]@),
                forall|j: int|
                    0 <= j < i ==> (#[trigger] out@[j]).source@ == files@[j]@ && out@[j].destination@
                        == file_destination(destination@, root@, files@[j]@) && out@[j].method == method,
            decreases files@.len() - i,
        {
            match dir_file_destination(destination, root.as_slice(), files[i].as_slice()) {
                Some(dest) => {
                    out.push(Request::file(files[i].as_slice(), dest.as_slice(), method));
                },
                None => {
                    return None;
                },
            }
            i = i + 1;
        }
        Some(out)
    }

    /// The server's part in this request.
    pub fn server_role(&self) -> (r: ServerRole)
        ensures
            r == ServerRole::Receive <==> self.method == RequestMethod::Upload,
            r == ServerRole::Send <==> self.method == RequestMethod::Download,
    {
        match self.method {
            RequestMethod::Upload => ServerRole::Receive,
            RequestMethod::Download => ServerRole::Send,
        }
    }
}

/// A request as its source, destination and method.
pub open spec fn request_view(r: Request) -> (Seq<u8>, Seq<u8>, RequestMethod) {
    (r.source@, r.destination@, r.method)
}

/// The views of a sequence of requests.
pub open spec fn request_views(rs: Seq<Request>) -> Seq<(Seq<u8>, Seq<u8>, RequestMethod)> {
    rs.map_values(|r: Request| request_view(r))
}

/// The views of the directory listings of a run's sources.
pub open spec fn listing_views(ls: Seq<Option<Vec<Vec<u8>>>>) -> Seq<Option<Seq<Seq<u8>>>> {
    ls.map_values(
        |o: Option<Vec<Vec<u8>>>|
            match o {
                Some(v) => Some(views(v@)),
                None => None,
            },
    )
}

/// The requests for one source. An uploaded directory, given with the files
/// it holds, becomes one request per file, placed as `Request::dir` places
/// it; any other source is one request to `dest`.
pub open spec fn source_plan(
    dest: Seq<u8>,
    method: RequestMethod,
    source: Seq<u8>,
    listing: Option<Seq<Seq<u8>>>,
) -> Option<Seq<(Seq<u8>, Seq<u8>, RequestMethod)>> {
    if method == RequestMethod::Upload && listing is Some {
        let files = listing->Some_0;
        let root = strip_trailing(source);
        if forall|i: int| 0 <= i < files.len() ==> is_under(root, #[trigger] files[i]) {
            Some(Seq::new(files.len(), |i: int| (files[i], file_destination(dest, root, files[i]), method)))
        } else {
            None
        }
    } else {
        Some(seq![(source, dest, method)])
    }
}

/// The requests of a run, source by source, in order.
pub open spec fn planned(
    dest: Seq<u8>,
    method: RequestMethod,
    sources: Seq<Seq<u8>>,
    listings: Seq<Option<Seq<Seq<u8>>>>,
) -> Option<Seq<(Seq<u8>, Seq<u8>, RequestMethod)>>
    decreases sources.len(),
{
    if sources.len() == 0 || listings.len() == 0 {
        Some(Seq::empty())
    } else {
        match planned(dest, method, sources.drop_last(), listings.drop_last()) {
            Some(a) => match source_plan(dest, method, sources.last(), listings.last()) {
                Some(b) => Some(a + b),
                None => None,
            },
            None => None,
        }
    }
}

proof fn lemma_planned_fail(
    dest: Seq<u8>,
    method: RequestMethod,
    sources: Seq<Seq<u8>>,
    listings: Seq<Option<Seq<Seq<u8>>>>,
    n: int,
)
    requires
        0 <= n <= sources.len(),
        sources.len() == listings.len(),
        planned(dest, method, sources.take(n), listings.take(n)) is None,
    ensures
        planned(dest, method, sources, listings) is None,
    decreases sources.len() - n,
{
    if n < sources.len() {
        assert(sources.take(n + 1).drop_last() =~= sources.take(n));
        assert(listings.take(n + 1).drop_last() =~= listings.take(n));
        lemma_planned_fail(dest, method, sources, listings, n + 1);
    } else {
        assert(sources.take(n) =~= sources);
        assert(listings.take(n) =~= listings);
    }
}

/// Plans the requests of a client run. `listings` gives, for each source
/// in order, the files it holds when it is a directory; `None` when the
/// listings do not match the sources, or a listed file lies outside its
/// directory.
pub fn plan_requests(config: &ClientConfig, listings: &Vec<Option<Vec<Vec<u8>>>>) -> (r: Option<Vec<Request>>)
    ensures
        listings@.len() != config.source@.len() ==> r is None,
        listings@.len() == config.source@.len() ==> match planned(
            config.destination@,
            config.request,
            views(config.source@),
            listing_views(listings@),
        ) {
            Some(v) => r is Some && request_views(r->Some_0@) == v,
            None => r is None,
        },
{
    if listings.len() != config.source.len() {
        return None;
    }
    let ghost sv = views(config.source@);
    let ghost lv = listing_views(listings@);
    let ghost dest = config.destination@;
    let method = config.request;
    let mut out: Vec<Request> = Vec::new();
    let mut i: usize = 0;
    assert(request_views(out@) =~= Seq::empty());
    while i < listings.len()
        invariant
            0 <= i <= listings@.len(),
            listings@.len() == config.source@.len(),
            sv == views(config.source@),
            lv == listing_views(listings@),
            dest == config.destination@,
            method == config.request,
            planned(dest, method, sv.take(i as int), lv.take(i as int)) == Some(request_views(out@)),
        decreases listings@.len() - i,
    {
        let source = &config.source[i];
        assert(sv.take(i + 1).drop_last() =~= sv.take(i as int));
        assert(lv.take(i + 1).drop_last() =~= lv.take(i as int));
        assert(sv.take(i + 1).last() == source@);
        assert(lv.take(i + 1).last() == lv[i as int]);
        let ghost before = request_views(out@);
        let mut uploaded_dir = false;
        if let RequestMethod::Upload = method {
            if let Some(files) = &listings[i] {
                uploaded_dir = true;
                assert(lv[i as int] == Some(views(files@)));
                match Request::dir(source.as_slice(), config.destination.as_slice(), files, method) {
                    Some(rs) => {
                        let ghost part = request_views(rs@);
                        assert(forall|k: int| 0 <= k < files@.len() ==> #[trigger] views(files@)[k] == files@[k]@);
                        assert(part =~= Seq::new(
                            views(files@).len(),
                            |k: int| (views(files@)[k], file_destination(dest, strip_trailing(source@), views(files@)[k]), method),
                        ));
                        let mut rs = rs;
                        out.append(&mut rs);
                        assert(request_views(out@) =~= before + part);
                    },
                    None => {
                        proof {
                            if forall|k: int| 0 <= k < views(files@).len() ==> is_under(
                                strip_trailing(source@),
                                #[trigger] views(files@)[k],
                            ) {
                                assert forall|k: int| 0 <= k < files@.len() implies is_under(
                                    strip_trailing(source@),
                                    #[trigger] files@[k]@,
                                ) by {
                                    assert(views(files@)[k] == files@[k]@);
                                }
                            }
                            lemma_planned_fail(dest, method, sv, lv, i + 1);
                        }
                        return None;
                    },
                }
            }
        }
        if !uploaded_dir {
            let r = Request::file(source.as_slice(), config.destination.as_slice(), method);
            out.push(r);
            assert(request_views(out@) =~= before + seq![(source@, dest, method)]);
        }
        i = i + 1;
    }
    assert(sv.take(i as int) =~= sv);
    assert(lv.take(i as int) =~= lv);
    Some(out)
}

/// What the owner of a source tells the receiver before any payload.
#[derive(Clone, Debug)]
pub struct Metadata {
    pub len: u64,
    pub file_path: Vec<u8>,
    pub dir: bool,
}

impl Metadata {
    /// Metadata of a file or directory.
    pub fn new(len: u64, file_path: &[u8], dir: bool) -> (r: Metadata)
        ensures
            r.len == len,
            r.file_path@ == file_path@,
            r.dir == dir,
    {
        Metadata { len, file_path: copy_bytes(file_path), dir }
    }

    /// The path of the source on the sender's side.
    pub fn path(&self) -> (r: &[u8])
        ensures
            r@ == self.file_path@,
    {
        self.file_path.as_slice()
    }
}

/// The files of a directory, as the sender enumerated them.
#[derive(Clone, Debug)]
pub struct PathList {
    pub paths: Vec<Vec<u8>>,
}

impl PathList {
    /// An empty list.
    pub fn new() -> (r: PathList)
        ensures
            r.paths@.len() == 0,
    {
        PathList { paths: Vec::new() }
    }

    /// Moves the given paths to the end of the list, in order.
    pub fn append(&mut self, paths: &mut Vec<Vec<u8>>)
        ensures
            final(self).paths@ == old(self).paths@ + old(paths)@,
            final(paths)@.len() == 0,
    {
        self.paths.append(paths);
    }

    /// Number of paths.
    pub fn len(&self) -> (r: usize)
        ensures
            r == self.paths@.len(),
    {
        self.paths.len()
    }

    /// Whether the list is empty.
    pub fn is_empty(&self) -> (r: bool)
        ensures
            r == (self.paths@.len() == 0),
    {
        self.paths.len() == 0
    }
}

} // verus!
