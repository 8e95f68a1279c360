use vstd::prelude::*;
use vstd::string::{StrSliceExecFns, StringExecFns};

use crate::err::ScrapeError;
use crate::utils::{push_char, str_eq};

verus! {

/// Minimum interval between two network requests, in milliseconds.
pub const REQUEST_THROTTLE_MS: u64 = 5000;

/// Root directory of the on-disk cache.
pub fn extraction_db_root() -> (r: &'static str)
    ensures
        r@ == "extraction-db"@,
{
    "extraction-db"
}

/// Name of the per-video storage sub-directory under the cache root.
pub fn video_dl_name() -> (r: &'static str)
    ensures
        r@ == "videos"@,
{
    "videos"
}

/// Name of the browse namespace sub-directory under the cache root.
pub fn browse_name() -> (r: &'static str)
    ensures
        r@ == "browse"@,
{
    "browse"
}

/// The kind of a remote resource; it selects both the URL template and the
/// cache sub-namespace.
#[derive(Clone, Copy, PartialEq, Eq, Hash, Structural, Debug)]
pub enum DownType {
    HTML,
    Collection,
    Page,
}

/// The outcome of one fetch, as the unverified I/O layer hands it back.
pub struct FetchResponse {
    pub body: Vec<u8>,
    pub output_path: String,
}

impl DownType {
    pub open spec fn spec_safe_name(self) -> Seq<char> {
        match self {
            DownType::HTML => "html"@,
            DownType::Collection => "collection"@,
            DownType::Page => "page"@,
        }
    }

    /// The cache sub-namespace for this kind.
    pub fn safe_name(&self) -> (r: String)
        ensures
            r@ == self.spec_safe_name(),
    {
        match self {
            DownType::HTML => String::from_str("html"),
            DownType::Collection => String::from_str("collection"),
            DownType::Page => String::from_str("page"),
        }
    }

    /// All kinds, in declaration order.
    pub fn variants() -> (r: Vec<DownType>)
        ensures
            r@ =~= seq![DownType::HTML, DownType::Collection, DownType::Page],
    {
        let mut v: Vec<DownType> = Vec::new();
        v.push(DownType::HTML);
        v.push(DownType::Collection);
        v.push(DownType::Page);
        v
    }

    pub open spec fn spec_cache_file_name(self, extra: Seq<char>) -> Seq<char> {
        match self {
            DownType::HTML => "page_home"@,
            DownType::Collection => "collection_"@ + extra,
            DownType::Page => "frontend_"@ + extra,
        }
    }

    /// The cache file name for one resource: `page_home` for the home page,
    /// `collection_{id}` for a collection, `frontend_{id}` for a page.
    /// The home page has no identifier.
    pub fn cache_file_name(&self, extra: &str) -> (r: String)
        requires
            self is HTML ==> extra@.len() == 0,
        ensures
            r@ == self.spec_cache_file_name(extra@),
    {
        match self {
            DownType::HTML => String::from_str("page_home"),
            DownType::Collection => String::from_str("collection_").concat(extra),
            DownType::Page => String::from_str("frontend_").concat(extra),
        }
    }

    pub open spec fn spec_url(self, domain: Seq<char>, extra: Seq<char>) -> Seq<char> {
        match self {
            DownType::HTML => "https://"@ + domain + "/"@,
            DownType::Collection => "https://"@ + domain + "/api/core/catalog/collection/"@
                + extra,
            DownType::Page => "https://"@ + domain + "/api/core/page/"@ + extra,
        }
    }

    /// The remote URL for one resource, parameterized by the configured
    /// domain and the identifier.
    pub fn url(&self, domain: &str, extra: &str) -> (r: String)
        requires
            self is HTML ==> extra@.len() == 0,
        ensures
            r@ == self.spec_url(domain@, extra@),
    {
        match self {
            DownType::HTML => String::from_str("https://").concat(domain).concat("/"),
            DownType::Collection => String::from_str("https://").concat(domain).concat(
                "/api/core/catalog/collection/",
            ).concat(extra),
            DownType::Page => String::from_str("https://").concat(domain).concat(
                "/api/core/page/",
            ).concat(extra),
        }
    }
}

/// `parts` joined with `sep` between consecutive elements.
pub open spec fn spec_join(parts: Seq<Seq<char>>, sep: char) -> Seq<char>
    decreases parts.len(),
{
    if parts.len() == 0 {
        Seq::empty()
    } else if parts.len() == 1 {
        parts[0]
    } else {
        spec_join(parts.drop_last(), sep).push(sep) + parts.last()
    }
}

/// The views of a sequence of string slices.
pub open spec fn str_views(parts: Seq<&str>) -> Seq<Seq<char>> {
    parts.map_values(|s: &str| s@)
}

/// Joins path components with `/`, mirroring how the cache paths are built.
pub fn path<const N: usize>(input: [&str; N]) -> (r: String)
    ensures
        r@ == spec_join(str_views(input@), '/'),
{
    let mut out = String::new();
    let mut i: usize = 0;
    while i < N
        invariant
            i <= N,
            input@.len() == N,
            out@ == spec_join(str_views(input@).subrange(0, i as int), '/'),
        decreases N - i,
    {
        if i > 0 {
            push_char(&mut out, '/');
        }
        out.append(input[i]);
        proof {
            let views = str_views(input@);
            assert(views.subrange(0, i + 1).drop_last() =~= views.subrange(0, i as int));
            assert(views.subrange(0, i + 1).last() == input@[i as int]@);
        }
        i += 1;
    }
    proof {
        assert(str_views(input@).subrange(0, N as int) =~= str_views(input@));
    }
    out
}

/// The fetch layer's verdict on an HTTP status code: anything but 200 is a
/// fatal transport failure for the whole run.
pub fn response_ok(status: u16) -> (r: Result<(), ScrapeError>)
    ensures
        r is Ok <==> status == 200,
        r matches Err(e) ==> e is TransportFailure,
{
    if status == 200 {
        Ok(())
    } else {
        Err(ScrapeError::TransportFailure(String::from_str("bad response status")))
    }
}

/// The directories the fetch layer expects on disk: the cache root and one
/// sub-namespace per kind, in declaration order.
pub fn cache_dirs() -> (r: Vec<String>)
    ensures
        r@.len() == 4,
        r@[0]@ == "extraction-db"@,
        r@[1]@ == spec_join(seq!["extraction-db"@, "html"@], '/'),
        r@[2]@ == spec_join(seq!["extraction-db"@, "collection"@], '/'),
        r@[3]@ == spec_join(seq!["extraction-db"@, "page"@], '/'),
{
    let mut dirs: Vec<String> = Vec::new();
    dirs.push(String::from_str(extraction_db_root()));
    let kinds = DownType::variants();
    let n = kinds.len();
    let mut i: usize = 0;
    while i < n
        invariant
            n == 3,
            kinds@ =~= seq![DownType::HTML, DownType::Collection, DownType::Page],
            i <= n,
            dirs@.len() == i + 1,
            dirs@[0]@ == "extraction-db"@,
            forall|k: int|
                0 <= k < i ==> dirs@[k + 1]@ == spec_join(
                    seq!["extraction-db"@, kinds@[k].spec_safe_name()],
                    '/',
                ),
        decreases n - i,
    {
        let sn = kinds[i].safe_name();
        let root = extraction_db_root();
        let sn_ref = sn.as_str();
        let arr = [root, sn_ref];
        let dir = path(arr);
        proof {
            assert(arr@ =~= seq![root, sn_ref]);
            assert(str_views(arr@) =~= seq![
                "extraction-db"@,
                kinds@[i as int].spec_safe_name(),
            ]);
        }
        dirs.push(dir);
        i += 1;
    }
    dirs
}

/// One cached resource: the key (kind and identifier) and the exact bytes
/// that the network returned for it.
pub struct FetchEntry {
    pub kind: DownType,
    pub id: String,
    pub body: Vec<u8>,
}

/// The contents of `entries` under the key `(kind, id)`: the body of the
/// first entry with that key, if any.
pub open spec fn spec_lookup(entries: Seq<FetchEntry>, kind: DownType, id: Seq<char>) -> Option<
    Seq<u8>,
>
    decreases entries.len(),
{
    if entries.len() == 0 {
        None
    } else if entries[0].kind == kind && entries[0].id@ == id {
        Some(entries[0].body@)
    } else {
        spec_lookup(entries.drop_first(), kind, id)
    }
}

/// The decision core of the cache-backed, throttled fetch layer.
///
/// It owns the model of the on-disk cache (every body ever fetched, keyed by
/// kind and identifier) and the timestamp of the last network request.  The
/// unverified I/O layer consults `cached` before going to the network, waits
/// `wait_needed` milliseconds, and `record`s every completed network fetch.
pub struct Fetcher {
    pub entries: Vec<FetchEntry>,
    pub last_request_ms: u64,
}

impl Fetcher {
    /// A cache file, once written, is immutable truth: keys are unique.
    pub open spec fn wf(&self) -> bool {
        forall|i: int, j: int|
            0 <= i < j < self.entries@.len() ==> !(self.entries@[i].kind == self.entries@[j].kind
                && self.entries@[i].id@ == self.entries@[j].id@)
    }

    pub fn new() -> (r: Fetcher)
        ensures
            r.wf(),
            r.entries@.len() == 0,
            r.last_request_ms == 0,
    {
        Fetcher { entries: Vec::new(), last_request_ms: 0 }
    }

    /// The cached body for `(kind, id)`, if this key was ever fetched.
    pub fn cached(&self, kind: DownType, id: &str) -> (r: Option<&Vec<u8>>)
        ensures
            match r {
                Some(b) => spec_lookup(self.entries@, kind, id@) == Some(b@),
                None => spec_lookup(self.entries@, kind, id@) is None,
            },
    {
        let n = self.entries.len();
        proof {
            assert(self.entries@.skip(0) =~= self.entries@);
        }
        let mut i: usize = 0;
        while i < n
            invariant
                n == self.entries@.len(),
                i <= n,
                spec_lookup(self.entries@, kind, id@) == spec_lookup(
                    self.entries@.skip(i as int),
                    kind,
                    id@,
                ),
            decreases n - i,
        {
            let e = &self.entries[i];
            if e.kind == kind && str_eq(e.id.as_str(), id) {
                assert(self.entries@.skip(i as int)[0] == self.entries@[i as int]);
                return Some(&self.entries[i].body);
            }
            proof {
                assert(self.entries@.skip(i as int).drop_first() =~= self.entries@.skip(i + 1));
                assert(self.entries@.skip(i as int)[0] == self.entries@[i as int]);
            }
            i += 1;
        }
        proof {
            assert(self.entries@.skip(n as int).len() == 0);
        }
        None
    }

    /// How long a network request issued at `now_ms` must still wait so that
    /// at least `REQUEST_THROTTLE_MS` elapses after the last request.
    pub fn wait_needed(&self, now_ms: u64) -> (r: u64)
        requires
            self.last_request_ms + REQUEST_THROTTLE_MS <= u64::MAX,
        ensures
            r == if now_ms >= self.last_request_ms + REQUEST_THROTTLE_MS {
                0u64
            } else {
                (self.last_request_ms + REQUEST_THROTTLE_MS - now_ms) as u64
            },
            now_ms + r >= self.last_request_ms + REQUEST_THROTTLE_MS,
    {
        let threshold = self.last_request_ms + REQUEST_THROTTLE_MS;
        if now_ms >= threshold {
            0
        } else {
            threshold - now_ms
        }
    }

    /// Records one completed network fetch: the key must not be cached yet,
    /// and the request must have respected the throttle.  The body is stored
    /// and the last-request timestamp moves to `now_ms`.
    pub fn record(&mut self, kind: DownType, id: String, body: Vec<u8>, now_ms: u64)
        requires
            old(self).wf(),
            spec_lookup(old(self).entries@, kind, id@) is None,
            now_ms >= old(self).last_request_ms + REQUEST_THROTTLE_MS,
        ensures
            final(self).wf(),
            final(self).entries@ == old(self).entries@.push(
                FetchEntry { kind, id: id, body: body },
            ),
            final(self).last_request_ms == now_ms,
            spec_lookup(final(self).entries@, kind, id@) == Some(body@),
    {
        proof {
            lemma_lookup_not_found(self.entries@, kind, id@);
        }
        let ghost old_entries = self.entries@;
        let entry = FetchEntry { kind, id, body };
        let ghost e = entry;
        self.entries.push(entry);
        self.last_request_ms = now_ms;
        proof {
            lemma_lookup_push(old_entries, e, kind, e.id@);
        }
    }
}

/// A key that `spec_lookup` does not find is carried by no entry.
pub proof fn lemma_lookup_not_found(entries: Seq<FetchEntry>, kind: DownType, id: Seq<char>)
    requires
        spec_lookup(entries, kind, id) is None,
    ensures
        forall|i: int| #![trigger entries[i]]
            0 <= i < entries.len() ==> !(entries[i].kind == kind && entries[i].id@ == id),
    decreases entries.len(),
{
    if entries.len() > 0 {
        let rest = entries.drop_first();
        lemma_lookup_not_found(rest, kind, id);
        assert forall|i: int| #![trigger entries[i]]
            0 <= i < entries.len() implies !(entries[i].kind == kind && entries[i].id@
            == id) by {
            if i > 0 {
                assert(rest[i - 1] == entries[i]);
            }
        }
    }
}

/// Appending an entry for a fresh key makes exactly that entry's body the
/// cached value of its key; `spec_lookup` still finds every old key first.
pub proof fn lemma_lookup_push(entries: Seq<FetchEntry>, e: FetchEntry, kind: DownType, id: Seq<char>)
    requires
        spec_lookup(entries, e.kind, e.id@) is None,
    ensures
        e.kind == kind && e.id@ == id ==> spec_lookup(entries.push(e), kind, id) == Some(e.body@),
        !(e.kind == kind && e.id@ == id) ==> spec_lookup(entries.push(e), kind, id) == spec_lookup(
            entries,
            kind,
            id,
        ),
    decreases entries.len(),
{
    if entries.len() == 0 {
        assert(entries.push(e)[0] == e);
        assert(entries.push(e).drop_first() =~= Seq::<FetchEntry>::empty());
    } else {
        assert(entries.push(e)[0] == entries[0]);
        assert(entries.push(e).drop_first() =~= entries.drop_first().push(e));
        lemma_lookup_push(entries.drop_first(), e, kind, id);
    }
}

/// Law: fetching the same `(kind, id)` twice issues at most one network
/// request.  Once the first (and only) network fetch of a key is recorded,
/// the cache resolves that key to exactly the recorded bytes, and the fetch
/// layer consults the cache before the network, so the second fetch performs
/// no network request and returns byte-identical content.
pub proof fn lemma_second_fetch_hits_cache(entries: Seq<FetchEntry>, e: FetchEntry)
    requires
        spec_lookup(entries, e.kind, e.id@) is None,
    ensures
        spec_lookup(entries.push(e), e.kind, e.id@) == Some(e.body@),
{
    lemma_lookup_push(entries, e, e.kind, e.id@);
}

/// Law: two consecutive network fetches are separated by at least the
/// throttle interval, measured when the requests are issued.  `record`
/// demands that a request at `t2` come at least `REQUEST_THROTTLE_MS` after
/// the stored last-request time, which the previous `record` set to `t1`.
pub proof fn lemma_throttle_spacing(f: Fetcher, t1: u64, t2: u64)
    requires
        f.last_request_ms == t1,
        t2 >= f.last_request_ms + REQUEST_THROTTLE_MS,
    ensures
        t2 - t1 >= REQUEST_THROTTLE_MS,
{
}

} // verus!
