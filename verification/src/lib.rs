//! Verified core of a batch crawler for a subscription video platform.
//!
//! The crate covers the acquisition pipeline: the cache/throttle decisions of
//! the fetch layer, the schema-variant payload extractors, the worklist crawl
//! engine with deduplication, the per-video download reconciler, and the
//! script emitter.  File, network and symlink I/O live outside the library and
//! drive it with plain values.

use vstd::prelude::*;
use vstd::string::StringExecFns;

pub mod downloader;
pub mod err;
pub mod extractor;
pub mod global_config;
pub mod reconcile;
pub mod utils;

use crate::err::ScrapeError;
use crate::extractor::{ExtractedThing, ThingType};
use crate::utils::{contains_string, count_matches, lemma_unique_count, spec_contains_str};

verus! {

/// What the crawl engine asks its driver to do after one step: nothing
/// (finished, or a seen video skipped, or a video accepted), or fetch and
/// extract one page or collection and hand the items back via `supply`.
pub enum CrawlStep {
    Done,
    Skipped,
    FetchPage(String),
    FetchCollection(String),
    TookVideo,
}

/// The worklist crawl engine: a stack of pending work items, the set of ids
/// already dequeued in this run, and the accepted videos in discovery order.
pub struct Crawler {
    pub spider: Vec<ExtractedThing>,
    pub seen_ids: Vec<String>,
    pub all_videos: Vec<ExtractedThing>,
}

impl Crawler {
    /// Every id was dequeued at most once.
    pub open spec fn seen_unique(&self) -> bool {
        forall|i: int, j: int|
            0 <= i < j < self.seen_ids@.len() ==> self.seen_ids@[i]@ != self.seen_ids@[j]@
    }

    /// Accepted videos are terminal, dequeued, and pairwise distinct.
    pub open spec fn videos_ok(&self) -> bool {
        &&& forall|i: int|
            0 <= i < self.all_videos@.len() ==> (#[trigger] self.all_videos@[i]).next_type
                is Video
        &&& forall|i: int|
            0 <= i < self.all_videos@.len() ==> spec_contains_str(
                self.seen_ids@,
                (#[trigger] self.all_videos@[i]).next_id@,
            )
        &&& forall|i: int, j: int|
            0 <= i < j < self.all_videos@.len() ==> self.all_videos@[i].next_id@
                != self.all_videos@[j].next_id@
    }

    pub open spec fn wf(&self) -> bool {
        self.seen_unique() && self.videos_ok()
    }

    /// A fresh crawl, seeded with the page work item derived from the home
    /// page's root id.
    pub fn new(root_id: String) -> (r: Crawler)
        ensures
            r.wf(),
            r.spider@.len() == 1,
            r.spider@[0].next_type is Page,
            r.spider@[0].next_id == root_id,
            r.spider@[0].title@ == "from_root"@,
            r.seen_ids@.len() == 0,
            r.all_videos@.len() == 0,
    {
        let mut spider: Vec<ExtractedThing> = Vec::new();
        spider.push(
            ExtractedThing {
                next_type: ThingType::Page,
                next_id: root_id,
                title: String::from_str("from_root"),
            },
        );
        Crawler { spider, seen_ids: Vec::new(), all_videos: Vec::new() }
    }

    /// One transition of the crawl state machine: pop the most recently
    /// discovered item.  A seen id must be a video (a duplicate non-leaf node
    /// is a fatal graph inconsistency) and is skipped; a fresh id joins the
    /// seen set and is dispatched by kind: videos are accepted, pages and
    /// collections are handed to the driver to fetch.
    pub fn step(&mut self) -> (r: Result<CrawlStep, ScrapeError>)
        requires
            old(self).wf(),
        ensures
            final(self).wf(),
            old(self).seen_ids@.is_prefix_of(final(self).seen_ids@),
            old(self).spider@.len() == 0 ==> final(self).spider@ == old(self).spider@
                && final(self).seen_ids == old(self).seen_ids
                && final(self).all_videos == old(self).all_videos
                && r == Ok::<CrawlStep, ScrapeError>(CrawlStep::Done),
            old(self).spider@.len() > 0 ==> {
                let it = old(self).spider@.last();
                &&& final(self).spider@ == old(self).spider@.drop_last()
                &&& spec_contains_str(old(self).seen_ids@, it.next_id@) ==> {
                    &&& final(self).seen_ids == old(self).seen_ids
                    &&& final(self).all_videos == old(self).all_videos
                    &&& it.next_type is Video ==> r == Ok::<CrawlStep, ScrapeError>(
                        CrawlStep::Skipped,
                    )
                    &&& !(it.next_type is Video) ==> (r matches Err(e) && e is SchemaViolation)
                }
                &&& !spec_contains_str(old(self).seen_ids@, it.next_id@) ==> {
                    &&& final(self).seen_ids@ == old(self).seen_ids@.push(it.next_id)
                    &&& (match it.next_type {
                        ThingType::Video => final(self).all_videos@ == old(self).all_videos@.push(
                            it,
                        ) && r == Ok::<CrawlStep, ScrapeError>(CrawlStep::TookVideo),
                        ThingType::Page => final(self).all_videos == old(self).all_videos && r
                            == Ok::<CrawlStep, ScrapeError>(CrawlStep::FetchPage(it.next_id)),
                        ThingType::Collection => final(self).all_videos == old(self).all_videos
                            && r == Ok::<CrawlStep, ScrapeError>(
                            CrawlStep::FetchCollection(it.next_id),
                        ),
                    })
                }
            },
    {
        let ghost pre = *self;
        match self.spider.pop() {
            None => Ok(CrawlStep::Done),
            Some(thing) => {
                if contains_string(&self.seen_ids, thing.next_id.as_str()) {
                    if thing.next_type == ThingType::Video {
                        Ok(CrawlStep::Skipped)
                    } else {
                        Err(
                            ScrapeError::SchemaViolation(
                                String::from_str("duplicate non-video id"),
                            ),
                        )
                    }
                } else {
                    self.seen_ids.push(thing.next_id.clone());
                    proof {
                        assert forall|i: int, j: int|
                            0 <= i < j < self.seen_ids@.len() implies self.seen_ids@[i]@
                            != self.seen_ids@[j]@ by {
                            if j < pre.seen_ids@.len() {
                                assert(pre.seen_ids@[i]@ != pre.seen_ids@[j]@);
                            } else {
                                assert(pre.seen_ids@[i]@ != thing.next_id@);
                            }
                        }
                        assert forall|i: int|
                            0 <= i < self.all_videos@.len() implies spec_contains_str(
                            self.seen_ids@,
                            (#[trigger] self.all_videos@[i]).next_id@,
                        ) by {
                            let w = choose|k: int|
                                0 <= k < pre.seen_ids@.len() && pre.seen_ids@[k]@
                                    == pre.all_videos@[i].next_id@;
                            assert(self.seen_ids@[w]@ == self.all_videos@[i].next_id@);
                        }
                    }
                    match thing.next_type {
                        ThingType::Page => Ok(CrawlStep::FetchPage(thing.next_id)),
                        ThingType::Collection => Ok(CrawlStep::FetchCollection(thing.next_id)),
                        ThingType::Video => {
                            proof {
                                assert(self.seen_ids@[pre.seen_ids@.len() as int]@
                                    == thing.next_id@);
                                assert forall|i: int|
                                    0 <= i < self.all_videos@.len() implies (
                                #[trigger] self.all_videos@[i]).next_id@ != thing.next_id@ by {
                                    let w = choose|k: int|
                                        0 <= k < pre.seen_ids@.len() && pre.seen_ids@[k]@
                                            == pre.all_videos@[i].next_id@;
                                    assert(pre.seen_ids@[w]@ != thing.next_id@);
                                }
                            }
                            let ghost mid_videos = self.all_videos@;
                            let ghost seen_now = self.seen_ids@;
                            self.all_videos.push(thing);
                            proof {
                                assert forall|i: int|
                                    0 <= i < self.all_videos@.len() implies (
                                #[trigger] self.all_videos@[i]).next_type is Video
                                    && spec_contains_str(
                                    seen_now,
                                    self.all_videos@[i].next_id@,
                                ) by {
                                    if i < mid_videos.len() {
                                        assert(self.all_videos@[i] == mid_videos[i]);
                                        assert(spec_contains_str(
                                            seen_now,
                                            mid_videos[i].next_id@,
                                        ));
                                    } else {
                                        assert(self.all_videos@[i] == thing);
                                        assert(seen_now[pre.seen_ids@.len() as int]@
                                            == thing.next_id@);
                                    }
                                }
                                assert forall|i: int, j: int|
                                    0 <= i < j < self.all_videos@.len() implies
                                    self.all_videos@[i].next_id@
                                    != self.all_videos@[j].next_id@ by {
                                    assert(self.all_videos@[i] == mid_videos[i]);
                                    if j < mid_videos.len() {
                                        assert(self.all_videos@[j] == mid_videos[j]);
                                    } else {
                                        assert(self.all_videos@[j] == thing);
                                        assert(mid_videos[i].next_id@ != thing.next_id@);
                                    }
                                }
                            }
                            Ok(CrawlStep::TookVideo)
                        },
                    }
                }
            },
        }
    }

    /// Hands the items extracted for the last `FetchPage` or
    /// `FetchCollection` request back to the engine; they are pushed onto the
    /// worklist in order.
    pub fn supply(&mut self, items: Vec<ExtractedThing>)
        requires
            old(self).wf(),
        ensures
            final(self).wf(),
            final(self).spider@ == old(self).spider@ + items@,
            final(self).seen_ids == old(self).seen_ids,
            final(self).all_videos == old(self).all_videos,
    {
        let mut items = items;
        self.spider.append(&mut items);
    }

    /// Whether the worklist is exhausted.
    pub fn is_done(&self) -> (r: bool)
        ensures
            r == (self.spider@.len() == 0),
    {
        self.spider.len() == 0
    }

    /// The accepted videos, in discovery order.
    pub fn into_videos(self) -> (r: Vec<ExtractedThing>)
        ensures
            r == self.all_videos,
    {
        self.all_videos
    }
}

/// Law: every id in the output video list appears in the seen set exactly
/// once, and an id reachable along several paths appears at most once in the
/// output list.
pub proof fn lemma_videos_seen_once(c: &Crawler)
    requires
        c.wf(),
    ensures
        forall|i: int|
            0 <= i < c.all_videos@.len() ==> count_matches(
                c.seen_ids@,
                (#[trigger] c.all_videos@[i]).next_id@,
            ) == 1,
        forall|i: int, j: int|
            0 <= i < j < c.all_videos@.len() ==> c.all_videos@[i].next_id@
                != c.all_videos@[j].next_id@,
{
    assert forall|i: int|
        0 <= i < c.all_videos@.len() implies count_matches(
        c.seen_ids@,
        (#[trigger] c.all_videos@[i]).next_id@,
    ) == 1 by {
        lemma_unique_count(c.seen_ids@, c.all_videos@[i].next_id@);
    }
}

/// The retained videos: those whose id is in no excluded entry, in order.
pub open spec fn spec_retain(vs: Seq<ExtractedThing>, excluded: Seq<String>) -> Seq<ExtractedThing>
    decreases vs.len(),
{
    if vs.len() == 0 {
        Seq::empty()
    } else {
        let rest = spec_retain(vs.drop_last(), excluded);
        if spec_contains_str(excluded, vs.last().next_id@) {
            rest
        } else {
            rest.push(vs.last())
        }
    }
}

/// Removes every video whose id is in the exclusion list, keeping the rest
/// in discovery order.  Exclusion happens only after the full crawl.
pub fn filter_excluded(videos: &Vec<ExtractedThing>, excluded: &Vec<String>) -> (r: Vec<
    ExtractedThing,
>)
    ensures
        r@ == spec_retain(videos@, excluded@),
{
    let mut out: Vec<ExtractedThing> = Vec::new();
    let n = videos.len();
    proof {
        assert(videos@.subrange(0, 0) =~= Seq::<ExtractedThing>::empty());
    }
    let mut i: usize = 0;
    while i < n
        invariant
            n == videos@.len(),
            i <= n,
            out@ == spec_retain(videos@.subrange(0, i as int), excluded@),
        decreases n - i,
    {
        proof {
            assert(videos@.subrange(0, i + 1).drop_last() =~= videos@.subrange(0, i as int));
            assert(videos@.subrange(0, i + 1).last() == videos@[i as int]);
        }
        if !contains_string(excluded, videos[i].next_id.as_str()) {
            out.push(videos[i].duplicate());
        }
        i += 1;
    }
    proof {
        assert(videos@.subrange(0, n as int) =~= videos@);
    }
    out
}

/// Law: a video id on the exclusion list never appears in the retained list,
/// even when the crawl traversed that video.
pub proof fn lemma_excluded_never_in_output(
    vs: Seq<ExtractedThing>,
    excluded: Seq<String>,
    id: Seq<char>,
)
    requires
        spec_contains_str(excluded, id),
    ensures
        forall|i: int|
            0 <= i < spec_retain(vs, excluded).len() ==> (#[trigger] spec_retain(vs, excluded)[i]).next_id@
                != id,
    decreases vs.len(),
{
    if vs.len() > 0 {
        lemma_excluded_never_in_output(vs.drop_last(), excluded, id);
    }
}

} // verus!

