use vstd::prelude::*;
use vstd::string::{StrSliceExecFns, StringExecFns, StringSliceAdditionalSpecFns};
use vstd::utf8::{encode_utf8, valid_utf8};

use crate::err::ScrapeError;
use crate::utils::{contains_sub, find_char, has_substring, rfind_char, spec_find, spec_rfind, str_eq};

verus! {

/// What a work item asks the crawl engine to do next: fetch and extract a
/// page or a collection, or accept a terminal video.
#[derive(Clone, Copy, PartialEq, Eq, Structural, Debug)]
pub enum ThingType {
    Video,
    Collection,
    Page,
}

/// One work item discovered by the extractor and consumed by the crawl
/// engine.
#[derive(Debug)]
pub struct ExtractedThing {
    pub title: String,
    pub next_type: ThingType,
    pub next_id: String,
}

impl ExtractedThing {
    /// A field-for-field copy.
    pub fn duplicate(&self) -> (r: ExtractedThing)
        ensures
            r == *self,
    {
        ExtractedThing {
            title: self.title.clone(),
            next_type: self.next_type,
            next_id: self.next_id.clone(),
        }
    }
}

#[verifier::external_type_specification]
#[verifier::external_body]
pub struct ExJsonValue(simd_json::owned::Value);

/// The JSON document held by the given bytes, if they are valid JSON.
/// Parsing is a function of the bytes alone.
pub uninterp spec fn spec_json_parse(bytes: Seq<u8>) -> Option<simd_json::owned::Value>;

/// The member a JSON value holds under a key: `Some` exactly when the value
/// is an object carrying that key.
pub uninterp spec fn spec_json_get(v: simd_json::owned::Value, key: Seq<char>) -> Option<
    simd_json::owned::Value,
>;

/// The characters a JSON string value holds; `None` for any other kind.
pub uninterp spec fn spec_json_str(v: simd_json::owned::Value) -> Option<Seq<char>>;

/// The boolean a JSON boolean value holds; `None` for any other kind.
pub uninterp spec fn spec_json_bool(v: simd_json::owned::Value) -> Option<bool>;

/// The elements a JSON array value holds, in order; `None` for any other kind.
pub uninterp spec fn spec_json_arr(v: simd_json::owned::Value) -> Option<
    Seq<simd_json::owned::Value>,
>;

/// Relies on `simd_json::to_owned_value`: parses one JSON document from the
/// bytes, or fails on invalid JSON.  Parsing rewrites the buffer, so the
/// bytes are consumed.
#[verifier::external_body]
fn json_parse(body: Vec<u8>) -> (r: Option<simd_json::owned::Value>)
    ensures
        r == spec_json_parse(body@),
{
    let mut buf = body;
    simd_json::to_owned_value(&mut buf).ok()
}

/// Relies on `ValueObjectAccess::get` for simd_json values: the member under
/// `key` when the value is a JSON object holding that key, `None` otherwise.
#[verifier::external_body]
fn json_get<'a>(v: &'a simd_json::owned::Value, key: &str) -> (r: Option<
    &'a simd_json::owned::Value,
>)
    ensures
        r matches Some(m) ==> spec_json_get(*v, key@) == Some(*m),
        r is None ==> spec_json_get(*v, key@) is None,
{
    simd_json::prelude::ValueObjectAccess::get(v, key)
}

/// Relies on `ValueAsScalar::as_str`: the content of a JSON string value,
/// `None` for any other kind of value.
#[verifier::external_body]
fn json_as_str(v: &simd_json::owned::Value) -> (r: Option<String>)
    ensures
        r matches Some(s) ==> spec_json_str(*v) == Some(s@),
        r is None ==> spec_json_str(*v) is None,
{
    match simd_json::prelude::ValueAsScalar::as_str(v) {
        Some(s) => Some(s.to_string()),
        None => None,
    }
}

/// Relies on `ValueAsScalar::as_bool`: the content of a JSON boolean value,
/// `None` for any other kind of value.
#[verifier::external_body]
fn json_as_bool(v: &simd_json::owned::Value) -> (r: Option<bool>)
    ensures
        r == spec_json_bool(*v),
{
    simd_json::prelude::ValueAsScalar::as_bool(v)
}

/// Relies on `ValueAsArray::as_array`: the elements of a JSON array value,
/// `None` for any other kind of value.
#[verifier::external_body]
fn json_as_array<'a>(v: &'a simd_json::owned::Value) -> (r: Option<
    &'a Vec<simd_json::owned::Value>,
>)
    ensures
        r matches Some(a) ==> spec_json_arr(*v) == Some(a@),
        r is None ==> spec_json_arr(*v) is None,
{
    simd_json::prelude::ValueAsArray::as_array(v)
}

/// Relies on `core::str::from_utf8`: succeeds exactly on valid UTF-8, and
/// the returned slice re-encodes to the input bytes.
#[verifier::external_body]
fn bytes_as_str(bytes: &[u8]) -> (r: Option<&str>)
    ensures
        r is Some <==> valid_utf8(bytes@),
        r matches Some(s) ==> s.spec_bytes() == bytes@,
{
    core::str::from_utf8(bytes).ok()
}

/// For each element of the document matching the selector, in document
/// order, the element's value of the attribute.  `None` when the selector
/// itself does not parse.  Selection is a function of the three strings
/// alone.
pub uninterp spec fn spec_selected(
    html: Seq<char>,
    selector: Seq<char>,
    attr: Seq<char>,
) -> Option<Seq<Option<Seq<char>>>>;

/// Relies on scraper's `Html::parse_document`, `Selector::parse` and
/// `ElementRef::attr`: parses the document, selects every element matching
/// `selector` in document order, and hands back each match's value of the
/// attribute `attr`; `None` when the selector itself does not parse.
#[verifier::external_body]
fn select_attr_values(html: &str, selector: &str, attr: &str) -> (r: Option<Vec<Option<String>>>)
    ensures
        r matches Some(m) ==> spec_selected(html@, selector@, attr@) == Some(m.deep_view()),
        r is None ==> spec_selected(html@, selector@, attr@) is None,
{
    let document = scraper::Html::parse_document(html);
    let sel = match scraper::Selector::parse(selector) {
        Ok(s) => s,
        Err(_) => return None,
    };
    let mut out: Vec<Option<String>> = Vec::new();
    for element in document.select(&sel) {
        match element.attr(attr) {
            Some(value) => out.push(Some(value.to_string())),
            None => out.push(None),
        }
    }
    Some(out)
}

/// The feed reference with any `?` query suffix stripped.
pub open spec fn spec_feed_base(feed: Seq<char>) -> Seq<char> {
    match spec_find(feed, '?') {
        Some(i) => feed.subrange(0, i),
        None => feed,
    }
}

/// The collection identifier embedded in a feed reference: the part after
/// the final `/` of the query-stripped reference; `None` when there is no
/// path separator.
pub open spec fn spec_collection_id(feed: Seq<char>) -> Option<Seq<char>> {
    let base = spec_feed_base(feed);
    match spec_rfind(base, '/') {
        Some(i) => Some(base.subrange(i + 1, base.len() as int)),
        None => None,
    }
}

/// Derives the collection work item from one feed reference.  A reference
/// carrying the `watch-history` marker is skipped.  Otherwise the collection
/// id is the part after the final `/` of the query-stripped reference; a
/// reference without `/` is a fatal schema violation.
pub fn feed_to_item(feed: &str) -> (r: Result<Option<ExtractedThing>, ScrapeError>)
    ensures
        has_substring(feed@, "watch-history"@) ==> r == Ok::<Option<ExtractedThing>, ScrapeError>(
            None,
        ),
        !has_substring(feed@, "watch-history"@) ==> match r {
            Ok(Some(t)) => {
                &&& spec_collection_id(feed@) == Some(t.next_id@)
                &&& t.next_type is Collection
                &&& t.title@ == "collection from page"@
            },
            Ok(None) => false,
            Err(e) => e is SchemaViolation && spec_collection_id(feed@) is None,
        },
{
    if contains_sub(feed, "watch-history") {
        return Ok(None);
    }
    let flen = feed.unicode_len();
    let base_end = match find_char(feed, '?') {
        Some(i) => i,
        None => flen,
    };
    let base = feed.substring_char(0, base_end);
    proof {
        crate::utils::lemma_spec_find(feed@, '?');
        if spec_find(feed@, '?') is None {
            assert(feed@.subrange(0, flen as int) =~= feed@);
        }
        assert(base@ == spec_feed_base(feed@));
    }
    match rfind_char(base, '/') {
        None => Err(
            ScrapeError::SchemaViolation(String::from_str("feed reference without path separator")),
        ),
        Some(slash) => {
            proof {
                crate::utils::lemma_spec_rfind(base@, '/');
            }
            let blen = base.unicode_len();
            let id = base.substring_char(slash + 1, blen);
            Ok(
                Some(
                    ExtractedThing {
                        title: String::from_str("collection from page"),
                        next_type: ThingType::Collection,
                        next_id: String::from_str(id),
                    },
                ),
            )
        },
    }
}

/// Dispatch on one collection item's subtype: `GENERIC` is skipped, `VIDEO`
/// yields the terminal video work item under the item's own id, and any
/// other subtype is an unrecognized schema and therefore fatal.
pub fn item_from_subtype(title: &str, subtype: &str, id: Option<&String>) -> (r: Result<
    Option<ExtractedThing>,
    ScrapeError,
>)
    ensures
        subtype@ == "GENERIC"@ ==> r == Ok::<Option<ExtractedThing>, ScrapeError>(None),
        subtype@ != "GENERIC"@ && subtype@ == "VIDEO"@ ==> match (r, id) {
            (Ok(Some(t)), Some(s)) => t.title@ == title@ && t.next_type is Video && t.next_id@
                == s@,
            (Err(e), None) => e is SchemaViolation,
            _ => false,
        },
        subtype@ != "GENERIC"@ && subtype@ != "VIDEO"@ ==> (r matches Err(e) && e
            is SchemaViolation),
{
    if str_eq(subtype, "GENERIC") {
        Ok(None)
    } else if str_eq(subtype, "VIDEO") {
        match id {
            Some(s) => Ok(
                Some(
                    ExtractedThing {
                        title: String::from_str(title),
                        next_type: ThingType::Video,
                        next_id: s.clone(),
                    },
                ),
            ),
            None => Err(ScrapeError::SchemaViolation(String::from_str("video item without id"))),
        }
    } else {
        Err(ScrapeError::SchemaViolation(String::from_str("unknown item subtype")))
    }
}

/// The value of the single matched metadata element's attribute: exactly one
/// element may match, and it must carry the attribute; anything else is
/// fatal.
pub fn the_only_attr(mut matches: Vec<Option<String>>) -> (r: Result<String, ScrapeError>)
    ensures
        match r {
            Ok(s) => matches@.len() == 1 && matches@[0] == Some(s),
            Err(e) => e is SchemaViolation && (matches@.len() != 1 || matches@[0] is None),
        },
{
    if matches.len() != 1 {
        return Err(ScrapeError::SchemaViolation(String::from_str("missing meta element")));
    }
    match matches.pop() {
        Some(Some(s)) => Ok(s),
        _ => Err(ScrapeError::SchemaViolation(String::from_str("meta element without config"))),
    }
}

/// The string a JSON value holds under one key.
pub open spec fn spec_str_field(v: simd_json::owned::Value, key: Seq<char>) -> Option<Seq<char>> {
    match spec_json_get(v, key) {
        None => None,
        Some(f) => spec_json_str(f),
    }
}

/// The root id a parsed `data-one-config` object registers: the string under
/// `pages` / `HOME`.
pub open spec fn spec_config_root_id(config: Option<simd_json::owned::Value>) -> Option<Seq<char>> {
    match config {
        None => None,
        Some(j) => match spec_json_get(j, "pages"@) {
            None => None,
            Some(p) => spec_str_field(p, "HOME"@),
        },
    }
}

/// The home page's root id: the single `meta[name=one-data]` element's
/// `data-one-config` attribute read as a JSON object, then `pages` / `HOME`.
/// `None` when the match count is not one, the attribute is absent, it is
/// not JSON, or the keys are missing or mistyped.
pub open spec fn spec_root_id(html: Seq<char>) -> Option<Seq<char>> {
    match spec_selected(html, "meta[name=one-data]"@, "data-one-config"@) {
        None => None,
        Some(found) => if found.len() == 1 {
            match found[0] {
                Some(attr) => spec_config_root_id(spec_json_parse(encode_utf8(attr))),
                None => None,
            }
        } else {
            None
        },
    }
}

/// Extracts the crawl's root identifier from the home page, exactly as
/// `spec_root_id` describes for the decoded document: success if and only if
/// the document holds exactly one `meta[name=one-data]` element whose
/// `data-one-config` attribute is a JSON object registering a string under
/// `pages` / `HOME`, and then the result is that string.
pub fn extract_original_id(content: &[u8]) -> (r: Result<String, ScrapeError>)
    ensures
        !valid_utf8(content@) ==> (r matches Err(e) && e is SchemaViolation),
        valid_utf8(content@) ==> exists|h: Seq<char>|
            #[trigger] encode_utf8(h) == content@ && match r {
                Ok(s) => spec_root_id(h) == Some(s@),
                Err(e) => e is SchemaViolation && spec_root_id(h) is None,
            },
{
    let html = match bytes_as_str(content) {
        Some(s) => s,
        None => {
            return Err(ScrapeError::SchemaViolation(String::from_str("home page is not text")));
        },
    };
    let ghost h = html@;
    proof {
        assert(encode_utf8(h) == content@);
    }
    let found = match select_attr_values(html, "meta[name=one-data]", "data-one-config") {
        Some(m) => m,
        None => {
            return Err(ScrapeError::SchemaViolation(String::from_str("bad meta selector")));
        },
    };
    let ghost fv = found.deep_view();
    proof {
        if found@.len() > 0 {
            assert(fv[0] == found@[0].deep_view());
        }
    }
    let config_raw = match the_only_attr(found) {
        Ok(c) => c,
        Err(e) => {
            proof {
                assert(spec_root_id(h) is None);
            }
            return Err(e);
        },
    };
    let bytes = config_raw.as_str().as_bytes_vec();
    proof {
        assert(fv[0] == Some(config_raw@));
        assert(bytes@ == encode_utf8(config_raw@));
    }
    let one_config = match json_parse(bytes) {
        Some(v) => v,
        None => {
            return Err(ScrapeError::SchemaViolation(String::from_str("config is not JSON")));
        },
    };
    let pages = match json_get(&one_config, "pages") {
        Some(p) => p,
        None => {
            return Err(ScrapeError::SchemaViolation(String::from_str("pages")));
        },
    };
    let home = match json_get(pages, "HOME") {
        Some(h) => h,
        None => {
            return Err(ScrapeError::SchemaViolation(String::from_str("HOME")));
        },
    };
    match json_as_str(home) {
        Some(root_id) => {
            proof {
                assert(spec_root_id(h) == Some(root_id@));
            }
            Ok(root_id)
        },
        None => Err(ScrapeError::SchemaViolation(String::from_str("HOME is not a string"))),
    }
}

/// The string under one key of a parsed metadata document.
pub open spec fn spec_info_field(doc: Option<simd_json::owned::Value>, key: Seq<char>) -> Option<
    Seq<char>,
> {
    match doc {
        None => None,
        Some(j) => spec_str_field(j, key),
    }
}

/// Extracts the browse display name from one video's metadata document:
/// success if and only if the document is a JSON object with string fields
/// `upload_date` (exactly eight characters) and `fulltitle`, and then the
/// result is `display_name` of those two fields.
pub fn extract_browse_name(info: Vec<u8>) -> (r: Result<String, ScrapeError>)
    ensures
        ({
            let date = spec_info_field(spec_json_parse(info@), "upload_date"@);
            let title = spec_info_field(spec_json_parse(info@), "fulltitle"@);
            match r {
                Ok(s) => (date matches Some(d) && (title matches Some(t) && (d.len() == 8 && s@
                    == crate::reconcile::spec_replace_colons(
                    crate::reconcile::spec_display_name(d, t),
                )))),
                Err(e) => e is SchemaViolation && (date is None || title is None || (
                date matches Some(d) && d.len() != 8)),
            }
        }),
{
    let json = match json_parse(info) {
        Some(v) => v,
        None => {
            return Err(ScrapeError::SchemaViolation(String::from_str("info is not JSON")));
        },
    };
    let upload_date = match json_get(&json, "upload_date") {
        Some(v) => match json_as_str(v) {
            Some(s) => s,
            None => {
                return Err(ScrapeError::SchemaViolation(String::from_str("upload_date type")));
            },
        },
        None => {
            return Err(ScrapeError::SchemaViolation(String::from_str("upload_date")));
        },
    };
    let title = match json_get(&json, "fulltitle") {
        Some(v) => match json_as_str(v) {
            Some(s) => s,
            None => {
                return Err(ScrapeError::SchemaViolation(String::from_str("fulltitle type")));
            },
        },
        None => {
            return Err(ScrapeError::SchemaViolation(String::from_str("fulltitle")));
        },
    };
    crate::reconcile::display_name(upload_date.as_str(), title.as_str())
}

/// The containers of a page payload: the single container-collection group's
/// `containers` array; `None` on a missing field, a wrong type, or a group
/// count other than one.
pub open spec fn spec_page_containers(doc: Option<simd_json::owned::Value>) -> Option<
    Seq<simd_json::owned::Value>,
> {
    match doc {
        None => None,
        Some(j) => match spec_json_get(j, "page"@) {
            None => None,
            Some(p) => match spec_json_get(p, "containerCollections"@) {
                None => None,
                Some(ccv) => match spec_json_arr(ccv) {
                    None => None,
                    Some(ccs) => if ccs.len() != 1 {
                        None
                    } else {
                        match spec_json_get(ccs[0], "containers"@) {
                            None => None,
                            Some(cv) => spec_json_arr(cv),
                        }
                    },
                },
            },
        },
    }
}

/// The feed reference of one container: its `data` / `feed` string.
pub open spec fn spec_container_feed(c: simd_json::owned::Value) -> Option<Seq<char>> {
    match spec_json_get(c, "data"@) {
        None => None,
        Some(d) => spec_str_field(d, "feed"@),
    }
}

/// The collection ids the containers yield, in container order: a
/// watch-history feed contributes nothing; a malformed container or a feed
/// without a path separator is fatal (`None`).
pub open spec fn spec_container_ids(cs: Seq<simd_json::owned::Value>) -> Option<Seq<Seq<char>>>
    decreases cs.len(),
{
    if cs.len() == 0 {
        Some(Seq::empty())
    } else {
        match spec_container_ids(cs.drop_last()) {
            None => None,
            Some(ids) => match spec_container_feed(cs.last()) {
                None => None,
                Some(feed) => if has_substring(feed, "watch-history"@) {
                    Some(ids)
                } else {
                    match spec_collection_id(feed) {
                        Some(id) => Some(ids.push(id)),
                        None => None,
                    }
                },
            },
        }
    }
}

/// Once one container is fatal, the whole container list is.
proof fn lemma_container_ids_none(cs: Seq<simd_json::owned::Value>, i: int, j: int)
    requires
        0 <= i <= j <= cs.len(),
        spec_container_ids(cs.subrange(0, i)) is None,
    ensures
        spec_container_ids(cs.subrange(0, j)) is None,
    decreases j - i,
{
    if i < j {
        assert(cs.subrange(0, i + 1).drop_last() =~= cs.subrange(0, i));
        lemma_container_ids_none(cs, i + 1, j);
    }
}

/// Extracts the collection work items from a page payload, exactly as
/// `spec_page_containers` and `spec_container_ids` describe: success if and
/// only if the payload holds exactly one container-collection group and every
/// container is well-formed, and then the i-th item carries the i-th
/// non-skipped container's feed-derived id, in container order, with kind
/// Collection and the fixed title.
#[verifier::loop_isolation(false)]
pub fn extract_collections_from_root(content: Vec<u8>) -> (r: Result<
    Vec<ExtractedThing>,
    ScrapeError,
>)
    ensures
        ({
            let containers = spec_page_containers(spec_json_parse(content@));
            match r {
                Ok(items) => (containers matches Some(cs) && (spec_container_ids(cs)
                    matches Some(ids) && (items@.len() == ids.len() && forall|i: int|
                    #![trigger items@[i]]
                    0 <= i < ids.len() ==> items@[i].next_id@ == ids[i] && items@[i].next_type
                        is Collection && items@[i].title@ == "collection from page"@))),
                Err(e) => e is SchemaViolation && (containers is None || (containers
                    matches Some(cs) && spec_container_ids(cs) is None)),
            }
        }),
{
    let ghost cbytes = content@;
    let json = match json_parse(content) {
        Some(v) => v,
        None => {
            return Err(ScrapeError::SchemaViolation(String::from_str("payload is not JSON")));
        },
    };
    let page = match json_get(&json, "page") {
        Some(p) => p,
        None => {
            return Err(ScrapeError::SchemaViolation(String::from_str("pages")));
        },
    };
    let ccs_value = match json_get(page, "containerCollections") {
        Some(v) => v,
        None => {
            return Err(ScrapeError::SchemaViolation(String::from_str("containerCollections")));
        },
    };
    let ccs = match json_as_array(ccs_value) {
        Some(a) => a,
        None => {
            return Err(
                ScrapeError::SchemaViolation(String::from_str("containerCollections type")),
            );
        },
    };
    if ccs.len() != 1 {
        return Err(ScrapeError::SchemaViolation(String::from_str("containerCollections len")));
    }
    let containers_value = match json_get(&ccs[0], "containers") {
        Some(v) => v,
        None => {
            return Err(ScrapeError::SchemaViolation(String::from_str("containers")));
        },
    };
    let containers = match json_as_array(containers_value) {
        Some(a) => a,
        None => {
            return Err(ScrapeError::SchemaViolation(String::from_str("containers type")));
        },
    };
    let ghost cs = containers@;
    proof {
        assert(spec_page_containers(spec_json_parse(cbytes)) == Some(cs));
        assert(cs.subrange(0, 0) =~= Seq::<simd_json::owned::Value>::empty());
    }
    let mut feeds: Vec<ExtractedThing> = Vec::new();
    let n = containers.len();
    let mut idx: usize = 0;
    while idx < n
        invariant
            idx <= n,
            n == cs.len(),
            cs == containers@,
            spec_page_containers(spec_json_parse(cbytes)) == Some(cs),
            spec_container_ids(cs.subrange(0, idx as int)) matches Some(ids) && (feeds@.len()
                == ids.len() && forall|i: int|
                #![trigger feeds@[i]]
                0 <= i < ids.len() ==> feeds@[i].next_id@ == ids[i] && feeds@[i].next_type
                    is Collection && feeds@[i].title@ == "collection from page"@),
        decreases n - idx,
    {
        let ghost old_ids = spec_container_ids(cs.subrange(0, idx as int))->0;
        proof {
            assert(cs.subrange(0, idx + 1).drop_last() =~= cs.subrange(0, idx as int));
            assert(cs.subrange(0, idx + 1).last() == cs[idx as int]);
        }
        let container = &containers[idx];
        let data = match json_get(container, "data") {
            Some(d) => d,
            None => {
                proof {
                    lemma_container_ids_none(cs, idx + 1, n as int);
                    assert(cs.subrange(0, n as int) =~= cs);
                }
                return Err(ScrapeError::SchemaViolation(String::from_str("data")));
            },
        };
        let feed_value = match json_get(data, "feed") {
            Some(f) => f,
            None => {
                proof {
                    lemma_container_ids_none(cs, idx + 1, n as int);
                    assert(cs.subrange(0, n as int) =~= cs);
                }
                return Err(ScrapeError::SchemaViolation(String::from_str("feed")));
            },
        };
        let feed = match json_as_str(feed_value) {
            Some(f) => f,
            None => {
                proof {
                    lemma_container_ids_none(cs, idx + 1, n as int);
                    assert(cs.subrange(0, n as int) =~= cs);
                }
                return Err(ScrapeError::SchemaViolation(String::from_str("feed type")));
            },
        };
        proof {
            assert(spec_container_feed(cs[idx as int]) == Some(feed@));
        }
        match feed_to_item(feed.as_str()) {
            Ok(Some(item)) => {
                let ghost old_feeds = feeds@;
                let ghost new_ids = old_ids.push(item.next_id@);
                proof {
                    assert(spec_container_ids(cs.subrange(0, idx + 1)) == Some(new_ids));
                }
                feeds.push(item);
                proof {
                    assert forall|i: int| 0 <= i < new_ids.len() implies (
                    #[trigger] feeds@[i]).next_id@ == new_ids[i] && feeds@[i].next_type
                        is Collection && feeds@[i].title@ == "collection from page"@ by {
                        if i < old_ids.len() {
                            assert(feeds@[i] == old_feeds[i]);
                            assert(new_ids[i] == old_ids[i]);
                        } else {
                            assert(feeds@[i] == item);
                        }
                    }
                }
            },
            Ok(None) => {
                proof {
                    assert(spec_container_ids(cs.subrange(0, idx + 1)) == Some(old_ids));
                }
            },
            Err(e) => {
                proof {
                    assert(spec_container_ids(cs.subrange(0, idx + 1)) is None);
                    lemma_container_ids_none(cs, idx + 1, n as int);
                    assert(cs.subrange(0, n as int) =~= cs);
                }
                return Err(e);
            },
        }
        idx += 1;
    }
    proof {
        assert(cs.subrange(0, n as int) =~= cs);
    }
    Ok(feeds)
}

/// The `pageInfo` / `hasMore` flag of a collection payload.
pub open spec fn spec_has_more(doc: Option<simd_json::owned::Value>) -> Option<bool> {
    match doc {
        None => None,
        Some(j) => match spec_json_get(j, "pageInfo"@) {
            None => None,
            Some(p) => match spec_json_get(p, "hasMore"@) {
                None => None,
                Some(h) => spec_json_bool(h),
            },
        },
    }
}

/// The `data` array of a collection payload.
pub open spec fn spec_collection_data(doc: Option<simd_json::owned::Value>) -> Option<
    Seq<simd_json::owned::Value>,
> {
    match doc {
        None => None,
        Some(j) => match spec_json_get(j, "data"@) {
            None => None,
            Some(d) => spec_json_arr(d),
        },
    }
}

/// The page item one data item's actions contribute, as (kind, title, id)
/// triples: nothing without an actions array; with one, the array must hold
/// exactly one action of kind `NAVIGATE_TO_PAGE`, whose `params` / `id`
/// becomes a page item; anything else is fatal (`None`).
pub open spec fn spec_item_actions_part(item: simd_json::owned::Value, title: Seq<char>) -> Option<
    Seq<(ThingType, Seq<char>, Seq<char>)>,
> {
    match spec_json_get(item, "actions"@) {
        None => Some(Seq::empty()),
        Some(av) => match spec_json_arr(av) {
            None => Some(Seq::empty()),
            Some(arr) => if arr.len() != 1 {
                None
            } else {
                match spec_str_field(arr[0], "kind"@) {
                    None => None,
                    Some(k) => if k != "NAVIGATE_TO_PAGE"@ {
                        None
                    } else {
                        match spec_json_get(arr[0], "params"@) {
                            None => None,
                            Some(pv) => match spec_str_field(pv, "id"@) {
                                None => None,
                                Some(pid) => Some(seq![(ThingType::Page, title, pid)]),
                            },
                        }
                    },
                }
            },
        },
    }
}

/// The work items one data item contributes, as (kind, title, id) triples:
/// first the page item of its actions, then per its subtype: `GENERIC`
/// nothing, `VIDEO` a video item under the item's own id, anything else
/// fatal (`None`), as is a missing or mistyped field.
pub open spec fn spec_item_triples(item: simd_json::owned::Value) -> Option<
    Seq<(ThingType, Seq<char>, Seq<char>)>,
> {
    match spec_str_field(item, "title"@) {
        None => None,
        Some(title) => match spec_item_actions_part(item, title) {
            None => None,
            Some(pp) => match spec_str_field(item, "subtype"@) {
                None => None,
                Some(st) => if st == "GENERIC"@ {
                    Some(pp)
                } else if st == "VIDEO"@ {
                    match spec_str_field(item, "id"@) {
                        None => None,
                        Some(vid) => Some(pp.push((ThingType::Video, title, vid))),
                    }
                } else {
                    None
                },
            },
        },
    }
}

/// The work items of all data items, in item order; fatal once any item is.
pub open spec fn spec_data_triples(items: Seq<simd_json::owned::Value>) -> Option<
    Seq<(ThingType, Seq<char>, Seq<char>)>,
>
    decreases items.len(),
{
    if items.len() == 0 {
        Some(Seq::empty())
    } else {
        match spec_data_triples(items.drop_last()) {
            None => None,
            Some(ts) => match spec_item_triples(items.last()) {
                None => None,
                Some(more) => Some(ts + more),
            },
        }
    }
}

/// Once one data item is fatal, the whole data list is.
proof fn lemma_data_triples_none(items: Seq<simd_json::owned::Value>, i: int, j: int)
    requires
        0 <= i <= j <= items.len(),
        spec_data_triples(items.subrange(0, i)) is None,
    ensures
        spec_data_triples(items.subrange(0, j)) is None,
    decreases j - i,
{
    if i < j {
        assert(items.subrange(0, i + 1).drop_last() =~= items.subrange(0, i));
        lemma_data_triples_none(items, i + 1, j);
    }
}

/// The work items one collection data item contributes, exactly as
/// `spec_item_triples` describes.
fn things_from_item(item: &simd_json::owned::Value) -> (r: Result<Vec<ExtractedThing>, ScrapeError>)
    ensures
        match r {
            Ok(ts) => (spec_item_triples(*item) matches Some(triples) && (ts@.len()
                == triples.len() && forall|i: int|
                #![trigger ts@[i]]
                0 <= i < triples.len() ==> ts@[i].next_type == triples[i].0 && ts@[i].title@
                    == triples[i].1 && ts@[i].next_id@ == triples[i].2)),
            Err(e) => e is SchemaViolation && spec_item_triples(*item) is None,
        },
{
    let title = match json_get(item, "title") {
        Some(t) => match json_as_str(t) {
            Some(s) => s,
            None => {
                return Err(ScrapeError::SchemaViolation(String::from_str("title type")));
            },
        },
        None => {
            return Err(ScrapeError::SchemaViolation(String::from_str("title")));
        },
    };
    let mut out: Vec<ExtractedThing> = Vec::new();
    let ghost mut pp: Seq<(ThingType, Seq<char>, Seq<char>)> = Seq::empty();
    let actions = match json_get(item, "actions") {
        Some(av) => json_as_array(av),
        None => None,
    };
    if let Some(actions_arr) = actions {
        if actions_arr.len() != 1 {
            return Err(ScrapeError::SchemaViolation(String::from_str("actions len")));
        }
        let action = &actions_arr[0];
        let kind = match json_get(action, "kind") {
            Some(k) => match json_as_str(k) {
                Some(s) => s,
                None => {
                    return Err(ScrapeError::SchemaViolation(String::from_str("kind type")));
                },
            },
            None => {
                return Err(ScrapeError::SchemaViolation(String::from_str("kind")));
            },
        };
        if !str_eq(kind.as_str(), "NAVIGATE_TO_PAGE") {
            return Err(ScrapeError::SchemaViolation(String::from_str("action kind")));
        }
        let params = match json_get(action, "params") {
            Some(p) => p,
            None => {
                return Err(ScrapeError::SchemaViolation(String::from_str("params")));
            },
        };
        let page_id = match json_get(params, "id") {
            Some(v) => match json_as_str(v) {
                Some(s) => s,
                None => {
                    return Err(ScrapeError::SchemaViolation(String::from_str("id type")));
                },
            },
            None => {
                return Err(ScrapeError::SchemaViolation(String::from_str("id")));
            },
        };
        proof {
            pp = seq![(ThingType::Page, title@, page_id@)];
            assert(spec_item_actions_part(*item, title@) == Some(pp));
        }
        out.push(
            ExtractedThing { title: title.clone(), next_id: page_id, next_type: ThingType::Page },
        );
    } else {
        proof {
            assert(spec_item_actions_part(*item, title@) == Some(pp));
        }
    }
    let subtype = match json_get(item, "subtype") {
        Some(s) => match json_as_str(s) {
            Some(s) => s,
            None => {
                return Err(ScrapeError::SchemaViolation(String::from_str("subtype type")));
            },
        },
        None => {
            return Err(ScrapeError::SchemaViolation(String::from_str("subtype")));
        },
    };
    if str_eq(subtype.as_str(), "GENERIC") {
        proof {
            assert(spec_item_triples(*item) == Some(pp));
        }
        return Ok(out);
    }
    let video_id = match json_get(item, "id") {
        Some(v) => json_as_str(v),
        None => None,
    };
    match item_from_subtype(title.as_str(), subtype.as_str(), video_id.as_ref()) {
        Ok(Some(t)) => {
            proof {
                assert(spec_item_triples(*item) == Some(
                    pp.push((ThingType::Video, title@, t.next_id@)),
                ));
            }
            out.push(t);
            Ok(out)
        },
        Ok(None) => {
            proof {
                assert(false);
            }
            Err(ScrapeError::SchemaViolation(String::from_str("subtype")))
        },
        Err(e) => {
            proof {
                assert(spec_item_triples(*item) is None);
            }
            Err(e)
        },
    }
}

/// Extracts the work items from a collection payload, exactly as
/// `spec_has_more`, `spec_collection_data` and `spec_data_triples` describe:
/// a payload announcing further pages is an unsupported feature and fatal;
/// otherwise success if and only if every data item is well-formed, and then
/// the items are each data item's contributions in item order.
#[verifier::loop_isolation(false)]
pub fn extract_things_from_collection(content: Vec<u8>) -> (r: Result<
    Vec<ExtractedThing>,
    ScrapeError,
>)
    ensures
        ({
            let doc = spec_json_parse(content@);
            let hm = spec_has_more(doc);
            match r {
                Ok(items) => hm == Some(false) && (spec_collection_data(doc) matches Some(ds) && (
                spec_data_triples(ds) matches Some(ts) && (items@.len() == ts.len() && forall|
                    i: int,
                |
                    #![trigger items@[i]]
                    0 <= i < ts.len() ==> items@[i].next_type == ts[i].0 && items@[i].title@
                        == ts[i].1 && items@[i].next_id@ == ts[i].2))),
                Err(e) => {
                    ||| (hm is None && e is SchemaViolation)
                    ||| (hm == Some(true) && e is UnsupportedFeature)
                    ||| (hm == Some(false) && e is SchemaViolation && (spec_collection_data(doc)
                        is None || (spec_collection_data(doc) matches Some(ds)
                        && spec_data_triples(ds) is None)))
                },
            }
        }),
{
    let ghost cbytes = content@;
    let json = match json_parse(content) {
        Some(v) => v,
        None => {
            return Err(ScrapeError::SchemaViolation(String::from_str("payload is not JSON")));
        },
    };
    let page_info = match json_get(&json, "pageInfo") {
        Some(p) => p,
        None => {
            return Err(ScrapeError::SchemaViolation(String::from_str("pageInfo")));
        },
    };
    let has_more_value = match json_get(page_info, "hasMore") {
        Some(h) => h,
        None => {
            return Err(ScrapeError::SchemaViolation(String::from_str("hasMore")));
        },
    };
    let has_more = match json_as_bool(has_more_value) {
        Some(b) => b,
        None => {
            return Err(ScrapeError::SchemaViolation(String::from_str("hasMore type")));
        },
    };
    if has_more {
        return Err(ScrapeError::UnsupportedFeature(String::from_str("multi page collections")));
    }
    let data_value = match json_get(&json, "data") {
        Some(d) => d,
        None => {
            return Err(ScrapeError::SchemaViolation(String::from_str("data")));
        },
    };
    let data_arr = match json_as_array(data_value) {
        Some(a) => a,
        None => {
            return Err(ScrapeError::SchemaViolation(String::from_str("data type")));
        },
    };
    let ghost ds = data_arr@;
    proof {
        assert(spec_collection_data(spec_json_parse(cbytes)) == Some(ds));
        assert(ds.subrange(0, 0) =~= Seq::<simd_json::owned::Value>::empty());
    }
    let mut video_ids: Vec<ExtractedThing> = Vec::new();
    let n = data_arr.len();
    let mut idx: usize = 0;
    while idx < n
        invariant
            idx <= n,
            n == ds.len(),
            ds == data_arr@,
            spec_data_triples(ds.subrange(0, idx as int)) matches Some(ts) && (video_ids@.len()
                == ts.len() && forall|i: int|
                #![trigger video_ids@[i]]
                0 <= i < ts.len() ==> video_ids@[i].next_type == ts[i].0 && video_ids@[i].title@
                    == ts[i].1 && video_ids@[i].next_id@ == ts[i].2),
        decreases n - idx,
    {
        let ghost old_ts = spec_data_triples(ds.subrange(0, idx as int))->0;
        proof {
            assert(ds.subrange(0, idx + 1).drop_last() =~= ds.subrange(0, idx as int));
            assert(ds.subrange(0, idx + 1).last() == ds[idx as int]);
        }
        let item = &data_arr[idx];
        match things_from_item(item) {
            Ok(mut ts_vec) => {
                let ghost item_out = ts_vec@;
                let ghost item_triples = spec_item_triples(ds[idx as int])->0;
                let ghost old_out = video_ids@;
                let ghost new_ts = old_ts + item_triples;
                proof {
                    assert(spec_data_triples(ds.subrange(0, idx + 1)) == Some(new_ts));
                }
                video_ids.append(&mut ts_vec);
                proof {
                    assert forall|i: int| 0 <= i < new_ts.len() implies (
                    #[trigger] video_ids@[i]).next_type == new_ts[i].0 && video_ids@[i].title@
                        == new_ts[i].1 && video_ids@[i].next_id@ == new_ts[i].2 by {
                        if i < old_out.len() {
                            assert(video_ids@[i] == old_out[i]);
                            assert(new_ts[i] == old_ts[i]);
                        } else {
                            assert(video_ids@[i] == item_out[i - old_out.len()]);
                            assert(new_ts[i] == item_triples[i - old_ts.len()]);
                        }
                    }
                }
            },
            Err(e) => {
                proof {
                    assert(spec_data_triples(ds.subrange(0, idx + 1)) is None);
                    lemma_data_triples_none(ds, idx + 1, n as int);
                    assert(ds.subrange(0, n as int) =~= ds);
                }
                return Err(e);
            },
        }
        idx += 1;
    }
    proof {
        assert(ds.subrange(0, n as int) =~= ds);
    }
    Ok(video_ids)
}

} // verus!
