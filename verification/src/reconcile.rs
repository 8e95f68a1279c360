use vstd::prelude::*;
use vstd::string::{StrSliceExecFns, StringExecFns};

use crate::downloader::spec_join;
use crate::err::ScrapeError;
use crate::utils::{push_char, str_eq};

verus! {

/// Classification of a per-video directory's children at inspection time.
/// `Empty` and `Retry` (only the attempt log is present) require a download;
/// `Complete` does not.
#[derive(Clone, Copy, PartialEq, Eq, Structural, Debug)]
pub enum VideoDirState {
    Empty,
    Retry,
    Complete,
}

/// Whether `s` ends with `suffix`.
pub open spec fn has_suffix(s: Seq<char>, suffix: Seq<char>) -> bool {
    s.len() >= suffix.len() && s.subrange(s.len() - suffix.len(), s.len() as int) == suffix
}

/// Index of the first name carrying `suffix`, if any.
pub open spec fn spec_first_with_suffix(names: Seq<Seq<char>>, suffix: Seq<char>) -> Option<int>
    decreases names.len(),
{
    if names.len() == 0 {
        None
    } else if has_suffix(names[0], suffix) {
        Some(0)
    } else {
        match spec_first_with_suffix(names.drop_first(), suffix) {
            Some(i) => Some(i + 1),
            None => None,
        }
    }
}

/// `spec_first_with_suffix` returns the first index whose name has the suffix.
pub proof fn lemma_spec_first_with_suffix(names: Seq<Seq<char>>, suffix: Seq<char>)
    ensures
        match spec_first_with_suffix(names, suffix) {
            Some(i) => 0 <= i < names.len() && has_suffix(names[i], suffix) && forall|j: int|
                0 <= j < i ==> !has_suffix(names[j], suffix),
            None => forall|j: int| 0 <= j < names.len() ==> !has_suffix(names[j], suffix),
        },
    decreases names.len(),
{
    if names.len() > 0 && !has_suffix(names[0], suffix) {
        let rest = names.drop_first();
        lemma_spec_first_with_suffix(rest, suffix);
        match spec_first_with_suffix(rest, suffix) {
            Some(i) => {
                assert(names[i + 1] == rest[i]);
                assert forall|j: int| 0 <= j < i + 1 implies !has_suffix(names[j], suffix) by {
                    if j > 0 {
                        assert(rest[j - 1] == names[j]);
                    }
                }
            },
            None => {
                assert forall|j: int| 0 <= j < names.len() implies !has_suffix(
                    names[j],
                    suffix,
                ) by {
                    if j > 0 {
                        assert(rest[j - 1] == names[j]);
                    }
                }
            },
        }
    }
}

/// The names with the first `suffix`-carrying entry removed; `None` when no
/// entry carries the suffix.
pub open spec fn spec_strip_suffix_one(names: Seq<Seq<char>>, suffix: Seq<char>) -> Option<
    Seq<Seq<char>>,
> {
    match spec_first_with_suffix(names, suffix) {
        Some(i) => Some(names.remove(i)),
        None => None,
    }
}

/// The names with every entry equal to `s` removed, in order.
pub open spec fn spec_remove_all(names: Seq<Seq<char>>, s: Seq<char>) -> Seq<Seq<char>>
    decreases names.len(),
{
    if names.len() == 0 {
        Seq::empty()
    } else {
        let rest = spec_remove_all(names.drop_last(), s);
        if names.last() == s {
            rest
        } else {
            rest.push(names.last())
        }
    }
}

/// The directory classification: no children means `Empty`; only the attempt
/// log means `Retry`; otherwise exactly one media file, one metadata file and
/// one thumbnail must be present (removed in that order, first match each),
/// and nothing but the attempt log may remain, giving `Complete`; anything
/// else is unaccountable (`None`).
pub open spec fn spec_classify(names: Seq<Seq<char>>) -> Option<VideoDirState> {
    if names.len() == 0 {
        Some(VideoDirState::Empty)
    } else if names.len() == 1 && names[0] == "ytdl.log"@ {
        Some(VideoDirState::Retry)
    } else {
        match spec_strip_suffix_one(names, ".mp4"@) {
            None => None,
            Some(n1) => match spec_strip_suffix_one(n1, ".info.json"@) {
                None => None,
                Some(n2) => match spec_strip_suffix_one(n2, ".jpg"@) {
                    None => None,
                    Some(n3) => if spec_remove_all(n3, "ytdl.log"@) == Seq::<Seq<char>>::empty() {
                        Some(VideoDirState::Complete)
                    } else {
                        None
                    },
                },
            },
        }
    }
}

/// Whether `s` ends with `suffix`, character for character.
pub fn ends_with(s: &str, suffix: &str) -> (r: bool)
    ensures
        r == has_suffix(s@, suffix@),
{
    let slen = s.unicode_len();
    let suflen = suffix.unicode_len();
    if suflen > slen {
        return false;
    }
    let tail = s.substring_char(slen - suflen, slen);
    str_eq(tail, suffix)
}

/// Index of the first element of `v` ending with `suffix`, if any.
fn first_with_suffix(v: &Vec<String>, suffix: &str) -> (r: Option<usize>)
    ensures
        r == match spec_first_with_suffix(v.deep_view(), suffix@) {
            Some(i) => Some(i as usize),
            None => None::<usize>,
        },
{
    let n = v.len();
    let mut i: usize = 0;
    while i < n
        invariant
            n == v@.len(),
            i <= n,
            forall|j: int| 0 <= j < i ==> !has_suffix(v.deep_view()[j], suffix@),
        decreases n - i,
    {
        proof {
            assert(v.deep_view()[i as int] == v@[i as int]@);
        }
        if ends_with(v[i].as_str(), suffix) {
            proof {
                lemma_spec_first_with_suffix(v.deep_view(), suffix@);
            }
            return Some(i);
        }
        i += 1;
    }
    proof {
        lemma_spec_first_with_suffix(v.deep_view(), suffix@);
    }
    None
}

/// A field-for-field copy of the names.
fn clone_strings(v: &Vec<String>) -> (r: Vec<String>)
    ensures
        r@ == v@,
{
    let mut out: Vec<String> = Vec::new();
    let n = v.len();
    let mut i: usize = 0;
    while i < n
        invariant
            n == v@.len(),
            i <= n,
            out@ == v@.subrange(0, i as int),
        decreases n - i,
    {
        out.push(v[i].clone());
        proof {
            assert(out@ =~= v@.subrange(0, i + 1));
        }
        i += 1;
    }
    proof {
        assert(v@.subrange(0, n as int) =~= v@);
    }
    out
}

/// Classifies the children of a per-video directory, exactly as
/// `spec_classify` describes; an unaccountable directory is a fatal
/// filesystem inconsistency.
pub fn classify_video_dir(children: &Vec<String>) -> (r: Result<VideoDirState, ScrapeError>)
    ensures
        match spec_classify(children.deep_view()) {
            Some(st) => r == Ok::<VideoDirState, ScrapeError>(st),
            None => r matches Err(e) && e is FilesystemInconsistency,
        },
{
    let n = children.len();
    if n == 0 {
        return Ok(VideoDirState::Empty);
    }
    if n == 1 && str_eq(children[0].as_str(), "ytdl.log") {
        proof {
            assert(children.deep_view()[0] == children@[0]@);
        }
        return Ok(VideoDirState::Retry);
    }
    proof {
        assert(children.deep_view()[0] == children@[0]@);
        assert(children.deep_view().len() == children@.len());
    }
    let mut rest = clone_strings(children);
    let ghost d0 = children.deep_view();
    let i_mp4 = match first_with_suffix(&rest, ".mp4") {
        Some(i) => i,
        None => {
            return Err(ScrapeError::FilesystemInconsistency(String::from_str("missing mp4")));
        },
    };
    proof {
        lemma_spec_first_with_suffix(d0, ".mp4"@);
    }
    rest.remove(i_mp4);
    let ghost d1 = d0.remove(i_mp4 as int);
    proof {
        assert(rest.deep_view() =~= d1);
    }
    let i_info = match first_with_suffix(&rest, ".info.json") {
        Some(i) => i,
        None => {
            return Err(
                ScrapeError::FilesystemInconsistency(String::from_str("missing info.json")),
            );
        },
    };
    proof {
        lemma_spec_first_with_suffix(d1, ".info.json"@);
    }
    rest.remove(i_info);
    let ghost d2 = d1.remove(i_info as int);
    proof {
        assert(rest.deep_view() =~= d2);
    }
    let i_jpg = match first_with_suffix(&rest, ".jpg") {
        Some(i) => i,
        None => {
            return Err(ScrapeError::FilesystemInconsistency(String::from_str("missing jpg")));
        },
    };
    proof {
        lemma_spec_first_with_suffix(d2, ".jpg"@);
    }
    rest.remove(i_jpg);
    let ghost d3 = d2.remove(i_jpg as int);
    proof {
        assert(rest.deep_view() =~= d3);
    }
    // discard any attempt log; anything else left over is unaccountable
    let mut leftover: Vec<String> = Vec::new();
    let m = rest.len();
    proof {
        assert(d3.subrange(0, 0) =~= Seq::<Seq<char>>::empty());
    }
    let mut i: usize = 0;
    while i < m
        invariant
            m == rest@.len(),
            d3 == rest.deep_view(),
            i <= m,
            leftover.deep_view() == spec_remove_all(d3.subrange(0, i as int), "ytdl.log"@),
        decreases m - i,
    {
        proof {
            assert(d3.subrange(0, i + 1).drop_last() =~= d3.subrange(0, i as int));
            assert(d3.subrange(0, i + 1).last() == rest@[i as int]@);
        }
        let ghost pre_leftover = leftover.deep_view();
        if !str_eq(rest[i].as_str(), "ytdl.log") {
            leftover.push(rest[i].clone());
            proof {
                assert(leftover.deep_view() =~= pre_leftover.push(rest@[i as int]@));
            }
        }
        i += 1;
    }
    proof {
        assert(d3.subrange(0, m as int) =~= d3);
    }
    if leftover.len() == 0 {
        proof {
            assert(spec_remove_all(d3, "ytdl.log"@) =~= Seq::<Seq<char>>::empty());
        }
        Ok(VideoDirState::Complete)
    } else {
        proof {
            assert(spec_remove_all(d3, "ytdl.log"@).len() != 0);
        }
        Err(ScrapeError::FilesystemInconsistency(String::from_str("unknown remaining files")))
    }
}

/// Whether a classified directory still needs its download.
pub fn needs_download(state: &VideoDirState) -> (r: bool)
    ensures
        r == !(state is Complete),
{
    match state {
        VideoDirState::Complete => false,
        _ => true,
    }
}

/// The external player URL for one video, built from the platform account id
/// and the video id.
pub open spec fn spec_ytdl_url(account_id: Seq<char>, video_id: Seq<char>) -> Seq<char> {
    "https://players.brightcove.net/"@ + account_id + "/default_default/index.html?videoId="@
        + video_id
}

/// The four script commands for one pending download: enter the video's
/// storage directory, echo its title, run the external downloader against
/// the player URL, and pause between requests.
pub fn ytdl_commands(account_id: &str, video_id: &str, title: &str, full_root: &str) -> (r: Vec<
    String,
>)
    ensures
        r@.len() == 4,
        r@[0]@ == "cd "@ + full_root@,
        r@[1]@ == "echo \""@ + title@ + "\""@,
        r@[2]@ == "youtube-dl --write-info-json --write-thumbnail --verbose "@ + spec_ytdl_url(
            account_id@,
            video_id@,
        ) + " 2>&1 | tee ytdl.log"@,
        r@[3]@ == "sleep 20"@,
{
    let mut commands: Vec<String> = Vec::new();
    commands.push(String::from_str("cd ").concat(full_root));
    commands.push(String::from_str("echo \"").concat(title).concat("\""));
    commands.push(
        String::from_str("youtube-dl --write-info-json --write-thumbnail --verbose ").concat(
            "https://players.brightcove.net/",
        ).concat(account_id).concat("/default_default/index.html?videoId=").concat(
            video_id,
        ).concat(" 2>&1 | tee ytdl.log"),
    );
    commands.push(String::from_str("sleep 20"));
    commands
}

/// The fail-fast script header.
pub fn script_header() -> (r: Vec<String>)
    ensures
        r@.len() == 2,
        r@[0]@ == "#!/bin/bash"@,
        r@[1]@ == "set -eux"@,
{
    let mut commands: Vec<String> = Vec::new();
    commands.push(String::from_str("#!/bin/bash"));
    commands.push(String::from_str("set -eux"));
    commands
}

/// The command blocks flattened, in order.
pub open spec fn spec_concat_blocks(blocks: Seq<Seq<String>>) -> Seq<String>
    decreases blocks.len(),
{
    if blocks.len() == 0 {
        Seq::empty()
    } else {
        spec_concat_blocks(blocks.drop_last()) + blocks.last()
    }
}

/// The line lists the blocks hold.
pub open spec fn blocks_views(blocks: Seq<Vec<String>>) -> Seq<Seq<String>> {
    blocks.map_values(|b: Vec<String>| b@)
}

/// Assembles the full script line list: the header first, then each pending
/// video's command block, in discovery order.
pub fn assemble_script(header: Vec<String>, blocks: &Vec<Vec<String>>) -> (r: Vec<String>)
    ensures
        r@ == header@ + spec_concat_blocks(blocks_views(blocks@)),
{
    let ghost hv = header@;
    let mut out = header;
    let n = blocks.len();
    proof {
        assert(blocks_views(blocks@).subrange(0, 0) =~= Seq::<Seq<String>>::empty());
        assert(out@ =~= hv + spec_concat_blocks(blocks_views(blocks@).subrange(0, 0)));
    }
    let mut i: usize = 0;
    while i < n
        invariant
            n == blocks@.len(),
            i <= n,
            out@ == hv + spec_concat_blocks(blocks_views(blocks@).subrange(0, i as int)),
        decreases n - i,
    {
        let mut block = clone_strings(&blocks[i]);
        let ghost old_out = out@;
        out.append(&mut block);
        proof {
            let views = blocks_views(blocks@);
            assert(views.subrange(0, i + 1).drop_last() =~= views.subrange(0, i as int));
            assert(views.subrange(0, i + 1).last() == blocks@[i as int]@);
            assert(out@ =~= hv + spec_concat_blocks(views.subrange(0, i + 1)));
        }
        i += 1;
    }
    proof {
        assert(blocks_views(blocks@).subrange(0, n as int) =~= blocks_views(blocks@));
    }
    out
}

/// The browse-synthesis gate: the browse view is built exactly when the
/// script holds nothing but its two header lines, i.e. no download is
/// pending.
pub fn browse_ready(commands: &Vec<String>) -> (r: bool)
    ensures
        r == (commands@.len() == 2),
{
    commands.len() == 2
}

/// Serializes the command list: the lines joined by single newlines.
pub fn render_script(lines: &Vec<String>) -> (r: String)
    ensures
        r@ == spec_join(lines.deep_view(), '\n'),
{
    let mut out = String::new();
    let n = lines.len();
    proof {
        assert(lines.deep_view().subrange(0, 0) =~= Seq::<Seq<char>>::empty());
    }
    let mut i: usize = 0;
    while i < n
        invariant
            n == lines@.len(),
            i <= n,
            out@ == spec_join(lines.deep_view().subrange(0, i as int), '\n'),
        decreases n - i,
    {
        if i > 0 {
            push_char(&mut out, '\n');
        }
        out.append(lines[i].as_str());
        proof {
            let views = lines.deep_view();
            assert(views.subrange(0, i + 1).drop_last() =~= views.subrange(0, i as int));
            assert(views.subrange(0, i + 1).last() == lines@[i as int]@);
        }
        i += 1;
    }
    proof {
        assert(lines.deep_view().subrange(0, n as int) =~= lines.deep_view());
    }
    out
}

/// Law: script emission is idempotent.  The rendered bytes are a function of
/// the emitted command lines alone, so a second run over an unchanged
/// pending set yields byte-identical output.
pub proof fn lemma_script_idempotent(a: Seq<Seq<char>>, b: Seq<Seq<char>>)
    requires
        a == b,
    ensures
        spec_join(a, '\n') == spec_join(b, '\n'),
{
}

/// `s` with every colon replaced by ` -`.
pub open spec fn spec_replace_colons(s: Seq<char>) -> Seq<char>
    decreases s.len(),
{
    if s.len() == 0 {
        Seq::empty()
    } else {
        let rest = spec_replace_colons(s.drop_last());
        if s.last() == ':' {
            rest.push(' ').push('-')
        } else {
            rest.push(s.last())
        }
    }
}

/// The browse display name before colon replacement:
/// `{year}-{month}-{day} {title}` from the 8-digit upload date.
pub open spec fn spec_display_name(upload_date: Seq<char>, title: Seq<char>) -> Seq<char> {
    upload_date.subrange(0, 4).push('-') + upload_date.subrange(4, 6).push('-')
        + upload_date.subrange(6, 8).push(' ') + title
}

/// Builds the browse display name for one video from its metadata: the
/// upload date must be exactly eight characters, and any colon in the
/// assembled name is replaced to keep it filesystem-safe.
pub fn display_name(upload_date: &str, title: &str) -> (r: Result<String, ScrapeError>)
    ensures
        upload_date@.len() == 8 ==> (r matches Ok(s) && s@ == spec_replace_colons(
            spec_display_name(upload_date@, title@),
        )),
        upload_date@.len() != 8 ==> (r matches Err(e) && e is SchemaViolation),
{
    if upload_date.unicode_len() != 8 {
        return Err(ScrapeError::SchemaViolation(String::from_str("upload_date format")));
    }
    let mut name = String::from_str(upload_date.substring_char(0, 4));
    push_char(&mut name, '-');
    name.append(upload_date.substring_char(4, 6));
    push_char(&mut name, '-');
    name.append(upload_date.substring_char(6, 8));
    push_char(&mut name, ' ');
    name.append(title);
    proof {
        assert(name@ == spec_display_name(upload_date@, title@));
    }
    let nlen = name.as_str().unicode_len();
    let ghost nv = name@;
    let mut out = String::new();
    proof {
        assert(nv.subrange(0, 0) =~= Seq::<char>::empty());
    }
    let mut i: usize = 0;
    while i < nlen
        invariant
            nlen == nv.len(),
            nv == name@,
            i <= nlen,
            out@ == spec_replace_colons(nv.subrange(0, i as int)),
        decreases nlen - i,
    {
        proof {
            assert(nv.subrange(0, i + 1).drop_last() =~= nv.subrange(0, i as int));
            assert(nv.subrange(0, i + 1).last() == nv[i as int]);
        }
        let c = name.as_str().get_char(i);
        if c == ':' {
            push_char(&mut out, ' ');
            push_char(&mut out, '-');
        } else {
            push_char(&mut out, c);
        }
        i += 1;
    }
    proof {
        assert(nv.subrange(0, nlen as int) =~= nv);
    }
    Ok(out)
}

/// The browse-namespace decision for one display name: an existing symlink
/// is left alone, an existing non-symlink entry is a fatal conflict, and an
/// absent entry is to be created.
pub fn browse_action(is_symlink: bool, exists: bool) -> (r: Result<bool, ScrapeError>)
    ensures
        is_symlink ==> r == Ok::<bool, ScrapeError>(false),
        !is_symlink && exists ==> (r matches Err(e) && e is FilesystemInconsistency),
        !is_symlink && !exists ==> r == Ok::<bool, ScrapeError>(true),
{
    if is_symlink {
        Ok(false)
    } else if exists {
        Err(ScrapeError::FilesystemInconsistency(String::from_str("unknown existing entry")))
    } else {
        Ok(true)
    }
}

} // verus!
