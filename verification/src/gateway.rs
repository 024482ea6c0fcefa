//! The decisions around a render job that do not touch the network or
//! the process themselves: which sources to fetch, how fetched paths
//! pair up with items, which fonts belong to which text item, what a
//! worker failure records, and what a status or output query answers.

use vstd::prelude::*;
use vstd::string::StringExecFns;
use crate::types::{Design, TrackItem, TrackType};
use crate::jobs::Job;
use crate::render::strs;

verus! {

/// A client-facing query failure: a malformed identifier, an unknown
/// job, or an output requested before completion.
#[derive(Clone, Copy, Debug, PartialEq, Eq, Structural)]
pub enum ApiError {
    Validation,
    NotFound,
    NotReady,
}

impl ApiError {
    /// The words served with the failure.
    pub fn message(&self) -> (r: String)
        ensures
            r@ == spec_api_message(*self),
    {
        proof {
            reveal_strlit("invalid id");
            reveal_strlit("not found");
            reveal_strlit("not ready");
        }
        let s: &str = match self {
            ApiError::Validation => "invalid id",
            ApiError::NotFound => "not found",
            ApiError::NotReady => "not ready",
        };
        s.to_owned()
    }
}

/// The words served with each query failure.
pub open spec fn spec_api_message(e: ApiError) -> Seq<char> {
    match e {
        ApiError::Validation => "invalid id"@,
        ApiError::NotFound => "not found"@,
        ApiError::NotReady => "not ready"@,
    }
}

/// The source URL of an item, if its details carry one.
pub open spec fn item_src(it: TrackItem) -> Option<String> {
    match it.details {
        Some(d) => d.src,
        None => None,
    }
}

/// The items that carry a source URL, in canonical order: only they are
/// downloaded and become inputs.
pub open spec fn src_items(items: Seq<TrackItem>) -> Seq<TrackItem>
    decreases items.len(),
{
    if items.len() == 0 {
        Seq::empty()
    } else {
        let rest = src_items(items.drop_last());
        if item_src(items.last()) is Some {
            rest.push(items.last())
        } else {
            rest
        }
    }
}

/// The source URLs to download, in canonical order.
pub open spec fn src_urls(items: Seq<TrackItem>) -> Seq<Seq<char>>
    decreases items.len(),
{
    if items.len() == 0 {
        Seq::empty()
    } else {
        let rest = src_urls(items.drop_last());
        match item_src(items.last()) {
            Some(u) => rest.push(u@),
            None => rest,
        }
    }
}

/// The items of a design that carry a source URL.
pub fn src_item_list(design: &Design) -> (r: Vec<TrackItem>)
    ensures
        r@ == src_items(design.items()),
{
    let items = design.effective_items();
    let mut out: Vec<TrackItem> = Vec::new();
    let mut j: usize = 0;
    while j < items.len()
        invariant
            items@ == design.items(),
            j <= items@.len(),
            out@ =~= src_items(items@.take(j as int)),
        decreases items@.len() - j,
    {
        let it = &items[j];
        let has_src = match &it.details {
            Some(d) => d.src.is_some(),
            None => false,
        };
        if has_src {
            out.push(it.clone());
        }
        proof {
            assert(items@.take(j + 1 as int).drop_last() =~= items@.take(j as int));
            assert(items@.take(j + 1 as int).last() == items@[j as int]);
        }
        j += 1;
    }
    proof {
        assert(items@.take(items@.len() as int) =~= items@);
    }
    out
}

/// The URLs a worker downloads for a design, in canonical order.
pub fn collect_source_urls(design: &Design) -> (r: Vec<String>)
    ensures
        strs(r@) == src_urls(design.items()),
{
    let items = design.effective_items();
    let mut out: Vec<String> = Vec::new();
    let mut j: usize = 0;
    proof {
        assert(strs(out@) =~= src_urls(items@.take(0)));
    }
    while j < items.len()
        invariant
            items@ == design.items(),
            j <= items@.len(),
            strs(out@) == src_urls(items@.take(j as int)),
        decreases items@.len() - j,
    {
        let it = &items[j];
        match &it.details {
            Some(d) => match &d.src {
                Some(u) => {
                    out.push(u.clone());
                },
                None => {},
            },
            None => {},
        }
        proof {
            assert(items@.take(j + 1 as int).drop_last() =~= items@.take(j as int));
            assert(items@.take(j + 1 as int).last() == items@[j as int]);
            assert(strs(out@) =~= src_urls(items@.take(j + 1 as int)));
        }
        j += 1;
    }
    proof {
        assert(items@.take(items@.len() as int) =~= items@);
    }
    out
}

/// Pair the items that carry a source with the local paths their
/// downloads produced, in order, numbering them as the compiler's
/// inputs.
pub fn resolve_assets(design: &Design, paths: &Vec<String>) -> (r: Vec<(usize, TrackItem, String)>)
    requires
        paths@.len() == src_items(design.items()).len(),
        paths@.len() < usize::MAX,
    ensures
        r@.len() == src_items(design.items()).len(),
        forall|i: int|
            0 <= i < r@.len() ==> (#[trigger] r@[i]).0 == i && r@[i].1 == src_items(
                design.items(),
            )[i] && r@[i].2 == paths@[i],
{
    let list = src_item_list(design);
    let mut out: Vec<(usize, TrackItem, String)> = Vec::new();
    let mut i: usize = 0;
    while i < list.len()
        invariant
            list@ == src_items(design.items()),
            paths@.len() == list@.len(),
            i <= list@.len(),
            out@.len() == i,
            forall|k: int|
                0 <= k < i ==> (#[trigger] out@[k]).0 == k && out@[k].1 == list@[k] && out@[k].2
                    == paths@[k],
        decreases list@.len() - i,
    {
        out.push((i, list[i].clone(), paths[i].clone()));
        i += 1;
    }
    out
}

/// The font URL of a text item, if its details carry one.
pub open spec fn item_font_url(it: TrackItem) -> Option<String> {
    match it.details {
        Some(d) => d.font_url,
        None => None,
    }
}

/// The font downloads a design asks for, in canonical order: one per
/// text item with a font URL, each remembering the item's identifier.
pub open spec fn font_reqs(items: Seq<TrackItem>) -> Seq<(Option<String>, String)>
    decreases items.len(),
{
    if items.len() == 0 {
        Seq::empty()
    } else {
        let rest = font_reqs(items.drop_last());
        if items.last().kind == TrackType::Text {
            match item_font_url(items.last()) {
                Some(u) => rest.push((items.last().id, u)),
                None => rest,
            }
        } else {
            rest
        }
    }
}

/// The font downloads a design asks for.
pub fn font_requests(design: &Design) -> (r: Vec<(Option<String>, String)>)
    ensures
        r@ == font_reqs(design.items()),
{
    let items = design.effective_items();
    let mut out: Vec<(Option<String>, String)> = Vec::new();
    let mut j: usize = 0;
    while j < items.len()
        invariant
            items@ == design.items(),
            j <= items@.len(),
            out@ =~= font_reqs(items@.take(j as int)),
        decreases items@.len() - j,
    {
        let it = &items[j];
        let is_text = match it.kind {
            TrackType::Text => true,
            _ => false,
        };
        if is_text {
            match &it.details {
                Some(d) => match &d.font_url {
                    Some(u) => {
                        out.push((crate::types::clone_opt_string(&it.id), u.clone()));
                    },
                    None => {},
                },
                None => {},
            }
        }
        proof {
            assert(items@.take(j + 1 as int).drop_last() =~= items@.take(j as int));
            assert(items@.take(j + 1 as int).last() == items@[j as int]);
            assert(out@ =~= font_reqs(items@.take(j + 1 as int)));
        }
        j += 1;
    }
    proof {
        assert(items@.take(items@.len() as int) =~= items@);
    }
    out
}

/// The font map entries that downloaded font paths yield: requests whose
/// item had an identifier, keyed by it; the others are dropped.
pub open spec fn font_entries(reqs: Seq<(Option<String>, String)>, paths: Seq<String>) -> Seq<
    (String, String),
>
    recommends
        reqs.len() == paths.len(),
    decreases reqs.len(),
{
    if reqs.len() == 0 || paths.len() == 0 {
        Seq::empty()
    } else {
        let rest = font_entries(reqs.drop_last(), paths.drop_last());
        match reqs.last().0 {
            Some(id) => rest.push((id, paths.last())),
            None => rest,
        }
    }
}

/// Build the font map from the requests and their downloaded paths.
pub fn build_font_map(reqs: &Vec<(Option<String>, String)>, paths: &Vec<String>) -> (r: Vec<
    (String, String),
>)
    requires
        reqs@.len() == paths@.len(),
    ensures
        r@ == font_entries(reqs@, paths@),
{
    let mut out: Vec<(String, String)> = Vec::new();
    let mut i: usize = 0;
    proof {
        assert(out@ =~= font_entries(reqs@.take(0), paths@.take(0)));
    }
    while i < reqs.len()
        invariant
            reqs@.len() == paths@.len(),
            i <= reqs@.len(),
            out@ =~= font_entries(reqs@.take(i as int), paths@.take(i as int)),
        decreases reqs@.len() - i,
    {
        match &reqs[i].0 {
            Some(id) => {
                out.push((id.clone(), paths[i].clone()));
            },
            None => {},
        }
        proof {
            assert(reqs@.take(i + 1 as int).drop_last() =~= reqs@.take(i as int));
            assert(paths@.take(i + 1 as int).drop_last() =~= paths@.take(i as int));
            assert(reqs@.take(i + 1 as int).last() == reqs@[i as int]);
            assert(paths@.take(i + 1 as int).last() == paths@[i as int]);
            assert(out@ =~= font_entries(reqs@.take(i + 1 as int), paths@.take(i + 1 as int)));
        }
        i += 1;
    }
    proof {
        assert(reqs@.take(reqs@.len() as int) =~= reqs@);
        assert(paths@.take(paths@.len() as int) =~= paths@);
    }
    out
}

/// The answer to an output query: the artifact's path for a known job
/// with an output, not-ready for a known job without one, not-found
/// otherwise.
pub fn output_decision(job: &Option<Job>) -> (r: Result<String, ApiError>)
    ensures
        match job {
            None => r == Err::<String, ApiError>(ApiError::NotFound),
            Some(j) => match j.output_path {
                Some(p) => r matches Ok(q) && q@ == p@,
                None => r == Err::<String, ApiError>(ApiError::NotReady),
            },
        },
{
    match job {
        None => Err(ApiError::NotFound),
        Some(j) => match &j.output_path {
            Some(p) => Ok(p.clone()),
            None => Err(ApiError::NotReady),
        },
    }
}

/// The worker stage at which a job failed. Every failure terminates only
/// its own job; the stage fixes the recorded message's prefix.
#[derive(Clone, Copy, Debug, PartialEq, Eq, Structural)]
pub enum WorkerStage {
    Workdir,
    Download,
    FontDownload,
    Build,
    Spawn,
    Exit,
    Wait,
}

/// The prefix a failing stage puts before the underlying message.
pub open spec fn stage_prefix(s: WorkerStage) -> Seq<char> {
    match s {
        WorkerStage::Workdir => Seq::empty(),
        WorkerStage::Download => "download failed: "@,
        WorkerStage::FontDownload => "font download failed: "@,
        WorkerStage::Build => "build failed: "@,
        WorkerStage::Spawn => "spawn failed: "@,
        WorkerStage::Exit => "ffmpeg exit status: "@,
        WorkerStage::Wait => "wait failed: "@,
    }
}

/// The message a failed job records: the stage's prefix, then the
/// underlying message verbatim.
pub fn fail_message(stage: WorkerStage, detail: &str) -> (r: String)
    ensures
        r@ == stage_prefix(stage) + detail@,
{
    let prefix: &str = match stage {
        WorkerStage::Workdir => "",
        WorkerStage::Download => "download failed: ",
        WorkerStage::FontDownload => "font download failed: ",
        WorkerStage::Build => "build failed: ",
        WorkerStage::Spawn => "spawn failed: ",
        WorkerStage::Exit => "ffmpeg exit status: ",
        WorkerStage::Wait => "wait failed: ",
    };
    proof {
        reveal_strlit("");
    }
    let mut s = prefix.to_owned();
    s.append(detail);
    proof {
        assert(s@ =~= stage_prefix(stage) + detail@);
    }
    s
}

/// The message a job records when no item carried a source URL.
pub fn no_assets_message() -> (r: String)
    ensures
        r@ == "no assets with 'src' found"@,
{
    let s: &str = "no assets with 'src' found";
    s.to_owned()
}

} // verus!
