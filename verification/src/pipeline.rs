//! The step pipeline engine: given one page response and its carried crawl
//! state, execute exactly the first remaining step and produce either new
//! crawl tasks, an ordered download batch, or nothing.

use vstd::prelude::*;

use crate::config::ScraperStep;
use crate::config::StepV;
use crate::config::steps_view;
use crate::naming::join_path;
use crate::naming::join_path_spec;
use crate::naming::padded3;
use crate::naming::padded3_spec;
use crate::trusted::decode_of;
use crate::trusted::join_of;
use crate::trusted::last_segment_of;
use crate::trusted::matches_of;
use crate::trusted::percent_decode;
use crate::trusted::resolve_url;
use crate::trusted::sanitize_of;
use crate::trusted::sanitize_raw;
use crate::trusted::select_matches;
use crate::trusted::url_filename;

verus! {

/// One element matched by a selector, reduced to what the pipeline reads:
/// the queried attribute's value, if the element carries it, and the
/// element's concatenated text content.
#[derive(Debug, Clone)]
pub struct MatchedElement {
    pub target: Option<String>,
    pub text: String,
}

impl View for MatchedElement {
    type V = (Option<Seq<char>>, Seq<char>);

    open spec fn view(&self) -> (Option<Seq<char>>, Seq<char>) {
        (
            match self.target {
                Some(t) => Some(t@),
                None => None,
            },
            self.text@,
        )
    }
}

/// The views of a sequence of matched elements, in document order.
pub open spec fn elems_view(s: Seq<MatchedElement>) -> Seq<(Option<Seq<char>>, Seq<char>)> {
    s.map_values(|e: MatchedElement| e@)
}

/// Why a run aborts: the error taxonomy of the engine.
#[derive(Debug, Clone, Copy, PartialEq, Eq, Structural)]
pub enum ScrapeError {
    /// A matched element lacks the expected link or resource attribute: a
    /// violation of the selector author's contract, fatal for the run.
    MissingAttribute,
    /// A link or resource reference did not resolve against the page's URL.
    UrlResolution,
    /// A resolved resource URL has no path segments to name a file after.
    NoFilename,
    /// A resource filename did not percent-decode to valid UTF-8.
    PercentDecode,
    /// A step's selector text is not a valid selector.
    InvalidSelector,
}

/// The crawl state carried with every pending task: where this branch's
/// output lands, and which steps remain.
#[derive(Debug, Clone)]
pub struct CrawlState {
    pub dest: String,
    pub steps: Vec<ScraperStep>,
}

/// The mathematical shape of a crawl state.
pub ghost struct CrawlStateV {
    pub dest: Seq<char>,
    pub steps: Seq<StepV>,
}

impl View for CrawlState {
    type V = CrawlStateV;

    open spec fn view(&self) -> CrawlStateV {
        CrawlStateV { dest: self.dest@, steps: steps_view(self.steps@) }
    }
}

/// A planned child branch of a link-expansion step: the raw link target and
/// the child destination path it will populate.
#[derive(Debug, Clone)]
pub struct ChildPlan {
    pub href: String,
    pub path: String,
}

/// The mathematical shape of a planned child branch.
pub ghost struct ChildPlanV {
    pub href: Seq<char>,
    pub path: Seq<char>,
}

impl View for ChildPlan {
    type V = ChildPlanV;

    open spec fn view(&self) -> ChildPlanV {
        ChildPlanV { href: self.href@, path: self.path@ }
    }
}

/// The views of a sequence of child plans, in order.
pub open spec fn plans_view(s: Seq<ChildPlan>) -> Seq<ChildPlanV> {
    s.map_values(|p: ChildPlan| p@)
}

/// A crawl task ready for submission: the resolved URL to fetch and the
/// state the response will carry back.
#[derive(Debug, Clone)]
pub struct CrawlTask {
    pub url: String,
    pub state: CrawlState,
}

/// The mathematical shape of a crawl task.
pub ghost struct CrawlTaskV {
    pub url: Seq<char>,
    pub state: CrawlStateV,
}

impl View for CrawlTask {
    type V = CrawlTaskV;

    open spec fn view(&self) -> CrawlTaskV {
        CrawlTaskV { url: self.url@, state: self.state@ }
    }
}

/// The views of a sequence of crawl tasks, in order.
pub open spec fn tasks_view(s: Seq<CrawlTask>) -> Seq<CrawlTaskV> {
    s.map_values(|t: CrawlTask| t@)
}

/// A download task: the resolved resource URL, the directory it lands in,
/// and the index-prefixed filename inside that directory.
#[derive(Debug, Clone)]
pub struct DownloadTask {
    pub src: String,
    pub dir: String,
    pub filename: String,
}

/// The mathematical shape of a download task.
pub ghost struct DownloadTaskV {
    pub src: Seq<char>,
    pub dir: Seq<char>,
    pub filename: Seq<char>,
}

impl DownloadTaskV {
    /// The full destination path: the directory joined with the filename.
    pub open spec fn dest(self) -> Seq<char> {
        join_path_spec(self.dir, self.filename)
    }
}

impl View for DownloadTask {
    type V = DownloadTaskV;

    open spec fn view(&self) -> DownloadTaskV {
        DownloadTaskV { src: self.src@, dir: self.dir@, filename: self.filename@ }
    }
}

/// The views of a sequence of download tasks, in order.
pub open spec fn dl_view(s: Seq<DownloadTask>) -> Seq<DownloadTaskV> {
    s.map_values(|t: DownloadTask| t@)
}

impl DownloadTask {
    /// A copy with the same source URL, directory and filename.
    pub fn duplicate(&self) -> (r: DownloadTask)
        ensures
            r@ == self@,
    {
        DownloadTask {
            src: self.src.clone(),
            dir: self.dir.clone(),
            filename: self.filename.clone(),
        }
    }

    /// The full destination path: the directory joined with the
    /// filename.
    pub fn dest_path(&self) -> (r: String)
        ensures
            r@ == self@.dest(),
    {
        join_path(self.dir.as_str(), self.filename.as_str())
    }
}

/// Whether every matched element carries the queried attribute.
pub open spec fn all_targets_present(els: Seq<(Option<Seq<char>>, Seq<char>)>) -> bool {
    forall|k: int| 0 <= k < els.len() ==> (#[trigger] els[k]).0 is Some
}

/// The child plan a matched element gives rise to: its raw link target, and
/// the current destination joined with its sanitized text.
pub open spec fn child_plan_of(dest: Seq<char>, e: (Option<Seq<char>>, Seq<char>)) -> ChildPlanV {
    ChildPlanV { href: e.0->0, path: join_path_spec(dest, sanitize_of(e.1)) }
}

/// The child plans of all matched elements, in document order.
pub open spec fn child_plans_spec(
    dest: Seq<char>,
    els: Seq<(Option<Seq<char>>, Seq<char>)>,
) -> Seq<ChildPlanV> {
    Seq::new(els.len(), |k: int| child_plan_of(dest, els[k]))
}

proof fn lemma_plans_view_push(s: Seq<ChildPlan>, p: ChildPlan)
    ensures
        plans_view(s.push(p)) == plans_view(s).push(p@),
{
    assert(plans_view(s.push(p)) =~= plans_view(s).push(p@));
}

proof fn lemma_child_plans_take(dest: Seq<char>, els: Seq<(Option<Seq<char>>, Seq<char>)>, i: int)
    requires
        0 <= i < els.len(),
    ensures
        child_plans_spec(dest, els.take(i + 1)) == child_plans_spec(dest, els.take(i)).push(
            child_plan_of(dest, els[i]),
        ),
{
    assert(child_plans_spec(dest, els.take(i + 1)) =~= child_plans_spec(dest, els.take(i)).push(
        child_plan_of(dest, els[i]),
    ));
}

/// Plans one child branch per matched element of a link-expansion step.
/// An element without the link-target attribute is a fatal contract
/// violation, never a per-element skip.
pub fn plan_children(dest: &str, elements: &Vec<MatchedElement>) -> (r: Result<
    Vec<ChildPlan>,
    ScrapeError,
>)
    ensures
        match r {
            Ok(plans) => all_targets_present(elems_view(elements@)) && plans_view(plans@)
                == child_plans_spec(dest@, elems_view(elements@)),
            Err(e) => e == ScrapeError::MissingAttribute && !all_targets_present(
                elems_view(elements@),
            ),
        },
{
    let ghost els = elems_view(elements@);
    let mut plans: Vec<ChildPlan> = Vec::new();
    let mut i: usize = 0;
    while i < elements.len()
        invariant
            i <= elements.len(),
            els == elems_view(elements@),
            forall|k: int| 0 <= k < i ==> (#[trigger] els[k]).0 is Some,
            plans_view(plans@) == child_plans_spec(dest@, els.take(i as int)),
        decreases elements.len() - i,
    {
        let e = &elements[i];
        match &e.target {
            None => {
                assert(els[i as int].0 is None);
                return Err(ScrapeError::MissingAttribute);
            },
            Some(href) => {
                let name = sanitize_raw(e.text.as_str());
                let path = join_path(dest, name.as_str());
                let plan = ChildPlan { href: href.clone(), path };
                let ghost prev = plans@;
                let ghost gplan = plan;
                plans.push(plan);
                proof {
                    assert(gplan@ == child_plan_of(dest@, els[i as int]));
                    lemma_plans_view_push(prev, gplan);
                    lemma_child_plans_take(dest@, els, i as int);
                }
            },
        }
        i += 1;
    }
    proof {
        assert(els.take(elements@.len() as int) =~= els);
    }
    Ok(plans)
}

/// The crawl task a non-existing child plan turns into: the plan's link
/// target resolved against the page's URL, carrying the plan's path and
/// the remaining steps.
pub open spec fn crawl_task_of(base: Seq<char>, p: ChildPlanV, tail: Seq<StepV>) -> CrawlTaskV {
    CrawlTaskV {
        url: join_of(base, p.href)->0,
        state: CrawlStateV { dest: p.path, steps: tail },
    }
}

/// Whether every child plan that is not skipped resolves against the base.
pub open spec fn all_resolvable(base: Seq<char>, plans: Seq<ChildPlanV>, ex: Seq<bool>) -> bool {
    forall|k: int|
        0 <= k < plans.len() && !ex[k] ==> join_of(base, (#[trigger] plans[k]).href) is Some
}

/// The crawl tasks of the plans whose paths do not already exist, in order.
pub open spec fn expand_spec(
    base: Seq<char>,
    plans: Seq<ChildPlanV>,
    ex: Seq<bool>,
    tail: Seq<StepV>,
) -> Seq<CrawlTaskV>
    decreases plans.len(),
{
    if plans.len() == 0 {
        Seq::empty()
    } else {
        let front = expand_spec(base, plans.drop_last(), ex.drop_last(), tail);
        if ex[plans.len() - 1] {
            front
        } else {
            front.push(crawl_task_of(base, plans.last(), tail))
        }
    }
}

proof fn lemma_expand_step(
    base: Seq<char>,
    plans: Seq<ChildPlanV>,
    ex: Seq<bool>,
    tail: Seq<StepV>,
    i: int,
)
    requires
        0 <= i < plans.len(),
        i < ex.len(),
    ensures
        expand_spec(base, plans.take(i + 1), ex.take(i + 1), tail) == (if ex[i] {
            expand_spec(base, plans.take(i), ex.take(i), tail)
        } else {
            expand_spec(base, plans.take(i), ex.take(i), tail).push(
                crawl_task_of(base, plans[i], tail),
            )
        }),
{
    assert(plans.take(i + 1).drop_last() =~= plans.take(i));
    assert(ex.take(i + 1).drop_last() =~= ex.take(i));
    assert(plans.take(i + 1).last() == plans[i]);
}

proof fn lemma_steps_view_push(s: Seq<ScraperStep>, st: ScraperStep)
    ensures
        steps_view(s.push(st)) == steps_view(s).push(st@),
{
    assert(steps_view(s.push(st)) =~= steps_view(s).push(st@));
}

/// A fresh copy of a step list, view-equal to the given one. Each recursive
/// branch owns an independent copy of its remaining steps.
pub fn clone_steps(steps: &Vec<ScraperStep>) -> (r: Vec<ScraperStep>)
    ensures
        steps_view(r@) == steps_view(steps@),
{
    let mut out: Vec<ScraperStep> = Vec::new();
    let mut i: usize = 0;
    while i < steps.len()
        invariant
            i <= steps.len(),
            steps_view(out@) == steps_view(steps@).take(i as int),
        decreases steps.len() - i,
    {
        let d = steps[i].duplicate();
        let ghost prev = out@;
        let ghost gd = d;
        out.push(d);
        proof {
            lemma_steps_view_push(prev, gd);
            assert(steps_view(steps@).take(i + 1) =~= steps_view(steps@).take(i as int).push(
                steps_view(steps@)[i as int],
            ));
        }
        i += 1;
    }
    proof {
        assert(steps_view(steps@).take(steps@.len() as int) =~= steps_view(steps@));
    }
    out
}

/// A fresh copy of everything after the first step: what the next hop of
/// each child branch will carry.
pub fn tail_steps(steps: &Vec<ScraperStep>) -> (r: Vec<ScraperStep>)
    requires
        steps@.len() >= 1,
    ensures
        steps_view(r@) == steps_view(steps@).drop_first(),
{
    let mut out: Vec<ScraperStep> = Vec::new();
    let mut i: usize = 1;
    while i < steps.len()
        invariant
            1 <= i <= steps.len(),
            steps_view(out@) == steps_view(steps@).subrange(1, i as int),
        decreases steps.len() - i,
    {
        let d = steps[i].duplicate();
        let ghost prev = out@;
        let ghost gd = d;
        out.push(d);
        proof {
            lemma_steps_view_push(prev, gd);
            assert(steps_view(steps@).subrange(1, i + 1) =~= steps_view(steps@).subrange(
                1,
                i as int,
            ).push(steps_view(steps@)[i as int]));
        }
        i += 1;
    }
    proof {
        assert(steps_view(steps@).subrange(1, steps@.len() as int) =~= steps_view(
            steps@,
        ).drop_first());
    }
    out
}

/// Turns the child plans whose paths do not already exist into crawl
/// tasks, resolving each link target against the page's URL. A plan whose
/// path exists is skipped silently: a prior run completed that branch.
/// A failed resolution on a non-skipped plan is fatal.
pub fn expand_tasks(
    plans: &Vec<ChildPlan>,
    existing: &Vec<bool>,
    base_url: &str,
    tail: &Vec<ScraperStep>,
) -> (r: Result<Vec<CrawlTask>, ScrapeError>)
    requires
        plans@.len() == existing@.len(),
    ensures
        match r {
            Ok(tasks) => all_resolvable(base_url@, plans_view(plans@), existing@) && tasks_view(
                tasks@,
            ) == expand_spec(base_url@, plans_view(plans@), existing@, steps_view(tail@)),
            Err(e) => e == ScrapeError::UrlResolution && !all_resolvable(
                base_url@,
                plans_view(plans@),
                existing@,
            ),
        },
{
    let ghost plv = plans_view(plans@);
    let ghost exv = existing@;
    let ghost tlv = steps_view(tail@);
    let mut tasks: Vec<CrawlTask> = Vec::new();
    let mut i: usize = 0;
    while i < plans.len()
        invariant
            i <= plans.len(),
            plans@.len() == existing@.len(),
            plv == plans_view(plans@),
            exv == existing@,
            tlv == steps_view(tail@),
            forall|k: int| 0 <= k < i && !exv[k] ==> join_of(base_url@, plv[k].href) is Some,
            tasks_view(tasks@) == expand_spec(base_url@, plv.take(i as int), exv.take(i as int), tlv),
        decreases plans.len() - i,
    {
        if !existing[i] {
            match resolve_url(base_url, plans[i].href.as_str()) {
                None => {
                    assert(join_of(base_url@, plv[i as int].href) is None);
                    return Err(ScrapeError::UrlResolution);
                },
                Some(u) => {
                    let task = CrawlTask {
                        url: u,
                        state: CrawlState { dest: plans[i].path.clone(), steps: clone_steps(tail) },
                    };
                    tasks.push(task);
                },
            }
        }
        proof {
            lemma_expand_step(base_url@, plv, exv, tlv, i as int);
            assert(tasks_view(tasks@) =~= expand_spec(
                base_url@,
                plv.take(i + 1),
                exv.take(i + 1),
                tlv,
            ));
        }
        i += 1;
    }
    proof {
        assert(plv.take(plans@.len() as int) =~= plv);
        assert(exv.take(plans@.len() as int) =~= exv);
    }
    Ok(tasks)
}

/// Why a single matched element of a resource-download step fails, if it
/// does: a missing resource attribute, a failed resolution, a URL without
/// path segments, or a filename that does not percent-decode.
pub open spec fn elem_fail(base: Seq<char>, e: (Option<Seq<char>>, Seq<char>)) -> Option<
    ScrapeError,
> {
    match e.0 {
        None => Some(ScrapeError::MissingAttribute),
        Some(t) => match join_of(base, t) {
            None => Some(ScrapeError::UrlResolution),
            Some(u) => match last_segment_of(u) {
                None => Some(ScrapeError::NoFilename),
                Some(seg) => match decode_of(seg) {
                    None => Some(ScrapeError::PercentDecode),
                    Some(_) => None,
                },
            },
        },
    }
}

/// Whether every matched element of a resource-download step succeeds.
pub open spec fn all_elems_ok(
    base: Seq<char>,
    els: Seq<(Option<Seq<char>>, Seq<char>)>,
) -> bool {
    forall|k: int| 0 <= k < els.len() ==> elem_fail(base, #[trigger] els[k]) is None
}

/// The filename a resource at URL `u` gets at position `idx` of its batch:
/// the zero-padded index, a separator, and the sanitized, percent-decoded
/// final path segment. The index preserves document order and keeps
/// duplicate filenames from colliding.
pub open spec fn download_name_of(u: Seq<char>, idx: nat) -> Seq<char> {
    padded3_spec(idx) + seq!['-'] + sanitize_of(decode_of(last_segment_of(u)->0)->0)
}

/// The download task a matched element at position `idx` gives rise to.
pub open spec fn download_task_of(
    dest: Seq<char>,
    base: Seq<char>,
    e: (Option<Seq<char>>, Seq<char>),
    idx: nat,
) -> DownloadTaskV {
    let u = join_of(base, e.0->0)->0;
    DownloadTaskV { src: u, dir: dest, filename: download_name_of(u, idx) }
}

/// The download tasks of all matched elements, in document order.
pub open spec fn downloads_spec(
    dest: Seq<char>,
    base: Seq<char>,
    els: Seq<(Option<Seq<char>>, Seq<char>)>,
) -> Seq<DownloadTaskV> {
    Seq::new(els.len(), |k: int| download_task_of(dest, base, els[k], k as nat))
}

proof fn lemma_dl_view_push(s: Seq<DownloadTask>, t: DownloadTask)
    ensures
        dl_view(s.push(t)) == dl_view(s).push(t@),
{
    assert(dl_view(s.push(t)) =~= dl_view(s).push(t@));
}

proof fn lemma_downloads_take(
    dest: Seq<char>,
    base: Seq<char>,
    els: Seq<(Option<Seq<char>>, Seq<char>)>,
    i: int,
)
    requires
        0 <= i < els.len(),
    ensures
        downloads_spec(dest, base, els.take(i + 1)) == downloads_spec(dest, base, els.take(i)).push(
            download_task_of(dest, base, els[i], i as nat),
        ),
{
    assert(downloads_spec(dest, base, els.take(i + 1)) =~= downloads_spec(
        dest,
        base,
        els.take(i),
    ).push(download_task_of(dest, base, els[i], i as nat)));
}

/// Plans one download task per matched element of a resource-download
/// step, in document order, each named with its zero-padded position. A
/// missing resource attribute, a failed resolution, a URL without path
/// segments or an undecodable filename is fatal; the error of the first
/// failing element is returned.
pub fn plan_downloads(dest: &str, base_url: &str, elements: &Vec<MatchedElement>) -> (r: Result<
    Vec<DownloadTask>,
    ScrapeError,
>)
    ensures
        match r {
            Ok(tasks) => all_elems_ok(base_url@, elems_view(elements@)) && dl_view(tasks@)
                == downloads_spec(dest@, base_url@, elems_view(elements@)),
            Err(e) => (exists|k: int|
                0 <= k < elems_view(elements@).len() && (forall|j: int|
                    0 <= j < k ==> elem_fail(base_url@, elems_view(elements@)[j]) is None)
                    && elem_fail(base_url@, #[trigger] elems_view(elements@)[k]) == Some(e)),
        },
{
    let ghost els = elems_view(elements@);
    let mut tasks: Vec<DownloadTask> = Vec::new();
    let mut i: usize = 0;
    while i < elements.len()
        invariant
            i <= elements.len(),
            els == elems_view(elements@),
            forall|k: int| 0 <= k < i ==> elem_fail(base_url@, #[trigger] els[k]) is None,
            dl_view(tasks@) == downloads_spec(dest@, base_url@, els.take(i as int)),
        decreases elements.len() - i,
    {
        let e = &elements[i];
        let href = match &e.target {
            None => {
                assert(elem_fail(base_url@, els[i as int]) == Some(ScrapeError::MissingAttribute));
                return Err(ScrapeError::MissingAttribute);
            },
            Some(t) => t,
        };
        let src = match resolve_url(base_url, href.as_str()) {
            None => {
                assert(elem_fail(base_url@, els[i as int]) == Some(ScrapeError::UrlResolution));
                return Err(ScrapeError::UrlResolution);
            },
            Some(u) => u,
        };
        let seg = match url_filename(src.as_str()) {
            None => {
                assert(elem_fail(base_url@, els[i as int]) == Some(ScrapeError::NoFilename));
                return Err(ScrapeError::NoFilename);
            },
            Some(s) => s,
        };
        let decoded = match percent_decode(seg.as_str()) {
            None => {
                assert(elem_fail(base_url@, els[i as int]) == Some(ScrapeError::PercentDecode));
                return Err(ScrapeError::PercentDecode);
            },
            Some(d) => d,
        };
        let sanitized = sanitize_raw(decoded.as_str());
        let mut filename = padded3(i as u64);
        filename.append("-");
        filename.append(sanitized.as_str());
        proof {
            reveal_strlit("-");
            assert(("-")@ =~= seq!['-']);
            assert(filename@ =~= download_name_of(src@, i as nat));
        }
        let task = DownloadTask { src, dir: dest.to_owned(), filename };
        let ghost prev = tasks@;
        let ghost gtask = task;
        tasks.push(task);
        proof {
            assert(gtask@ == download_task_of(dest@, base_url@, els[i as int], i as nat));
            lemma_dl_view_push(prev, gtask);
            lemma_downloads_take(dest@, base_url@, els, i as int);
        }
        i += 1;
    }
    proof {
        assert(els.take(elements@.len() as int) =~= els);
    }
    Ok(tasks)
}

/// What one page yields under the first remaining step, before the
/// filesystem is consulted: nothing (the step list is exhausted), planned
/// child branches plus the steps their tasks will carry, or a planned
/// download batch.
#[derive(Debug)]
pub enum PlannedAdvance {
    Terminal,
    Expand { plans: Vec<ChildPlan>, tail: Vec<ScraperStep> },
    Download { tasks: Vec<DownloadTask> },
}

/// What `advance_from_html` promises of its result `r` for a state viewed
/// as `stv`, a page `body` and its URL `base`: exactly the first remaining
/// step was executed.
pub open spec fn advance_post(
    stv: CrawlStateV,
    base: Seq<char>,
    body: Seq<char>,
    r: Result<PlannedAdvance, ScrapeError>,
) -> bool {
    &&& (stv.steps.len() == 0 ==> r matches Ok(PlannedAdvance::Terminal))
    &&& (stv.steps.len() > 0 ==> (stv.steps[0] matches StepV::Extract(sel)
        ==> match matches_of(body, sel, "href"@) {
        None => r matches Err(e) && e == ScrapeError::InvalidSelector,
        Some(els) => match r {
            Ok(PlannedAdvance::Expand { plans, tail }) => all_targets_present(els) && plans_view(
                plans@,
            ) == child_plans_spec(stv.dest, els) && steps_view(tail@) == stv.steps.drop_first(),
            Err(e) => e == ScrapeError::MissingAttribute && !all_targets_present(els),
            _ => false,
        },
    }))
    &&& (stv.steps.len() > 0 ==> (stv.steps[0] matches StepV::Download(sel)
        ==> match matches_of(body, sel, "src"@) {
        None => r matches Err(e) && e == ScrapeError::InvalidSelector,
        Some(els) => match r {
            Ok(PlannedAdvance::Download { tasks }) => all_elems_ok(base, els) && dl_view(tasks@)
                == downloads_spec(stv.dest, base, els),
            Err(e) => (exists|k: int|
                0 <= k < els.len() && (forall|j: int|
                    0 <= j < k ==> elem_fail(base, els[j]) is None) && elem_fail(
                    base,
                    #[trigger] els[k],
                ) == Some(e)),
            _ => false,
        },
    }))
}

/// Executes exactly the first remaining step of `state` against the page
/// `body` fetched from `base_url`. An exhausted step list is a graceful
/// dead end, never an error. A link-expansion step plans one child branch
/// per matched element; a resource-download step plans one ordered,
/// index-named download per matched element. Selector-contract violations
/// (a matched element without its attribute), resolution failures and
/// invalid selector text are fatal.
#[verifier::rlimit(60)]
pub fn advance_from_html(state: &CrawlState, base_url: &str, body: &str) -> (r: Result<
    PlannedAdvance,
    ScrapeError,
>)
    ensures
        advance_post(state@, base_url@, body@, r),
        state@.steps.len() == 0 ==> r matches Ok(PlannedAdvance::Terminal),
{
    if state.steps.len() == 0 {
        return Ok(PlannedAdvance::Terminal);
    }
    let step = &state.steps[0];
    proof {
        assert(state@.steps[0] == state.steps@[0]@);
    }
    match step {
        ScraperStep::ExtractHrefsFromHTML(sel) => {
            match select_matches(body, sel.as_str(), "href") {
                None => {
                    let res: Result<PlannedAdvance, ScrapeError> = Err(
                        ScrapeError::InvalidSelector,
                    );
                    proof {
                        assert(advance_post(state@, base_url@, body@, res));
                    }
                    res
                },
                Some(els) => match plan_children(state.dest.as_str(), &els) {
                    Err(e) => {
                        let res: Result<PlannedAdvance, ScrapeError> = Err(e);
                        proof {
                            assert(advance_post(state@, base_url@, body@, res));
                        }
                        res
                    },
                    Ok(plans) => {
                        let tail = tail_steps(&state.steps);
                        let res: Result<PlannedAdvance, ScrapeError> = Ok(
                            PlannedAdvance::Expand { plans, tail },
                        );
                        proof {
                            assert(advance_post(state@, base_url@, body@, res));
                        }
                        res
                    },
                },
            }
        },
        ScraperStep::DownloadImage(sel) => {
            match select_matches(body, sel.as_str(), "src") {
                None => {
                    let res: Result<PlannedAdvance, ScrapeError> = Err(
                        ScrapeError::InvalidSelector,
                    );
                    proof {
                        assert(advance_post(state@, base_url@, body@, res));
                    }
                    res
                },
                Some(els) => match plan_downloads(state.dest.as_str(), base_url, &els) {
                    Err(e) => {
                        let res: Result<PlannedAdvance, ScrapeError> = Err(e);
                        proof {
                            assert(advance_post(state@, base_url@, body@, res));
                        }
                        res
                    },
                    Ok(tasks) => {
                        let res: Result<PlannedAdvance, ScrapeError> = Ok(
                            PlannedAdvance::Download { tasks },
                        );
                        proof {
                            assert(advance_post(state@, base_url@, body@, res));
                        }
                        res
                    },
                },
            }
        },
    }
}

/// The download tasks whose destinations do not already exist, in order.
pub open spec fn filter_dl_spec(tasks: Seq<DownloadTaskV>, ex: Seq<bool>) -> Seq<DownloadTaskV>
    decreases tasks.len(),
{
    if tasks.len() == 0 {
        Seq::empty()
    } else {
        let front = filter_dl_spec(tasks.drop_last(), ex.drop_last());
        if ex[tasks.len() - 1] {
            front
        } else {
            front.push(tasks.last())
        }
    }
}

proof fn lemma_filter_step(tasks: Seq<DownloadTaskV>, ex: Seq<bool>, i: int)
    requires
        0 <= i < tasks.len(),
        i < ex.len(),
    ensures
        filter_dl_spec(tasks.take(i + 1), ex.take(i + 1)) == (if ex[i] {
            filter_dl_spec(tasks.take(i), ex.take(i))
        } else {
            filter_dl_spec(tasks.take(i), ex.take(i)).push(tasks[i])
        }),
{
    assert(tasks.take(i + 1).drop_last() =~= tasks.take(i));
    assert(ex.take(i + 1).drop_last() =~= ex.take(i));
    assert(tasks.take(i + 1).last() == tasks[i]);
}

/// Keeps the download tasks whose destinations do not already exist, in
/// order. A task whose destination exists is skipped: a prior run already
/// fetched it.
pub fn filter_new_downloads(tasks: &Vec<DownloadTask>, existing: &Vec<bool>) -> (r: Vec<
    DownloadTask,
>)
    requires
        tasks@.len() == existing@.len(),
    ensures
        dl_view(r@) == filter_dl_spec(dl_view(tasks@), existing@),
{
    let ghost tkv = dl_view(tasks@);
    let ghost exv = existing@;
    let mut out: Vec<DownloadTask> = Vec::new();
    let mut i: usize = 0;
    while i < tasks.len()
        invariant
            i <= tasks.len(),
            tasks@.len() == existing@.len(),
            tkv == dl_view(tasks@),
            exv == existing@,
            dl_view(out@) == filter_dl_spec(tkv.take(i as int), exv.take(i as int)),
        decreases tasks.len() - i,
    {
        if !existing[i] {
            out.push(tasks[i].duplicate());
        }
        proof {
            lemma_filter_step(tkv, exv, i as int);
            assert(dl_view(out@) =~= filter_dl_spec(tkv.take(i + 1), exv.take(i + 1)));
        }
        i += 1;
    }
    proof {
        assert(tkv.take(tasks@.len() as int) =~= tkv);
        assert(exv.take(tasks@.len() as int) =~= exv);
    }
    out
}

} // verus!
