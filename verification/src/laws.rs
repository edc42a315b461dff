//! Engine-wide guarantees that relate several operations, proved once and
//! for all over the same specifications the operations' own contracts use.

use vstd::prelude::*;

use crate::config::StepV;
use crate::pipeline::ChildPlanV;
use crate::pipeline::CrawlTaskV;
use crate::pipeline::DownloadTaskV;
use crate::pipeline::all_targets_present;
use crate::pipeline::child_plan_of;
use crate::pipeline::child_plans_spec;
use crate::pipeline::download_task_of;
use crate::pipeline::downloads_spec;
use crate::pipeline::expand_spec;
use crate::pipeline::filter_dl_spec;
use crate::trusted::join_of;
use crate::trusted::sanitize_of;
use crate::naming::is_dec_digit;
use crate::naming::join_path_spec;
use crate::naming::lemma_padded3_injective;
use crate::naming::lemma_padded3_props;
use crate::naming::padded3_spec;
use crate::pipeline::download_name_of;

verus! {

/// Link expansion does no new work over a completed tree: where every
/// planned child path already exists, no crawl task at all is produced.
/// Together with the skip guarantees of `filter_new_downloads` and
/// `decide_download`, a second run over a fully populated destination
/// root performs zero fetches and zero writes.
pub proof fn lemma_expand_idempotent(
    base: Seq<char>,
    plans: Seq<ChildPlanV>,
    ex: Seq<bool>,
    tail: Seq<StepV>,
)
    requires
        ex.len() == plans.len(),
        forall|k: int| 0 <= k < ex.len() ==> ex[k],
    ensures
        expand_spec(base, plans, ex, tail) == Seq::<CrawlTaskV>::empty(),
    decreases plans.len(),
{
    if plans.len() > 0 {
        lemma_expand_idempotent(base, plans.drop_last(), ex.drop_last(), tail);
    }
}

/// Download filtering does no new work over a completed tree: where every
/// task's destination already exists, the filtered batch is empty.
pub proof fn lemma_filter_idempotent(tasks: Seq<DownloadTaskV>, ex: Seq<bool>)
    requires
        ex.len() == tasks.len(),
        forall|k: int| 0 <= k < ex.len() ==> ex[k],
    ensures
        filter_dl_spec(tasks, ex) == Seq::<DownloadTaskV>::empty(),
    decreases tasks.len(),
{
    if tasks.len() > 0 {
        lemma_filter_idempotent(tasks.drop_last(), ex.drop_last());
    }
}

/// Fan-out correctness: for a link-expansion step over elements that all
/// carry a link target, none of whose planned paths exists yet, and all of
/// whose targets resolve, exactly one crawl task per matched element comes
/// out, in document order; the task of element `k` is addressed at the
/// parent destination joined with the element's sanitized text, carries
/// the resolved target, and carries exactly the remaining steps.
pub proof fn lemma_fan_out(
    base: Seq<char>,
    dest: Seq<char>,
    els: Seq<(Option<Seq<char>>, Seq<char>)>,
    ex: Seq<bool>,
    tail: Seq<StepV>,
)
    requires
        all_targets_present(els),
        ex.len() == els.len(),
        forall|k: int| 0 <= k < ex.len() ==> !ex[k],
    ensures
        ({
            let tasks = expand_spec(base, child_plans_spec(dest, els), ex, tail);
            &&& tasks.len() == els.len()
            &&& forall|k: int|
                0 <= k < els.len() ==> #[trigger] tasks[k] == CrawlTaskV {
                    url: join_of(base, els[k].0->0)->0,
                    state: crate::pipeline::CrawlStateV {
                        dest: join_path_spec(dest, sanitize_of(els[k].1)),
                        steps: tail,
                    },
                }
        }),
    decreases els.len(),
{
    let plans = child_plans_spec(dest, els);
    if els.len() > 0 {
        lemma_fan_out(base, dest, els.drop_last(), ex.drop_last(), tail);
        assert(child_plans_spec(dest, els.drop_last()) =~= plans.drop_last());
        assert(plans.last() == child_plan_of(dest, els.last()));
    }
}

/// The positions of a batch that are not skipped, in increasing order.
pub open spec fn kept_spec(ex: Seq<bool>) -> Seq<int>
    decreases ex.len(),
{
    if ex.len() == 0 {
        Seq::empty()
    } else {
        let front = kept_spec(ex.drop_last());
        if ex.last() {
            front
        } else {
            front.push(ex.len() - 1)
        }
    }
}

/// How many positions of `ex` are marked as already existing.
pub open spec fn count_existing(ex: Seq<bool>) -> nat
    decreases ex.len(),
{
    if ex.len() == 0 {
        0
    } else {
        count_existing(ex.drop_last()) + (if ex.last() {
            1nat
        } else {
            0nat
        })
    }
}

/// Download batch correctness: filtering the planned batch of a
/// resource-download step keeps exactly the elements whose destinations do
/// not yet exist — the batch length is the element count minus the skipped
/// count — and the kept entries keep their strictly increasing positional
/// indices in document order, so their zero-padded filename prefixes
/// strictly increase too.
pub proof fn lemma_download_batch(
    dest: Seq<char>,
    base: Seq<char>,
    els: Seq<(Option<Seq<char>>, Seq<char>)>,
    ex: Seq<bool>,
)
    requires
        ex.len() == els.len(),
    ensures
        ({
            let tasks = downloads_spec(dest, base, els);
            let batch = filter_dl_spec(tasks, ex);
            let kept = kept_spec(ex);
            &&& batch.len() == kept.len()
            &&& kept.len() + count_existing(ex) == els.len()
            &&& forall|a: int, b: int| 0 <= a < b < kept.len() ==> kept[a] < kept[b]
            &&& forall|j: int|
                0 <= j < kept.len() ==> (0 <= #[trigger] kept[j] < els.len() && !ex[kept[j]])
            &&& forall|j: int|
                0 <= j < kept.len() ==> #[trigger] batch[j] == download_task_of(
                    dest,
                    base,
                    els[kept[j]],
                    kept[j] as nat,
                )
        }),
    decreases els.len(),
{
    let tasks = downloads_spec(dest, base, els);
    if els.len() > 0 {
        lemma_download_batch(dest, base, els.drop_last(), ex.drop_last());
        assert(downloads_spec(dest, base, els.drop_last()) =~= tasks.drop_last());
        assert(tasks.last() == download_task_of(dest, base, els.last(), (els.len() - 1) as nat));
    }
}

proof fn lemma_join_cancel(d: Seq<char>, f1: Seq<char>, f2: Seq<char>)
    requires
        join_path_spec(d, f1) == join_path_spec(d, f2),
    ensures
        f1 == f2,
{
    assert(join_path_spec(d, f1).len() == d.len() + 1 + f1.len());
    assert(join_path_spec(d, f2).len() == d.len() + 1 + f2.len());
    assert(f1.len() == f2.len());
    assert forall|i: int| 0 <= i < f1.len() implies f1[i] == f2[i] by {
        assert(join_path_spec(d, f1)[d.len() + 1 + i] == f1[i]);
        assert(join_path_spec(d, f2)[d.len() + 1 + i] == f2[i]);
    }
    assert(f1 =~= f2);
}

proof fn lemma_names_distinct(ua: Seq<char>, ub: Seq<char>, a: nat, b: nat)
    requires
        a != b,
    ensures
        download_name_of(ua, a) != download_name_of(ub, b),
{
    lemma_padded3_props(a);
    lemma_padded3_props(b);
    let pa = padded3_spec(a);
    let pb = padded3_spec(b);
    let na = download_name_of(ua, a);
    let nb = download_name_of(ub, b);
    if na == nb {
        if pa.len() == pb.len() {
            assert forall|i: int| 0 <= i < pa.len() implies pa[i] == pb[i] by {
                assert(na[i] == pa[i]);
                assert(nb[i] == pb[i]);
            }
            assert(pa =~= pb);
            lemma_padded3_injective(a, b);
        } else if pa.len() < pb.len() {
            assert(na[pa.len() as int] == '-');
            assert(nb[pa.len() as int] == pb[pa.len() as int]);
            assert(is_dec_digit(pb[pa.len() as int]));
        } else {
            assert(nb[pb.len() as int] == '-');
            assert(na[pb.len() as int] == pa[pb.len() as int]);
            assert(is_dec_digit(pa[pb.len() as int]));
        }
    }
}

/// No two elements of one download batch collide: whatever the resource
/// URLs, the destinations of two distinct positions differ, because each
/// filename opens with the zero-padded rendering of its own position and
/// no rendering is a rendering-plus-separator prefix of another.
pub proof fn lemma_batch_destinations_distinct(
    dest: Seq<char>,
    base: Seq<char>,
    els: Seq<(Option<Seq<char>>, Seq<char>)>,
)
    ensures
        ({
            let tasks = downloads_spec(dest, base, els);
            forall|a: int, b: int|
                0 <= a < b < els.len() ==> (#[trigger] tasks[a]).dest() != (
                #[trigger] tasks[b]).dest()
        }),
{
    let tasks = downloads_spec(dest, base, els);
    assert forall|a: int, b: int|
        0 <= a < b < els.len() implies (#[trigger] tasks[a]).dest() != (
    #[trigger] tasks[b]).dest() by {
        let ta = tasks[a];
        let tb = tasks[b];
        assert(ta == download_task_of(dest, base, els[a], a as nat));
        assert(tb == download_task_of(dest, base, els[b], b as nat));
        lemma_names_distinct(
            crate::trusted::join_of(base, els[a].0->0)->0,
            crate::trusted::join_of(base, els[b].0->0)->0,
            a as nat,
            b as nat,
        );
        if ta.dest() == tb.dest() {
            lemma_join_cancel(dest, ta.filename, tb.filename);
        }
    }
}

} // verus!
