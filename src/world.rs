//! A batch run to its end against a simple world, and what holds of every
//! such run.
use vstd::prelude::*;

use crate::batch::{
    after_cache_read, after_fetch, after_write, enter, is_final, start, BatchView, CacheReadView,
    results_of, PhaseView, CACHE_HIT_STATUS,
};
use crate::destination::{basename_of, joined_path};
use crate::error::DownloadError;
use crate::response::ResponseView;
use crate::target::TargetView;

verus! {

/// The world around a batch: the files on disk, the answers that the
/// network gives to successive fetches, how many fetches were made, and the
/// paths written, in order.
pub struct World {
    pub disk: Map<Seq<char>, Seq<u8>>,
    pub answers: Seq<Result<ResponseView, DownloadError>>,
    pub fetches: nat,
    pub written: Seq<Seq<char>>,
}

/// A world with these files and network answers, before any step.
pub open spec fn fresh_world(
    disk: Map<Seq<char>, Seq<u8>>,
    answers: Seq<Result<ResponseView, DownloadError>>,
) -> World {
    World { disk, answers, fetches: 0, written: Seq::empty() }
}

/// What reading the file at `p` gives.
pub open spec fn read_of(w: World, p: Seq<char>) -> CacheReadView {
    if w.disk.contains_key(p) {
        CacheReadView::Hit(w.disk[p])
    } else {
        CacheReadView::Missing
    }
}

/// The answer to the next fetch; a network that has no more answers fails.
pub open spec fn next_answer(w: World) -> Result<ResponseView, DownloadError> {
    if w.fetches < w.answers.len() {
        w.answers[w.fetches as int]
    } else {
        Err(DownloadError::TransportError)
    }
}

/// The file under `dir` that holds the body of target `t`.
pub open spec fn destination_path(dir: Seq<char>, t: TargetView) -> Seq<char> {
    joined_path(dir, basename_of(t.path))
}

/// A fetch that gives a non-empty body.
pub open spec fn gives_body(r: Result<ResponseView, DownloadError>) -> bool {
    r matches Ok(resp) && resp.raw matches Some(body) && body.len() > 0
}

/// The batch performs the action it asks for and takes the world's answer;
/// writes succeed.
pub open spec fn step(b: BatchView, w: World) -> (BatchView, World) {
    match b.phase {
        PhaseView::Probing(p) => (after_cache_read(b, read_of(w, p)), w),
        PhaseView::Fetching(_) => (
            after_fetch(b, next_answer(w)),
            World { fetches: w.fetches + 1, ..w },
        ),
        PhaseView::Writing(p, _, body) => (
            after_write(b, true),
            World { disk: w.disk.insert(p, body), written: w.written.push(p), ..w },
        ),
        _ => (b, w),
    }
}

/// A batch state that its steps can reach.
pub open spec fn sound(b: BatchView) -> bool {
    &&& b.done.len() <= b.targets.len()
    &&& (b.phase is Done <==> b.done.len() == b.targets.len())
    &&& (b.phase is Probing || b.phase is Fetching || b.phase is Writing) ==> b.done.len()
        < b.targets.len()
}

/// How far the batch is from its end.
pub open spec fn measure(b: BatchView) -> nat {
    let rank: int = match b.phase {
        PhaseView::Probing(_) => 3,
        PhaseView::Fetching(_) => 2,
        PhaseView::Writing(_, _, _) => 1,
        _ => 0,
    };
    if b.done.len() <= b.targets.len() {
        (4 * (b.targets.len() - b.done.len()) + rank) as nat
    } else {
        0
    }
}

/// The batch and the world after the batch has run to its end.
pub open spec fn run(b: BatchView, w: World) -> (BatchView, World)
    decreases measure(b),
{
    if is_final(b) {
        (b, w)
    } else {
        let (b2, w2) = step(b, w);
        if measure(b2) < measure(b) {
            run(b2, w2)
        } else {
            (b2, w2)
        }
    }
}

/// Turning to the next URL leaves a sound state.
proof fn lemma_enter_sound(b: BatchView)
    requires
        b.done.len() <= b.targets.len(),
    ensures
        sound(enter(b)),
        enter(b).done == b.done,
        enter(b).targets == b.targets,
        enter(b).dir == b.dir,
        enter(b).upsert == b.upsert,
{
}

/// Each step of a sound batch that has no outcome yet leaves a sound state
/// nearer the end.
proof fn lemma_step_progress(b: BatchView, w: World)
    requires
        sound(b),
        !is_final(b),
    ensures
        sound(step(b, w).0),
        measure(step(b, w).0) < measure(b),
        step(b, w).0.targets == b.targets,
        step(b, w).0.dir == b.dir,
        step(b, w).0.upsert == b.upsert,
{
    match b.phase {
        PhaseView::Probing(p) => match read_of(w, p) {
            CacheReadView::Hit(bytes) => {
                lemma_enter_sound(
                    BatchView {
                        done: b.done.push(
                            ResponseView {
                                status: CACHE_HIT_STATUS,
                                raw: Some(bytes),
                                downloaded_to: Some(p),
                            },
                        ),
                        ..b
                    },
                );
            },
            _ => {},
        },
        PhaseView::Fetching(dest) => match next_answer(w) {
            Ok(resp) => match resp.raw {
                Some(body) => if body.len() > 0 && dest is None {
                    lemma_enter_sound(
                        BatchView {
                            done: b.done.push(
                                ResponseView { status: resp.status, raw: Some(body), downloaded_to: None },
                            ),
                            ..b
                        },
                    );
                },
                None => {},
            },
            Err(_) => {},
        },
        PhaseView::Writing(p, status, body) => {
            lemma_enter_sound(
                BatchView {
                    done: b.done.push(ResponseView { status, raw: Some(body), downloaded_to: Some(p) }),
                    ..b
                },
            );
        },
        _ => {},
    }
}

/// What holds of the starting pair and is kept by every step holds when
/// the run ends, and the run ends with an outcome.
proof fn lemma_run_keeps(inv: spec_fn(BatchView, World) -> bool, b: BatchView, w: World)
    requires
        sound(b),
        inv(b, w),
        forall|b2: BatchView, w2: World|
            sound(b2) && !is_final(b2) && #[trigger] inv(b2, w2) ==> inv(step(b2, w2).0, step(b2, w2).1),
    ensures
        inv(run(b, w).0, run(b, w).1),
        is_final(run(b, w).0),
        sound(run(b, w).0),
        run(b, w).0.targets == b.targets,
    decreases measure(b),
{
    if !is_final(b) {
        lemma_step_progress(b, w);
        let (b2, w2) = step(b, w);
        lemma_run_keeps(inv, b2, w2);
    }
}

/// A new batch is sound.
proof fn lemma_start_sound(dir: Option<Seq<char>>, targets: Seq<TargetView>, upsert: bool)
    ensures
        sound(start(dir, targets, upsert)),
        start(dir, targets, upsert).done.len() == 0,
        start(dir, targets, upsert).targets == targets,
{
    lemma_enter_sound(BatchView { dir, upsert, targets, done: Seq::empty(), phase: PhaseView::Done });
}

/// Without a target directory a batch touches no file: whatever the world
/// answers, the disk is left as it was, nothing is written, and no response
/// names a file.
pub proof fn lemma_in_memory_batch_touches_no_file(
    targets: Seq<TargetView>,
    upsert: bool,
    disk: Map<Seq<char>, Seq<u8>>,
    answers: Seq<Result<ResponseView, DownloadError>>,
)
    ensures
        ({
            let (b, w) = run(start(None, targets, upsert), fresh_world(disk, answers));
            &&& w.disk == disk
            &&& w.written.len() == 0
            &&& forall|j: int| 0 <= j < b.done.len() ==> (#[trigger] b.done[j]).downloaded_to is None
        }),
{
    let inv = |b: BatchView, w: World|
        {
            &&& b.dir is None
            &&& w.disk == disk
            &&& w.written.len() == 0
            &&& forall|j: int| 0 <= j < b.done.len() ==> (#[trigger] b.done[j]).downloaded_to is None
            &&& !(b.phase is Probing)
            &&& !(b.phase is Writing)
            &&& b.phase matches PhaseView::Fetching(d) ==> d is None
        };
    assert forall|b2: BatchView, w2: World|
        sound(b2) && !is_final(b2) && #[trigger] inv(b2, w2) implies inv(
        step(b2, w2).0,
        step(b2, w2).1,
    ) by {
        let b3 = step(b2, w2).0;
        assert forall|j: int| 0 <= j < b3.done.len() implies (#[trigger] b3.done[j]).downloaded_to is None by {
            if j < b2.done.len() {
                assert(b3.done[j] == b2.done[j]);
            }
        }
    }
    lemma_start_sound(None, targets, upsert);
    lemma_run_keeps(inv, start(None, targets, upsert), fresh_world(disk, answers));
}

/// A batch without a target directory fetches its URLs in order; where the
/// fetches of the first `k` give bodies and the fetch of URL `k` fails with
/// `e`, the batch fails with `e`, and no response map comes out of it.
pub proof fn lemma_failed_fetch_fails_batch(
    targets: Seq<TargetView>,
    upsert: bool,
    disk: Map<Seq<char>, Seq<u8>>,
    answers: Seq<Result<ResponseView, DownloadError>>,
    k: nat,
    e: DownloadError,
)
    requires
        k < targets.len(),
        k < answers.len(),
        answers[k as int] == Err::<ResponseView, DownloadError>(e),
        forall|j: int| 0 <= j < k ==> gives_body(#[trigger] answers[j]),
    ensures
        run(start(None, targets, upsert), fresh_world(disk, answers)).0.phase == PhaseView::Failed(e),
{
    let inv = |b: BatchView, w: World|
        {
            ||| b.phase == PhaseView::Failed(e)
            ||| {
                &&& b.dir is None
                &&& b.targets == targets
                &&& w.answers == answers
                &&& b.phase == PhaseView::Fetching(None)
                &&& w.fetches == b.done.len()
                &&& b.done.len() <= k
            }
        };
    assert forall|b2: BatchView, w2: World|
        sound(b2) && !is_final(b2) && #[trigger] inv(b2, w2) implies inv(
        step(b2, w2).0,
        step(b2, w2).1,
    ) by {
        let i = b2.done.len() as int;
        if b2.phase != PhaseView::Failed(e) {
            assert(next_answer(w2) == answers[i]);
            if i < k {
                assert(gives_body(answers[i]));
            }
        }
    }
    lemma_start_sound(None, targets, upsert);
    lemma_run_keeps(inv, start(None, targets, upsert), fresh_world(disk, answers));
}

/// A batch with a target directory over a URL whose path has an empty last
/// segment fails, at that URL at the latest, and there with an invalid
/// destination: no response map comes out of it.
pub proof fn lemma_empty_basename_fails_batch(
    dir: Seq<char>,
    targets: Seq<TargetView>,
    upsert: bool,
    world: World,
    k: nat,
)
    requires
        k < targets.len(),
        basename_of(targets[k as int].path).len() == 0,
    ensures
        ({
            let b = run(start(Some(dir), targets, upsert), world).0;
            &&& b.phase is Failed
            &&& b.done.len() <= k
            &&& b.done.len() == k ==> b.phase == PhaseView::Failed(DownloadError::InvalidDestination)
        }),
{
    let inv = |b: BatchView, w: World|
        {
            &&& b.dir == Some(dir)
            &&& b.targets == targets
            &&& b.done.len() <= k
            &&& b.done.len() == k ==> b.phase == PhaseView::Failed(DownloadError::InvalidDestination)
        };
    assert forall|b2: BatchView, w2: World|
        sound(b2) && !is_final(b2) && #[trigger] inv(b2, w2) implies inv(
        step(b2, w2).0,
        step(b2, w2).1,
    ) by {
        lemma_step_progress(b2, w2);
    }
    lemma_start_sound(Some(dir), targets, upsert);
    lemma_run_keeps(inv, start(Some(dir), targets, upsert), world);
}

/// With upsert, a batch that ends with every response has fetched every
/// URL once, cached copy or not, and written each body to the URL's file,
/// in order, replacing what was there; each response names that file.
pub proof fn lemma_upsert_fetches_and_writes_every_url(
    dir: Seq<char>,
    targets: Seq<TargetView>,
    disk: Map<Seq<char>, Seq<u8>>,
    answers: Seq<Result<ResponseView, DownloadError>>,
)
    ensures
        ({
            let (b, w) = run(start(Some(dir), targets, true), fresh_world(disk, answers));
            b.phase is Done ==> ({
                &&& w.fetches == targets.len()
                &&& w.written.len() == targets.len()
                &&& forall|j: int|
                    0 <= j < targets.len() ==> #[trigger] w.written[j] == destination_path(
                        dir,
                        targets[j],
                    ) && b.done[j].downloaded_to == Some(w.written[j])
            })
        }),
{
    let inv = |b: BatchView, w: World|
        {
            &&& b.dir == Some(dir)
            &&& b.upsert
            &&& b.targets == targets
            &&& !(b.phase is Failed) ==> w.fetches == b.done.len() + if b.phase is Writing {
                1int
            } else {
                0int
            }
            &&& w.written.len() == b.done.len()
            &&& forall|j: int|
                0 <= j < b.done.len() ==> #[trigger] w.written[j] == destination_path(dir, targets[j])
                    && b.done[j].downloaded_to == Some(w.written[j])
            &&& !(b.phase is Probing)
            &&& b.phase matches PhaseView::Fetching(d) ==> d == Some(
                destination_path(dir, targets[b.done.len() as int]),
            )
            &&& b.phase matches PhaseView::Writing(p, _, _) ==> p == destination_path(
                dir,
                targets[b.done.len() as int],
            )
        };
    assert forall|b2: BatchView, w2: World|
        sound(b2) && !is_final(b2) && #[trigger] inv(b2, w2) implies inv(
        step(b2, w2).0,
        step(b2, w2).1,
    ) by {
        let (b3, w3) = step(b2, w2);
        assert forall|j: int| 0 <= j < b3.done.len() implies #[trigger] w3.written[j]
            == destination_path(dir, targets[j]) && b3.done[j].downloaded_to == Some(
            w3.written[j],
        ) by {
            if j < b2.done.len() {
                assert(b3.done[j] == b2.done[j]);
                assert(w3.written[j] == w2.written[j]);
            }
        }
    }
    lemma_start_sound(Some(dir), targets, true);
    lemma_run_keeps(inv, start(Some(dir), targets, true), fresh_world(disk, answers));
}

/// Responses recorded alike, position by position, in body and file, give
/// maps with the same URLs and, for each, the same body and file.
pub proof fn lemma_results_agree(
    targets: Seq<TargetView>,
    first: Seq<ResponseView>,
    second: Seq<ResponseView>,
)
    requires
        first.len() == second.len(),
        forall|j: int|
            0 <= j < first.len() ==> (#[trigger] first[j]).raw == second[j].raw && first[j].downloaded_to
                == second[j].downloaded_to,
    ensures
        results_of(targets, first).dom() == results_of(targets, second).dom(),
        forall|k: Seq<char>|
            #[trigger] results_of(targets, first).contains_key(k) ==> results_of(targets, first)[k].raw
                == results_of(targets, second)[k].raw && results_of(targets, first)[k].downloaded_to
                == results_of(targets, second)[k].downloaded_to,
    decreases first.len(),
{
    if first.len() > 0 {
        lemma_results_agree(targets, first.drop_last(), second.drop_last());
        assert(first.last() == first[first.len() - 1]);
    }
    assert(results_of(targets, first).dom() =~= results_of(targets, second).dom());
}

/// A batch without upsert that ended with every response leaves on disk, at
/// each URL's file, the body it recorded; run again on that disk, it makes
/// no fetch and no write, and records the same body and file for each URL.
pub proof fn lemma_cached_batch_repeats_without_network(
    dir: Seq<char>,
    targets: Seq<TargetView>,
    disk: Map<Seq<char>, Seq<u8>>,
    answers: Seq<Result<ResponseView, DownloadError>>,
    later_answers: Seq<Result<ResponseView, DownloadError>>,
)
    requires
        run(start(Some(dir), targets, false), fresh_world(disk, answers)).0.phase is Done,
    ensures
        ({
            let (first, w1) = run(start(Some(dir), targets, false), fresh_world(disk, answers));
            let (second, w2) = run(
                start(Some(dir), targets, false),
                fresh_world(w1.disk, later_answers),
            );
            &&& w1.fetches <= targets.len()
            &&& second.phase is Done
            &&& w2.fetches == 0
            &&& w2.written.len() == 0
            &&& w2.disk == w1.disk
            &&& second.done.len() == first.done.len()
            &&& forall|j: int|
                0 <= j < first.done.len() ==> (#[trigger] second.done[j]).raw == first.done[j].raw
                    && second.done[j].downloaded_to == first.done[j].downloaded_to
            &&& results_of(targets, first.done).dom() == results_of(targets, second.done).dom()
            &&& forall|k: Seq<char>|
                #[trigger] results_of(targets, first.done).contains_key(k) ==> results_of(
                    targets,
                    first.done,
                )[k].raw == results_of(targets, second.done)[k].raw
        }),
{
    // The first run: each recorded body is on disk at its URL's file, and
    // no write replaces a file that a response names.
    let kept = |b: BatchView, w: World|
        {
            &&& b.dir == Some(dir)
            &&& !b.upsert
            &&& b.targets == targets
            &&& w.fetches <= b.done.len() + if b.phase is Writing || b.phase is Failed {
                1int
            } else {
                0int
            }
            &&& (b.phase is Probing || b.phase is Fetching || b.phase is Writing) ==> basename_of(
                targets[b.done.len() as int].path,
            ).len() > 0
            &&& forall|j: int|
                0 <= j < b.done.len() ==> {
                    let p = destination_path(dir, targets[j]);
                    &&& basename_of(targets[j].path).len() > 0
                    &&& w.disk.contains_key(p)
                    &&& (#[trigger] b.done[j]).raw == Some(w.disk[p])
                    &&& b.done[j].downloaded_to == Some(p)
                }
            &&& b.phase matches PhaseView::Probing(p) ==> p == destination_path(
                dir,
                targets[b.done.len() as int],
            )
            &&& b.phase matches PhaseView::Fetching(d) ==> d == Some(
                destination_path(dir, targets[b.done.len() as int]),
            ) && !w.disk.contains_key(destination_path(dir, targets[b.done.len() as int]))
            &&& b.phase matches PhaseView::Writing(p, _, _) ==> p == destination_path(
                dir,
                targets[b.done.len() as int],
            ) && !w.disk.contains_key(p)
        };
    assert forall|b2: BatchView, w2: World|
        sound(b2) && !is_final(b2) && #[trigger] kept(b2, w2) implies kept(
        step(b2, w2).0,
        step(b2, w2).1,
    ) by {
        let (b3, w3) = step(b2, w2);
        assert forall|j: int| 0 <= j < b3.done.len() implies {
            let p = destination_path(dir, targets[j]);
            &&& basename_of(targets[j].path).len() > 0
            &&& w3.disk.contains_key(p)
            &&& (#[trigger] b3.done[j]).raw == Some(w3.disk[p])
            &&& b3.done[j].downloaded_to == Some(p)
        } by {
            if j < b2.done.len() {
                assert(b3.done[j] == b2.done[j]);
                let p = destination_path(dir, targets[j]);
                assert(w2.disk.contains_key(p));
                assert(b2.done[j].raw == Some(w2.disk[p]));
            }
        }
    }
    lemma_start_sound(Some(dir), targets, false);
    lemma_run_keeps(kept, start(Some(dir), targets, false), fresh_world(disk, answers));
    let (first, w1) = run(start(Some(dir), targets, false), fresh_world(disk, answers));
    let stored = w1.disk;
    assert(kept(first, w1));
    assert(first.done.len() == targets.len());
    // The second run: every URL's file is there, so every read hits.
    let again = |b: BatchView, w: World|
        {
            &&& b.dir == Some(dir)
            &&& !b.upsert
            &&& b.targets == targets
            &&& w.disk == stored
            &&& w.fetches == 0
            &&& w.written.len() == 0
            &&& forall|j: int|
                0 <= j < b.done.len() ==> #[trigger] b.done[j] == ResponseView {
                    status: CACHE_HIT_STATUS,
                    raw: Some(stored[destination_path(dir, targets[j])]),
                    downloaded_to: Some(destination_path(dir, targets[j])),
                }
            &&& b.phase is Probing || b.phase is Done
            &&& b.phase matches PhaseView::Probing(p) ==> p == destination_path(
                dir,
                targets[b.done.len() as int],
            )
        };
    assert forall|j: int| 0 <= j < targets.len() implies basename_of(
        (#[trigger] targets[j]).path,
    ).len() > 0 && stored.contains_key(destination_path(dir, targets[j])) by {
        let r = first.done[j];
        assert(r.downloaded_to == Some(destination_path(dir, targets[j])));
    }
    assert forall|b2: BatchView, w2: World|
        sound(b2) && !is_final(b2) && #[trigger] again(b2, w2) implies again(
        step(b2, w2).0,
        step(b2, w2).1,
    ) by {
        let (b3, w3) = step(b2, w2);
        let i = b2.done.len() as int;
        assert(basename_of(targets[i].path).len() > 0);
        if i + 1 < targets.len() {
            assert(basename_of(targets[i + 1].path).len() > 0);
        }
        assert forall|j: int| 0 <= j < b3.done.len() implies #[trigger] b3.done[j] == ResponseView {
            status: CACHE_HIT_STATUS,
            raw: Some(stored[destination_path(dir, targets[j])]),
            downloaded_to: Some(destination_path(dir, targets[j])),
        } by {
            if j < b2.done.len() {
                assert(b3.done[j] == b2.done[j]);
            }
        }
    }
    let second_start = start(Some(dir), targets, false);
    lemma_start_sound(Some(dir), targets, false);
    if targets.len() > 0 {
        assert(basename_of(targets[0].path).len() > 0);
    }
    lemma_run_keeps(again, second_start, fresh_world(stored, later_answers));
    let (second, w2) = run(second_start, fresh_world(stored, later_answers));
    assert forall|j: int| 0 <= j < first.done.len() implies (#[trigger] second.done[j]).raw
        == first.done[j].raw && second.done[j].downloaded_to == first.done[j].downloaded_to by {
        let p = destination_path(dir, targets[j]);
        assert(first.done[j].raw == Some(stored[p]));
    }
    lemma_results_agree(targets, first.done, second.done);
}

} // verus!
