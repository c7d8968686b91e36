use vstd::prelude::*;

use crate::destination::{destination_of, resolve_destination};
use crate::error::DownloadError;
use crate::response::{path_view, DownloadResponse, ResponseView};
use crate::result_map::ResultMap;
use crate::target::{Target, TargetView};

verus! {

/// The status recorded for a body read from the cache.
pub const CACHE_HIT_STATUS: u16 = 200;

/// What reading a destination file gave.
#[derive(Debug)]
pub enum CacheRead {
    /// The file exists and was read whole.
    Hit(Vec<u8>),
    /// There is no such file.
    Missing,
    /// The file exists but could not be read.
    Unreadable,
}

/// The view of a [`CacheRead`].
pub enum CacheReadView {
    Hit(Seq<u8>),
    Missing,
    Unreadable,
}

impl View for CacheRead {
    type V = CacheReadView;

    open spec fn view(&self) -> CacheReadView {
        match self {
            CacheRead::Hit(bytes) => CacheReadView::Hit(bytes@),
            CacheRead::Missing => CacheReadView::Missing,
            CacheRead::Unreadable => CacheReadView::Unreadable,
        }
    }
}

/// What a batch waits for, on the URL it has reached.
#[derive(Debug)]
enum Phase {
    /// The read of the cached copy at this path.
    Probing(String),
    /// The fetch of the URL, whose body goes to this path if there is one.
    Fetching(Option<String>),
    /// The write of a fetched body, with its status, to this path.
    Writing(String, u16, Vec<u8>),
    /// Nothing: every URL has its response.
    Done,
    /// Nothing: the batch failed.
    Failed(DownloadError),
}

/// The view of a batch's phase.
pub enum PhaseView {
    Probing(Seq<char>),
    Fetching(Option<Seq<char>>),
    Writing(Seq<char>, u16, Seq<u8>),
    Done,
    Failed(DownloadError),
}

impl View for Phase {
    type V = PhaseView;

    closed spec fn view(&self) -> PhaseView {
        match self {
            Phase::Probing(p) => PhaseView::Probing(p@),
            Phase::Fetching(dest) => PhaseView::Fetching(path_view(*dest)),
            Phase::Writing(p, status, body) => PhaseView::Writing(p@, *status, body@),
            Phase::Done => PhaseView::Done,
            Phase::Failed(e) => PhaseView::Failed(*e),
        }
    }
}

/// What the program around a batch has to do next.
#[derive(Debug)]
pub enum Action<'a> {
    /// Read the file at this path whole.
    ReadCache(&'a str),
    /// Fetch this URL.
    Fetch(&'a str),
    /// Write these bytes to the file at this path, replacing what it held.
    Write(&'a str, &'a [u8]),
    /// Nothing: take the outcome.
    Finished,
}

/// The view of an [`Action`].
pub enum ActionView {
    ReadCache(Seq<char>),
    Fetch(Seq<char>),
    Write(Seq<char>, Seq<u8>),
    Finished,
}

impl<'a> View for Action<'a> {
    type V = ActionView;

    open spec fn view(&self) -> ActionView {
        match self {
            Action::ReadCache(p) => ActionView::ReadCache(p@),
            Action::Fetch(u) => ActionView::Fetch(u@),
            Action::Write(p, body) => ActionView::Write(p@, body@),
            Action::Finished => ActionView::Finished,
        }
    }
}

/// A batch as a state: its configuration, the responses of the URLs it has
/// gone past, in order, and what it waits for.
pub struct BatchView {
    pub dir: Option<Seq<char>>,
    pub upsert: bool,
    pub targets: Seq<TargetView>,
    pub done: Seq<ResponseView>,
    pub phase: PhaseView,
}

/// The responses of the first `done.len()` targets, keyed by URL; a later
/// URL replaces an earlier equal one.
pub open spec fn results_of(targets: Seq<TargetView>, done: Seq<ResponseView>) -> Map<
    Seq<char>,
    ResponseView,
>
    decreases done.len(),
{
    if done.len() == 0 {
        Map::empty()
    } else {
        results_of(targets, done.drop_last()).insert(targets[done.len() - 1].href, done.last())
    }
}

/// The batch turns to the URL after those it has gone past: it is done
/// when there is none; else it fails on a bad destination, reads the cached
/// copy where there is a destination and no upsert, and fetches otherwise.
pub open spec fn enter(b: BatchView) -> BatchView {
    let i = b.done.len() as int;
    if i >= b.targets.len() {
        BatchView { phase: PhaseView::Done, ..b }
    } else {
        match destination_of(b.dir, b.targets[i].path) {
            Err(e) => BatchView { phase: PhaseView::Failed(e), ..b },
            Ok(Some(p)) => if b.upsert {
                BatchView { phase: PhaseView::Fetching(Some(p)), ..b }
            } else {
                BatchView { phase: PhaseView::Probing(p), ..b }
            },
            Ok(None) => BatchView { phase: PhaseView::Fetching(None), ..b },
        }
    }
}

/// The batch records `r` for the URL it is on and turns to the next.
pub open spec fn record(b: BatchView, r: ResponseView) -> BatchView {
    enter(BatchView { done: b.done.push(r), ..b })
}

/// A new batch over `targets`.
pub open spec fn start(dir: Option<Seq<char>>, targets: Seq<TargetView>, upsert: bool) -> BatchView {
    enter(BatchView { dir, upsert, targets, done: Seq::empty(), phase: PhaseView::Done })
}

/// A cached copy that was read is the response, with the cache-hit
/// status; any other outcome of the read sends the batch to the network.
pub open spec fn after_cache_read(b: BatchView, read: CacheReadView) -> BatchView {
    match b.phase {
        PhaseView::Probing(p) => match read {
            CacheReadView::Hit(bytes) => record(
                b,
                ResponseView {
                    status: CACHE_HIT_STATUS,
                    raw: Some(bytes),
                    downloaded_to: Some(p),
                },
            ),
            _ => BatchView { phase: PhaseView::Fetching(Some(p)), ..b },
        },
        _ => b,
    }
}

/// A failed fetch fails the batch, and so does one without a body or with
/// an empty one; a body goes to its destination if there is one, else it is
/// the response.
pub open spec fn after_fetch(b: BatchView, r: Result<ResponseView, DownloadError>) -> BatchView {
    match b.phase {
        PhaseView::Fetching(dest) => match r {
            Err(e) => BatchView { phase: PhaseView::Failed(e), ..b },
            Ok(resp) => match resp.raw {
                Some(body) => if body.len() == 0 {
                    BatchView { phase: PhaseView::Failed(DownloadError::EmptyResponse), ..b }
                } else {
                    match dest {
                        Some(p) => BatchView {
                            phase: PhaseView::Writing(p, resp.status, body),
                            ..b
                        },
                        None => record(
                            b,
                            ResponseView { status: resp.status, raw: Some(body), downloaded_to: None },
                        ),
                    }
                },
                None => BatchView { phase: PhaseView::Failed(DownloadError::EmptyResponse), ..b },
            },
        },
        _ => b,
    }
}

/// A written body is the response; a failed write fails the batch.
pub open spec fn after_write(b: BatchView, ok: bool) -> BatchView {
    match b.phase {
        PhaseView::Writing(p, status, body) => if ok {
            record(b, ResponseView { status, raw: Some(body), downloaded_to: Some(p) })
        } else {
            BatchView { phase: PhaseView::Failed(DownloadError::FilesystemError), ..b }
        },
        _ => b,
    }
}

/// What the batch asks for in state `b`.
pub open spec fn action_of(b: BatchView) -> ActionView {
    match b.phase {
        PhaseView::Probing(p) => ActionView::ReadCache(p),
        PhaseView::Fetching(_) => ActionView::Fetch(b.targets[b.done.len() as int].href),
        PhaseView::Writing(p, _, body) => ActionView::Write(p, body),
        _ => ActionView::Finished,
    }
}

/// The batch has an outcome: it is done or it failed.
pub open spec fn is_final(b: BatchView) -> bool {
    b.phase is Done || b.phase is Failed
}

/// The view of the targets of a batch.
pub open spec fn targets_view(targets: Seq<Target>) -> Seq<TargetView> {
    targets.map_values(|t: Target| t@)
}

/// One batch of downloads, as the decisions it makes between the reads,
/// fetches and writes that the program around it performs.
pub struct Batch {
    dir: Option<String>,
    upsert: bool,
    targets: Vec<Target>,
    index: usize,
    results: ResultMap,
    phase: Phase,
    done: Ghost<Seq<ResponseView>>,
}

impl View for Batch {
    type V = BatchView;

    closed spec fn view(&self) -> BatchView {
        BatchView {
            dir: path_view(self.dir),
            upsert: self.upsert,
            targets: targets_view(self.targets@),
            done: self.done@,
            phase: self.phase@,
        }
    }
}

impl Batch {
    /// The responses recorded so far agree with the URLs gone past.
    closed spec fn progress_wf(&self) -> bool {
        &&& self.index == self.done@.len()
        &&& self.index <= self.targets@.len()
        &&& self.results.wf()
        &&& self.results@ == results_of(targets_view(self.targets@), self.done@)
    }

    /// The batch is in a state that its steps can reach.
    pub closed spec fn wf(&self) -> bool {
        &&& self.progress_wf()
        &&& (self.phase is Done <==> self.index == self.targets@.len())
        &&& (self.phase is Probing || self.phase is Fetching || self.phase is Writing) ==> self.index
            < self.targets@.len()
    }

    /// Turns to the URL at the current position.
    fn enter(&mut self)
        requires
            old(self).progress_wf(),
        ensures
            final(self).wf(),
            final(self)@ == enter(old(self)@),
    {
        if self.index >= self.targets.len() {
            self.phase = Phase::Done;
            return ;
        }
        let dir = match &self.dir {
            Some(d) => Some(d.as_str()),
            None => None,
        };
        match resolve_destination(dir, self.targets[self.index].path()) {
            Err(e) => {
                self.phase = Phase::Failed(e);
            },
            Ok(Some(p)) => {
                if self.upsert {
                    self.phase = Phase::Fetching(Some(p));
                } else {
                    self.phase = Phase::Probing(p);
                }
            },
            Ok(None) => {
                self.phase = Phase::Fetching(None);
            },
        }
    }

    /// Records `r` for the URL at the current position and turns to the next.
    fn record(&mut self, r: DownloadResponse)
        requires
            old(self).progress_wf(),
            old(self).index < old(self).targets@.len(),
        ensures
            final(self).wf(),
            final(self)@ == record(old(self)@, r@),
    {
        let ghost view = r@;
        let ghost before = self.done@;
        let key = self.targets[self.index].as_str().to_owned();
        self.results.insert(key, r);
        self.done = Ghost(self.done@.push(view));
        let count = self.targets.len();
        assert(self.index < count);
        self.index = self.index + 1;
        assert(self.done@.drop_last() =~= before);
        self.enter();
    }

    /// A batch over `targets`, storing bodies under `target_dir` if there is
    /// one, and fetching anew despite a cached copy where `upsert` holds.
    pub fn new(target_dir: Option<String>, targets: Vec<Target>, upsert: bool) -> (b: Batch)
        ensures
            b.wf(),
            b@ == start(path_view(target_dir), targets_view(targets@), upsert),
    {
        let mut b = Batch {
            dir: target_dir,
            upsert,
            targets,
            index: 0,
            results: ResultMap::new(),
            phase: Phase::Done,
            done: Ghost(Seq::empty()),
        };
        assert(b.results@ =~= results_of(targets_view(b.targets@), b.done@));
        b.enter();
        b
    }

    /// What the program around the batch has to do next.
    pub fn next_action(&self) -> (a: Action<'_>)
        requires
            self.wf(),
        ensures
            a@ == action_of(self@),
    {
        match &self.phase {
            Phase::Probing(p) => Action::ReadCache(p.as_str()),
            Phase::Fetching(_) => Action::Fetch(self.targets[self.index].as_str()),
            Phase::Writing(p, _, body) => Action::Write(p.as_str(), body.as_slice()),
            _ => Action::Finished,
        }
    }

    /// Whether the batch has an outcome.
    pub fn is_finished(&self) -> (r: bool)
        requires
            self.wf(),
        ensures
            r == is_final(self@),
    {
        match &self.phase {
            Phase::Done => true,
            Phase::Failed(_) => true,
            _ => false,
        }
    }

    /// Takes what reading the cached copy gave.
    pub fn on_cache_read(&mut self, read: CacheRead)
        requires
            old(self).wf(),
            old(self)@.phase is Probing,
        ensures
            final(self).wf(),
            final(self)@ == after_cache_read(old(self)@, read@),
    {
        let mut taken = Phase::Done;
        std::mem::swap(&mut self.phase, &mut taken);
        match taken {
            Phase::Probing(p) => match read {
                CacheRead::Hit(bytes) => {
                    self.record(
                        DownloadResponse {
                            status: CACHE_HIT_STATUS,
                            raw: Some(bytes),
                            downloaded_to: Some(p),
                        },
                    );
                },
                _ => {
                    self.phase = Phase::Fetching(Some(p));
                },
            },
            _ => {},
        }
    }

    /// Takes how the fetch of the current URL ended.
    pub fn on_fetched(&mut self, r: Result<DownloadResponse, DownloadError>)
        requires
            old(self).wf(),
            old(self)@.phase is Fetching,
        ensures
            final(self).wf(),
            final(self)@ == after_fetch(
                old(self)@,
                match r {
                    Ok(resp) => Ok(resp@),
                    Err(e) => Err(e),
                },
            ),
    {
        match r {
            Err(e) => {
                self.phase = Phase::Failed(e);
            },
            Ok(resp) => {
                let DownloadResponse { status, raw, downloaded_to: _ } = resp;
                match raw {
                    None => {
                        self.phase = Phase::Failed(DownloadError::EmptyResponse);
                    },
                    Some(body) => {
                        if body.len() == 0 {
                            self.phase = Phase::Failed(DownloadError::EmptyResponse);
                        } else {
                            let mut taken = Phase::Done;
                            std::mem::swap(&mut self.phase, &mut taken);
                            match taken {
                                Phase::Fetching(Some(p)) => {
                                    self.phase = Phase::Writing(p, status, body);
                                },
                                Phase::Fetching(None) => {
                                    self.record(
                                        DownloadResponse { status, raw: Some(body), downloaded_to: None },
                                    );
                                },
                                _ => {},
                            }
                        }
                    },
                }
            },
        }
    }

    /// Takes whether writing the fetched body succeeded.
    pub fn on_written(&mut self, ok: bool)
        requires
            old(self).wf(),
            old(self)@.phase is Writing,
        ensures
            final(self).wf(),
            final(self)@ == after_write(old(self)@, ok),
    {
        let mut taken = Phase::Done;
        std::mem::swap(&mut self.phase, &mut taken);
        match taken {
            Phase::Writing(p, status, body) => {
                if ok {
                    self.record(DownloadResponse { status, raw: Some(body), downloaded_to: Some(p) });
                } else {
                    self.phase = Phase::Failed(DownloadError::FilesystemError);
                }
            },
            _ => {},
        }
    }

    /// The outcome: every URL's response, keyed by URL, or the error that
    /// stopped the batch, and then no response at all.
    pub fn finish(self) -> (r: Result<ResultMap, DownloadError>)
        requires
            self.wf(),
            is_final(self@),
        ensures
            match r {
                Ok(m) => self@.phase is Done && m.wf() && m@ == results_of(self@.targets, self@.done),
                Err(e) => self@.phase == PhaseView::Failed(e),
            },
    {
        match self.phase {
            Phase::Failed(e) => Err(e),
            _ => Ok(self.results),
        }
    }
}

} // verus!
