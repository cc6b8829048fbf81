//! Downloads of the catalog: a bounded queue with resumable transfers.
//!
//! The transfers themselves run in threads of the program around the
//! library; the queue here decides what starts, what is cancelled and what
//! is cleared, and reads the answers of the server.

use vstd::prelude::*;

use crate::text::{decimal, owned, push_decimal, push_str};
use crate::util::{format_bytes, size_text};

verus! {

#[derive(Debug, Clone, PartialEq, Eq)]
pub enum DownloadState {
    Queued,
    Connecting,
    Running,
    Done,
    Cancelled,
    Failed(String),
}

pub enum StateView {
    Queued,
    Connecting,
    Running,
    Done,
    Cancelled,
    Failed(Seq<char>),
}

impl View for DownloadState {
    type V = StateView;

    open spec fn view(&self) -> StateView {
        match self {
            DownloadState::Queued => StateView::Queued,
            DownloadState::Connecting => StateView::Connecting,
            DownloadState::Running => StateView::Running,
            DownloadState::Done => StateView::Done,
            DownloadState::Cancelled => StateView::Cancelled,
            DownloadState::Failed(m) => StateView::Failed(m@),
        }
    }
}

pub open spec fn terminal(s: StateView) -> bool {
    s is Done || s is Cancelled || s is Failed
}

pub open spec fn active(s: StateView) -> bool {
    s is Connecting || s is Running
}

impl DownloadState {
    /// Finished one way or another.
    pub fn is_terminal(&self) -> (r: bool)
        ensures
            r == terminal(self@),
    {
        match self {
            DownloadState::Done | DownloadState::Cancelled | DownloadState::Failed(_) => true,
            _ => false,
        }
    }

    /// Taking up a transfer slot.
    pub fn is_active(&self) -> (r: bool)
        ensures
            r == active(self@),
    {
        match self {
            DownloadState::Connecting | DownloadState::Running => true,
            _ => false,
        }
    }

    pub fn duplicate(&self) -> (r: DownloadState)
        ensures
            r@ == self@,
    {
        match self {
            DownloadState::Queued => DownloadState::Queued,
            DownloadState::Connecting => DownloadState::Connecting,
            DownloadState::Running => DownloadState::Running,
            DownloadState::Done => DownloadState::Done,
            DownloadState::Cancelled => DownloadState::Cancelled,
            DownloadState::Failed(m) => DownloadState::Failed(owned(m.as_str())),
        }
    }
}

#[derive(Debug, Clone)]
pub struct Progress {
    pub state: DownloadState,
    pub done: u64,
    pub total: Option<u64>,
    pub speed_bps: u64,
}

pub struct ProgressView {
    pub state: StateView,
    pub done: u64,
    pub total: Option<u64>,
    pub speed_bps: u64,
}

impl View for Progress {
    type V = ProgressView;

    open spec fn view(&self) -> ProgressView {
        ProgressView { state: self.state@, done: self.done, total: self.total, speed_bps: self.speed_bps }
    }
}

impl Default for Progress {
    fn default() -> (p: Progress)
        ensures
            p@ == (ProgressView { state: StateView::Queued, done: 0, total: None, speed_bps: 0 }),
    {
        Progress { state: DownloadState::Queued, done: 0, total: None, speed_bps: 0 }
    }
}

/// The line shown for a download.
pub open spec fn progress_text(p: ProgressView) -> Seq<char> {
    match p.state {
        StateView::Queued => "en cola"@,
        StateView::Connecting => "conectando..."@,
        StateView::Running => match p.total {
            Some(total) => size_text(p.done as nat) + " / "@ + size_text(total as nat) + " ("@
                + size_text(p.speed_bps as nat) + "/s)"@,
            None => size_text(p.done as nat) + " ("@ + size_text(p.speed_bps as nat) + "/s)"@,
        },
        StateView::Done => "completada ("@ + size_text(p.done as nat) + ")"@,
        StateView::Cancelled => "cancelada"@,
        StateView::Failed(e) => "error: "@ + e,
    }
}

impl Progress {
    pub fn describe(&self) -> (s: String)
        ensures
            s@ == progress_text(self@),
    {
        match &self.state {
            DownloadState::Queued => owned("en cola"),
            DownloadState::Connecting => owned("conectando..."),
            DownloadState::Running => match self.total {
                Some(total) => {
                    let mut s = format_bytes(self.done);
                    push_str(&mut s, " / ");
                    push_str(&mut s, format_bytes(total).as_str());
                    push_str(&mut s, " (");
                    push_str(&mut s, format_bytes(self.speed_bps).as_str());
                    push_str(&mut s, "/s)");
                    s
                },
                None => {
                    let mut s = format_bytes(self.done);
                    push_str(&mut s, " (");
                    push_str(&mut s, format_bytes(self.speed_bps).as_str());
                    push_str(&mut s, "/s)");
                    s
                },
            },
            DownloadState::Done => {
                let mut s = owned("completada (");
                push_str(&mut s, format_bytes(self.done).as_str());
                push_str(&mut s, ")");
                s
            },
            DownloadState::Cancelled => owned("cancelada"),
            DownloadState::Failed(e) => {
                let mut s = owned("error: ");
                push_str(&mut s, e.as_str());
                s
            },
        }
    }

    pub fn duplicate(&self) -> (r: Progress)
        ensures
            r@ == self@,
    {
        Progress { state: self.state.duplicate(), done: self.done, total: self.total, speed_bps: self.speed_bps }
    }
}

/// Where a download is written while it runs: the destination with
/// `.part` added, so that half a download never looks like a valid file.
pub fn part_path(dest: &str) -> (p: String)
    ensures
        p@ == dest@ + ".part"@,
{
    let mut p = owned(dest);
    push_str(&mut p, ".part");
    p
}

/// The `Range` header that resumes a transfer after `resume_from` bytes.
pub fn range_header(resume_from: u64) -> (r: Option<String>)
    ensures
        resume_from == 0 ==> r is None,
        resume_from > 0 ==> (r matches Some(h) && h@ == "bytes="@ + decimal(resume_from as nat) + "-"@),
{
    if resume_from == 0 {
        return None;
    }
    let mut h = owned("bytes=");
    push_decimal(&mut h, resume_from);
    push_str(&mut h, "-");
    Some(h)
}

/// The transfer goes on from where it stopped: the server answered 206
/// (partial content) to a resumed request. With 200 it starts over.
pub fn is_resuming(status: u16, resume_from: u64) -> (r: bool)
    ensures
        r == (status == 206 && resume_from > 0),
{
    status == 206 && resume_from > 0
}

/// The full size of the file, when the server gave the length of what it
/// sends: that length, plus what was already on disk when resuming.
pub fn expected_total(body_len: Option<u64>, resuming: bool, resume_from: u64) -> (r: Option<u64>)
    requires
        resuming ==> (body_len matches Some(len) ==> (len + resume_from <= u64::MAX)),
    ensures
        r == (match body_len {
            Some(len) => Some(if resuming {
                (len + resume_from) as u64
            } else {
                len
            }),
            None => None,
        }),
{
    match body_len {
        Some(len) => Some(
            if resuming {
                len + resume_from
            } else {
                len
            },
        ),
        None => None,
    }
}

/// What the program around the queue can transfer with.
#[derive(Debug, Clone, Copy, PartialEq, Eq, Structural)]
pub enum Transport {
    /// Downloads only exist on Windows.
    Unsupported,
    /// On Windows, but the system TLS stack could not be set up.
    Missing,
    Ready,
}

pub struct Download {
    pub id: u64,
    pub label: String,
    pub url: String,
    pub dest: String,
    progress: Progress,
    cancel_requested: bool,
}

pub struct DownloadView {
    pub id: u64,
    pub label: Seq<char>,
    pub url: Seq<char>,
    pub dest: Seq<char>,
    pub progress: ProgressView,
    pub cancel_requested: bool,
}

impl View for Download {
    type V = DownloadView;

    closed spec fn view(&self) -> DownloadView {
        DownloadView {
            id: self.id,
            label: self.label@,
            url: self.url@,
            dest: self.dest@,
            progress: self.progress@,
            cancel_requested: self.cancel_requested,
        }
    }
}

impl Download {
    /// The progress as it stands.
    pub fn snapshot(&self) -> (p: Progress)
        ensures
            p@ == self@.progress,
    {
        self.progress.duplicate()
    }

    /// Asks it to stop: the transfer sees the request at its next block
    /// and leaves its `.part` behind to be resumed.
    pub fn cancel(&mut self)
        ensures
            final(self)@ == (DownloadView { cancel_requested: true, ..old(self)@ }),
    {
        self.cancel_requested = true;
    }

    /// Whether the user asked to stop it.
    pub fn cancel_requested(&self) -> (r: bool)
        ensures
            r == self@.cancel_requested,
    {
        self.cancel_requested
    }
}

pub open spec fn download_views(v: Seq<Download>) -> Seq<DownloadView> {
    v.map_values(|d: Download| d@)
}

/// How many downloads take up a transfer slot.
pub open spec fn count_active(items: Seq<DownloadView>) -> nat
    decreases items.len(),
{
    if items.len() == 0 {
        0
    } else {
        count_active(items.drop_last()) + if active(items.last().progress.state) {
            1nat
        } else {
            0nat
        }
    }
}

/// What starting a queued download turns it into.
pub open spec fn started_state(t: Transport) -> StateView {
    match t {
        Transport::Ready => StateView::Connecting,
        Transport::Missing => StateView::Failed("no hay transporte TLS disponible"@),
        Transport::Unsupported => StateView::Failed("las descargas solo estan disponibles en Windows"@),
    }
}

pub open spec fn with_state(d: DownloadView, s: StateView) -> DownloadView {
    DownloadView { progress: ProgressView { state: s, ..d.progress }, ..d }
}

/// Starting the queued downloads from position `i` on while fewer than
/// `max` take a slot: the downloads afterwards, and the ones the program
/// has to start.
pub open spec fn pumped(
    items: Seq<DownloadView>,
    i: int,
    running: nat,
    max: nat,
    t: Transport,
) -> (Seq<DownloadView>, Seq<u64>)
    decreases items.len() - i,
{
    if i < 0 || i >= items.len() || running >= max {
        (items, seq![])
    } else if !(items[i].progress.state is Queued) {
        pumped(items, i + 1, running, max, t)
    } else {
        let next = pumped(items.update(i, with_state(items[i], started_state(t))), i + 1, running + 1, max, t);
        (next.0, if t == Transport::Ready {
            seq![items[i].id] + next.1
        } else {
            next.1
        })
    }
}

/// The downloads that are not over yet, in order.
pub open spec fn unfinished(items: Seq<DownloadView>) -> Seq<DownloadView>
    decreases items.len(),
{
    if items.len() == 0 {
        seq![]
    } else if terminal(items.last().progress.state) {
        unfinished(items.drop_last())
    } else {
        unfinished(items.drop_last()).push(items.last())
    }
}

/// A queue with a ceiling on simultaneous transfers: ten at once do not
/// finish sooner and make the game being played feel the network noise.
pub struct Downloader {
    items: Vec<Download>,
    next_id: u64,
    max_concurrent: usize,
    transport: Transport,
    starts: Vec<u64>,
}

pub struct DownloaderView {
    pub items: Seq<DownloadView>,
    pub next_id: u64,
    pub max_concurrent: usize,
    pub transport: Transport,
    /// Downloads the program has to start, in order.
    pub starts: Seq<u64>,
}

impl View for Downloader {
    type V = DownloaderView;

    closed spec fn view(&self) -> DownloaderView {
        DownloaderView {
            items: download_views(self.items@),
            next_id: self.next_id,
            max_concurrent: self.max_concurrent,
            transport: self.transport,
            starts: self.starts@,
        }
    }
}

impl Downloader {
    /// A queue of at most `max_concurrent` transfers at once, kept between
    /// one and eight.
    pub fn new(max_concurrent: usize, transport: Transport) -> (d: Downloader)
        ensures
            d@.items.len() == 0,
            d@.next_id == 1,
            d@.max_concurrent == (if max_concurrent < 1 {
                1
            } else if max_concurrent > 8 {
                8
            } else {
                max_concurrent
            }),
            d@.transport == transport,
            d@.starts.len() == 0,
    {
        let max = if max_concurrent < 1 {
            1
        } else if max_concurrent > 8 {
            8
        } else {
            max_concurrent
        };
        let d = Downloader { items: Vec::new(), next_id: 1, max_concurrent: max, transport, starts: Vec::new() };
        assert(download_views(d.items@) =~= Seq::<DownloadView>::empty());
        d
    }

    pub fn items(&self) -> (v: &[Download])
        ensures
            download_views(v@) == self@.items,
    {
        self.items.as_slice()
    }

    pub fn max_concurrent(&self) -> (n: usize)
        ensures
            n == self@.max_concurrent,
    {
        self.max_concurrent
    }

    pub fn active_count(&self) -> (n: usize)
        ensures
            n == count_active(self@.items),
    {
        let ghost v = download_views(self.items@);
        let mut n: usize = 0;
        let mut i: usize = 0;
        while i < self.items.len()
            invariant
                i <= self.items.len(),
                v == download_views(self.items@),
                n == count_active(v.take(i as int)),
                n <= i,
            decreases self.items.len() - i,
        {
            assert(v.take(i + 1).drop_last() == v.take(i as int));
            assert(v[i as int] == self.items@[i as int]@);
            if self.items[i].progress.state.is_active() {
                n += 1;
            }
            i += 1;
        }
        assert(v.take(self.items.len() as int) == v);
        n
    }

    /// A transport is there to download with.
    pub fn is_available(&self) -> (r: bool)
        ensures
            r == (self@.transport == Transport::Ready),
    {
        self.transport == Transport::Ready
    }

    /// The downloads to start, handed over once.
    pub fn take_started(&mut self) -> (ids: Vec<u64>)
        ensures
            ids@ == old(self)@.starts,
            final(self)@ == (DownloaderView { starts: seq![], ..old(self)@ }),
    {
        let mut ids: Vec<u64> = Vec::new();
        std::mem::swap(&mut ids, &mut self.starts);
        ids
    }

    /// Starts the queued downloads that fit under the ceiling. Called once
    /// per frame.
    pub fn pump(&mut self)
        ensures
            ({
                let p = pumped(
                    old(self)@.items,
                    0,
                    count_active(old(self)@.items),
                    old(self)@.max_concurrent as nat,
                    old(self)@.transport,
                );
                final(self)@ == (DownloaderView { items: p.0, starts: old(self)@.starts + p.1, ..old(self)@ })
            }),
    {
        let mut running = self.active_count();
        let ghost starts0 = self.starts@;
        let ghost total = pumped(
            download_views(self.items@),
            0,
            running as nat,
            self.max_concurrent as nat,
            self.transport,
        );
        let mut i: usize = 0;
        while i < self.items.len() && running < self.max_concurrent
            invariant
                i <= self.items.len(),
                running <= self.max_concurrent || i == 0,
                ({
                    let rest = pumped(
                        download_views(self.items@),
                        i as int,
                        running as nat,
                        self.max_concurrent as nat,
                        self.transport,
                    );
                    rest.0 == total.0 && starts0 + total.1 == self.starts@ + rest.1
                }),
                self.next_id == old(self).next_id,
                self.max_concurrent == old(self).max_concurrent,
                self.transport == old(self).transport,
            decreases self.items.len() - i,
        {
            let queued = match self.items[i].progress.state {
                DownloadState::Queued => true,
                _ => false,
            };
            if queued {
                let new_state = match self.transport {
                    Transport::Ready => DownloadState::Connecting,
                    Transport::Missing => DownloadState::Failed(owned("no hay transporte TLS disponible")),
                    Transport::Unsupported => DownloadState::Failed(
                        owned("las descargas solo estan disponibles en Windows"),
                    ),
                };
                let ghost before = download_views(self.items@);
                let ghost old_starts = self.starts@;
                let mut item = self.items.remove(i);
                item.progress.state = new_state;
                let id = item.id;
                self.items.insert(i, item);
                assert(download_views(self.items@) =~= before.update(
                    i as int,
                    with_state(before[i as int], started_state(self.transport)),
                ));
                if self.transport == Transport::Ready {
                    self.starts.push(id);
                    assert(old_starts + seq![id] + pumped(
                        download_views(self.items@),
                        i + 1,
                        (running + 1) as nat,
                        self.max_concurrent as nat,
                        self.transport,
                    ).1 =~= self.starts@ + pumped(
                        download_views(self.items@),
                        i + 1,
                        (running + 1) as nat,
                        self.max_concurrent as nat,
                        self.transport,
                    ).1);
                }
                running += 1;
            }
            i += 1;
        }
        assert(self.starts@ + seq![] =~= self.starts@);
    }
}

/// The position of the first download with that id, if any.
pub open spec fn position_of(items: Seq<DownloadView>, id: u64) -> Option<int> {
    if exists|i: int| 0 <= i < items.len() && (#[trigger] items[i]).id == id {
        Some(choose|i: int| 0 <= i < items.len() && items[i].id == id && forall|j: int| 0 <= j < i ==> items[j].id != id)
    } else {
        None
    }
}

impl Downloader {
    fn find(&self, id: u64) -> (r: Option<usize>)
        ensures
            match r {
                Some(i) => i < self@.items.len() && self@.items[i as int].id == id && forall|j: int|
                    0 <= j < i ==> self@.items[j].id != id,
                None => forall|j: int| 0 <= j < self@.items.len() ==> self@.items[j].id != id,
            },
    {
        let mut i: usize = 0;
        while i < self.items.len()
            invariant
                i <= self.items.len(),
                forall|j: int| 0 <= j < i ==> self@.items[j].id != id,
            decreases self.items.len() - i,
        {
            assert(self@.items[i as int] == self.items@[i as int]@);
            if self.items[i].id == id {
                return Some(i);
            }
            i += 1;
        }
        None
    }

    /// Queues a download; gives its id. The queue is pumped at once.
    pub fn enqueue(&mut self, label: &str, url: &str, dest: &str) -> (id: u64)
        requires
            old(self)@.next_id < u64::MAX,
        ensures
            id == old(self)@.next_id,
            ({
                let queued = old(self)@.items.push(
                    DownloadView {
                        id,
                        label: label@,
                        url: url@,
                        dest: dest@,
                        progress: ProgressView { state: StateView::Queued, done: 0, total: None, speed_bps: 0 },
                        cancel_requested: false,
                    },
                );
                let p = pumped(queued, 0, count_active(queued), old(self)@.max_concurrent as nat, old(self)@.transport);
                final(self)@ == (DownloaderView {
                    items: p.0,
                    next_id: (id + 1) as u64,
                    starts: old(self)@.starts + p.1,
                    ..old(self)@
                })
            }),
    {
        let id = self.next_id;
        self.next_id = self.next_id + 1;
        let d = Download {
            id,
            label: owned(label),
            url: owned(url),
            dest: owned(dest),
            progress: Progress::default(),
            cancel_requested: false,
        };
        let ghost before = download_views(self.items@);
        self.items.push(d);
        assert(download_views(self.items@) =~= before.push(d@));
        self.pump();
        id
    }

    /// Asks the download with that id to stop.
    pub fn cancel(&mut self, id: u64)
        ensures
            match position_of(old(self)@.items, id) {
                Some(i) => final(self)@ == (DownloaderView {
                    items: old(self)@.items.update(i, DownloadView { cancel_requested: true, ..old(self)@.items[i] }),
                    ..old(self)@
                }),
                None => final(self)@ == old(self)@,
            },
    {
        match self.find(id) {
            Some(i) => {
                let ghost before = download_views(self.items@);
                let mut item = self.items.remove(i);
                item.cancel();
                self.items.insert(i, item);
                assert(download_views(self.items@) =~= before.update(
                    i as int,
                    DownloadView { cancel_requested: true, ..before[i as int] },
                ));
                proof {
                    let k = choose|k: int| 0 <= k < before.len() && before[k].id == id && forall|j: int| 0 <= j < k ==> before[j].id != id;
                    if k < i {
                    } else if k > i {
                        assert(before[i as int].id == id);
                    }
                }
            },
            None => {},
        }
    }

    /// The program reports how a transfer goes.
    pub fn set_progress(&mut self, id: u64, progress: Progress)
        ensures
            match position_of(old(self)@.items, id) {
                Some(i) => final(self)@ == (DownloaderView {
                    items: old(self)@.items.update(i, DownloadView { progress: progress@, ..old(self)@.items[i] }),
                    ..old(self)@
                }),
                None => final(self)@ == old(self)@,
            },
    {
        match self.find(id) {
            Some(i) => {
                let ghost before = download_views(self.items@);
                let mut item = self.items.remove(i);
                item.progress = progress;
                self.items.insert(i, item);
                assert(download_views(self.items@) =~= before.update(
                    i as int,
                    DownloadView { progress: progress@, ..before[i as int] },
                ));
                proof {
                    let k = choose|k: int| 0 <= k < before.len() && before[k].id == id && forall|j: int| 0 <= j < k ==> before[j].id != id;
                    if k < i {
                    } else if k > i {
                        assert(before[i as int].id == id);
                    }
                }
            },
            None => {},
        }
    }

    /// Drops the finished downloads from the list.
    pub fn clear_finished(&mut self)
        ensures
            final(self)@ == (DownloaderView { items: unfinished(old(self)@.items), ..old(self)@ }),
    {
        let ghost v = download_views(self.items@);
        let mut old_items: Vec<Download> = Vec::new();
        std::mem::swap(&mut old_items, &mut self.items);
        let mut kept: Vec<Download> = Vec::new();
        let mut rest = old_items;
        let ghost mut taken: int = 0;
        assert(v.subrange(0, v.len() as int) =~= v);
        while rest.len() > 0
            invariant
                download_views(rest@) == v.subrange(taken, v.len() as int),
                0 <= taken <= v.len(),
                rest@.len() == v.len() - taken,
                download_views(kept@) == unfinished(v.take(taken)),
            decreases rest.len(),
        {
            let ghost before_rest = download_views(rest@);
            let item = rest.remove(0);
            proof {
                assert(item@ == before_rest[0]);
                assert(item@ == v[taken]);
                assert(v.take(taken + 1).drop_last() == v.take(taken));
                assert(v.take(taken + 1).last() == v[taken]);
            }
            if !item.progress.state.is_terminal() {
                let ghost before = download_views(kept@);
                kept.push(item);
                assert(download_views(kept@) =~= before.push(v[taken]));
            }
            proof {
                assert(download_views(rest@) =~= before_rest.drop_first());
                assert(v.subrange(taken + 1, v.len() as int) =~= v.subrange(taken, v.len() as int).drop_first());
                taken = taken + 1;
            }
        }
        assert(v.take(v.len() as int) == v);
        self.items = kept;
    }
}

} // verus!
