//! The page-discovery state machine.
//!
//! A seed response numbers the pages that still lack a source and queues
//! them. Each later response may resolve several pages at once; every page
//! that it resolves for the first time becomes one download task. A page is
//! handed out for download at most once, however often it reappears.
use vstd::prelude::*;
use crate::error::ScrapeError;
use crate::html::strings_view;
use crate::locator::same_text;
use crate::metadata::ContentType;
use crate::types::{Coordinates, IssueJson, PageJson, TileRes};

verus! {

/// Full-resolution geometry of a tiled page, and where its scan sits.
#[derive(Debug, Clone, Copy, PartialEq, Eq, Structural)]
pub struct TileGeometry {
    pub width: u32,
    pub height: u32,
    pub zoom: u32,
    pub x: u32,
    pub y: u32,
}

/// The geometry of the highest resolution among `tiles`.
pub open spec fn geometry_of(tiles: Seq<TileRes>, c: Coordinates) -> TileGeometry {
    let t = tiles.last();
    TileGeometry { width: t.width, height: t.height, zoom: t.zoom, x: c.x, y: c.y }
}

/// A page entry of a discovery response, as plain values.
pub struct EntryModel {
    pub pid: Seq<char>,
    pub src: Option<Seq<char>>,
    pub info: Option<(Seq<TileRes>, Coordinates)>,
}

pub open spec fn entry_view(p: PageJson) -> EntryModel {
    EntryModel {
        pid: p.pid@,
        src: match p.src {
            Some(s) => Some(s@),
            None => None,
        },
        info: match p.additional_info {
            Some(a) => match a.newspaper_json_page_info {
                Some(n) => Some((n.tile_res@, n.page_scanjob_coordinates)),
                None => None,
            },
            None => None,
        },
    }
}

pub open spec fn entries_view(i: IssueJson) -> Seq<EntryModel> {
    i.page@.map_values(|p: PageJson| entry_view(p))
}

/// A page to download.
pub struct PageTask {
    /// 1-based sequence number of the page.
    pub number: usize,
    pub pid: String,
    /// Source address of the page image.
    pub src: String,
    /// Geometry for a reconstruction from tiles; `None` for a single fetch.
    pub tiles: Option<TileGeometry>,
}

pub struct TaskModel {
    pub number: nat,
    pub pid: Seq<char>,
    pub src: Seq<char>,
    pub tiles: Option<TileGeometry>,
}

impl View for PageTask {
    type V = TaskModel;

    open spec fn view(&self) -> TaskModel {
        TaskModel { number: self.number as nat, pid: self.pid@, src: self.src@, tiles: self.tiles }
    }
}

pub open spec fn tasks_view(v: Seq<PageTask>) -> Seq<TaskModel> {
    v.map_values(|t: PageTask| t@)
}

pub open spec fn task_pids(ts: Seq<TaskModel>) -> Seq<Seq<char>> {
    ts.map_values(|t: TaskModel| t.pid)
}

/// The state of the discovery of one document's pages.
pub struct Pagination {
    order: Vec<String>,
    seeded: usize,
    head: usize,
    completed: Vec<String>,
    first_page: String,
}

/// The mathematical state of a discovery. Page `order[k]` has number `k + 1`;
/// the first `seeded` pages came from the seed response, and those from
/// `head` on are still queued.
pub struct PaginationModel {
    pub order: Seq<Seq<char>>,
    pub seeded: nat,
    pub head: nat,
    pub completed: Seq<Seq<char>>,
    pub first_page: Seq<char>,
}

impl View for Pagination {
    type V = PaginationModel;

    closed spec fn view(&self) -> PaginationModel {
        PaginationModel {
            order: strings_view(self.order@),
            seeded: self.seeded as nat,
            head: self.head as nat,
            completed: strings_view(self.completed@),
            first_page: self.first_page@,
        }
    }
}

impl PaginationModel {
    pub open spec fn wf(self) -> bool {
        &&& self.order.no_duplicates()
        &&& self.completed.no_duplicates()
        &&& self.head <= self.seeded <= self.order.len()
    }
}

/// The pages that a seed response numbers, in order: those without a source,
/// each once.
pub open spec fn seed_order(es: Seq<EntryModel>) -> Seq<Seq<char>>
    decreases es.len(),
{
    if es.len() == 0 {
        Seq::empty()
    } else {
        let o = seed_order(es.drop_last());
        let e = es.last();
        if e.src is None && !o.contains(e.pid) {
            o.push(e.pid)
        } else {
            o
        }
    }
}

/// The state after the seed response `es`: the first numbered page is the
/// context page, `"1"` where there is none.
pub open spec fn seeded_model(es: Seq<EntryModel>) -> PaginationModel {
    let o = seed_order(es);
    PaginationModel {
        order: o,
        seeded: o.len(),
        head: 0,
        completed: Seq::empty(),
        first_page: if o.len() > 0 {
            o[0]
        } else {
            "1"@
        },
    }
}

/// The next queued page that is not yet complete, and the queue position after
/// it.
pub open spec fn next_pending(
    order: Seq<Seq<char>>,
    seeded: int,
    head: int,
    completed: Seq<Seq<char>>,
) -> (Option<Seq<char>>, int)
    decreases seeded - head,
{
    if head >= seeded || head < 0 {
        (None, head)
    } else if completed.contains(order[head]) {
        next_pending(order, seeded, head + 1, completed)
    } else {
        (Some(order[head]), head + 1)
    }
}

/// Progress through one discovery response.
pub struct BatchState {
    pub order: Seq<Seq<char>>,
    pub completed: Seq<Seq<char>>,
    pub tasks: Seq<TaskModel>,
}

/// The number of page `pid` in `order`.
pub open spec fn number_in(order: Seq<Seq<char>>, pid: Seq<char>) -> nat {
    ((choose|i: int| 0 <= i < order.len() && order[i] == pid) + 1) as nat
}

/// The effect of one entry of a discovery response for page `requested`;
/// `None` where a tiled entry lists no resolution.
pub open spec fn entry_step(
    s: BatchState,
    e: EntryModel,
    requested: Seq<char>,
    kind: ContentType,
) -> Option<BatchState> {
    let tiled = kind == ContentType::Newspaper && e.info is Some;
    let (resolutions, coords) = match e.info {
        Some(info) => info,
        None => (Seq::empty(), Coordinates { x: 0, y: 0 }),
    };
    match e.src {
        None => Some(s),
        Some(src) => if s.completed.contains(e.pid) {
            Some(s)
        } else if tiled && resolutions.len() == 0 {
            None
        } else if kind == ContentType::Newspaper && !tiled && e.pid != requested {
            Some(s)
        } else {
            let order = if s.order.contains(e.pid) {
                s.order
            } else {
                s.order.push(e.pid)
            };
            let task = TaskModel {
                number: number_in(order, e.pid),
                pid: e.pid,
                src: src,
                tiles: if tiled {
                    Some(geometry_of(resolutions, coords))
                } else {
                    None
                },
            };
            Some(
                BatchState {
                    order: order,
                    completed: s.completed.push(e.pid),
                    tasks: s.tasks.push(task),
                },
            )
        },
    }
}

pub open spec fn batch_from(
    s: BatchState,
    es: Seq<EntryModel>,
    requested: Seq<char>,
    kind: ContentType,
) -> Option<BatchState>
    decreases es.len(),
{
    if es.len() == 0 {
        Some(s)
    } else {
        match batch_from(s, es.drop_last(), requested, kind) {
            Some(s2) => entry_step(s2, es.last(), requested, kind),
            None => None,
        }
    }
}

/// The state and the download tasks after the response `es` for page
/// `requested`; `None` where the response is malformed.
pub open spec fn step_model(
    m: PaginationModel,
    requested: Seq<char>,
    es: Seq<EntryModel>,
    kind: ContentType,
) -> Option<(PaginationModel, Seq<TaskModel>)> {
    match batch_from(
        BatchState { order: m.order, completed: m.completed, tasks: Seq::empty() },
        es,
        requested,
        kind,
    ) {
        Some(b) => Some((PaginationModel { order: b.order, completed: b.completed, ..m }, b.tasks)),
        None => None,
    }
}

/// Where `x` stands in `v`.
pub fn find_text(v: &Vec<String>, x: &str) -> (r: Option<usize>)
    ensures
        match r {
            Some(i) => i < v@.len() && v@[i as int]@ == x@,
            None => !strings_view(v@).contains(x@),
        },
{
    let mut i: usize = 0;
    while i < v.len()
        invariant
            i <= v@.len(),
            forall|j: int| 0 <= j < i ==> v@[j]@ != x@,
        decreases v@.len() - i,
    {
        if same_text(v[i].as_str(), x) {
            return Some(i);
        }
        i = i + 1;
    }
    assert forall|j: int| 0 <= j < strings_view(v@).len() implies strings_view(v@)[j] != x@ by {
        assert(v@[j]@ != x@);
    }
    None
}

proof fn lemma_number_in(order: Seq<Seq<char>>, i: int)
    requires
        order.no_duplicates(),
        0 <= i < order.len(),
    ensures
        number_in(order, order[i]) == i + 1,
{
    let pid = order[i];
    assert(0 <= i < order.len() && order[i] == pid);
    let c = choose|k: int| 0 <= k < order.len() && order[k] == pid;
    assert(c == i);
}

proof fn lemma_batch_stays_none(
    s: BatchState,
    es: Seq<EntryModel>,
    requested: Seq<char>,
    kind: ContentType,
    i: int,
)
    requires
        0 <= i <= es.len(),
        batch_from(s, es.subrange(0, i), requested, kind) is None,
    ensures
        batch_from(s, es, requested, kind) is None,
    decreases es.len() - i,
{
    if i < es.len() {
        assert(es.subrange(0, i + 1).drop_last() =~= es.subrange(0, i));
        lemma_batch_stays_none(s, es, requested, kind, i + 1);
    } else {
        assert(es.subrange(0, i) =~= es);
    }
}

proof fn lemma_seed_distinct(es: Seq<EntryModel>)
    ensures
        seed_order(es).no_duplicates(),
    decreases es.len(),
{
    if es.len() > 0 {
        lemma_seed_distinct(es.drop_last());
    }
}

fn geometry_from(tiles: &Vec<TileRes>, c: Coordinates) -> (r: TileGeometry)
    requires
        tiles@.len() > 0,
    ensures
        r == geometry_of(tiles@, c),
{
    let t = tiles[tiles.len() - 1];
    TileGeometry { width: t.width, height: t.height, zoom: t.zoom, x: c.x, y: c.y }
}

impl Pagination {
    pub closed spec fn wf(&self) -> bool {
        &&& self@.wf()
    }

    /// The state after the seed response: each page without a source, in
    /// order of first appearance, gets the next number from 1 and is queued.
    pub fn seed(issue: &IssueJson) -> (r: Pagination)
        ensures
            r.wf(),
            r@ == seeded_model(entries_view(*issue)),
    {
        let ghost es = entries_view(*issue);
        let mut order: Vec<String> = Vec::new();
        let mut i: usize = 0;
        assert(es.subrange(0, 0) =~= Seq::<EntryModel>::empty());
        while i < issue.page.len()
            invariant
                i <= issue.page@.len(),
                es == entries_view(*issue),
                strings_view(order@) == seed_order(es.subrange(0, i as int)),
                order@.len() <= i,
            decreases issue.page@.len() - i,
        {
            let p = &issue.page[i];
            assert(es.subrange(0, i + 1).drop_last() =~= es.subrange(0, i as int));
            assert(es.subrange(0, i + 1).last() == entry_view(issue.page@[i as int]));
            let ghost o = seed_order(es.subrange(0, i as int));
            if p.src.is_none() {
                match find_text(&order, p.pid.as_str()) {
                    None => {
                        order.push(p.pid.clone());
                        assert(strings_view(order@) =~= o.push(p.pid@));
                    },
                    Some(j) => {
                        assert(o[j as int] == p.pid@);
                    },
                }
            }
            assert(strings_view(order@) == seed_order(es.subrange(0, i + 1)));
            i = i + 1;
        }
        assert(es.subrange(0, i as int) =~= es);
        proof {
            lemma_seed_distinct(es);
        }
        let first_page = if order.len() > 0 {
            order[0].clone()
        } else {
            String::from_str("1")
        };
        let n = order.len();
        let r = Pagination { order, seeded: n, head: 0, completed: Vec::new(), first_page };
        assert(r@.completed =~= Seq::<Seq<char>>::empty());
        r
    }

    /// The context page that every later request names.
    pub fn first_page(&self) -> (r: &str)
        ensures
            r@ == self@.first_page,
    {
        self.first_page.as_str()
    }

    /// How many pages have a number.
    pub fn page_count(&self) -> (r: usize)
        ensures
            r == self@.order.len(),
    {
        self.order.len()
    }

    /// The number of page `pid`, if it has one.
    pub fn number_of(&self, pid: &str) -> (r: Option<usize>)
        requires
            self.wf(),
        ensures
            match r {
                Some(n) => 1 <= n <= self@.order.len() && self@.order[n - 1] == pid@ && n
                    == number_in(self@.order, pid@),
                None => !self@.order.contains(pid@),
            },
    {
        let n = self.order.len();
        match find_text(&self.order, pid) {
            Some(i) => {
                proof {
                    lemma_number_in(self@.order, i as int);
                }
                Some(i + 1)
            },
            None => None,
        }
    }

    /// Whether page `pid` has been handed out for download.
    pub fn is_completed(&self, pid: &str) -> (r: bool)
        ensures
            r == self@.completed.contains(pid@),
    {
        match find_text(&self.completed, pid) {
            Some(i) => {
                assert(self@.completed[i as int] == pid@);
                true
            },
            None => false,
        }
    }

    /// Takes the next queued page that is not yet complete; `None` once the
    /// queue is empty.
    pub fn next_request(&mut self) -> (r: Option<String>)
        requires
            old(self).wf(),
        ensures
            final(self).wf(),
            (match r {
                Some(s) => Some(s@),
                None => None,
            }, final(self)@.head as int) == next_pending(
                old(self)@.order,
                old(self)@.seeded as int,
                old(self)@.head as int,
                old(self)@.completed,
            ),
            final(self)@ == (PaginationModel { head: final(self)@.head, ..old(self)@ }),
    {
        while self.head < self.seeded
            invariant
                self.wf(),
                self@.order == old(self)@.order,
                self@.completed == old(self)@.completed,
                self@.seeded == old(self)@.seeded,
                self@.first_page == old(self)@.first_page,
                old(self)@.head <= self@.head,
                next_pending(
                    old(self)@.order,
                    old(self)@.seeded as int,
                    old(self)@.head as int,
                    old(self)@.completed,
                ) == next_pending(
                    self@.order,
                    self@.seeded as int,
                    self@.head as int,
                    self@.completed,
                ),
            decreases self.seeded - self.head,
        {
            let h = self.head;
            self.head = h + 1;
            assert(self@.order[h as int] == self.order@[h as int]@);
            if !self.is_completed(self.order[h].as_str()) {
                return Some(self.order[h].clone());
            }
        }
        None
    }
    /// Takes the response to the request for page `requested`: every entry
    /// with a source whose page is not yet complete becomes a download task,
    /// in response order, and its page becomes complete. A page first seen
    /// here gets the number after the highest so far. For a newspaper, an
    /// entry with tile information becomes a tiled task, and an entry without
    /// it is only taken where it is the requested page. Fails with
    /// `ParseError` where tile information lists no resolution.
    pub fn take_batch(&mut self, requested: &str, batch: &IssueJson, kind: ContentType) -> (r: Result<
        Vec<PageTask>,
        ScrapeError,
    >)
        requires
            old(self).wf(),
        ensures
            match step_model(old(self)@, requested@, entries_view(*batch), kind) {
                Some(res) => r is Ok && final(self)@ == res.0 && tasks_view(r->Ok_0@) == res.1
                    && final(self).wf(),
                None => r == Err::<Vec<PageTask>, ScrapeError>(ScrapeError::ParseError),
            },
    {
        let ghost es = entries_view(*batch);
        let ghost s0 = BatchState {
            order: self@.order,
            completed: self@.completed,
            tasks: Seq::empty(),
        };
        let mut tasks: Vec<PageTask> = Vec::new();
        let mut i: usize = 0;
        assert(es.subrange(0, 0) =~= Seq::<EntryModel>::empty());
        assert(tasks_view(tasks@) =~= Seq::<TaskModel>::empty());
        while i < batch.page.len()
            invariant
                i <= batch.page@.len(),
                es == entries_view(*batch),
                self.wf(),
                self@.seeded == old(self)@.seeded,
                self@.head == old(self)@.head,
                self@.first_page == old(self)@.first_page,
                s0 == (BatchState {
                    order: old(self)@.order,
                    completed: old(self)@.completed,
                    tasks: Seq::empty(),
                }),
                batch_from(s0, es.subrange(0, i as int), requested@, kind) == Some(
                    BatchState {
                        order: self@.order,
                        completed: self@.completed,
                        tasks: tasks_view(tasks@),
                    },
                ),
            decreases batch.page@.len() - i,
        {
            let p = &batch.page[i];
            let ghost cur = BatchState {
                order: self@.order,
                completed: self@.completed,
                tasks: tasks_view(tasks@),
            };
            assert(es.subrange(0, i + 1).drop_last() =~= es.subrange(0, i as int));
            assert(es.subrange(0, i + 1).last() == entry_view(batch.page@[i as int]));
            let ghost e = entry_view(batch.page@[i as int]);
            if let Some(src) = &p.src {
                if !self.is_completed(p.pid.as_str()) {
                    let info = match &p.additional_info {
                        Some(a) => match &a.newspaper_json_page_info {
                            Some(n) => Some(n),
                            None => None,
                        },
                        None => None,
                    };
                    let newspaper = kind == ContentType::Newspaper;
                    let mut take = true;
                    let mut tiles: Option<TileGeometry> = None;
                    if newspaper {
                        match info {
                            Some(n) => {
                                if n.tile_res.len() == 0 {
                                    assert(entry_step(cur, e, requested@, kind) is None);
                                    proof {
                                        lemma_batch_stays_none(s0, es, requested@, kind, i + 1);
                                    }
                                    return Err(ScrapeError::ParseError);
                                }
                                tiles = Some(geometry_from(&n.tile_res, n.page_scanjob_coordinates));
                            },
                            None => {
                                take = same_text(p.pid.as_str(), requested);
                            },
                        }
                    }
                    if take {
                        let ghost o = self@.order;
                        let known = self.order.len();
                        let number = match find_text(&self.order, p.pid.as_str()) {
                            Some(j) => {
                                assert(o[j as int] == p.pid@);
                                proof {
                                    lemma_number_in(o, j as int);
                                }
                                j + 1
                            },
                            None => {
                                self.order.push(p.pid.clone());
                                assert(self@.order =~= o.push(p.pid@));
                                let n = self.order.len();
                                proof {
                                    lemma_number_in(self@.order, n - 1);
                                }
                                n
                            },
                        };
                        let ghost c = self@.completed;
                        self.completed.push(p.pid.clone());
                        assert(self@.completed =~= c.push(p.pid@));
                        let task = PageTask { number, pid: p.pid.clone(), src: src.clone(), tiles };
                        let ghost tv = tasks_view(tasks@);
                        tasks.push(task);
                        assert(tasks_view(tasks@) =~= tv.push(task@));
                    }
                }
            }
            i = i + 1;
        }
        assert(es.subrange(0, i as int) =~= es);
        Ok(tasks)
    }
}

/// The state and all download tasks after the responses `steps` in turn, each
/// paired with the page it answers; `None` where one is malformed.
pub open spec fn run_model(
    m: PaginationModel,
    steps: Seq<(Seq<char>, Seq<EntryModel>)>,
    kind: ContentType,
) -> Option<(PaginationModel, Seq<TaskModel>)>
    decreases steps.len(),
{
    if steps.len() == 0 {
        Some((m, Seq::empty()))
    } else {
        match run_model(m, steps.drop_last(), kind) {
            Some(r) => match step_model(r.0, steps.last().0, steps.last().1, kind) {
                Some(r2) => Some((r2.0, r.1 + r2.1)),
                None => None,
            },
            None => None,
        }
    }
}

proof fn lemma_batch_completes(
    s: BatchState,
    es: Seq<EntryModel>,
    requested: Seq<char>,
    kind: ContentType,
)
    requires
        s.tasks.len() == 0,
        s.completed.no_duplicates(),
        batch_from(s, es, requested, kind) is Some,
    ensures
        batch_from(s, es, requested, kind)->Some_0.completed == s.completed + task_pids(
            batch_from(s, es, requested, kind)->Some_0.tasks,
        ),
        batch_from(s, es, requested, kind)->Some_0.completed.no_duplicates(),
    decreases es.len(),
{
    if es.len() == 0 {
        assert(s.completed + task_pids(s.tasks) =~= s.completed);
    } else {
        lemma_batch_completes(s, es.drop_last(), requested, kind);
        let b = batch_from(s, es.drop_last(), requested, kind)->Some_0;
        let b2 = batch_from(s, es, requested, kind)->Some_0;
        if b2 != b {
            let e = es.last();
            assert(!b.completed.contains(e.pid));
            assert(b2.completed == b.completed.push(e.pid));
            assert(task_pids(b2.tasks) =~= task_pids(b.tasks).push(e.pid));
            assert(b2.completed =~= s.completed + task_pids(b2.tasks));
        }
    }
}

proof fn lemma_run_completes(
    m: PaginationModel,
    steps: Seq<(Seq<char>, Seq<EntryModel>)>,
    kind: ContentType,
)
    requires
        m.completed.no_duplicates(),
        run_model(m, steps, kind) is Some,
    ensures
        run_model(m, steps, kind)->Some_0.0.completed == m.completed + task_pids(
            run_model(m, steps, kind)->Some_0.1,
        ),
        run_model(m, steps, kind)->Some_0.0.completed.no_duplicates(),
    decreases steps.len(),
{
    if steps.len() == 0 {
        assert(m.completed + task_pids(Seq::<TaskModel>::empty()) =~= m.completed);
    } else {
        lemma_run_completes(m, steps.drop_last(), kind);
        let r = run_model(m, steps.drop_last(), kind)->Some_0;
        let s0 = BatchState { order: r.0.order, completed: r.0.completed, tasks: Seq::empty() };
        lemma_batch_completes(s0, steps.last().1, steps.last().0, kind);
        let r2 = step_model(r.0, steps.last().0, steps.last().1, kind)->Some_0;
        assert(task_pids(r.1 + r2.1) =~= task_pids(r.1) + task_pids(r2.1));
        assert(r2.0.completed =~= m.completed + task_pids(r.1 + r2.1));
    }
}

/// Each page is handed out for download at most once, over any sequence of
/// discovery responses: the tasks of all responses name distinct pages, and
/// none of them was complete before the first response.
pub proof fn lemma_each_page_downloaded_once(
    m: PaginationModel,
    steps: Seq<(Seq<char>, Seq<EntryModel>)>,
    kind: ContentType,
)
    requires
        m.wf(),
        run_model(m, steps, kind) is Some,
    ensures
        task_pids(run_model(m, steps, kind)->Some_0.1).no_duplicates(),
        forall|k: int|
            0 <= k < run_model(m, steps, kind)->Some_0.1.len() ==> !m.completed.contains(
                #[trigger] run_model(m, steps, kind)->Some_0.1[k].pid,
            ),
{
    lemma_run_completes(m, steps, kind);
    let ts = run_model(m, steps, kind)->Some_0.1;
    let c = m.completed;
    let all = c + task_pids(ts);
    assert(all.no_duplicates());
    assert forall|i: int, j: int|
        0 <= i < task_pids(ts).len() && 0 <= j < task_pids(ts).len() && i != j implies task_pids(
        ts,
    )[i] != task_pids(ts)[j] by {
        assert(all[c.len() + i] == task_pids(ts)[i]);
        assert(all[c.len() + j] == task_pids(ts)[j]);
    }
    assert forall|k: int| 0 <= k < ts.len() implies !c.contains(#[trigger] ts[k].pid) by {
        if c.contains(ts[k].pid) {
            let x = choose|x: int| 0 <= x < c.len() && c[x] == ts[k].pid;
            assert(all[x] == all[c.len() + k]);
        }
    }
}

} // verus!
