//! Selection of a backend at run time, and fail-over between backends.
use vstd::prelude::*;

use crate::capability::Capability;
use crate::error::{BackendError, Status};

verus! {

/// A live backend instance, as the manager drives it.
///
/// Implementors own the OS resources that they acquire and release them when
/// dropped. `capabilities` reports what the instance can observe (nothing at all
/// means that it is not supported here). An instance is active while a
/// successful bind is in force and events are delivered: `bind` watches every
/// given path and makes the instance active, or fails and leaves it as it was;
/// `unsubscribe` stops delivery, bound or not. Neither changes the capabilities.
pub trait Life {
    /// Whether a successful bind is in force and events are delivered.
    spec fn is_active(&self) -> bool;

    /// The capabilities that the instance offers.
    spec fn caps(&self) -> Vec<Capability>;

    /// The paths handed to the last `bind`, and what it returned, if it was called.
    spec fn last_bind(&self) -> Option<(Vec<Vec<u8>>, Status)>;

    fn capabilities(&self) -> (r: Vec<Capability>)
        ensures
            r@ == self.caps()@,
    ;

    fn unsubscribe(&mut self)
        ensures
            !final(self).is_active(),
            final(self).caps() == old(self).caps(),
            final(self).last_bind() == old(self).last_bind(),
    ;

    fn bind(&mut self, paths: &[Vec<u8>]) -> (r: Status)
        ensures
            final(self).last_bind() matches Some((p, x)) && p@ == paths@ && x == r,
            final(self).caps() == old(self).caps(),
            r is Ok ==> final(self).is_active(),
            r is Err ==> final(self).is_active() == old(self).is_active(),
    ;

    fn active(&self) -> (r: bool)
        ensures
            r == self.is_active(),
    ;
}

/// Whether the last `bind` of `l` was handed `paths` and returned `s`.
pub open spec fn bound_with<L: Life>(l: &L, paths: Seq<Vec<u8>>, s: Status) -> bool {
    l.last_bind() matches Some((p, x)) && p@ == paths && x == s
}

/// Whether a bind outcome ends the search: a success, or a failure in which
/// some path does not exist.
pub fn settles(r: &Status) -> (b: bool)
    ensures
        b == !soft(*r),
{
    match r {
        Ok(_) => true,
        Err(e) => e.is_fatal(),
    }
}

/// Builds a backend instance against the reactor and the task executor.
pub trait Construct<L> {
    fn construct(
        &self,
        handle: &tokio::reactor::Handle,
        executor: &tokio::runtime::TaskExecutor,
    ) -> Result<L, BackendError>;
}

/// A registered way of building one backend, with a name to show.
pub struct Selector<F> {
    pub f: F,
    pub name: String,
}

/// An instance kept by `enliven`, with the capabilities it reported and the
/// index of the selector that built it.
pub struct Live<L> {
    pub life: L,
    pub capabilities: Vec<Capability>,
    pub selector: usize,
}

/// Whether a bind outcome lets the search go on to the next backend.
pub open spec fn soft(s: Status) -> bool {
    s is Err && !s->Err_0.fatal()
}

/// The indices of the selectors whose instances were built and reported some
/// capability, in order (`None` stands for a selector whose instance could not
/// be built).
pub open spec fn kept(reported: Seq<Option<Seq<Capability>>>) -> Seq<int>
    decreases reported.len(),
{
    if reported.len() == 0 {
        Seq::empty()
    } else {
        let rest = kept(reported.drop_last());
        if reported.last() matches Some(c) && c.len() > 0 {
            rest.push(reported.len() - 1)
        } else {
            rest
        }
    }
}

/// The indices of the selectors whose instances could not be built, in order.
pub open spec fn failed(reported: Seq<Option<Seq<Capability>>>) -> Seq<int>
    decreases reported.len(),
{
    if reported.len() == 0 {
        Seq::empty()
    } else {
        let rest = failed(reported.drop_last());
        if reported.last() is None {
            rest.push(reported.len() - 1)
        } else {
            rest
        }
    }
}

/// Whether `rs` is a run of the fail-over search over `n` live backends: every
/// report but the last is soft, and the search ended early only on a success
/// or a fatal failure.
pub open spec fn search_run(rs: Seq<Status>, n: nat) -> bool {
    &&& rs.len() <= n
    &&& forall|k: int| 0 <= k < rs.len() - 1 ==> soft(#[trigger] rs[k])
    &&& rs.len() < n ==> rs.len() > 0 && !soft(rs.last())
}

/// Whether `r` is what `bind` returns over `n` live backends that reported
/// `rs`, in the order tried: the last report, or the no-backend error when
/// none was tried.
pub open spec fn bind_outcome(rs: Seq<Status>, n: nat, r: Status) -> bool {
    &&& search_run(rs, n)
    &&& rs.len() == 0 ==> r is Err && r->Err_0.is_no_backend()
    &&& rs.len() > 0 ==> r == rs.last()
}

/// What `bind` does to the live instances, `before` and `after`, once the
/// backends tried have reported `rs`: each one tried was handed `paths` and
/// returned its report; the others were not asked. On success the last one
/// tried is the only active instance, the others having been unsubscribed
/// where they were active; on failure every instance is as active as it was.
pub open spec fn bind_effect<L: Life>(
    before: Seq<Live<L>>,
    after: Seq<Live<L>>,
    paths: Seq<Vec<u8>>,
    rs: Seq<Status>,
    r: Status,
) -> bool {
    &&& after.len() == before.len()
    &&& rs.len() <= before.len()
    &&& forall|k: int| 0 <= k < rs.len() ==> bound_with(&(#[trigger] after[k]).life, paths, rs[k])
    &&& forall|k: int|
        0 <= k < after.len() ==> (#[trigger] after[k]).capabilities == before[k].capabilities
            && after[k].selector == before[k].selector && after[k].life.caps() == before[k].life.caps()
    &&& forall|k: int|
        rs.len() <= k < after.len() ==> (#[trigger] after[k]).life.last_bind() == before[k].life.last_bind()
    &&& forall|k: int|
        rs.len() <= k < after.len() && !before[k].life.is_active() ==> #[trigger] after[k] == before[k]
    &&& r is Ok ==> rs.len() > 0 && forall|k: int|
        0 <= k < after.len() ==> ((#[trigger] after[k]).life.is_active() <==> k == rs.len() - 1)
    &&& r is Err ==> forall|k: int|
        0 <= k < after.len() ==> (#[trigger] after[k]).life.is_active() == before[k].life.is_active()
}

/// A success ends the search: no backend after the one that accepted the
/// paths is tried, and the success is returned.
pub proof fn success_stops_search(rs: Seq<Status>, n: nat, r: Status, k: int)
    requires
        bind_outcome(rs, n, r),
        0 <= k < rs.len(),
        rs[k] is Ok,
    ensures
        rs.len() == k + 1,
        r is Ok,
{
    if k < rs.len() - 1 {
        assert(soft(rs[k]));
    }
}

/// A failure in which some path does not exist ends the search, wherever the
/// failing backend stands, and is returned as it is.
pub proof fn fatal_stops_search(rs: Seq<Status>, n: nat, r: Status, k: int)
    requires
        bind_outcome(rs, n, r),
        0 <= k < rs.len(),
        rs[k] is Err,
        rs[k]->Err_0.fatal(),
    ensures
        rs.len() == k + 1,
        r == rs[k],
{
    if k < rs.len() - 1 {
        assert(soft(rs[k]));
    }
}

/// When every backend tried fails softly, all of them were tried and the last
/// one's failure is returned.
pub proof fn soft_failures_return_last(rs: Seq<Status>, n: nat, r: Status)
    requires
        bind_outcome(rs, n, r),
        n > 0,
        forall|k: int| 0 <= k < rs.len() ==> soft(#[trigger] rs[k]),
    ensures
        rs.len() == n,
        r == rs[n - 1],
{
    if rs.len() < n {
        assert(soft(rs[rs.len() - 1]));
    }
}

/// With no live backend nothing is tried, and the no-backend error is returned.
pub proof fn empty_live_list_has_no_backend(rs: Seq<Status>, r: Status)
    requires
        bind_outcome(rs, 0, r),
    ensures
        rs.len() == 0,
        r is Err,
        r->Err_0.is_no_backend(),
{
}

/// The index of the first active instance of `lives`, if any.
pub open spec fn first_active<L: Life>(lives: Seq<Live<L>>) -> Option<usize>
    decreases lives.len(),
{
    if lives.len() == 0 {
        None
    } else {
        match first_active(lives.drop_last()) {
            Some(i) => Some(i),
            None => if lives.last().life.is_active() {
                Some((lives.len() - 1) as usize)
            } else {
                None
            },
        }
    }
}

proof fn lemma_first_active<L: Life>(lives: Seq<Live<L>>, i: int)
    requires
        0 <= i < lives.len() <= usize::MAX,
        lives[i].life.is_active(),
        forall|k: int| 0 <= k < i ==> !(#[trigger] lives[k]).life.is_active(),
    ensures
        first_active(lives) == Some(i as usize),
    decreases lives.len(),
{
    if i < lives.len() - 1 {
        lemma_first_active(lives.drop_last(), i);
    } else {
        lemma_no_active(lives.drop_last());
    }
}

proof fn lemma_no_active<L: Life>(lives: Seq<Live<L>>)
    requires
        forall|k: int| 0 <= k < lives.len() ==> !(#[trigger] lives[k]).life.is_active(),
    ensures
        first_active(lives) is None,
    decreases lives.len(),
{
    if lives.len() > 0 {
        lemma_no_active(lives.drop_last());
    }
}

/// A successful bind leaves exactly one instance active, the one that
/// accepted the paths, and `active` finds it.
pub proof fn one_active_after_bind<L: Life>(
    before: Seq<Live<L>>,
    after: Seq<Live<L>>,
    paths: Seq<Vec<u8>>,
    rs: Seq<Status>,
    r: Status,
)
    requires
        after.len() <= usize::MAX,
        bind_outcome(rs, before.len(), r),
        bind_effect(before, after, paths, rs, r),
        r is Ok,
    ensures
        after[rs.len() - 1].life.is_active(),
        forall|k: int| 0 <= k < after.len() && k != rs.len() - 1 ==> !(#[trigger] after[k]).life.is_active(),
        first_active(after) == Some((rs.len() - 1) as usize),
{
    assert(after[rs.len() - 1].life.is_active());
    lemma_first_active(after, rs.len() - 1);
}

/// When no two instances are active at once, unsubscribing the active one
/// leaves none active, and `active` finds none.
pub proof fn none_active_after_unsubscribe<L: Life>(lives: Seq<Live<L>>, i: int, unsubscribed: Live<L>)
    requires
        0 <= i < lives.len(),
        at_most_one_active(lives),
        lives[i].life.is_active(),
        !unsubscribed.life.is_active(),
    ensures
        first_active(lives.update(i, unsubscribed)) is None,
{
    let after = lives.update(i, unsubscribed);
    assert forall|k: int| 0 <= k < after.len() implies !(#[trigger] after[k]).life.is_active() by {
        if k != i {
            assert(after[k] == lives[k]);
        }
    }
    lemma_no_active(after);
}

/// Whether no two instances of `lives` are active at once.
pub open spec fn at_most_one_active<L: Life>(lives: Seq<Live<L>>) -> bool {
    forall|i: int, j: int|
        0 <= i < lives.len() && 0 <= j < lives.len() && (#[trigger] lives[i]).life.is_active()
            && (#[trigger] lives[j]).life.is_active() ==> i == j
}

/// Whether `live` is what `take_built` keeps of instance `l` built by selector
/// `selector`: its capabilities recorded, unsubscribed, otherwise the same.
pub open spec fn admitted<L: Life>(live: Live<L>, l: L, selector: usize) -> bool {
    &&& live.selector == selector
    &&& live.capabilities@ == l.caps()@
    &&& live.life.caps() == l.caps()
    &&& live.life.last_bind() == l.last_bind()
    &&& !live.life.is_active()
}

/// Owns the handles, the registered selectors and the live instances.
pub struct Manager<F, L> {
    pub handle: tokio::reactor::Handle,
    pub executor: tokio::runtime::TaskExecutor,
    pub selectors: Vec<Selector<F>>,
    pub lives: Vec<Live<L>>,
    /// What each selector's instance reported as capabilities in the last
    /// `enliven`; `None` where it could not be built.
    pub reported: Ghost<Seq<Option<Seq<Capability>>>>,
    /// What each backend tried returned in the last `bind`, in the order tried.
    pub bind_reports: Ghost<Seq<Status>>,
}

impl<F, L: Life> Manager<F, L> {
    /// The live list holds only instances with some capability, from distinct
    /// selectors, in registration order.
    pub open spec fn wf(&self) -> bool {
        &&& forall|i: int| 0 <= i < self.lives@.len() ==> (#[trigger] self.lives@[i]).capabilities@.len() > 0
        &&& forall|i: int| 0 <= i < self.lives@.len() ==> (#[trigger] self.lives@[i]).selector < self.selectors@.len()
        &&& forall|i: int, j: int| 0 <= i < j < self.lives@.len() ==> self.lives@[i].selector < self.lives@[j].selector
        &&& forall|i: int| 0 <= i < self.lives@.len() ==> (#[trigger] self.lives@[i]).capabilities@ == self.lives@[i].life.caps()@
        &&& at_most_one_active(self.lives@)
    }

    /// The selector index of each live instance, in order.
    pub open spec fn live_selectors(&self) -> Seq<int> {
        self.lives@.map_values(|l: Live<L>| l.selector as int)
    }

    /// A manager with no selectors and no live instances.
    pub fn new(handle: tokio::reactor::Handle, executor: tokio::runtime::TaskExecutor) -> (r: Self)
        ensures
            r.handle == handle,
            r.executor == executor,
            r.selectors@.len() == 0,
            r.lives@.len() == 0,
            r.wf(),
    {
        Manager {
            handle,
            executor,
            selectors: Vec::new(),
            lives: Vec::new(),
            reported: Ghost(Seq::empty()),
            bind_reports: Ghost(Seq::empty()),
        }
    }

    /// Registers a selector after those already registered.
    pub fn add(&mut self, f: Selector<F>)
        requires
            old(self).wf(),
        ensures
            final(self).selectors@ == old(self).selectors@.push(f),
            final(self).lives@ == old(self).lives@,
            final(self).handle == old(self).handle,
            final(self).executor == old(self).executor,
            final(self).wf(),
    {
        self.selectors.push(f);
    }

    /// Registers the built-in selectors: the kernel-queue one, where the
    /// platform has it, then the polling fallback, which works everywhere.
    pub fn builtins(&mut self, inotify: Option<F>, poll: F)
        requires
            old(self).wf(),
        ensures
            final(self).lives@ == old(self).lives@,
            final(self).handle == old(self).handle,
            final(self).executor == old(self).executor,
            final(self).wf(),
            ({
                let added = final(self).selectors@.skip(old(self).selectors@.len() as int);
                &&& final(self).selectors@.take(old(self).selectors@.len() as int) == old(self).selectors@
                &&& added.len() == if inotify is Some { 2int } else { 1int }
                &&& added.last().f == poll
                &&& added.last().name@ == "Poll"@
                &&& inotify matches Some(f) ==> added[0].f == f && added[0].name@ == "Inotify"@
            }),
    {
        let ghost start = self.selectors@;
        proof {
            reveal_strlit("Inotify");
            reveal_strlit("Poll");
        }
        match inotify {
            Some(f) => {
                self.add(Selector { f, name: String::from_str("Inotify") });
            },
            None => {},
        }
        self.add(Selector { f: poll, name: String::from_str("Poll") });
        assert(self.selectors@.take(start.len() as int) =~= start);
    }
}

impl<F: Construct<L>, L: Life> Manager<F, L> {
    /// Takes what one selector's constructor returned: an error goes to
    /// `failures` with the selector's index; an instance that reports some
    /// capability is unsubscribed and goes to `lives`; one that reports none
    /// is dropped.
    pub fn take_built(
        lives: &mut Vec<Live<L>>,
        failures: &mut Vec<(usize, BackendError)>,
        selector: usize,
        built: Result<L, BackendError>,
    )
        ensures
            match built {
                Err(e) => final(lives)@ == old(lives)@ && final(failures)@ == old(failures)@.push((selector, e)),
                Ok(l) => final(failures)@ == old(failures)@ && if l.caps()@.len() > 0 {
                    &&& final(lives)@.len() == old(lives)@.len() + 1
                    &&& final(lives)@.drop_last() == old(lives)@
                    &&& admitted(final(lives)@.last(), l, selector)
                } else {
                    final(lives)@ == old(lives)@
                },
            },
    {
        match built {
            Err(e) => failures.push((selector, e)),
            Ok(l) => {
                let mut life = l;
                let capabilities = life.capabilities();
                if capabilities.len() > 0 {
                    life.unsubscribe();
                    lives.push(Live { life, capabilities, selector });
                    assert(lives@.drop_last() =~= old(lives)@);
                }
            },
        }
    }

    /// Builds an instance from every selector, in order, and keeps as the new
    /// live list those that report some capability, each unsubscribed first.
    /// The previous live list is dropped. Returns the selectors whose instance
    /// could not be built, by index, with their errors, in order.
    pub fn enliven(&mut self) -> (r: Vec<(usize, BackendError)>)
        requires
            old(self).wf(),
        ensures
            final(self).selectors@ == old(self).selectors@,
            final(self).handle == old(self).handle,
            final(self).executor == old(self).executor,
            final(self).reported@.len() == old(self).selectors@.len(),
            final(self).live_selectors() == kept(final(self).reported@),
            r@.map_values(|e: (usize, BackendError)| e.0 as int) == failed(final(self).reported@),
            forall|i: int|
                0 <= i < final(self).lives@.len() ==> final(self).reported@[(#[trigger] final(self).lives@[i]).selector as int]
                    == Some(final(self).lives@[i].capabilities@),
            forall|i: int| 0 <= i < final(self).lives@.len() ==> !(#[trigger] final(self).lives@[i]).life.is_active(),
            final(self).wf(),
    {
        let mut lives: Vec<Live<L>> = Vec::new();
        let mut failures: Vec<(usize, BackendError)> = Vec::new();
        let ghost mut reported: Seq<Option<Seq<Capability>>> = Seq::empty();
        let mut i: usize = 0;
        while i < self.selectors.len()
            invariant
                0 <= i <= self.selectors@.len(),
                reported.len() == i,
                lives@.map_values(|l: Live<L>| l.selector as int) == kept(reported),
                failures@.map_values(|e: (usize, BackendError)| e.0 as int) == failed(reported),
                forall|k: int| 0 <= k < lives@.len() ==> reported[(#[trigger] lives@[k]).selector as int] == Some(lives@[k].capabilities@),
                forall|k: int| 0 <= k < lives@.len() ==> (#[trigger] lives@[k]).capabilities@.len() > 0,
                forall|k: int| 0 <= k < lives@.len() ==> (#[trigger] lives@[k]).capabilities@ == lives@[k].life.caps()@,
                forall|k: int| 0 <= k < lives@.len() ==> !(#[trigger] lives@[k]).life.is_active(),
                forall|k: int| 0 <= k < lives@.len() ==> (#[trigger] lives@[k]).selector < i,
                forall|k: int, j: int| 0 <= k < j < lives@.len() ==> lives@[k].selector < lives@[j].selector,
            decreases self.selectors@.len() - i,
        {
            let ghost prev_reported = reported;
            let ghost prev_lives = lives@;
            let ghost prev_failures = failures@;
            let built = self.selectors[i].f.construct(&self.handle, &self.executor);
            let ghost b = built;
            Self::take_built(&mut lives, &mut failures, i, built);
            proof {
                match b {
                    Err(e) => {
                        reported = reported.push(None);
                        assert(failures@.map_values(|e: (usize, BackendError)| e.0 as int) =~= prev_failures.map_values(
                            |e: (usize, BackendError)| e.0 as int,
                        ).push(i as int));
                    },
                    Ok(l) => {
                        reported = reported.push(Some(l.caps()@));
                        if l.caps()@.len() > 0 {
                            assert(lives@ =~= prev_lives.push(lives@.last()));
                            assert(lives@.map_values(|l: Live<L>| l.selector as int) =~= prev_lives.map_values(
                                |l: Live<L>| l.selector as int,
                            ).push(i as int));
                        }
                    },
                }
                assert(reported.drop_last() =~= prev_reported);
            }
            i = i + 1;
        }
        self.lives = lives;
        self.reported = Ghost(reported);
        failures
    }

    /// Unsubscribes every active instance but the one at `keep`.
    fn deactivate_others(&mut self, keep: usize)
        requires
            keep < old(self).lives@.len(),
        ensures
            final(self).selectors@ == old(self).selectors@,
            final(self).handle == old(self).handle,
            final(self).executor == old(self).executor,
            final(self).reported == old(self).reported,
            final(self).bind_reports == old(self).bind_reports,
            final(self).lives@.len() == old(self).lives@.len(),
            final(self).lives@[keep as int] == old(self).lives@[keep as int],
            forall|k: int|
                0 <= k < final(self).lives@.len() ==> (#[trigger] final(self).lives@[k]).capabilities
                    == old(self).lives@[k].capabilities && final(self).lives@[k].selector
                    == old(self).lives@[k].selector && final(self).lives@[k].life.caps()
                    == old(self).lives@[k].life.caps() && final(self).lives@[k].life.last_bind()
                    == old(self).lives@[k].life.last_bind(),
            forall|k: int|
                0 <= k < final(self).lives@.len() && k != keep ==> !(#[trigger] final(self).lives@[k]).life.is_active(),
            forall|k: int|
                0 <= k < final(self).lives@.len() && !old(self).lives@[k].life.is_active() ==> #[trigger] final(self).lives@[k]
                    == old(self).lives@[k],
    {
        let mut j: usize = 0;
        while j < self.lives.len()
            invariant
                keep < self.lives@.len(),
                0 <= j <= self.lives@.len(),
                self.selectors@ == old(self).selectors@,
                self.handle == old(self).handle,
                self.executor == old(self).executor,
                self.reported == old(self).reported,
                self.bind_reports == old(self).bind_reports,
                self.lives@.len() == old(self).lives@.len(),
                self.lives@[keep as int] == old(self).lives@[keep as int],
                forall|k: int|
                    0 <= k < self.lives@.len() ==> (#[trigger] self.lives@[k]).capabilities
                        == old(self).lives@[k].capabilities && self.lives@[k].selector
                        == old(self).lives@[k].selector && self.lives@[k].life.caps()
                        == old(self).lives@[k].life.caps() && self.lives@[k].life.last_bind()
                        == old(self).lives@[k].life.last_bind(),
                forall|k: int| 0 <= k < j && k != keep ==> !(#[trigger] self.lives@[k]).life.is_active(),
                forall|k: int|
                    0 <= k < self.lives@.len() && (k >= j || !old(self).lives@[k].life.is_active()) ==> #[trigger] self.lives@[k]
                        == old(self).lives@[k],
            decreases self.lives@.len() - j,
        {
            if j != keep && self.lives[j].life.active() {
                self.lives[j].life.unsubscribe();
            }
            j = j + 1;
        }
    }

    /// Binds `paths` to the live instances in order, stopping at the first one
    /// that accepts them, or at the first failure in which some path does not
    /// exist. When every instance fails softly, the last failure is returned;
    /// when there is no live instance, the no-backend error. On success every
    /// other active instance is unsubscribed.
    pub fn bind(&mut self, paths: &[Vec<u8>]) -> (r: Status)
        requires
            old(self).wf(),
        ensures
            final(self).selectors@ == old(self).selectors@,
            final(self).handle == old(self).handle,
            final(self).executor == old(self).executor,
            final(self).reported == old(self).reported,
            final(self).wf(),
            bind_outcome(final(self).bind_reports@, old(self).lives@.len() as nat, r),
            bind_effect(old(self).lives@, final(self).lives@, paths@, final(self).bind_reports@, r),
    {
        let ghost start = *self;
        let ghost mut rs: Seq<Status> = Seq::empty();
        let mut last: Option<BackendError> = None;
        let mut i: usize = 0;
        while i < self.lives.len()
            invariant
                0 <= i <= self.lives@.len(),
                self.selectors@ == start.selectors@,
                self.handle == start.handle,
                self.executor == start.executor,
                self.reported == start.reported,
                self.lives@.len() == start.lives@.len(),
                start == *old(self),
                start.wf(),
                rs.len() == i,
                forall|k: int| 0 <= k < rs.len() ==> soft(#[trigger] rs[k]),
                forall|k: int| 0 <= k < i ==> bound_with(&(#[trigger] self.lives@[k]).life, paths@, rs[k]),
                forall|k: int|
                    0 <= k < self.lives@.len() ==> (#[trigger] self.lives@[k]).capabilities
                        == start.lives@[k].capabilities && self.lives@[k].selector
                        == start.lives@[k].selector && self.lives@[k].life.caps()
                        == start.lives@[k].life.caps() && self.lives@[k].life.is_active()
                        == start.lives@[k].life.is_active(),
                forall|k: int| i <= k < self.lives@.len() ==> #[trigger] self.lives@[k] == start.lives@[k],
                i == 0 <==> last is None,
                last matches Some(e) ==> rs.last() == Err::<(), BackendError>(e),
            decreases self.lives@.len() - i,
        {
            let res = self.lives[i].life.bind(paths);
            proof {
                rs = rs.push(res);
            }
            if settles(&res) {
                if res.is_ok() {
                    self.deactivate_others(i);
                }
                self.bind_reports = Ghost(rs);
                return res;
            }
            match res {
                Ok(_) => {},
                Err(e) => {
                    last = Some(e);
                },
            }
            i = i + 1;
        }
        self.bind_reports = Ghost(rs);
        match last {
            Some(e) => Err(e),
            None => Err(BackendError::no_backend()),
        }
    }

    /// The index in the live list of the first active instance, if any.
    pub fn active(&mut self) -> (r: Option<usize>)
        requires
            old(self).wf(),
        ensures
            *final(self) == *old(self),
            r == first_active(old(self).lives@),
            r matches Some(i) ==> forall|k: int|
                0 <= k < old(self).lives@.len() ==> ((#[trigger] old(self).lives@[k]).life.is_active() <==> k == i),
            r is None ==> forall|k: int| 0 <= k < old(self).lives@.len() ==> !(#[trigger] old(self).lives@[k]).life.is_active(),
    {
        let mut i: usize = 0;
        while i < self.lives.len()
            invariant
                0 <= i <= self.lives@.len(),
                *self == *old(self),
                self.wf(),
                forall|k: int| 0 <= k < i ==> !(#[trigger] self.lives@[k]).life.is_active(),
            decreases self.lives@.len() - i,
        {
            if self.lives[i].life.active() {
                proof {
                    lemma_first_active(self.lives@, i as int);
                    assert forall|k: int| 0 <= k < self.lives@.len() implies ((#[trigger] self.lives@[k]).life.is_active() <==> k == i) by {
                        assert(at_most_one_active(self.lives@));
                        let a = self.lives@[i as int];
                        let c = self.lives@[k];
                        assert(a.life.is_active() && c.life.is_active() ==> i == k);
                    }
                }
                return Some(i);
            }
            i = i + 1;
        }
        proof {
            lemma_no_active(self.lives@);
        }
        None
    }
}

} // verus!
