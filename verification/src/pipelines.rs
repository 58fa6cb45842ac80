//! The table of pipelines that the C interface creates: each new pipeline
//! gets the next id, counted from 0, and a pulse runs every pipeline.
use vstd::prelude::*;

verus! {

/// The pipelines created so far, each under its id, and the id the next one
/// gets.
pub struct SwsppData<P> {
    pipelines: Vec<(u32, P)>,
    counter: u32,
}

/// The abstract value of the table.
pub struct SwsppDataView<P> {
    pub entries: Seq<(u32, P)>,
    pub counter: nat,
}

impl<P> SwsppDataView<P> {
    /// Every id is below the counter, and the ids increase in creation order
    /// (so none occurs twice).
    pub open spec fn wf(self) -> bool {
        &&& forall|i: int| 0 <= i < self.entries.len() ==> #[trigger] self.entries[i].0 < self.counter
        &&& forall|i: int, j: int|
            0 <= i < j < self.entries.len() ==> #[trigger] self.entries[i].0 < #[trigger] self.entries[j].0
    }

    /// The ids, in creation order.
    pub open spec fn ids(self) -> Seq<u32> {
        self.entries.map_values(|e: (u32, P)| e.0)
    }
}

impl<P> View for SwsppData<P> {
    type V = SwsppDataView<P>;

    closed spec fn view(&self) -> SwsppDataView<P> {
        SwsppDataView { entries: self.pipelines@, counter: self.counter as nat }
    }
}

impl<P> SwsppData<P> {
    /// An empty table whose first pipeline gets id 0.
    pub fn new() -> (r: Self)
        ensures
            r@.entries == Seq::<(u32, P)>::empty(),
            r@.counter == 0,
            r@.wf(),
    {
        let r = SwsppData { pipelines: Vec::new(), counter: 0 };
        proof {
            assert(r@.entries =~= Seq::<(u32, P)>::empty());
        }
        r
    }

    /// The number of pipelines.
    pub fn len(&self) -> (n: usize)
        ensures
            n == self@.entries.len(),
    {
        self.pipelines.len()
    }

    /// The id the next pipeline gets.
    pub fn next_id(&self) -> (r: u32)
        ensures
            r == self@.counter,
    {
        self.counter
    }

    /// The pipeline at position `i` in creation order, to run it.
    pub fn get_mut(&mut self, i: usize) -> (r: &mut P)
        requires
            i < old(self)@.entries.len(),
        ensures
            *r == old(self)@.entries[i as int].1,
            final(self)@ == (SwsppDataView {
                entries: old(self)@.entries.update(
                    i as int,
                    (old(self)@.entries[i as int].0, *final(r)),
                ),
                counter: old(self)@.counter,
            }),
    {
        &mut self.pipelines[i].1
    }

    /// The pipeline with id `id`, if any.
    pub fn get(&self, id: u32) -> (r: Option<&P>)
        requires
            self@.wf(),
        ensures
            match r {
                Some(p) => exists|i: int|
                    0 <= i < self@.entries.len() && #[trigger] self@.entries[i].0 == id
                        && self@.entries[i].1 == *p,
                None => forall|i: int|
                    0 <= i < self@.entries.len() ==> #[trigger] self@.entries[i].0 != id,
            },
    {
        let mut i: usize = 0;
        while i < self.pipelines.len()
            invariant
                i <= self.pipelines.len(),
                forall|k: int| 0 <= k < i ==> #[trigger] self@.entries[k].0 != id,
            decreases self.pipelines.len() - i,
        {
            if self.pipelines[i].0 == id {
                assert(self@.entries[i as int].0 == id);
                return Some(&self.pipelines[i].1);
            }
            i = i + 1;
        }
        None
    }
}

/// Adds `pipeline` to the table under the next id and returns that id.
pub fn swspp_create_pipeline<P>(data: &mut SwsppData<P>, pipeline: P) -> (id: u32)
    requires
        old(data)@.wf(),
        old(data)@.counter < u32::MAX,
    ensures
        id == old(data)@.counter,
        final(data)@.entries == old(data)@.entries.push((id, pipeline)),
        final(data)@.counter == old(data)@.counter + 1,
        final(data)@.wf(),
{
    let id = data.counter;
    data.pipelines.push((id, pipeline));
    data.counter = data.counter + 1;
    id
}

/// The table after creating `ps`, in order, on an empty table.
pub open spec fn created_all<P>(ps: Seq<P>) -> SwsppDataView<P>
    decreases ps.len(),
{
    if ps.len() == 0 {
        SwsppDataView { entries: Seq::empty(), counter: 0 }
    } else {
        let d = created_all(ps.drop_last());
        SwsppDataView { entries: d.entries.push((d.counter as u32, ps.last())), counter: d.counter + 1 }
    }
}

/// Creating `ps` in order on an empty table gives the `k`-th pipeline the id
/// `k`: the table holds each pipeline under its position, a pulse lists the
/// ids `0..ps.len()`, and the next pipeline gets the id `ps.len()`.
pub proof fn lemma_created_ids<P>(ps: Seq<P>)
    requires
        ps.len() <= u32::MAX,
    ensures
        created_all(ps).wf(),
        created_all(ps).counter == ps.len(),
        created_all(ps).entries.len() == ps.len(),
        forall|k: int| 0 <= k < ps.len() ==> #[trigger] created_all(ps).entries[k] == (k as u32, ps[k]),
        forall|k: int| 0 <= k < ps.len() ==> #[trigger] created_all(ps).ids()[k] == k,
    decreases ps.len(),
{
    if ps.len() > 0 {
        lemma_created_ids(ps.drop_last());
        let d = created_all(ps.drop_last());
        let e = created_all(ps);
        assert forall|k: int| 0 <= k < ps.len() implies #[trigger] e.entries[k] == (k as u32, ps[k]) by {
            if k < ps.len() - 1 {
                assert(e.entries[k] == d.entries[k]);
                assert(ps.drop_last()[k] == ps[k]);
            }
        }
        assert forall|k: int| 0 <= k < ps.len() implies #[trigger] e.ids()[k] == k by {
            assert(e.entries[k] == (k as u32, ps[k]));
        }
    }
}

/// Starting a pipeline needs no work: pipelines run on each pulse.
pub fn swspp_start_pipeline(_pipeline_id: u32) {
}

/// The ids of the pipelines a pulse runs: all of them, in creation order.
pub fn swspp_pulse<P>(data: &SwsppData<P>) -> (ids: Vec<u32>)
    ensures
        ids@ == data@.ids(),
{
    let mut ids: Vec<u32> = Vec::new();
    let mut i: usize = 0;
    while i < data.pipelines.len()
        invariant
            i <= data.pipelines.len(),
            ids@ == data@.ids().take(i as int),
        decreases data.pipelines.len() - i,
    {
        ids.push(data.pipelines[i].0);
        i = i + 1;
        proof {
            assert(ids@ =~= data@.ids().take(i as int));
        }
    }
    proof {
        assert(data@.ids().take(i as int) =~= data@.ids());
    }
    ids
}

} // verus!
