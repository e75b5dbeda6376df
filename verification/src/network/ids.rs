//! Network ids of entities.
use vstd::prelude::*;

verus! {

/// The network id of an entity.
#[derive(Copy, Clone, Debug, PartialEq, Eq, Hash, Structural)]
pub struct NetworkID(pub i32);

/// How many ids there are to hand out.
pub const ID_COUNT: usize = 2500000;

/// The ids that are free to hand out. The next id handed out is the last
/// one of the list; an id given back goes to its end.
pub struct IdPool {
    free: Vec<i32>,
}

/// Whether no id occurs twice in `s`.
pub open spec fn all_distinct(s: Seq<i32>) -> bool {
    forall|i: int, j: int| 0 <= i < j < s.len() ==> s[i] != s[j]
}

impl IdPool {
    /// The free ids, the next one handed out last.
    pub closed spec fn free(&self) -> Seq<i32> {
        self.free@
    }

    /// The ids that a fresh pool holds: all from 0 below `ID_COUNT`, so that
    /// they are handed out from 0 upwards.
    pub open spec fn initial() -> Seq<i32> {
        Seq::new(ID_COUNT as nat, |i: int| (ID_COUNT - 1 - i) as i32)
    }

    /// The pool holds each id at most once, and only ids from 0 below
    /// `ID_COUNT`. A fresh pool is so, handing out ids keeps it so, and so
    /// does giving back an id that was handed out.
    pub open spec fn wf(&self) -> bool {
        &&& all_distinct(self.free())
        &&& forall|i: int| 0 <= i < self.free().len() ==> 0 <= #[trigger] self.free()[i] < ID_COUNT
    }

    /// A pool of all ids from 0 below `ID_COUNT`.
    pub fn new() -> (r: Self)
        ensures
            r.free() == Self::initial(),
            r.wf(),
    {
        let mut free: Vec<i32> = Vec::new();
        let mut i: usize = 0;
        while i < ID_COUNT
            invariant
                i <= ID_COUNT,
                free@.len() == i,
                forall|k: int| 0 <= k < i ==> free@[k] == (ID_COUNT - 1 - k) as i32,
            decreases ID_COUNT - i,
        {
            let id: i32 = (ID_COUNT - 1 - i) as i32;
            free.push(id);
            i += 1;
        }
        assert(free@ =~= Self::initial());
        IdPool { free }
    }

    /// Gives an id back to the pool.
    pub fn release(&mut self, id: NetworkID)
        ensures
            final(self).free() == old(self).free().push(id.0),
            old(self).wf() && 0 <= id.0 < ID_COUNT && !old(self).free().contains(id.0)
                ==> final(self).wf(),
    {
        self.free.push(id.0);
        proof {
            if old(self).wf() && 0 <= id.0 < ID_COUNT && !old(self).free().contains(id.0) {
                let f = self.free@;
                assert forall|i: int, j: int| 0 <= i < j < f.len() implies f[i] != f[j] by {
                    if j == f.len() - 1 {
                        assert(old(self).free()[i] == f[i]);
                    }
                }
            }
        }
    }

    pub fn len(&self) -> (r: usize)
        ensures
            r == self.free().len(),
    {
        self.free.len()
    }
}

impl NetworkID {
    /// Takes the next free id from the pool.
    pub fn new(pool: &mut IdPool) -> (r: Self)
        requires
            old(pool).free().len() > 0,
        ensures
            r.0 == old(pool).free().last(),
            final(pool).free() == old(pool).free().drop_last(),
            old(pool).wf() ==> final(pool).wf() && 0 <= r.0 < ID_COUNT && !final(pool).free().contains(
                r.0,
            ),
    {
        let id = pool.free.pop().unwrap();
        proof {
            if old(pool).wf() {
                law_ids_are_fresh(*old(pool));
            }
        }
        Self(id)
    }
}

/// An id handed out is no longer in the pool, so no later id handed out
/// equals it until it is given back; all ids are from 0 below `ID_COUNT`.
pub proof fn law_ids_are_fresh(pool: IdPool)
    requires
        pool.wf(),
        pool.free().len() >= 1,
    ensures
        !pool.free().drop_last().contains(pool.free().last()),
        0 <= pool.free().last() < ID_COUNT,
        all_distinct(pool.free().drop_last()),
        forall|i: int|
            0 <= i < pool.free().drop_last().len() ==> 0 <= #[trigger] pool.free().drop_last()[i]
                < ID_COUNT,
{
    let free = pool.free();
    assert(0 <= free[free.len() - 1] < ID_COUNT);
    if free.drop_last().contains(free.last()) {
        let j = choose|j: int| 0 <= j < free.drop_last().len() && free.drop_last()[j] == free.last();
        assert(free[j] == free[free.len() - 1]);
    }
    assert forall|i: int| 0 <= i < free.drop_last().len() implies 0 <= #[trigger] free.drop_last()[i]
        < ID_COUNT by {
        assert(free.drop_last()[i] == free[i]);
    }
}

/// An id that is not in the pool, such as one handed out and not given
/// back, is not the id the pool hands out next.
pub proof fn law_next_id_differs(pool: IdPool, a: NetworkID)
    requires
        pool.free().len() >= 1,
        !pool.free().contains(a.0),
    ensures
        pool.free().last() != a.0,
{
    assert(pool.free()[pool.free().len() - 1] == pool.free().last());
}

/// A fresh pool hands out 0 first, then 1.
pub proof fn law_first_ids()
    ensures
        IdPool::initial().last() == 0,
        IdPool::initial().drop_last().last() == 1,
{
}

} // verus!
