use vstd::prelude::*;
use crate::error::StatsError;
use crate::stat_item::{lemma_update_keeps_identity, StatItem, StatItemView, StatType};

verus! {

/// No two accumulators share a name.
pub open spec fn names_unique(items: Seq<StatItemView>) -> bool {
    forall|i: int, j: int|
        0 <= i < items.len() && 0 <= j < items.len() && i != j ==> items[i].name()
            != items[j].name()
}

/// Some accumulator is registered under `key`.
pub open spec fn has_key(items: Seq<StatItemView>, key: Seq<char>) -> bool {
    exists|i: int| 0 <= i < items.len() && items[i].name() == key
}

/// `after` is `before` with the reading `p` folded into entry `i` only.
pub open spec fn updated_at(
    before: Seq<StatItemView>,
    after: Seq<StatItemView>,
    i: int,
    p: StatType,
) -> bool {
    &&& after.len() == before.len()
    &&& before[i].updated_by(p, after[i])
    &&& forall|j: int| 0 <= j < before.len() && j != i ==> after[j] == before[j]
}

/// The registry of accumulators, one per name.
pub struct Stats {
    stat_list: Vec<StatItem>,
}

impl View for Stats {
    type V = Seq<StatItemView>;

    closed spec fn view(&self) -> Seq<StatItemView> {
        self.stat_list@.map_values(|it: StatItem| it@)
    }
}

impl Stats {
    #[verifier::type_invariant]
    spec fn inv(self) -> bool {
        &&& names_unique(self@)
        &&& forall|i: int| 0 <= i < self@.len() ==> #[trigger] self@[i].wf()
    }

    /// An empty registry.
    pub fn new() -> (r: Stats)
        ensures
            r@ == Seq::<StatItemView>::empty(),
    {
        let r = Stats { stat_list: Vec::new() };
        assert(r@ =~= Seq::<StatItemView>::empty());
        r
    }

    /// The number of registered accumulators.
    pub fn len(&self) -> (r: usize)
        ensures
            r == self@.len(),
    {
        self.stat_list.len()
    }

    /// The position of the accumulator named `key`, if any.
    pub fn position(&self, key: &String) -> (r: Option<usize>)
        ensures
            match r {
                Some(i) => i < self@.len() && self@[i as int].name() == key@,
                None => !has_key(self@, key@),
            },
    {
        let mut i: usize = 0;
        while i < self.stat_list.len()
            invariant
                i <= self.stat_list.len(),
                forall|j: int| 0 <= j < i ==> self@[j].name() != key@,
            decreases self.stat_list.len() - i,
        {
            assert(self@[i as int] == self.stat_list@[i as int]@);
            if self.stat_list[i].name().eq(key) {
                return Some(i);
            }
            i = i + 1;
        }
        None
    }

    /// Registers `new_stat` under its own name. An accumulator already
    /// registered under that name is replaced.
    pub fn add_stat_item(&mut self, new_stat: StatItem)
        ensures
            forall|i: int|
                0 <= i < old(self)@.len() && old(self)@[i].name() == new_stat@.name()
                    ==> final(self)@ == old(self)@.update(i, new_stat@),
            !has_key(old(self)@, new_stat@.name()) ==> final(self)@ == old(self)@.push(
                new_stat@,
            ),
    {
        proof {
            use_type_invariant(&*self);
            if let StatItem::Numeric(n) = &new_stat {
                use_type_invariant(n);
            }
        }
        let ghost before = self@;
        let key = new_stat.name().clone();
        let found = self.position(&key);
        let mut list: Vec<StatItem> = Vec::new();
        std::mem::swap(&mut self.stat_list, &mut list);
        match found {
            Some(i) => {
                list.set(i, new_stat);
                assert(list@.map_values(|it: StatItem| it@) =~= before.update(i as int, new_stat@));
            },
            None => {
                list.push(new_stat);
                assert(list@.map_values(|it: StatItem| it@) =~= before.push(new_stat@));
            },
        }
        *self = Stats { stat_list: list };
    }

    /// Folds `val` into the accumulator registered under `key`. Fails with
    /// `UnknownStatKey`, changing nothing, when there is none.
    pub fn update_stat_item(&mut self, key: &String, val: StatType) -> (r: Result<(), StatsError>)
        requires
            forall|i: int|
                0 <= i < old(self)@.len() && old(self)@[i].name() == key@ ==> old(self)@[i].is_numeric()
                    == val.is_numeric(),
        ensures
            final(self)@.len() == old(self)@.len(),
            forall|j: int|
                0 <= j < old(self)@.len() ==> #[trigger] final(self)@[j].name() == old(self)@[j].name()
                    && final(self)@[j].is_numeric() == old(self)@[j].is_numeric(),
            forall|i: int|
                #![trigger old(self)@[i]]
                0 <= i < old(self)@.len() && old(self)@[i].name() == key@ ==> r is Ok && updated_at(
                    old(self)@,
                    final(self)@,
                    i,
                    val,
                ),
            !has_key(old(self)@, key@) ==> (r matches Err(e) && e.is_unknown_key(key@)
                && final(self)@ == old(self)@),
    {
        proof {
            use_type_invariant(&*self);
        }
        let ghost before = self@;
        match self.position(key) {
            Some(i) => {
                let mut list: Vec<StatItem> = Vec::new();
                std::mem::swap(&mut self.stat_list, &mut list);
                list[i].update(&val);
                let ghost after = list@.map_values(|it: StatItem| it@);
                proof {
                    lemma_update_keeps_identity(before[i as int], val, after[i as int]);
                }
                assert(updated_at(before, after, i as int, val));
                *self = Stats { stat_list: list };
                Ok(())
            },
            None => Err(StatsError::UnknownStatKey(key.clone())),
        }
    }

    /// The accumulator at position `i`.
    pub fn item(&self, i: usize) -> (r: &StatItem)
        requires
            i < self@.len(),
        ensures
            r@ == self@[i as int],
    {
        &self.stat_list[i]
    }

    /// The accumulator registered under `key`, if any.
    pub fn get(&self, key: &String) -> (r: Option<&StatItem>)
        ensures
            match r {
                Some(it) => has_key(self@, key@) && it@.name() == key@ && exists|i: int|
                    0 <= i < self@.len() && self@[i] == it@,
                None => !has_key(self@, key@),
            },
    {
        match self.position(key) {
            Some(i) => Some(&self.stat_list[i]),
            None => None,
        }
    }

    /// A deep copy of every accumulator: later changes to `self` do not
    /// reach it.
    pub fn snapshot(&self) -> (r: Stats)
        ensures
            r@ == self@,
    {
        proof {
            use_type_invariant(self);
        }
        let mut out: Vec<StatItem> = Vec::new();
        let mut i: usize = 0;
        while i < self.stat_list.len()
            invariant
                i <= self.stat_list.len(),
                out@.map_values(|it: StatItem| it@) =~= self@.take(i as int),
            decreases self.stat_list.len() - i,
        {
            let copy = self.stat_list[i].box_clone();
            assert(copy@ == self@[i as int]);
            let ghost prev = out@;
            out.push(copy);
            assert(out@.map_values(|it: StatItem| it@) =~= prev.map_values(|it: StatItem| it@).push(
                copy@,
            ));
            assert(self@.take(i + 1) =~= self@.take(i as int).push(self@[i as int]));
            i = i + 1;
        }
        assert(self@.take(i as int) =~= self@);
        Stats { stat_list: out }
    }
}

impl Default for Stats {
    fn default() -> (r: Stats)
        ensures
            r@ == Seq::<StatItemView>::empty(),
    {
        Stats::new()
    }
}

} // verus!
