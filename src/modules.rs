use vstd::prelude::*;
use vstd::string::StringExecFns;
use crate::error::StatsError;
use crate::stat_item::{NumericType, StatItem, StatItemView, StatType};
use crate::stat_list::{has_key, names_unique, updated_at, Stats};

verus! {

/// A sensor module: a named source of readings of one kind.
pub trait IModule {
    /// Takes one reading, which may fail.
    fn get_measurement(&mut self) -> Result<StatType, String>;

    /// The module's name, which is also the name of its accumulator.
    fn get_measurement_name(&self) -> String;

    /// The zero-valued accumulator of the module's kind.
    fn get_base_stat_item(&self) -> StatItem;
}

/// Something that refreshes statistics and hands out snapshots of them.
pub trait IStatsGetter {
    fn update_stats(&mut self) -> Result<(), StatsError>;

    fn get_stats(&self) -> Result<Stats, StatsError>;
}

/// A numeric module that always reads the same value.
pub struct DebugNumericModule {
    pub return_value: NumericType,
    pub name: String,
}

impl IModule for DebugNumericModule {
    fn get_measurement(&mut self) -> (r: Result<StatType, String>)
        ensures
            r == Ok::<StatType, String>(StatType::Numeric(old(self).return_value)),
            *final(self) == *old(self),
    {
        Ok(StatType::Numeric(self.return_value))
    }

    fn get_measurement_name(&self) -> (r: String)
        ensures
            r@ == self.name@,
    {
        self.name.clone()
    }

    fn get_base_stat_item(&self) -> (r: StatItem)
        ensures
            r@ == StatItemView::zero(self.name@, true),
    {
        StatItem::zero(self.name.clone(), true)
    }
}

/// A boolean module that always reads the same value.
pub struct DebugBoolModule {
    pub return_value: bool,
    pub name: String,
}

impl IModule for DebugBoolModule {
    fn get_measurement(&mut self) -> (r: Result<StatType, String>)
        ensures
            r == Ok::<StatType, String>(StatType::Bool(old(self).return_value)),
            *final(self) == *old(self),
    {
        Ok(StatType::Bool(self.return_value))
    }

    fn get_measurement_name(&self) -> (r: String)
        ensures
            r@ == self.name@,
    {
        self.name.clone()
    }

    fn get_base_stat_item(&self) -> (r: StatItem)
        ensures
            r@ == StatItemView::zero(self.name@, false),
    {
        StatItem::zero(self.name.clone(), false)
    }
}

/// A numeric module named `debug_temperature` that always reads zero.
pub struct DebugTemperatureModule {}

impl IModule for DebugTemperatureModule {
    fn get_measurement(&mut self) -> (r: Result<StatType, String>)
        ensures
            r == Ok::<StatType, String>(StatType::Numeric(0)),
    {
        Ok(StatType::Numeric(0))
    }

    fn get_measurement_name(&self) -> (r: String)
        ensures
            r@ == "debug_temperature"@,
    {
        String::from_str("debug_temperature")
    }

    fn get_base_stat_item(&self) -> (r: StatItem)
        ensures
            r@ == StatItemView::zero("debug_temperature"@, true),
    {
        StatItem::zero(String::from_str("debug_temperature"), true)
    }
}

/// Which of the two quantities of an AM2320 sensor a module reports.
#[derive(Clone, Copy, Debug, PartialEq, Eq, Structural)]
pub enum AM2320Usage {
    Temperature,
    Humidity,
}

impl AM2320Usage {
    pub open spec fn key(self) -> Seq<char> {
        match self {
            AM2320Usage::Temperature => "temperature"@,
            AM2320Usage::Humidity => "humidity"@,
        }
    }

    /// The name under which this quantity is registered.
    pub fn get_key(&self) -> (r: String)
        ensures
            r@ == self.key(),
    {
        match self {
            AM2320Usage::Temperature => String::from_str("temperature"),
            AM2320Usage::Humidity => String::from_str("humidity"),
        }
    }

    /// The quantity this usage reports, out of one measurement of both.
    pub fn select(&self, temperature: NumericType, humidity: NumericType) -> (r: NumericType)
        ensures
            r == (match self {
                AM2320Usage::Temperature => temperature,
                AM2320Usage::Humidity => humidity,
            }),
    {
        match self {
            AM2320Usage::Temperature => temperature,
            AM2320Usage::Humidity => humidity,
        }
    }
}

/// A module of either debug kind, so that one getter can poll both.
pub enum DebugModule {
    Numeric(DebugNumericModule),
    Bool(DebugBoolModule),
}

impl IModule for DebugModule {
    fn get_measurement(&mut self) -> (r: Result<StatType, String>)
        ensures
            *final(self) == *old(self),
            r == Ok::<StatType, String>(
                match *old(self) {
                    DebugModule::Numeric(m) => StatType::Numeric(m.return_value),
                    DebugModule::Bool(m) => StatType::Bool(m.return_value),
                },
            ),
    {
        match self {
            DebugModule::Numeric(m) => m.get_measurement(),
            DebugModule::Bool(m) => m.get_measurement(),
        }
    }

    fn get_measurement_name(&self) -> (r: String)
        ensures
            r@ == match *self {
                DebugModule::Numeric(m) => m.name@,
                DebugModule::Bool(m) => m.name@,
            },
    {
        match self {
            DebugModule::Numeric(m) => m.get_measurement_name(),
            DebugModule::Bool(m) => m.get_measurement_name(),
        }
    }

    fn get_base_stat_item(&self) -> (r: StatItem)
        ensures
            r@ == match *self {
                DebugModule::Numeric(m) => StatItemView::zero(m.name@, true),
                DebugModule::Bool(m) => StatItemView::zero(m.name@, false),
            },
    {
        match self {
            DebugModule::Numeric(m) => m.get_base_stat_item(),
            DebugModule::Bool(m) => m.get_base_stat_item(),
        }
    }
}

/// `get_measurement` on module `before` may return `r`, as far as the
/// module's own contract says (nothing, for an unverified module).
pub open spec fn module_read<M: IModule>(before: M, r: Result<StatType, String>) -> bool {
    exists|m: &mut M|
        #![trigger call_ensures(M::get_measurement, (m,), r)]
        *m == before && call_ensures(M::get_measurement, (m,), r)
}

/// Every module name has an accumulator, and no two accumulators share a name.
pub open spec fn consistent(names: Seq<Seq<char>>, stats: Seq<StatItemView>) -> bool {
    &&& names_unique(stats)
    &&& forall|i: int| 0 <= i < names.len() ==> has_key(stats, #[trigger] names[i])
}

/// `after` is `before` with the reading `p` folded into the accumulator named
/// `name`, which is of the reading's kind.
pub open spec fn applied(
    before: Seq<StatItemView>,
    after: Seq<StatItemView>,
    name: Seq<char>,
    p: StatType,
) -> bool {
    exists|j: int|
        0 <= j < before.len() && before[j].name() == name && p.is_numeric() == before[j].is_numeric()
            && #[trigger] updated_at(before, after, j, p)
}

/// The accumulator named `name` is of the other kind than the reading `p`.
pub open spec fn mismatched(stats: Seq<StatItemView>, name: Seq<char>, p: StatType) -> bool {
    exists|j: int|
        0 <= j < stats.len() && #[trigger] stats[j].name() == name && p.is_numeric()
            != stats[j].is_numeric()
}

/// The registry `end` is what the first `k` modules' readings, folded in turn
/// into the accumulators of their names, make of `start`.
pub open spec fn pass_upto<M: IModule>(
    mods: Seq<M>,
    names: Seq<Seq<char>>,
    start: Seq<StatItemView>,
    end: Seq<StatItemView>,
    k: nat,
) -> bool
    decreases k,
{
    if k == 0 {
        end == start
    } else {
        exists|mid: Seq<StatItemView>, p: StatType|
            pass_upto(mods, names, start, mid, (k - 1) as nat) && module_read(
                mods[k - 1],
                Ok(p),
            ) && #[trigger] applied(mid, end, names[k - 1], p)
    }
}

/// Reading module `module`, registered as `name`, ended the pass with `r`: the
/// read failed (`ModuleReadFailure` with its message), or it gave a reading of
/// the other kind than the accumulator of that name in `stats` (`TypeMismatch`).
pub open spec fn failed_at<M: IModule>(
    module: M,
    name: Seq<char>,
    stats: Seq<StatItemView>,
    r: Result<(), StatsError>,
) -> bool {
    exists|res: Result<StatType, String>|
        #![trigger module_read(module, res)]
        module_read(module, res) && match res {
            Ok(p) => mismatched(stats, name, p) && r == Err::<(), StatsError>(
                StatsError::TypeMismatch,
            ),
            Err(e) => (r matches Err(x) && x.is_read_failure(e@)),
        }
}

/// A pass that has read the first `k` modules leaves every accumulator whose
/// name none of them has as it was.
pub proof fn law_pass_keeps_other_entries<M: IModule>(
    mods: Seq<M>,
    names: Seq<Seq<char>>,
    start: Seq<StatItemView>,
    end: Seq<StatItemView>,
    k: nat,
)
    requires
        k <= names.len(),
        pass_upto(mods, names, start, end, k),
    ensures
        end.len() == start.len(),
        forall|idx: int|
            0 <= idx < start.len() && !names.take(k as int).contains(start[idx].name())
                ==> #[trigger] end[idx] == start[idx],
    decreases k,
{
    if k > 0 {
        let (mid, p) = choose|mid: Seq<StatItemView>, p: StatType|
            pass_upto(mods, names, start, mid, (k - 1) as nat) && module_read(
                mods[k - 1],
                Ok(p),
            ) && #[trigger] applied(mid, end, names[k - 1], p);
        law_pass_keeps_other_entries(mods, names, start, mid, (k - 1) as nat);
        let j = choose|j: int|
            0 <= j < mid.len() && mid[j].name() == names[k - 1] && p.is_numeric()
                == mid[j].is_numeric() && #[trigger] updated_at(mid, end, j, p);
        assert forall|idx: int|
            0 <= idx < start.len() && !names.take(k as int).contains(start[idx].name())
                implies #[trigger] end[idx] == start[idx] by {
            assert(names.take(k as int)[k - 1] == names[k - 1]);
            if names.take(k as int - 1).contains(start[idx].name()) {
                let w = choose|w: int|
                    0 <= w < k - 1 && #[trigger] names.take(k as int - 1)[w] == start[idx].name();
                assert(names.take(k as int)[w] == start[idx].name());
            }
            assert(idx != j);
        }
    }
}

/// `module` was registered as `name` with the accumulator `item`: it went
/// last among the modules, and `item` replaced the accumulator of that name
/// or, when there was none, went last among the accumulators.
pub open spec fn registered<M>(
    old_mods: Seq<M>,
    old_names: Seq<Seq<char>>,
    old_stats: Seq<StatItemView>,
    new_mods: Seq<M>,
    new_names: Seq<Seq<char>>,
    new_stats: Seq<StatItemView>,
    module: M,
    name: Seq<char>,
    item: StatItemView,
) -> bool {
    &&& new_mods == old_mods.push(module)
    &&& new_names == old_names.push(name)
    &&& forall|j: int|
        0 <= j < old_stats.len() && #[trigger] old_stats[j].name() == name ==> new_stats
            == old_stats.update(j, item.renamed(name))
    &&& !has_key(old_stats, name) ==> new_stats == old_stats.push(item.renamed(name))
}

/// Polls a list of sensor modules in registration order and keeps one
/// accumulator per module name.
pub struct ModuleStatsGetter<M: IModule> {
    modules: Vec<M>,
    names: Vec<String>,
    last_stats: Stats,
}

impl<M: IModule> ModuleStatsGetter<M> {
    /// The registered modules, in registration order.
    pub closed spec fn modules(&self) -> Seq<M> {
        self.modules@
    }

    /// The name each module was registered under, in the same order.
    pub closed spec fn names(&self) -> Seq<Seq<char>> {
        self.names@.map_values(|s: String| s@)
    }

    /// The accumulators.
    pub closed spec fn stats(&self) -> Seq<StatItemView> {
        self.last_stats@
    }

    #[verifier::type_invariant]
    spec fn inv(self) -> bool {
        &&& self.modules@.len() == self.names@.len()
        &&& consistent(self.names(), self.last_stats@)
    }

    pub fn new() -> (r: ModuleStatsGetter<M>)
        ensures
            r.modules() == Seq::<M>::empty(),
            r.names() == Seq::<Seq<char>>::empty(),
            r.stats() == Seq::<StatItemView>::empty(),
    {
        let r = ModuleStatsGetter { modules: Vec::new(), names: Vec::new(), last_stats: Stats::new() };
        assert(r.modules@ =~= Seq::<M>::empty());
        assert(r.names() =~= Seq::<Seq<char>>::empty());
        r
    }

    /// Whether an accumulator is registered under `name`.
    pub fn has_module(&self, name: &String) -> (r: bool)
        ensures
            r == has_key(self.stats(), name@),
    {
        self.last_stats.position(name).is_some()
    }

    /// Adds `module` last, registered as `name`, and registers `item` under
    /// that name; an accumulator already registered under it is replaced.
    pub fn register(&mut self, module: M, name: String, item: StatItem)
        ensures
            registered(
                old(self).modules(),
                old(self).names(),
                old(self).stats(),
                final(self).modules(),
                final(self).names(),
                final(self).stats(),
                module,
                name@,
                item@,
            ),
            final(self).modules().len() == final(self).names().len(),
            consistent(final(self).names(), final(self).stats()),
    {
        proof {
            use_type_invariant(&*self);
        }
        let entry = item.with_name(name.clone());
        let ghost e = entry@;
        let mut parts = ModuleStatsGetter {
            modules: Vec::new(),
            names: Vec::new(),
            last_stats: Stats::new(),
        };
        std::mem::swap(self, &mut parts);
        let ModuleStatsGetter { mut modules, mut names, mut last_stats } = parts;
        let ghost (old_mods, old_stats) = (modules@, last_stats@);
        let ghost old_names = names@.map_values(|s: String| s@);
        let found = last_stats.position(&name);
        last_stats.add_stat_item(entry);
        let ghost new_stats = last_stats@;
        match found {
            Some(j) => {
                assert(new_stats == old_stats.update(j as int, e));
                assert(forall|k: int|
                    0 <= k < old_stats.len() && old_stats[k].name() == name@ ==> k == j);
                assert(forall|k: int| 0 <= k < new_stats.len() ==> new_stats[k].name() == old_stats[k].name());
            },
            None => {
                assert(new_stats == old_stats.push(e));
                assert(forall|k: int| 0 <= k < old_stats.len() ==> new_stats[k] == old_stats[k]);
                assert(new_stats[old_stats.len() as int].name() == name@);
            },
        }
        modules.push(module);
        names.push(name);
        let ghost nn = names@.map_values(|s: String| s@);
        assert(nn =~= old_names.push(e.name()));
        assert forall|i: int| 0 <= i < nn.len() implies has_key(new_stats, #[trigger] nn[i]) by {
            if i < old_names.len() {
                assert(nn[i] == old_names[i]);
                assert(has_key(old_stats, old_names[i]));
                let w = choose|w: int| 0 <= w < old_stats.len() && old_stats[w].name() == old_names[i];
                assert(new_stats[w].name() == old_stats[w].name());
            } else {
                match found {
                    Some(j) => assert(new_stats[j as int].name() == nn[i]),
                    None => assert(new_stats[old_stats.len() as int].name() == nn[i]),
                }
            }
        }
        assert(names_unique(new_stats));
        *self = ModuleStatsGetter { modules, names, last_stats };
        assert(old_mods == old(self).modules() && old_stats == old(self).stats()
            && old_names == old(self).names());
    }

    /// Adds `module` last, registered under the name it reports with the
    /// accumulator it offers.
    pub fn add_module(&mut self, module: M)
        ensures
            exists|name: String, base: StatItem|
                call_ensures(M::get_measurement_name, (&module,), name) && call_ensures(
                    M::get_base_stat_item,
                    (&module,),
                    base,
                ) && #[trigger] registered(
                    old(self).modules(),
                    old(self).names(),
                    old(self).stats(),
                    final(self).modules(),
                    final(self).names(),
                    final(self).stats(),
                    module,
                    name@,
                    base@,
                ),
            final(self).modules().len() == final(self).names().len(),
            consistent(final(self).names(), final(self).stats()),
    {
        let name = module.get_measurement_name();
        let base = module.get_base_stat_item();
        let ghost (n, b) = (name, base);
        self.register(module, name, base);
        assert(call_ensures(M::get_measurement_name, (&module,), n));
        assert(call_ensures(M::get_base_stat_item, (&module,), b));
        assert(registered(
            old(self).modules(),
            old(self).names(),
            old(self).stats(),
            self.modules(),
            self.names(),
            self.stats(),
            module,
            n@,
            b@,
        ));
    }

    /// Takes one reading from module `i`; names and statistics are left alone.
    fn read_module(&mut self, i: usize) -> (r: Result<StatType, String>)
        requires
            i < old(self).modules().len(),
        ensures
            final(self).modules() == old(self).modules().update(
                i as int,
                final(self).modules()[i as int],
            ),
            final(self).names() == old(self).names(),
            final(self).stats() == old(self).stats(),
            module_read(old(self).modules()[i as int], r),
    {
        proof {
            use_type_invariant(&*self);
        }
        let mut parts = ModuleStatsGetter {
            modules: Vec::new(),
            names: Vec::new(),
            last_stats: Stats::new(),
        };
        std::mem::swap(self, &mut parts);
        let ModuleStatsGetter { mut modules, names, last_stats } = parts;
        let r = modules[i].get_measurement();
        *self = ModuleStatsGetter { modules, names, last_stats };
        r
    }

    /// Folds the outcome of reading module `i` into the accumulator of its
    /// name. A failed reading is reported as `ModuleReadFailure`, a reading of
    /// the other kind than that accumulator as `TypeMismatch`; neither changes
    /// anything.
    pub fn apply_reading(&mut self, i: usize, reading: Result<StatType, String>) -> (r: Result<
        (),
        StatsError,
    >)
        requires
            i < old(self).modules().len(),
        ensures
            final(self).modules() == old(self).modules(),
            final(self).names() == old(self).names(),
            final(self).modules().len() == final(self).names().len(),
            consistent(final(self).names(), final(self).stats()),
            match reading {
                Ok(v) => if mismatched(old(self).stats(), old(self).names()[i as int], v) {
                    r == Err::<(), StatsError>(StatsError::TypeMismatch) && final(self).stats()
                        == old(self).stats()
                } else {
                    r is Ok && applied(
                        old(self).stats(),
                        final(self).stats(),
                        old(self).names()[i as int],
                        v,
                    )
                },
                Err(e) => (r matches Err(x) && x.is_read_failure(e@)) && final(self).stats()
                    == old(self).stats(),
            },
    {
        proof {
            use_type_invariant(&*self);
        }
        match reading {
            Ok(v) => {
                let name = self.names[i].clone();
                let ghost before = self.stats();
                proof {
                    assert(self.names()[i as int] == name@);
                    assert(has_key(before, self.names()[i as int]));
                }
                let j = match self.last_stats.position(&name) {
                    Some(j) => j,
                    None => {
                        return Err(StatsError::TypeMismatch);
                    },
                };
                proof {
                    assert(forall|k: int| 0 <= k < before.len() && before[k].name() == name@ ==> k == j);
                }
                let numeric = match v {
                    StatType::Numeric(_) => true,
                    StatType::Bool(_) => false,
                };
                if numeric != self.last_stats.item(j).is_numeric() {
                    assert(before[j as int].name() == name@);
                    return Err(StatsError::TypeMismatch);
                }
                let mut parts = ModuleStatsGetter {
                    modules: Vec::new(),
                    names: Vec::new(),
                    last_stats: Stats::new(),
                };
                std::mem::swap(self, &mut parts);
                let ModuleStatsGetter { modules, names, mut last_stats } = parts;
                let r = last_stats.update_stat_item(&name, v);
                proof {
                    assert(updated_at(before, last_stats@, j as int, v));
                    assert(forall|k: int| 0 <= k < before.len() ==> #[trigger] last_stats@[k].name() == before[k].name());
                    let nm = names@.map_values(|s: String| s@);
                    assert forall|q: int| 0 <= q < nm.len() implies has_key(last_stats@, #[trigger] nm[q]) by {
                        assert(has_key(before, nm[q]));
                        let w = choose|w: int| 0 <= w < before.len() && before[w].name() == nm[q];
                        assert(last_stats@[w].name() == before[w].name());
                    }
                }
                *self = ModuleStatsGetter { modules, names, last_stats };
                r
            },
            Err(e) => Err(StatsError::ModuleReadFailure(e)),
        }
    }

    /// The accumulators as they are now, copied.
    pub fn latest_snapshot(&self) -> (r: Stats)
        ensures
            r@ == self.stats(),
    {
        self.last_stats.snapshot()
    }
}

impl<M: IModule> IStatsGetter for ModuleStatsGetter<M> {
    /// One polling pass: reads the modules in registration order and folds
    /// what each returned into the accumulator of its name. The first failure
    /// ends the pass: the readings before it stay folded in, the modules after
    /// it are not read.
    fn update_stats(&mut self) -> (r: Result<(), StatsError>)
        ensures
            final(self).modules().len() == old(self).modules().len(),
            final(self).names() == old(self).names(),
            consistent(final(self).names(), final(self).stats()),
            exists|k: nat, reached: Seq<StatItemView>|
                k <= old(self).modules().len() && #[trigger] pass_upto(
                    old(self).modules(),
                    old(self).names(),
                    old(self).stats(),
                    reached,
                    k,
                ) && final(self).stats() == reached && (k == old(self).modules().len()
                    ==> r is Ok) && (k < old(self).modules().len() ==> failed_at(
                    old(self).modules()[k as int],
                    old(self).names()[k as int],
                    reached,
                    r,
                )),
    {
        proof {
            use_type_invariant(&*self);
        }
        let n = self.modules.len();
        let ghost start_stats = self.stats();
        let ghost start_mods = self.modules();
        let ghost start_names = self.names();
        let mut i: usize = 0;
        assert(pass_upto(start_mods, start_names, start_stats, self.stats(), 0));
        while i < n
            invariant
                start_stats == old(self).stats(),
                start_mods == old(self).modules(),
                start_names == old(self).names(),
                n == start_mods.len(),
                n == self.modules().len(),
                n == start_names.len(),
                self.names() == start_names,
                consistent(start_names, self.stats()),
                i <= n,
                pass_upto(start_mods, start_names, start_stats, self.stats(), i as nat),
                forall|j: int| i <= j < n ==> #[trigger] self.modules()[j] == start_mods[j],
            decreases n - i,
        {
            let ghost mid = self.stats();
            let reading = self.read_module(i);
            let ghost rd = reading;
            match self.apply_reading(i, reading) {
                Ok(()) => {},
                Err(e) => {
                    proof {
                        assert(module_read(start_mods[i as int], rd));
                        assert(failed_at(start_mods[i as int], start_names[i as int], mid, Err::<(), StatsError>(e)));
                        assert(pass_upto(start_mods, start_names, start_stats, self.stats(), i as nat));
                    }
                    return Err(e);
                },
            }
            proof {
                let p = rd->Ok_0;
                assert(module_read(start_mods[i as int], Ok(p)));
                assert(applied(mid, self.stats(), start_names[i as int], p));
                let k = (i + 1) as nat;
                assert((k - 1) as nat == i as nat);
                assert(start_names[k - 1] == start_names[i as int]);
                assert(start_mods[k - 1] == start_mods[i as int]);
                assert(pass_upto(start_mods, start_names, start_stats, mid, (k - 1) as nat));
                assert(applied(mid, self.stats(), start_names[k - 1], p));
                assert(pass_upto(start_mods, start_names, start_stats, self.stats(), k));
            }
            i = i + 1;
        }
        Ok(())
    }

    /// The accumulators as they are now, copied; never fails.
    fn get_stats(&self) -> (r: Result<Stats, StatsError>)
        ensures
            r matches Ok(s) && s@ == self.stats(),
    {
        Ok(self.latest_snapshot())
    }
}

} // verus!
