use vstd::prelude::*;
use vstd::arithmetic::div_mod::{lemma_div_is_ordered, lemma_div_multiples_vanish};
use vstd::arithmetic::mul::lemma_mul_inequality;

verus! {

/// A numeric reading, in tenths of the sensor's unit (0.1 °C, 0.1 %RH).
pub type NumericType = i64;

/// One reading, handed from a sensor module to the accumulator paired with it.
#[derive(Clone, Copy, Debug, PartialEq, Eq, Structural)]
pub enum StatType {
    Bool(bool),
    Numeric(NumericType),
}

impl StatType {
    pub open spec fn is_numeric(self) -> bool {
        self is Numeric
    }
}

/// Relies on chrono's `From<SystemTime> for DateTime<Utc>` and
/// `DateTime::timestamp`: the current time as whole seconds since the Unix
/// epoch, negative for a clock set before it. Nothing is promised of the
/// value. The conversion fails only for a clock hundreds of thousands of
/// years away, which Linux does not let be set.
#[verifier::external_body]
fn unix_now() -> i64 {
    chrono::DateTime::<chrono::Utc>::from(std::time::SystemTime::now()).timestamp()
}

/// The arithmetic mean `total / n`, rounded toward zero.
pub open spec fn mean_toward_zero(total: int, n: int) -> int {
    if total >= 0 {
        total / n
    } else {
        -((-total) / n)
    }
}

/// Model of a `NumericStat`.
pub ghost struct NumericView {
    pub name: Seq<char>,
    pub last: int,
    pub min: int,
    pub max: int,
    /// Sum of the readings since the accumulator was created or last reset.
    pub total: int,
    pub observations: nat,
}

impl NumericView {
    pub open spec fn zero(name: Seq<char>) -> NumericView {
        NumericView { name, last: 0, min: 0, max: 0, total: 0, observations: 0 }
    }

    /// The running average: the arithmetic mean of the readings since the
    /// last reset, rounded toward zero; 0 before the first reading. It is
    /// kept exactly, as a sum and a count, rather than by the compounding
    /// recurrence `avg * n + v / (n + 1)`, which does not converge to the mean.
    pub open spec fn avg(self) -> int {
        if self.observations == 0 {
            0
        } else {
            mean_toward_zero(self.total, self.observations as int)
        }
    }

    /// What holds of every accumulator reachable from `zero` by readings.
    pub open spec fn wf(self) -> bool {
        &&& self.observations <= u64::MAX
        &&& self.observations == 0 ==> self == NumericView::zero(self.name)
        &&& self.observations > 0 ==> {
            &&& i64::MIN <= self.min <= self.last <= self.max <= i64::MAX
            &&& self.observations * self.min <= self.total <= self.observations * self.max
        }
    }

    /// The accumulator after one more reading `v`. At the largest count it
    /// first starts over, keeping only its name.
    pub open spec fn next(self, v: int) -> NumericView {
        let base = if self.observations == u64::MAX {
            NumericView::zero(self.name)
        } else {
            self
        };
        NumericView {
            name: base.name,
            last: v,
            min: if base.observations == 0 || v < base.min { v } else { base.min },
            max: if base.observations == 0 || v > base.max { v } else { base.max },
            total: base.total + v,
            observations: base.observations + 1,
        }
    }
}

/// Running statistics of a numeric signal: last value, extremes, mean, count.
pub struct NumericStat {
    last: NumericType,
    min: NumericType,
    max: NumericType,
    total: i128,
    observations: u64,
    name: String,
}

impl View for NumericStat {
    type V = NumericView;

    closed spec fn view(&self) -> NumericView {
        NumericView {
            name: self.name@,
            last: self.last as int,
            min: self.min as int,
            max: self.max as int,
            total: self.total as int,
            observations: self.observations as nat,
        }
    }
}

/// The mean of readings between `lo` and `hi` lies between them too.
proof fn lemma_mean_bounds(total: int, n: int, lo: int, hi: int)
    requires
        n > 0,
        n * lo <= total <= n * hi,
    ensures
        lo <= mean_toward_zero(total, n) <= hi,
{
    lemma_div_multiples_vanish(lo, n);
    lemma_div_multiples_vanish(hi, n);
    lemma_div_multiples_vanish(-lo, n);
    lemma_div_multiples_vanish(-hi, n);
    assert(n * -lo == -(n * lo)) by (nonlinear_arith);
    assert(n * -hi == -(n * hi)) by (nonlinear_arith);
    if total >= 0 {
        lemma_div_is_ordered(total, n * hi, n);
        if lo > 0 {
            lemma_div_is_ordered(n * lo, total, n);
        } else {
            lemma_div_is_ordered(0, total, n);
        }
    } else {
        lemma_div_is_ordered(-total, n * -lo, n);
        if hi < 0 {
            lemma_div_is_ordered(n * -hi, -total, n);
        } else {
            lemma_div_is_ordered(0, -total, n);
        }
    }
}

/// Room left in the running sum before one more reading is added to it.
proof fn lemma_total_room(n: int, lo: int, hi: int, total: int)
    requires
        0 <= n <= u64::MAX - 1,
        i64::MIN <= lo,
        hi <= i64::MAX,
        n * lo <= total <= n * hi,
    ensures
        (u64::MAX - 1) * i64::MIN <= total <= (u64::MAX - 1) * i64::MAX,
{
    assert(n * hi <= n * i64::MAX) by (nonlinear_arith)
        requires 0 <= n, hi <= i64::MAX;
    assert(n * i64::MAX <= (u64::MAX - 1) * i64::MAX) by (nonlinear_arith)
        requires n <= u64::MAX - 1;
    assert(n * lo >= n * i64::MIN) by (nonlinear_arith)
        requires 0 <= n, i64::MIN <= lo;
    assert(n * i64::MIN >= (u64::MAX - 1) * i64::MIN) by (nonlinear_arith)
        requires n <= u64::MAX - 1;
}

/// One more reading keeps the accumulator's bounds.
proof fn lemma_next_wf(s: NumericView, v: int)
    requires
        s.wf(),
        i64::MIN <= v <= i64::MAX,
    ensures
        s.next(v).wf(),
{
    let base = if s.observations == u64::MAX {
        NumericView::zero(s.name)
    } else {
        s
    };
    let t = s.next(v);
    let n = base.observations as int;
    if n > 0 {
        assert((n + 1) * t.min <= base.total + v) by (nonlinear_arith)
            requires
                n > 0,
                t.min <= base.min,
                t.min <= v,
                n * base.min <= base.total;
        assert((n + 1) * t.max >= base.total + v) by (nonlinear_arith)
            requires
                n > 0,
                t.max >= base.max,
                t.max >= v,
                n * base.max >= base.total;
    } else {
        assert(1 * v == v);
    }
}

impl NumericStat {
    #[verifier::type_invariant]
    pub(crate) open spec fn inv(self) -> bool {
        self@.wf()
    }

    /// A fresh accumulator with no readings yet.
    pub fn new(name: String) -> (r: NumericStat)
        ensures
            r@ == NumericView::zero(name@),
    {
        NumericStat { last: 0, min: 0, max: 0, total: 0, observations: 0, name }
    }

    pub fn name(&self) -> (r: &String)
        ensures
            r@ == self@.name,
    {
        &self.name
    }

    pub fn last(&self) -> (r: NumericType)
        ensures
            r == self@.last,
    {
        self.last
    }

    pub fn min(&self) -> (r: NumericType)
        ensures
            r == self@.min,
    {
        self.min
    }

    pub fn max(&self) -> (r: NumericType)
        ensures
            r == self@.max,
    {
        self.max
    }

    pub fn observations(&self) -> (r: u64)
        ensures
            r == self@.observations,
    {
        self.observations
    }

    /// The running average, rounded toward zero.
    pub fn avg(&self) -> (r: NumericType)
        ensures
            r == self@.avg(),
            self@.observations > 0 ==> self@.min <= r <= self@.max,
    {
        proof {
            use_type_invariant(self);
        }
        if self.observations == 0 {
            return 0;
        }
        proof {
            let (n, t) = (self.observations as int, self.total as int);
            lemma_mean_bounds(t, n, self.min as int, self.max as int);
            assert(n * self.min >= u64::MAX * i64::MIN) by (nonlinear_arith)
                requires 0 < n <= u64::MAX, i64::MIN <= self.min;
        }
        if self.total >= 0 {
            (self.total as u128 / self.observations as u128) as i64
        } else {
            let q = (0 - self.total) as u128 / self.observations as u128;
            (0 - q as i128) as i64
        }
    }

    /// Folds one reading in; at the largest count the history is dropped first.
    pub fn update(&mut self, val: &StatType)
        requires
            val.is_numeric(),
        ensures
            final(self)@ == old(self)@.next(val->Numeric_0 as int),
            final(self)@.wf(),
    {
        proof {
            use_type_invariant(&*self);
        }
        let v = match val {
            StatType::Numeric(n) => *n,
            StatType::Bool(_) => {
                return;
            },
        };
        if self.observations == u64::MAX {
            *self = NumericStat::new(self.name.clone());
        }
        proof {
            use_type_invariant(&*self);
            lemma_next_wf(old(self)@, v as int);
            if self.observations == 0 {
                assert(0 * 0 == 0);
            }
            lemma_total_room(
                self.observations as int,
                self.min as int,
                self.max as int,
                self.total as int,
            );
        }
        let first = self.observations == 0;
        let new_min = if first || v < self.min { v } else { self.min };
        let new_max = if first || v > self.max { v } else { self.max };
        let total = self.total + v as i128;
        *self = NumericStat {
            last: v,
            min: new_min,
            max: new_max,
            total,
            observations: self.observations + 1,
            name: self.name.clone(),
        };
    }

    /// A copy that shares nothing with `self`.
    pub fn box_clone(&self) -> (r: NumericStat)
        ensures
            r@ == self@,
    {
        proof {
            use_type_invariant(self);
        }
        NumericStat {
            last: self.last,
            min: self.min,
            max: self.max,
            total: self.total,
            observations: self.observations,
            name: self.name.clone(),
        }
    }

    pub fn get_last(&self) -> (r: StatType)
        ensures
            r == StatType::Numeric(self@.last as i64),
    {
        StatType::Numeric(self.last)
    }
}

/// Model of a `BoolStat`.
pub ghost struct BoolView {
    pub name: Seq<char>,
    pub triggered: bool,
    pub last_triggered: int,
    pub total_triggers: nat,
}

impl BoolView {
    pub open spec fn zero(name: Seq<char>) -> BoolView {
        BoolView { name, triggered: false, last_triggered: 0, total_triggers: 0 }
    }

    /// The accumulator after reading `reading` at Unix time `now`. The count
    /// stays at its largest value rather than wrap.
    pub open spec fn next(self, reading: bool, now: int) -> BoolView {
        BoolView {
            name: self.name,
            triggered: reading,
            last_triggered: if reading { now } else { self.last_triggered },
            total_triggers: if reading && self.total_triggers < u64::MAX {
                self.total_triggers + 1
            } else {
                self.total_triggers
            },
        }
    }
}

/// Trigger statistics of a binary signal: latest state, time of the latest
/// `true` reading, and how many `true` readings there were.
pub struct BoolStat {
    triggered: bool,
    last_triggered: i64,
    total_triggers: u64,
    name: String,
}

impl View for BoolStat {
    type V = BoolView;

    closed spec fn view(&self) -> BoolView {
        BoolView {
            name: self.name@,
            triggered: self.triggered,
            last_triggered: self.last_triggered as int,
            total_triggers: self.total_triggers as nat,
        }
    }
}

impl BoolStat {
    /// A fresh accumulator with no readings yet.
    pub fn new(name: String) -> (r: BoolStat)
        ensures
            r@ == BoolView::zero(name@),
    {
        BoolStat { triggered: false, last_triggered: 0, total_triggers: 0, name }
    }

    pub fn name(&self) -> (r: &String)
        ensures
            r@ == self@.name,
    {
        &self.name
    }

    pub fn triggered(&self) -> (r: bool)
        ensures
            r == self@.triggered,
    {
        self.triggered
    }

    pub fn last_triggered(&self) -> (r: i64)
        ensures
            r == self@.last_triggered,
    {
        self.last_triggered
    }

    pub fn total_triggers(&self) -> (r: u64)
        ensures
            r == self@.total_triggers,
    {
        self.total_triggers
    }

    /// Folds in one reading taken at Unix time `now`.
    pub fn update_at(&mut self, trig: &StatType, now: i64)
        requires
            !trig.is_numeric(),
        ensures
            final(self)@ == old(self)@.next(trig->Bool_0, now as int),
    {
        if let StatType::Bool(b) = trig {
            self.triggered = *b;
            if *b {
                self.last_triggered = now;
                if self.total_triggers < u64::MAX {
                    self.total_triggers = self.total_triggers + 1;
                }
            }
        }
    }

    /// Folds in one reading, stamped with the current time.
    pub fn update(&mut self, trig: &StatType)
        requires
            !trig.is_numeric(),
        ensures
            final(self)@ == old(self)@.next(trig->Bool_0, final(self)@.last_triggered),
    {
        let now = unix_now();
        self.update_at(trig, now);
    }

    /// A copy that shares nothing with `self`.
    pub fn box_clone(&self) -> (r: BoolStat)
        ensures
            r@ == self@,
    {
        BoolStat {
            triggered: self.triggered,
            last_triggered: self.last_triggered,
            total_triggers: self.total_triggers,
            name: self.name.clone(),
        }
    }

    pub fn get_last(&self) -> (r: StatType)
        ensures
            r == StatType::Bool(self@.triggered),
    {
        StatType::Bool(self.triggered)
    }
}

/// Model of a `StatItem`.
pub ghost enum StatItemView {
    Numeric(NumericView),
    Bool(BoolView),
}

impl StatItemView {
    pub open spec fn name(self) -> Seq<char> {
        match self {
            StatItemView::Numeric(n) => n.name,
            StatItemView::Bool(b) => b.name,
        }
    }

    pub open spec fn is_numeric(self) -> bool {
        self is Numeric
    }

    pub open spec fn wf(self) -> bool {
        match self {
            StatItemView::Numeric(n) => n.wf(),
            StatItemView::Bool(_) => true,
        }
    }

    /// The same accumulator under another name.
    pub open spec fn renamed(self, name: Seq<char>) -> StatItemView {
        match self {
            StatItemView::Numeric(n) => StatItemView::Numeric(
                NumericView {
                    name,
                    last: n.last,
                    min: n.min,
                    max: n.max,
                    total: n.total,
                    observations: n.observations,
                },
            ),
            StatItemView::Bool(b) => StatItemView::Bool(
                BoolView {
                    name,
                    triggered: b.triggered,
                    last_triggered: b.last_triggered,
                    total_triggers: b.total_triggers,
                },
            ),
        }
    }

    /// The zero-valued accumulator of the given kind.
    pub open spec fn zero(name: Seq<char>, numeric: bool) -> StatItemView {
        if numeric {
            StatItemView::Numeric(NumericView::zero(name))
        } else {
            StatItemView::Bool(BoolView::zero(name))
        }
    }

    /// Whether `after` is what folding the reading `p` into `self` gives; a
    /// boolean accumulator takes its time stamp from the clock.
    pub open spec fn updated_by(self, p: StatType, after: StatItemView) -> bool {
        match self {
            StatItemView::Numeric(n) => match p {
                StatType::Numeric(v) => after == StatItemView::Numeric(n.next(v as int)),
                StatType::Bool(_) => false,
            },
            StatItemView::Bool(b) => match p {
                StatType::Bool(t) => after is Bool && after->Bool_0 == b.next(
                    t,
                    after->Bool_0.last_triggered,
                ),
                StatType::Numeric(_) => false,
            },
        }
    }

    /// The reading that a reader of this accumulator sees as "latest".
    pub open spec fn latest(self) -> StatType {
        match self {
            StatItemView::Numeric(n) => StatType::Numeric(n.last as i64),
            StatItemView::Bool(b) => StatType::Bool(b.triggered),
        }
    }
}

/// A named accumulator of either kind.
pub enum StatItem {
    Numeric(NumericStat),
    Bool(BoolStat),
}

impl View for StatItem {
    type V = StatItemView;

    open spec fn view(&self) -> StatItemView {
        match self {
            StatItem::Numeric(n) => StatItemView::Numeric(n@),
            StatItem::Bool(b) => StatItemView::Bool(b@),
        }
    }
}

impl StatItem {
    /// The zero-valued accumulator of the given kind.
    pub fn zero(name: String, numeric: bool) -> (r: StatItem)
        ensures
            r@ == StatItemView::zero(name@, numeric),
    {
        if numeric {
            StatItem::Numeric(NumericStat::new(name))
        } else {
            StatItem::Bool(BoolStat::new(name))
        }
    }

    pub fn name(&self) -> (r: &String)
        ensures
            r@ == self@.name(),
    {
        match self {
            StatItem::Numeric(n) => n.name(),
            StatItem::Bool(b) => b.name(),
        }
    }

    pub fn is_numeric(&self) -> (r: bool)
        ensures
            r == self@.is_numeric(),
    {
        match self {
            StatItem::Numeric(_) => true,
            StatItem::Bool(_) => false,
        }
    }

    /// Folds one reading in. The reading must be of the accumulator's kind:
    /// pairing a module with the wrong kind is a configuration error.
    pub fn update(&mut self, val: &StatType)
        requires
            old(self)@.is_numeric() == val.is_numeric(),
        ensures
            old(self)@.updated_by(*val, final(self)@),
            final(self)@.wf(),
    {
        match self {
            StatItem::Numeric(n) => n.update(val),
            StatItem::Bool(b) => b.update(val),
        }
    }

    pub fn get_last(&self) -> (r: StatType)
        ensures
            r == self@.latest(),
    {
        match self {
            StatItem::Numeric(n) => n.get_last(),
            StatItem::Bool(b) => b.get_last(),
        }
    }

    /// The same accumulator under the name `name`.
    pub fn with_name(self, name: String) -> (r: StatItem)
        ensures
            r@ == self@.renamed(name@),
    {
        match self {
            StatItem::Numeric(n) => {
                proof {
                    use_type_invariant(&n);
                }
                StatItem::Numeric(
                    NumericStat {
                        last: n.last,
                        min: n.min,
                        max: n.max,
                        total: n.total,
                        observations: n.observations,
                        name,
                    },
                )
            },
            StatItem::Bool(b) => StatItem::Bool(
                BoolStat {
                    triggered: b.triggered,
                    last_triggered: b.last_triggered,
                    total_triggers: b.total_triggers,
                    name,
                },
            ),
        }
    }

    /// A copy that shares nothing with `self`.
    pub fn box_clone(&self) -> (r: StatItem)
        ensures
            r@ == self@,
    {
        match self {
            StatItem::Numeric(n) => StatItem::Numeric(n.box_clone()),
            StatItem::Bool(b) => StatItem::Bool(b.box_clone()),
        }
    }
}

/// Folding a reading in keeps an accumulator's name, kind and bounds.
pub proof fn lemma_update_keeps_identity(before: StatItemView, p: StatType, after: StatItemView)
    requires
        before.wf(),
        before.updated_by(p, after),
        p is Numeric ==> i64::MIN <= p->Numeric_0 <= i64::MAX,
    ensures
        after.name() == before.name(),
        after.is_numeric() == before.is_numeric(),
        after.wf(),
{
    if let StatItemView::Numeric(n) = before {
        lemma_next_wf(n, p->Numeric_0 as int);
    }
}

/// After every numeric reading, whatever came before it: the accumulator is
/// still well formed, `min <= last <= max`, and the count grew by exactly one,
/// or started over at one when it had reached its largest value.
pub proof fn law_numeric_reading(s: NumericView, v: int)
    requires
        s.wf(),
        i64::MIN <= v <= i64::MAX,
    ensures
        s.next(v).wf(),
        s.next(v).min <= s.next(v).last <= s.next(v).max,
        s.next(v).last == v,
        s.next(v).observations == if s.observations == u64::MAX {
            1
        } else {
            s.observations + 1
        },
{
    lemma_next_wf(s, v);
}

/// A numeric accumulator at its largest count starts over on the next
/// reading: one observation, `last`, `min` and `max` equal to that reading,
/// and the same name.
pub proof fn law_numeric_overflow_reset(s: NumericView, v: int)
    requires
        s.wf(),
        s.observations == u64::MAX,
        i64::MIN <= v <= i64::MAX,
    ensures
        s.next(v).observations == 1,
        s.next(v).last == v,
        s.next(v).min == v,
        s.next(v).max == v,
        s.next(v).avg() == v,
        s.next(v).name == s.name,
{
}

/// On every boolean reading: the trigger count never decreases and grows by
/// one exactly on a `true` reading (short of its largest value), `triggered`
/// is the reading itself, and the trigger time moves only on `true`.
pub proof fn law_bool_reading(s: BoolView, reading: bool, now: int)
    ensures
        s.next(reading, now).total_triggers >= s.total_triggers,
        s.total_triggers < u64::MAX ==> s.next(reading, now).total_triggers == s.total_triggers + if reading {
            1nat
        } else {
            0nat
        },
        s.next(reading, now).triggered == reading,
        reading ==> s.next(reading, now).last_triggered == now,
        !reading ==> s.next(reading, now).last_triggered == s.last_triggered,
        s.next(reading, now).name == s.name,
{
}

/// A numeric accumulator after the readings `vs`, in order.
pub open spec fn after_readings(s: NumericView, vs: Seq<int>) -> NumericView
    decreases vs.len(),
{
    if vs.len() == 0 {
        s
    } else {
        after_readings(s, vs.drop_last()).next(vs.last())
    }
}

proof fn lemma_after_readings_wf(s: NumericView, vs: Seq<int>)
    requires
        s.wf(),
        forall|i: int| 0 <= i < vs.len() ==> i64::MIN <= #[trigger] vs[i] <= i64::MAX,
    ensures
        after_readings(s, vs).wf(),
    decreases vs.len(),
{
    if vs.len() > 0 {
        lemma_after_readings_wf(s, vs.drop_last());
        lemma_next_wf(after_readings(s, vs.drop_last()), vs.last());
    }
}

/// For every sequence of numeric readings, after each of them: the
/// accumulator is well formed, `min <= last <= max`, `last` is that reading,
/// and the count grew by exactly one, or started over at one when it had
/// reached its largest value.
pub proof fn law_numeric_readings(s: NumericView, vs: Seq<int>)
    requires
        s.wf(),
        forall|i: int| 0 <= i < vs.len() ==> i64::MIN <= #[trigger] vs[i] <= i64::MAX,
    ensures
        forall|k: int|
            #![trigger after_readings(s, vs.take(k))]
            1 <= k <= vs.len() ==> {
                let before = after_readings(s, vs.take(k - 1));
                let after = after_readings(s, vs.take(k));
                &&& after.wf()
                &&& after.min <= after.last <= after.max
                &&& after.last == vs[k - 1]
                &&& after.observations == if before.observations == u64::MAX {
                    1
                } else {
                    before.observations + 1
                }
            },
{
    assert forall|k: int| #![trigger after_readings(s, vs.take(k))] 1 <= k <= vs.len() implies {
        let before = after_readings(s, vs.take(k - 1));
        let after = after_readings(s, vs.take(k));
        &&& after.wf()
        &&& after.min <= after.last <= after.max
        &&& after.last == vs[k - 1]
        &&& after.observations == if before.observations == u64::MAX {
            1
        } else {
            before.observations + 1
        }
    } by {
        let prefix = vs.take(k - 1);
        assert(vs.take(k).drop_last() =~= prefix);
        assert(vs.take(k).last() == vs[k - 1]);
        lemma_after_readings_wf(s, prefix);
        law_numeric_reading(after_readings(s, prefix), vs[k - 1]);
    }
}

/// A boolean accumulator after the readings `rs`, the i-th taken at `ts[i]`.
pub open spec fn after_bool_readings(s: BoolView, rs: Seq<bool>, ts: Seq<int>) -> BoolView
    decreases rs.len(),
{
    if rs.len() == 0 || ts.len() != rs.len() {
        s
    } else {
        after_bool_readings(s, rs.drop_last(), ts.drop_last()).next(rs.last(), ts.last())
    }
}

/// How many of the readings are `true`.
pub open spec fn count_true(rs: Seq<bool>) -> nat
    decreases rs.len(),
{
    if rs.len() == 0 {
        0
    } else {
        count_true(rs.drop_last()) + if rs.last() {
            1nat
        } else {
            0nat
        }
    }
}

/// For every sequence of boolean readings that does not push the count past
/// its largest value: the count grew by exactly the number of `true`
/// readings, `triggered` is the last reading, and a sequence without a
/// `true` reading leaves the trigger time where it was.
pub proof fn law_bool_readings(s: BoolView, rs: Seq<bool>, ts: Seq<int>)
    requires
        ts.len() == rs.len(),
        s.total_triggers + rs.len() <= u64::MAX,
    ensures
        after_bool_readings(s, rs, ts).total_triggers == s.total_triggers + count_true(rs),
        after_bool_readings(s, rs, ts).total_triggers >= s.total_triggers,
        rs.len() > 0 ==> after_bool_readings(s, rs, ts).triggered == rs.last(),
        (forall|i: int| 0 <= i < rs.len() ==> !#[trigger] rs[i])
            ==> after_bool_readings(s, rs, ts).last_triggered == s.last_triggered,
        after_bool_readings(s, rs, ts).name == s.name,
    decreases rs.len(),
{
    if rs.len() > 0 {
        let (rp, tp) = (rs.drop_last(), ts.drop_last());
        law_bool_readings(s, rp, tp);
        assert(count_true(rp) <= rp.len()) by {
            lemma_count_true_bound(rp);
        }
        if forall|i: int| 0 <= i < rs.len() ==> !#[trigger] rs[i] {
            assert(forall|i: int| 0 <= i < rp.len() ==> rp[i] == rs[i]);
            assert(!rs[rs.len() - 1]);
        }
    }
}

proof fn lemma_count_true_bound(rs: Seq<bool>)
    ensures
        count_true(rs) <= rs.len(),
    decreases rs.len(),
{
    if rs.len() > 0 {
        lemma_count_true_bound(rs.drop_last());
    }
}

/// One more boolean reading extends the fold by one step: the state that
/// `update_at(reading, now)` leaves after the readings `rs` at times `ts` is
/// the fold over `rs` and `ts` with that reading appended.
pub proof fn law_bool_reading_extends(s: BoolView, rs: Seq<bool>, ts: Seq<int>, reading: bool, now: int)
    requires
        ts.len() == rs.len(),
    ensures
        after_bool_readings(s, rs.push(reading), ts.push(now)) == after_bool_readings(s, rs, ts).next(
            reading,
            now,
        ),
{
    assert(rs.push(reading).drop_last() =~= rs);
    assert(ts.push(now).drop_last() =~= ts);
}

/// One more numeric reading extends the fold by one step.
pub proof fn law_numeric_reading_extends(s: NumericView, vs: Seq<int>, v: int)
    ensures
        after_readings(s, vs.push(v)) == after_readings(s, vs).next(v),
{
    assert(vs.push(v).drop_last() =~= vs);
}

} // verus!
