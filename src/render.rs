use vstd::prelude::*;
use vstd::string::{StrSliceExecFns, StringExecFns};
use crate::stat_item::{BoolStat, BoolView, NumericStat, NumericView, StatItem, StatItemView};
use crate::stat_list::Stats;

verus! {

/// Renders a value as the flat text map served to readers.
pub trait JsonConv {
    spec fn json(&self) -> Seq<char>;

    fn to_json(&self) -> (r: String)
        ensures
            r@ == self.json(),
    ;
}

pub open spec fn digit_char(d: nat) -> char {
    "0123456789"@[d as int]
}

/// The decimal digits of `n`, most significant first, without leading zeros.
pub open spec fn decimal(n: nat) -> Seq<char>
    decreases n,
{
    if n < 10 {
        seq![digit_char(n)]
    } else {
        decimal(n / 10).push(digit_char(n % 10))
    }
}

/// An integer in decimal, with a `-` when negative.
pub open spec fn signed_decimal(i: int) -> Seq<char> {
    if i < 0 {
        seq!['-'] + decimal((-i) as nat)
    } else {
        decimal(i as nat)
    }
}

/// A count of tenths written as the shortest decimal: -35 is `-3.5`, 200
/// is `20`, 0 is `0`.
pub open spec fn tenths(i: int) -> Seq<char> {
    let m = if i < 0 { -i } else { i };
    let sign = if i < 0 { seq!['-'] } else { Seq::<char>::empty() };
    let fraction = if m % 10 == 0 {
        Seq::<char>::empty()
    } else {
        seq!['.', digit_char((m % 10) as nat)]
    };
    sign + decimal((m / 10) as nat) + fraction
}

pub open spec fn bool_text(b: bool) -> Seq<char> {
    if b { "true"@ } else { "false"@ }
}

pub open spec fn numeric_json(n: NumericView) -> Seq<char> {
    n.name + ":{value:"@ + tenths(n.last) + ",avg:"@ + tenths(n.avg()) + ",min:"@ + tenths(n.min)
        + ",max:"@ + tenths(n.max) + "}"@
}

pub open spec fn bool_json(b: BoolView) -> Seq<char> {
    b.name + ":{triggered:"@ + bool_text(b.triggered) + ",last_triggered:"@ + signed_decimal(
        b.last_triggered,
    ) + ",total_triggers:"@ + decimal(b.total_triggers) + "}"@
}

pub open spec fn item_json(it: StatItemView) -> Seq<char> {
    match it {
        StatItemView::Numeric(n) => numeric_json(n),
        StatItemView::Bool(b) => bool_json(b),
    }
}

/// The items' renderings, separated by commas.
pub open spec fn joined_json(items: Seq<StatItemView>) -> Seq<char>
    decreases items.len(),
{
    if items.len() == 0 {
        Seq::<char>::empty()
    } else if items.len() == 1 {
        item_json(items[0])
    } else {
        joined_json(items.drop_last()) + ","@ + item_json(items.last())
    }
}

pub open spec fn stats_json(items: Seq<StatItemView>) -> Seq<char> {
    "{stats:{"@ + joined_json(items) + "}}"@
}

fn push_digit(out: &mut String, d: u64)
    requires
        d < 10,
    ensures
        final(out)@ == old(out)@.push(digit_char(d as nat)),
{
    proof {
        reveal_strlit("0123456789");
    }
    let digit = "0123456789".substring_char(d as usize, d as usize + 1);
    out.append(digit);
    assert(final(out)@ =~= old(out)@.push(digit_char(d as nat)));
}

fn push_decimal(out: &mut String, n: u64)
    ensures
        final(out)@ == old(out)@ + decimal(n as nat),
    decreases n,
{
    if n >= 10 {
        push_decimal(out, n / 10);
    }
    push_digit(out, n % 10);
    proof {
        if n < 10 {
            assert(decimal(n as nat) == seq![digit_char(n as nat)]);
        }
        assert(final(out)@ =~= old(out)@ + decimal(n as nat));
    }
}

fn push_signed(out: &mut String, i: i64)
    ensures
        final(out)@ == old(out)@ + signed_decimal(i as int),
{
    if i < 0 {
        out.append("-");
        push_decimal(out, (0 - i as i128) as u64);
    } else {
        push_decimal(out, i as u64);
    }
    proof {
        reveal_strlit("-");
        assert("-"@ =~= seq!['-']);
    }
    assert(final(out)@ =~= old(out)@ + signed_decimal(i as int));
}

fn push_tenths(out: &mut String, i: i64)
    ensures
        final(out)@ == old(out)@ + tenths(i as int),
{
    let m: u64 = if i < 0 {
        out.append("-");
        (0 - i as i128) as u64
    } else {
        i as u64
    };
    push_decimal(out, m / 10);
    if m % 10 != 0 {
        out.append(".");
        push_digit(out, m % 10);
    }
    proof {
        reveal_strlit("-");
        reveal_strlit(".");
        assert("-"@ =~= seq!['-']);
        assert("."@ =~= seq!['.']);
    }
    assert(final(out)@ =~= old(out)@ + tenths(i as int));
}

fn push_bool(out: &mut String, b: bool)
    ensures
        final(out)@ == old(out)@ + bool_text(b),
{
    if b {
        out.append("true");
    } else {
        out.append("false");
    }
}

impl JsonConv for NumericStat {
    open spec fn json(&self) -> Seq<char> {
        numeric_json(self@)
    }

    fn to_json(&self) -> (r: String) {
        let mut out = self.name().clone();
        out.append(":{value:");
        push_tenths(&mut out, self.last());
        out.append(",avg:");
        push_tenths(&mut out, self.avg());
        out.append(",min:");
        push_tenths(&mut out, self.min());
        out.append(",max:");
        push_tenths(&mut out, self.max());
        out.append("}");
        out
    }
}

impl JsonConv for BoolStat {
    open spec fn json(&self) -> Seq<char> {
        bool_json(self@)
    }

    fn to_json(&self) -> (r: String) {
        let mut out = self.name().clone();
        out.append(":{triggered:");
        push_bool(&mut out, self.triggered());
        out.append(",last_triggered:");
        push_signed(&mut out, self.last_triggered());
        out.append(",total_triggers:");
        push_decimal(&mut out, self.total_triggers());
        out.append("}");
        out
    }
}

impl JsonConv for StatItem {
    open spec fn json(&self) -> Seq<char> {
        item_json(self@)
    }

    fn to_json(&self) -> (r: String) {
        match self {
            StatItem::Numeric(n) => n.to_json(),
            StatItem::Bool(b) => b.to_json(),
        }
    }
}

impl JsonConv for Stats {
    open spec fn json(&self) -> Seq<char> {
        stats_json(self@)
    }

    fn to_json(&self) -> (r: String) {
        let mut out = String::from_str("{stats:{");
        let n = self.len();
        let mut i: usize = 0;
        while i < n
            invariant
                n == self@.len(),
                i <= n,
                out@ == "{stats:{"@ + joined_json(self@.take(i as int)),
            decreases n - i,
        {
            let it = self.item(i);
            if i > 0 {
                out.append(",");
            }
            let piece = it.to_json();
            out.append(piece.as_str());
            proof {
                let t = self@.take(i + 1);
                assert(t.drop_last() =~= self@.take(i as int));
                assert(t.last() == self@[i as int]);
                if i == 0 {
                    assert(joined_json(self@.take(0)) =~= Seq::<char>::empty());
                }
            }
            assert(out@ =~= "{stats:{"@ + joined_json(self@.take(i + 1)));
            i = i + 1;
        }
        out.append("}}");
        assert(self@.take(n as int) =~= self@);
        out
    }
}

} // verus!
