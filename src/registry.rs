use vstd::prelude::*;

use crate::magic::{Magic, MagicView};

verus! {

/// How a callable takes its arguments: `(accuracy, mana)`, or a range of
/// mana values to tabulate.
#[derive(Clone, Copy, Debug, PartialEq, Eq, Structural)]
pub enum Shape {
    Single,
    Table,
}

/// One named callable of a spell, with its own copy of the spell.
#[derive(Debug)]
pub struct Callable {
    pub name: String,
    pub shape: Shape,
    pub defensive: bool,
    pub magic: Magic,
}

/// An argument handed to a callable: an integer, or anything else.
#[derive(Clone, Copy, Debug, PartialEq, Eq, Structural)]
pub enum Arg {
    Int(i64),
    Other,
}

/// The inputs of one evaluation of a spell's formula.
#[derive(Clone, Copy, Debug, PartialEq, Eq, Structural)]
pub struct Reading {
    pub accuracy: i64,
    pub mana: i64,
}

/// The rows of a table: one per mana value, all at one accuracy.
#[derive(Debug, PartialEq)]
pub struct TablePlan {
    pub accuracy: i64,
    pub manas: Vec<i64>,
}

/// The accuracy used by a table when the caller gives none.
pub const DEFAULT_TABLE_ACCURACY: i64 = 10;

/// The names a spell is offered under, with the shape and stance of each.
/// An offensive spell has its plain name and `def_` for its two-argument
/// formulas, and `t_` and `t_def_` for its tables; an always-defensive spell
/// has only tables: plain and `t_` defend, `at_` and `t_at_` attack.
pub open spec fn callable_table(m: MagicView) -> Seq<(Seq<char>, Shape, bool)> {
    if !m.always_def {
        seq![
            (m.name, Shape::Single, false),
            ("def_"@ + m.name, Shape::Single, true),
            ("t_"@ + m.name, Shape::Table, false),
            ("t_def_"@ + m.name, Shape::Table, true),
        ]
    } else {
        seq![
            (m.name, Shape::Table, true),
            ("at_"@ + m.name, Shape::Table, false),
            ("t_"@ + m.name, Shape::Table, true),
            ("t_at_"@ + m.name, Shape::Table, false),
        ]
    }
}

/// The name, shape and stance of a callable.
pub open spec fn callable_entry(c: Callable) -> (Seq<char>, Shape, bool) {
    (c.name@, c.shape, c.defensive)
}

/// The prefix that the usage message of a callable puts before the spell's name.
pub open spec fn usage_prefix(shape: Shape, always_def: bool, defensive: bool) -> Seq<char> {
    match shape {
        Shape::Single => if !defensive {
            ""@
        } else if !always_def {
            "def_"@
        } else {
            "at_"@
        },
        Shape::Table => if !defensive {
            "t_"@
        } else if !always_def {
            "t_def_"@
        } else {
            "t_at_"@
        },
    }
}

/// The argument list that the usage message of a callable shows.
pub open spec fn usage_args(shape: Shape) -> Seq<char> {
    match shape {
        Shape::Single => "(<accuracy>, <mana>)"@,
        Shape::Table => "(<start>, <end>, <?step>, <?accuracy>)"@,
    }
}

/// The message a callable answers a malformed call with.
pub open spec fn usage_message(name: Seq<char>, shape: Shape, always_def: bool, defensive: bool) -> Seq<
    char,
> {
    "Use "@ + usage_prefix(shape, always_def, defensive) + name + usage_args(shape)
}

/// The usage message of a callable.
pub open spec fn usage_of(c: Callable) -> Seq<char> {
    usage_message(c.magic.name@, c.shape, c.magic.always_def, c.defensive)
}

/// The name `prefix` followed by the spell's name.
fn prefixed(prefix: &str, name: &String) -> (r: String)
    ensures
        r@ == prefix@ + name@,
{
    let mut s = String::new();
    s.append(prefix);
    s.append(name.as_str());
    assert(s@ =~= prefix@ + name@);
    s
}

/// The usage message for a callable of the given shape and stance.
pub fn usage(name: &String, shape: Shape, always_def: bool, defensive: bool) -> (r: String)
    ensures
        r@ == usage_message(name@, shape, always_def, defensive),
{
    let prefix: &str = match shape {
        Shape::Single => if !defensive {
            ""
        } else if !always_def {
            "def_"
        } else {
            "at_"
        },
        Shape::Table => if !defensive {
            "t_"
        } else if !always_def {
            "t_def_"
        } else {
            "t_at_"
        },
    };
    let args: &str = match shape {
        Shape::Single => "(<accuracy>, <mana>)",
        Shape::Table => "(<start>, <end>, <?step>, <?accuracy>)",
    };
    let mut s = String::new();
    s.append("Use ");
    s.append(prefix);
    s.append(name.as_str());
    s.append(args);
    assert(s@ =~= usage_message(name@, shape, always_def, defensive));
    s
}

/// One callable of `m`.
fn callable(name: String, shape: Shape, defensive: bool, m: &Magic) -> (r: Callable)
    ensures
        r.name@ == name@,
        r.shape == shape,
        r.defensive == defensive,
        r.magic@ == m@,
{
    Callable { name, shape, defensive, magic: m.duplicate() }
}

/// The four callables of a spell, in the order of `callable_table`.
pub fn callables(m: &Magic) -> (r: Vec<Callable>)
    ensures
        r@.len() == 4,
        forall|k: int| 0 <= k < 4 ==> callable_entry(#[trigger] r@[k]) == callable_table(m@)[k],
        forall|k: int| 0 <= k < 4 ==> (#[trigger] r@[k]).magic@ == m@,
{
    let name = &m.name;
    if !m.always_def {
        vec![
            callable(name.clone(), Shape::Single, false, m),
            callable(prefixed("def_", name), Shape::Single, true, m),
            callable(prefixed("t_", name), Shape::Table, false, m),
            callable(prefixed("t_def_", name), Shape::Table, true, m),
        ]
    } else {
        vec![
            callable(name.clone(), Shape::Table, true, m),
            callable(prefixed("at_", name), Shape::Table, false, m),
            callable(prefixed("t_", name), Shape::Table, true, m),
            callable(prefixed("t_at_", name), Shape::Table, false, m),
        ]
    }
}

/// The callables of every spell, four per spell, in the order of the spells.
/// Inserted into a registry one after another, a later name replaces an
/// earlier equal one.
pub fn register_all(magics: &Vec<Magic>) -> (r: Vec<Callable>)
    ensures
        r@.len() == 4 * magics@.len(),
        forall|i: int, k: int|
            0 <= i < magics@.len() && 0 <= k < 4 ==> callable_entry(#[trigger] r@[4 * i + k])
                == callable_table(magics@[i]@)[k] && r@[4 * i + k].magic@ == magics@[i]@,
{
    let mut out: Vec<Callable> = Vec::new();
    let mut i: usize = 0;
    while i < magics.len()
        invariant
            i <= magics.len(),
            out@.len() == 4 * i,
            forall|j: int, k: int|
                0 <= j < i && 0 <= k < 4 ==> callable_entry(#[trigger] out@[4 * j + k])
                    == callable_table(magics@[j]@)[k] && out@[4 * j + k].magic@ == magics@[j]@,
        decreases magics.len() - i,
    {
        let mut cs = callables(&magics[i]);
        let ghost before = out@;
        let ghost added = cs@;
        out.append(&mut cs);
        assert forall|j: int, k: int| 0 <= j < i + 1 && 0 <= k < 4 implies callable_entry(
            #[trigger] out@[4 * j + k],
        ) == callable_table(magics@[j]@)[k] && out@[4 * j + k].magic@ == magics@[j]@ by {
            if j < i {
                assert(4 * j + k < 4 * i);
                assert(out@[4 * j + k] == before[4 * j + k]);
            } else {
                assert(out@[4 * j + k] == added[k]);
            }
        }
        i = i + 1;
    }
    out
}

/// `manas` runs from `start` up by `step`, as far as `end` and no further.
pub open spec fn is_range(manas: Seq<i64>, start: int, end: int, step: int) -> bool {
    &&& forall|k: int| 0 <= k < manas.len() ==> #[trigger] manas[k] == start + k * step
    &&& forall|k: int| 0 <= k < manas.len() ==> #[trigger] manas[k] <= end
    &&& start + manas.len() * step > end
}

/// The mana values of a table: `start`, `start + step`, ... up to `end`
/// inclusive, ascending; none where `start > end`.
pub fn table_manas(start: i64, end: i64, step: i64) -> (r: Vec<i64>)
    requires
        step >= 1,
    ensures
        is_range(r@, start as int, end as int, step as int),
{
    let mut manas: Vec<i64> = Vec::new();
    if start > end {
        return manas;
    }
    let mut cur: i128 = start as i128;
    assert(manas@.len() == 0);
    assert(0 * (step as int) == 0);
    while cur <= end as i128
        invariant
            step >= 1,
            cur == start + manas@.len() * step,
            forall|k: int| 0 <= k < manas@.len() ==> #[trigger] manas@[k] == start + k * step,
            forall|k: int| 0 <= k < manas@.len() ==> #[trigger] manas@[k] <= end,
            cur <= end + step,
        decreases end + step - cur,
    {
        manas.push(cur as i64);
        proof {
            assert((manas@.len() as int) * step == (manas@.len() - 1) * step + step)
                by (nonlinear_arith);
        }
        cur = cur + step as i128;
    }
    manas
}

/// The mana range and accuracy that a table call asks for, or `None` where
/// the arguments do not fit: two to four integers `(start, end, step,
/// accuracy)`, a step of at least 1 (it is 1 when not given), and an accuracy
/// of `10 + addon` when not given, which must fit in 64 bits.
pub open spec fn table_request(args: Seq<Arg>, addon: int) -> Option<(int, int, int, int)> {
    if 2 <= args.len() <= 4 && (forall|k: int| 0 <= k < args.len() ==> #[trigger] args[k] is Int) {
        let step = if args.len() >= 3 {
            args[2]->Int_0 as int
        } else {
            1
        };
        let accuracy = if args.len() == 4 {
            args[3]->Int_0 as int
        } else {
            DEFAULT_TABLE_ACCURACY + addon
        };
        if step >= 1 && i64::MIN <= accuracy <= i64::MAX {
            Some((args[0]->Int_0 as int, args[1]->Int_0 as int, step, accuracy))
        } else {
            None
        }
    } else {
        None
    }
}

impl Callable {
    /// The message this callable answers a malformed call with.
    pub fn usage(&self) -> (r: String)
        ensures
            r@ == usage_of(*self),
    {
        usage(&self.magic.name, self.shape, self.magic.always_def, self.defensive)
    }

    /// Checks a call of a two-argument callable: exactly two integers,
    /// `(accuracy, mana)`; anything else gets the usage message.
    pub fn single_call(&self, args: &Vec<Arg>) -> (r: Result<Reading, String>)
        ensures
            match r {
                Ok(reading) => args@ == seq![Arg::Int(reading.accuracy), Arg::Int(reading.mana)],
                Err(msg) => msg@ == usage_of(*self) && !(args@.len() == 2 && args@[0] is Int
                    && args@[1] is Int),
            },
    {
        if args.len() != 2 {
            return Err(self.usage());
        }
        match (args[0], args[1]) {
            (Arg::Int(accuracy), Arg::Int(mana)) => {
                let reading = Reading { accuracy, mana };
                assert(args@ =~= seq![Arg::Int(reading.accuracy), Arg::Int(reading.mana)]);
                Ok(reading)
            },
            _ => Err(self.usage()),
        }
    }

    /// Checks a call of a table callable and lays out its rows; a malformed
    /// call gets the usage message. A step below 1 is malformed.
    pub fn table_call(&self, args: &Vec<Arg>) -> (r: Result<TablePlan, String>)
        ensures
            r is Ok <==> table_request(args@, self.magic.table_addon as int) is Some,
            match r {
                Ok(plan) => {
                    let (start, end, step, accuracy) = table_request(
                        args@,
                        self.magic.table_addon as int,
                    )->Some_0;
                    plan.accuracy == accuracy && is_range(plan.manas@, start, end, step)
                },
                Err(msg) => msg@ == usage_of(*self),
            },
    {
        let n = args.len();
        if n < 2 || n > 4 {
            return Err(self.usage());
        }
        let mut vals: Vec<i64> = Vec::new();
        let mut i: usize = 0;
        while i < n
            invariant
                n == args@.len(),
                i <= n,
                vals@.len() == i,
                forall|k: int| 0 <= k < i ==> #[trigger] args@[k] == Arg::Int(vals@[k]),
            decreases n - i,
        {
            match args[i] {
                Arg::Int(v) => vals.push(v),
                Arg::Other => {
                    return Err(self.usage());
                },
            }
            i = i + 1;
        }
        assert(forall|k: int| 0 <= k < n ==> #[trigger] args@[k] is Int);
        let step: i64 = if n >= 3 {
            vals[2]
        } else {
            1
        };
        if step < 1 {
            return Err(self.usage());
        }
        let accuracy: i64 = if n == 4 {
            vals[3]
        } else {
            match DEFAULT_TABLE_ACCURACY.checked_add(self.magic.table_addon) {
                Some(a) => a,
                None => {
                    return Err(self.usage());
                },
            }
        };
        let manas = table_manas(vals[0], vals[1], step);
        Ok(TablePlan { accuracy, manas })
    }
}

} // verus!
