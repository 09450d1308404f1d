//! Default texts of integer fields may be sums: integer literals joined by
//! `+`, with spaces around them, added left to right as in `123 + 123`.
//! Each literal and each partial sum must be a value of the field's type.
use vstd::prelude::*;
use crate::value::{
    Value, ValueType, ValueView, decimal_int, has_type, decimal_unsigned, opt_value_view, parse_text,
    parse_value,
};

verus! {

/// Whether the type is an integer type.
pub open spec fn is_integer(ty: ValueType) -> bool {
    ty == ValueType::I32 || ty == ValueType::I64 || ty == ValueType::U32 || ty == ValueType::U64
}

/// Whether a number is a value of an integer type.
pub open spec fn in_range(ty: ValueType, n: int) -> bool {
    match ty {
        ValueType::I32 => i32::MIN <= n <= i32::MAX,
        ValueType::I64 => i64::MIN <= n <= i64::MAX,
        ValueType::U32 => 0 <= n <= u32::MAX,
        ValueType::U64 => 0 <= n <= u64::MAX,
        _ => false,
    }
}

/// A number of an integer type as a value of that type.
pub open spec fn int_value(ty: ValueType, n: int) -> ValueView {
    match ty {
        ValueType::I32 => ValueView::I32(n as i32),
        ValueType::I64 => ValueView::I64(n as i64),
        ValueType::U32 => ValueView::U32(n as u32),
        _ => ValueView::U64(n as u64),
    }
}

/// The text without its leading spaces.
pub open spec fn trim_front(s: Seq<char>) -> Seq<char>
    decreases s.len(),
{
    if s.len() > 0 && s[0] == ' ' {
        trim_front(s.subrange(1, s.len() as int))
    } else {
        s
    }
}

/// The text without its trailing spaces.
pub open spec fn trim_back(s: Seq<char>) -> Seq<char>
    decreases s.len(),
{
    if s.len() > 0 && s.last() == ' ' {
        trim_back(s.drop_last())
    } else {
        s
    }
}

/// One literal of a sum: a decimal integer between spaces, of the type.
pub open spec fn term_value(ty: ValueType, t: Seq<char>) -> Option<int> {
    let d = trim_back(trim_front(t));
    let n = if ty == ValueType::U32 || ty == ValueType::U64 {
        decimal_unsigned(d)
    } else {
        decimal_int(d)
    };
    match n {
        Some(x) => if in_range(ty, x) {
            Some(x)
        } else {
            None
        },
        None => None,
    }
}

/// The parts of a text between its `+` signs.
pub open spec fn plus_parts(s: Seq<char>) -> Seq<Seq<char>>
    decreases s.len(),
{
    if s.len() == 0 {
        seq![Seq::empty()]
    } else {
        let r = plus_parts(s.drop_last());
        if s.last() == '+' {
            r.push(Seq::empty())
        } else {
            r.update(r.len() - 1, r.last().push(s.last()))
        }
    }
}

/// The sum of the literals, added left to right, each partial sum of the
/// type.
pub open spec fn parts_sum(ty: ValueType, ts: Seq<Seq<char>>) -> Option<int>
    decreases ts.len(),
{
    if ts.len() == 0 {
        None
    } else if ts.len() == 1 {
        term_value(ty, ts[0])
    } else {
        match parts_sum(ty, ts.drop_last()) {
            Some(a) => match term_value(ty, ts.last()) {
                Some(b) => if in_range(ty, a + b) {
                    Some(a + b)
                } else {
                    None
                },
                None => None,
            },
            None => None,
        }
    }
}

/// The value that a default text denotes in a type: the text read as a
/// value, or else, for an integer type, a sum of literals.
pub open spec fn default_value(ty: ValueType, s: Seq<char>) -> Option<ValueView> {
    match parse_value(ty, s) {
        Some(v) => Some(v),
        None => if is_integer(ty) {
            match parts_sum(ty, plus_parts(s)) {
                Some(n) => Some(int_value(ty, n)),
                None => None,
            }
        } else {
            None
        },
    }
}

/// A default read in a type is of that type.
pub proof fn lemma_default_has_type(ty: ValueType, s: Seq<char>)
    ensures
        default_value(ty, s) matches Some(v) ==> has_type(v, ty),
{
}

proof fn lemma_plus_parts_len(s: Seq<char>)
    ensures
        plus_parts(s).len() >= 1,
    decreases s.len(),
{
    if s.len() > 0 {
        lemma_plus_parts_len(s.drop_last());
    }
}

/// The text between `from` and `to` without spaces at either end.
fn trim_range(s: &str, from: usize, to: usize) -> (r: (usize, usize))
    requires
        from <= to <= s@.len(),
    ensures
        from <= r.0 <= r.1 <= to,
        s@.subrange(r.0 as int, r.1 as int) == trim_back(trim_front(s@.subrange(from as int, to as int))),
{
    let mut a = from;
    while a < to && s.get_char(a) == ' '
        invariant
            from <= a <= to <= s@.len(),
            trim_front(s@.subrange(from as int, to as int)) == trim_front(s@.subrange(a as int, to as int)),
        decreases to - a,
    {
        assert(s@.subrange(a as int, to as int).subrange(1, to - a) =~= s@.subrange(a + 1, to as int));
        a = a + 1;
    }
    assert(trim_front(s@.subrange(a as int, to as int)) == s@.subrange(a as int, to as int));
    let mut b = to;
    while b > a && s.get_char(b - 1) == ' '
        invariant
            from <= a <= b <= to <= s@.len(),
            trim_back(s@.subrange(a as int, to as int)) == trim_back(s@.subrange(a as int, b as int)),
        decreases b - a,
    {
        assert(s@.subrange(a as int, b as int).drop_last() =~= s@.subrange(a as int, b - 1));
        b = b - 1;
    }
    (a, b)
}

/// The literal between `from` and `to`, if it is a value of the type.
fn term_at(ty: ValueType, s: &str, from: usize, to: usize) -> (r: Option<i128>)
    requires
        is_integer(ty),
        from <= to <= s@.len(),
    ensures
        match r {
            Some(n) => term_value(ty, s@.subrange(from as int, to as int)) == Some(n as int),
            None => term_value(ty, s@.subrange(from as int, to as int)) is None,
        },
{
    let (a, b) = trim_range(s, from, to);
    let t = s.substring_char(a, b);
    match parse_text(ty, t) {
        Some(Value::I32(n)) => Some(n as i128),
        Some(Value::I64(n)) => Some(n as i128),
        Some(Value::U32(n)) => Some(n as i128),
        Some(Value::U64(n)) => Some(n as i128),
        _ => None,
    }
}

/// The sum of a partial sum and a literal, when both are there and the
/// result is of the type.
pub open spec fn add_term(ty: ValueType, a: Option<int>, b: Option<int>) -> Option<int> {
    match (a, b) {
        (Some(x), Some(y)) => if in_range(ty, x + y) {
            Some(x + y)
        } else {
            None
        },
        _ => None,
    }
}

proof fn lemma_parts_sum_push(ty: ValueType, before: Seq<Seq<char>>, t: Seq<char>)
    ensures
        before.len() == 0 ==> parts_sum(ty, before.push(t)) == term_value(ty, t),
        before.len() > 0 ==> parts_sum(ty, before.push(t)) == add_term(
            ty,
            parts_sum(ty, before),
            term_value(ty, t),
        ),
{
    assert(before.push(t).drop_last() =~= before);
    if before.len() == 0 {
        assert(before.push(t)[0] == t);
    }
}

proof fn lemma_parts_step(s: Seq<char>, i: int)
    requires
        0 <= i < s.len(),
    ensures
        s[i] == '+' ==> plus_parts(s.subrange(0, i + 1)) == plus_parts(s.subrange(0, i)).push(
            Seq::<char>::empty(),
        ),
        s[i] != '+' ==> plus_parts(s.subrange(0, i + 1)) == plus_parts(s.subrange(0, i)).update(
            plus_parts(s.subrange(0, i)).len() - 1,
            plus_parts(s.subrange(0, i)).last().push(s[i]),
        ),
{
    assert(s.subrange(0, i + 1).drop_last() =~= s.subrange(0, i));
}

fn add_exec(ty: ValueType, a: Option<i128>, b: Option<i128>) -> (r: Option<i128>)
    requires
        a matches Some(x) ==> in_range(ty, x as int),
        b matches Some(y) ==> in_range(ty, y as int),
    ensures
        match r {
            Some(z) => add_term(ty, opt_int(a), opt_int(b)) == Some(z as int) && in_range(ty, z as int),
            None => add_term(ty, opt_int(a), opt_int(b)) is None,
        },
{
    match (a, b) {
        (Some(x), Some(y)) => {
            let z = x + y;
            if in_range_exec(ty, z) {
                Some(z)
            } else {
                None
            }
        },
        _ => None,
    }
}

pub open spec fn opt_int(a: Option<i128>) -> Option<int> {
    match a {
        Some(x) => Some(x as int),
        None => None,
    }
}

/// Reads a default text in a type: as a value, or for an integer type as a
/// sum of literals.
#[verifier::rlimit(40)]
pub fn parse_default(ty: ValueType, s: &str) -> (r: Option<Value>)
    ensures
        opt_value_view(r) == default_value(ty, s@),
{
    match parse_text(ty, s) {
        Some(v) => return Some(v),
        None => {},
    }
    if !(ty == ValueType::I32 || ty == ValueType::I64 || ty == ValueType::U32 || ty == ValueType::U64) {
        return None;
    }
    let n = s.unicode_len();
    // The sum of the complete literals before `start`, once there are some.
    let mut acc: Option<i128> = None;
    let mut start: usize = 0;
    let mut i: usize = 0;
    assert(s@.subrange(0, 0) =~= Seq::<char>::empty());
    assert(plus_parts(Seq::<char>::empty()) == seq![Seq::<char>::empty()]);
    assert(Seq::<Seq<char>>::empty().push(Seq::<char>::empty()) =~= seq![Seq::<char>::empty()]);
    while i < n
        invariant
            n == s@.len(),
            is_integer(ty),
            start <= i <= n,
            plus_parts(s@.subrange(0, i as int)) == (if start == 0 {
                Seq::<Seq<char>>::empty()
            } else {
                plus_parts(s@.subrange(0, start - 1))
            }).push(s@.subrange(start as int, i as int)),
            start > 0 ==> plus_parts(s@.subrange(0, start - 1)).len() > 0,
            start > 0 ==> opt_int(acc) == parts_sum(ty, plus_parts(s@.subrange(0, start - 1))),
            acc matches Some(x) ==> in_range(ty, x as int),
        decreases n - i,
    {
        let c = s.get_char(i);
        let ghost before = if start == 0 {
            Seq::<Seq<char>>::empty()
        } else {
            plus_parts(s@.subrange(0, start - 1))
        };
        let ghost cur = s@.subrange(start as int, i as int);
        proof {
            lemma_parts_step(s@, i as int);
        }
        if c == '+' {
            let t = term_at(ty, s, start, i);
            proof {
                lemma_parts_sum_push(ty, before, cur);
            }
            if start == 0 {
                acc = t;
            } else {
                acc = add_exec(ty, acc, t);
            }
            start = i + 1;
            proof {
                assert(s@.subrange(0, start - 1) == s@.subrange(0, i as int));
                assert(s@.subrange(start as int, i + 1) =~= Seq::<char>::empty());
                assert(plus_parts(s@.subrange(0, i as int)) == before.push(cur));
            }
        } else {
            proof {
                let r = before.push(cur);
                assert(cur.push(c) =~= s@.subrange(start as int, i + 1));
                assert(r.last() == cur);
                assert(r.len() - 1 == before.len());
                assert(r.update(r.len() - 1, r.last().push(c)) =~= before.push(
                    s@.subrange(start as int, i + 1),
                ));
            }
        }
        i = i + 1;
    }
    assert(s@.subrange(0, n as int) =~= s@);
    let t = term_at(ty, s, start, n);
    let ghost before = if start == 0 {
        Seq::<Seq<char>>::empty()
    } else {
        plus_parts(s@.subrange(0, start - 1))
    };
    proof {
        lemma_parts_sum_push(ty, before, s@.subrange(start as int, n as int));
    }
    let total = if start == 0 {
        t
    } else {
        add_exec(ty, acc, t)
    };
    match total {
        Some(z) => Some(int_of(ty, z)),
        None => None,
    }
}

fn in_range_exec(ty: ValueType, n: i128) -> (r: bool)
    ensures
        r == in_range(ty, n as int),
{
    match ty {
        ValueType::I32 => -2147483648 <= n && n <= 2147483647,
        ValueType::I64 => -9223372036854775808 <= n && n <= 9223372036854775807,
        ValueType::U32 => 0 <= n && n <= 4294967295,
        ValueType::U64 => 0 <= n && n <= 18446744073709551615,
        _ => false,
    }
}

fn int_of(ty: ValueType, n: i128) -> (r: Value)
    requires
        is_integer(ty),
        in_range(ty, n as int),
    ensures
        r@ == int_value(ty, n as int),
{
    match ty {
        ValueType::I32 => Value::I32(n as i32),
        ValueType::I64 => Value::I64(n as i64),
        ValueType::U32 => Value::U32(n as u32),
        _ => Value::U64(n as u64),
    }
}

} // verus!
