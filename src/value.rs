//! Typed option values and their text form: parsing a raw text into a value
//! of a given type, and rendering a value back to text.
use vstd::prelude::*;

verus! {

/// The type that a field's raw text is coerced into.
#[derive(Clone, Copy, Debug, PartialEq, Eq, Structural)]
pub enum ValueType {
    Bool,
    I32,
    I64,
    U32,
    U64,
    Text,
    /// A type of the schema author's own, carried as its text form. Parsing
    /// that text into the author's type, and rendering a value of it, are the
    /// author's: they happen where the type is known.
    Custom,
}

/// A typed option value.
#[derive(Clone, Debug, PartialEq, Eq)]
pub enum Value {
    Bool(bool),
    I32(i32),
    I64(i64),
    U32(u32),
    U64(u64),
    Text(String),
    /// The text form of a value of a custom type.
    Custom(String),
}

/// The mathematical form of a [`Value`].
pub ghost enum ValueView {
    Bool(bool),
    I32(i32),
    I64(i64),
    U32(u32),
    U64(u64),
    Text(Seq<char>),
    Custom(Seq<char>),
}

impl View for Value {
    type V = ValueView;

    open spec fn view(&self) -> ValueView {
        match self {
            Value::Bool(b) => ValueView::Bool(*b),
            Value::I32(n) => ValueView::I32(*n),
            Value::I64(n) => ValueView::I64(*n),
            Value::U32(n) => ValueView::U32(*n),
            Value::U64(n) => ValueView::U64(*n),
            Value::Text(s) => ValueView::Text(s@),
            Value::Custom(s) => ValueView::Custom(s@),
        }
    }
}

/// The view of a possibly absent value.
pub open spec fn opt_value_view(v: Option<Value>) -> Option<ValueView> {
    match v {
        Some(x) => Some(x@),
        None => None,
    }
}

/// Whether a value is of the given type.
pub open spec fn has_type(v: ValueView, ty: ValueType) -> bool {
    match v {
        ValueView::Bool(_) => ty == ValueType::Bool,
        ValueView::I32(_) => ty == ValueType::I32,
        ValueView::I64(_) => ty == ValueType::I64,
        ValueView::U32(_) => ty == ValueType::U32,
        ValueView::U64(_) => ty == ValueType::U64,
        ValueView::Text(_) => ty == ValueType::Text,
        ValueView::Custom(_) => ty == ValueType::Custom,
    }
}

/// The value a type takes when nothing else is given: `false`, zero or the
/// empty text. The library knows no such value of a custom type: a custom
/// field gives the text of its type's own default instead.
pub open spec fn zero_value(ty: ValueType) -> ValueView {
    match ty {
        ValueType::Bool => ValueView::Bool(false),
        ValueType::I32 => ValueView::I32(0),
        ValueType::I64 => ValueView::I64(0),
        ValueType::U32 => ValueView::U32(0),
        ValueType::U64 => ValueView::U64(0),
        ValueType::Text => ValueView::Text(Seq::empty()),
        ValueType::Custom => ValueView::Custom(Seq::empty()),
    }
}

pub open spec fn is_digit(c: char) -> bool {
    '0' <= c && c <= '9'
}

pub open spec fn all_digits(s: Seq<char>) -> bool {
    forall|i: int| 0 <= i < s.len() ==> is_digit(#[trigger] s[i])
}

/// The number that a string of decimal digits denotes.
pub open spec fn digits_value(s: Seq<char>) -> nat
    decreases s.len(),
{
    if s.len() == 0 {
        0
    } else {
        digits_value(s.drop_last()) * 10 + (s.last() as nat - '0' as nat) as nat
    }
}

/// A decimal integer: an optional `+` or `-` sign, then one or more digits.
pub open spec fn decimal_int(s: Seq<char>) -> Option<int> {
    if s.len() > 0 && (s[0] == '+' || s[0] == '-') {
        let d = s.subrange(1, s.len() as int);
        if d.len() > 0 && all_digits(d) {
            if s[0] == '-' {
                Some(-(digits_value(d) as int))
            } else {
                Some(digits_value(d) as int)
            }
        } else {
            None
        }
    } else if s.len() > 0 && all_digits(s) {
        Some(digits_value(s) as int)
    } else {
        None
    }
}

/// An unsigned number takes no `-` sign, not even on zero.
pub open spec fn decimal_unsigned(s: Seq<char>) -> Option<int> {
    if s.len() > 0 && s[0] == '-' {
        None
    } else {
        decimal_int(s)
    }
}

/// The value that a raw text denotes in a type, if any. Booleans are exactly
/// `true` or `false`; integers are decimal and must fit their type; a text is
/// taken as it stands, and so is the text of a custom type, whose own parsing
/// is done where the type is known.
pub open spec fn parse_value(ty: ValueType, s: Seq<char>) -> Option<ValueView> {
    match ty {
        ValueType::Bool => if s == "true"@ {
            Some(ValueView::Bool(true))
        } else if s == "false"@ {
            Some(ValueView::Bool(false))
        } else {
            None
        },
        ValueType::I32 => match decimal_int(s) {
            Some(n) => if i32::MIN <= n <= i32::MAX {
                Some(ValueView::I32(n as i32))
            } else {
                None
            },
            None => None,
        },
        ValueType::I64 => match decimal_int(s) {
            Some(n) => if i64::MIN <= n <= i64::MAX {
                Some(ValueView::I64(n as i64))
            } else {
                None
            },
            None => None,
        },
        ValueType::U32 => match decimal_unsigned(s) {
            Some(n) => if 0 <= n <= u32::MAX {
                Some(ValueView::U32(n as u32))
            } else {
                None
            },
            None => None,
        },
        ValueType::U64 => match decimal_unsigned(s) {
            Some(n) => if 0 <= n <= u64::MAX {
                Some(ValueView::U64(n as u64))
            } else {
                None
            },
            None => None,
        },
        ValueType::Text => Some(ValueView::Text(s)),
        ValueType::Custom => Some(ValueView::Custom(s)),
    }
}

pub open spec fn digit_char(d: nat) -> char {
    if d == 0 { '0' }
    else if d == 1 { '1' }
    else if d == 2 { '2' }
    else if d == 3 { '3' }
    else if d == 4 { '4' }
    else if d == 5 { '5' }
    else if d == 6 { '6' }
    else if d == 7 { '7' }
    else if d == 8 { '8' }
    else { '9' }
}

/// The decimal digits of a natural number, without leading zeros.
pub open spec fn nat_text(n: nat) -> Seq<char>
    decreases n,
{
    if n < 10 {
        seq![digit_char(n)]
    } else {
        nat_text(n / 10).push(digit_char(n % 10))
    }
}

/// The decimal form of an integer, with a `-` sign when negative.
pub open spec fn int_text(i: int) -> Seq<char> {
    if i < 0 {
        seq!['-'] + nat_text((-i) as nat)
    } else {
        nat_text(i as nat)
    }
}

/// The text form of a value.
pub open spec fn render_value(v: ValueView) -> Seq<char> {
    match v {
        ValueView::Bool(b) => if b { "true"@ } else { "false"@ },
        ValueView::I32(n) => int_text(n as int),
        ValueView::I64(n) => int_text(n as int),
        ValueView::U32(n) => int_text(n as int),
        ValueView::U64(n) => int_text(n as int),
        ValueView::Text(s) => s,
        ValueView::Custom(s) => s,
    }
}

proof fn lemma_digit_char(d: nat)
    requires
        d < 10,
    ensures
        is_digit(digit_char(d)),
        digit_char(d) as nat - '0' as nat == d,
{
}

proof fn lemma_nat_text(n: nat)
    ensures
        nat_text(n).len() > 0,
        all_digits(nat_text(n)),
        digits_value(nat_text(n)) == n,
    decreases n,
{
    if n < 10 {
        lemma_digit_char(n);
        let s = nat_text(n);
        assert(s.drop_last() =~= Seq::<char>::empty());
        assert(digits_value(s) == digits_value(Seq::<char>::empty()) * 10 + n);
    } else {
        lemma_nat_text(n / 10);
        lemma_digit_char(n % 10);
        let s = nat_text(n);
        assert(s.drop_last() =~= nat_text(n / 10));
        assert(digits_value(s) == (n / 10) * 10 + n % 10);
        assert((n / 10) * 10 + n % 10 == n) by (nonlinear_arith);
        assert forall|i: int| 0 <= i < s.len() implies is_digit(#[trigger] s[i]) by {
            if i < s.len() - 1 {
                assert(s[i] == nat_text(n / 10)[i]);
            }
        }
    }
}

/// Rendering an integer and reading the text back gives the integer.
pub proof fn lemma_int_text_round_trip(i: int)
    ensures
        decimal_int(int_text(i)) == Some(i),
        i >= 0 ==> decimal_unsigned(int_text(i)) == Some(i),
{
    if i < 0 {
        let m = (-i) as nat;
        lemma_nat_text(m);
        let s = int_text(i);
        assert(s.subrange(1, s.len() as int) =~= nat_text(m));
    } else {
        lemma_nat_text(i as nat);
        let s = nat_text(i as nat);
        assert(is_digit(s[0]));
    }
}

/// Rendering a value and parsing the text back in the value's type gives the
/// value.
pub proof fn lemma_render_parse(v: ValueView, ty: ValueType)
    requires
        has_type(v, ty),
    ensures
        parse_value(ty, render_value(v)) == Some(v),
{
    reveal_strlit("true");
    reveal_strlit("false");
    match v {
        ValueView::Bool(b) => {
            if !b {
                assert("false"@ != "true"@);
            }
        },
        ValueView::I32(n) => lemma_int_text_round_trip(n as int),
        ValueView::I64(n) => lemma_int_text_round_trip(n as int),
        ValueView::U32(n) => lemma_int_text_round_trip(n as int),
        ValueView::U64(n) => lemma_int_text_round_trip(n as int),
        ValueView::Text(_) => {},
        ValueView::Custom(_) => {},
    }
}

proof fn lemma_digits_prefix(s: Seq<char>, k: int)
    requires
        all_digits(s),
        0 <= k <= s.len(),
    ensures
        digits_value(s.subrange(0, k)) <= digits_value(s),
    decreases s.len() - k,
{
    if k < s.len() {
        lemma_digits_prefix(s, k + 1);
        assert(s.subrange(0, k + 1).drop_last() =~= s.subrange(0, k));
    } else {
        assert(s.subrange(0, k) =~= s);
    }
}

/// The digit text of one decimal digit.
fn digit_str(d: u64) -> (r: &'static str)
    requires
        d < 10,
    ensures
        r@ == seq![digit_char(d as nat)],
{
    proof {
        reveal_strlit("0");
        reveal_strlit("1");
        reveal_strlit("2");
        reveal_strlit("3");
        reveal_strlit("4");
        reveal_strlit("5");
        reveal_strlit("6");
        reveal_strlit("7");
        reveal_strlit("8");
        reveal_strlit("9");
    }
    if d == 0 {
        "0"
    } else if d == 1 {
        "1"
    } else if d == 2 {
        "2"
    } else if d == 3 {
        "3"
    } else if d == 4 {
        "4"
    } else if d == 5 {
        "5"
    } else if d == 6 {
        "6"
    } else if d == 7 {
        "7"
    } else if d == 8 {
        "8"
    } else {
        "9"
    }
}

/// The decimal digits of `n`.
fn unsigned_text(n: u64) -> (r: String)
    ensures
        r@ == nat_text(n as nat),
    decreases n,
{
    if n < 10 {
        String::from_str(digit_str(n))
    } else {
        let mut s = unsigned_text(n / 10);
        s.append(digit_str(n % 10));
        s
    }
}

/// The decimal form of `n`, signed when negative.
fn signed_text(n: i64) -> (r: String)
    ensures
        r@ == int_text(n as int),
{
    if n < 0 {
        let m = (0i128 - n as i128) as u64;
        let mut s = String::from_str("-");
        proof {
            reveal_strlit("-");
        }
        s.append(unsigned_text(m).as_str());
        s
    } else {
        unsigned_text(n as u64)
    }
}

/// Reads an optional sign and decimal digits. `Some((negative, magnitude))`
/// when the text is decimal and its magnitude fits a `u64`; `negative` tells
/// whether the text starts with `-`.
fn decimal_parts(s: &str) -> (r: Option<(bool, u64)>)
    ensures
        r matches Some((neg, m)) ==> {
            &&& decimal_int(s@) == Some(if neg { -(m as int) } else { m as int })
            &&& neg == (s@.len() > 0 && s@[0] == '-')
        },
        r is None ==> decimal_int(s@) is None || (decimal_int(s@) matches Some(v) && (v > u64::MAX || v < -(u64::MAX as int))),
{
    let n = s.unicode_len();
    if n == 0 {
        return None;
    }
    let first = s.get_char(0);
    let neg = first == '-';
    let start: usize = if first == '-' || first == '+' { 1 } else { 0 };
    if start == n {
        return None;
    }
    let ghost d = s@.subrange(start as int, n as int);
    let mut m: u64 = 0;
    let mut i: usize = start;
    while i < n
        invariant
            start <= i <= n,
            n == s@.len(),
            d == s@.subrange(start as int, n as int),
            n > 0,
            start == 0 || start == 1,
            neg == (first == '-'),
            first == s@[0],
            start == 1 ==> (first == '+' || first == '-'),
            start == 0 ==> !(first == '+' || first == '-') && d =~= s@,
            all_digits(d.subrange(0, i - start)),
            m as nat == digits_value(d.subrange(0, i - start)),
        decreases n - i,
    {
        let c = s.get_char(i);
        if !('0' <= c && c <= '9') {
            assert(!is_digit(d[i - start]));
            assert(!all_digits(d));
            if start == 0 {
                assert(!all_digits(s@));
            }
            return None;
        }
        let digit = (c as u32 - '0' as u32) as u64;
        let ghost pre = d.subrange(0, i - start);
        let ghost next = d.subrange(0, i - start + 1);
        assert(next.drop_last() =~= pre);
        assert(digits_value(next) == digits_value(pre) * 10 + digit);
        if m > (u64::MAX - digit) / 10 {
            assert(m * 10 + digit > u64::MAX) by (nonlinear_arith)
                requires m > (u64::MAX - digit) / 10, digit < 10;
            proof {
                if all_digits(d) {
                    lemma_digits_prefix(d, i - start + 1);
                }
            }
            return None;
        }
        assert(m * 10 + digit <= u64::MAX) by (nonlinear_arith)
            requires m <= (u64::MAX - digit) / 10, digit < 10;
        m = m * 10 + digit;
        assert forall|j: int| 0 <= j < next.len() implies is_digit(#[trigger] next[j]) by {
            if j < pre.len() {
                assert(next[j] == pre[j]);
            }
        }
        i = i + 1;
    }
    assert(d.subrange(0, n - start) =~= d);
    if start == 0 {
        assert(d =~= s@);
    }
    Some((neg, m))
}

/// Parses a raw text into a value of the given type.
pub fn parse_text(ty: ValueType, s: &str) -> (r: Option<Value>)
    ensures
        opt_value_view(r) == parse_value(ty, s@),
{
    match ty {
        ValueType::Bool => {
            let t = s.to_owned();
            if t == String::from_str("true") {
                Some(Value::Bool(true))
            } else if t == String::from_str("false") {
                Some(Value::Bool(false))
            } else {
                None
            }
        },
        ValueType::Text => Some(Value::Text(s.to_owned())),
        ValueType::Custom => Some(Value::Custom(s.to_owned())),
        _ => match decimal_parts(s) {
            None => None,
            Some((neg, m)) => {
                match ty {
                    ValueType::I32 => {
                        if !neg && m <= i32::MAX as u64 {
                            Some(Value::I32(m as i32))
                        } else if neg && m <= 2147483648 {
                            Some(Value::I32((0i64 - m as i64) as i32))
                        } else {
                            None
                        }
                    },
                    ValueType::I64 => {
                        if !neg && m <= i64::MAX as u64 {
                            Some(Value::I64(m as i64))
                        } else if neg && m <= 9223372036854775808 {
                            Some(Value::I64((0i128 - m as i128) as i64))
                        } else {
                            None
                        }
                    },
                    ValueType::U32 => {
                        if !neg && m <= u32::MAX as u64 {
                            Some(Value::U32(m as u32))
                        } else {
                            None
                        }
                    },
                    _ => {
                        if !neg {
                            Some(Value::U64(m))
                        } else {
                            None
                        }
                    },
                }
            },
        },
    }
}

impl Value {
    /// The value's text form, as written to a configuration file.
    pub fn render(&self) -> (r: String)
        ensures
            r@ == render_value(self@),
    {
        match self {
            Value::Bool(b) => {
                if *b {
                    String::from_str("true")
                } else {
                    String::from_str("false")
                }
            },
            Value::I32(n) => signed_text(*n as i64),
            Value::I64(n) => signed_text(*n),
            Value::U32(n) => unsigned_text(*n as u64),
            Value::U64(n) => unsigned_text(*n),
            Value::Text(s) => s.clone(),
            Value::Custom(s) => s.clone(),
        }
    }

    /// A copy of the value.
    pub fn copy(&self) -> (r: Value)
        ensures
            r@ == self@,
    {
        match self {
            Value::Bool(b) => Value::Bool(*b),
            Value::I32(n) => Value::I32(*n),
            Value::I64(n) => Value::I64(*n),
            Value::U32(n) => Value::U32(*n),
            Value::U64(n) => Value::U64(*n),
            Value::Text(s) => Value::Text(s.clone()),
            Value::Custom(s) => Value::Custom(s.clone()),
        }
    }

    /// The type of the value.
    pub fn value_type(&self) -> (r: ValueType)
        ensures
            has_type(self@, r),
    {
        match self {
            Value::Bool(_) => ValueType::Bool,
            Value::I32(_) => ValueType::I32,
            Value::I64(_) => ValueType::I64,
            Value::U32(_) => ValueType::U32,
            Value::U64(_) => ValueType::U64,
            Value::Text(_) => ValueType::Text,
            Value::Custom(_) => ValueType::Custom,
        }
    }
}

/// The value a type takes when nothing else is given (for a custom type the
/// empty text, which compilation never uses: a custom field gives its
/// type's own default text).
pub fn zero_of(ty: ValueType) -> (r: Value)
    ensures
        r@ == zero_value(ty),
{
    match ty {
        ValueType::Bool => Value::Bool(false),
        ValueType::I32 => Value::I32(0),
        ValueType::I64 => Value::I64(0),
        ValueType::U32 => Value::U32(0),
        ValueType::U64 => Value::U64(0),
        ValueType::Text => Value::Text(String::new()),
        ValueType::Custom => Value::Custom(String::new()),
    }
}

} // verus!
