//! Row-oriented values and the order on sort keys.

use vstd::prelude::*;

verus! {

/// The mathematical value of one cell.
pub enum Datum {
    Int(i64),
    Str(Seq<char>),
}

/// One typed cell of a row.
#[derive(Debug, PartialEq, Eq)]
pub enum TableValue {
    String(String),
    Int(i64),
}

impl View for TableValue {
    type V = Datum;

    open spec fn view(&self) -> Datum {
        match self {
            TableValue::String(s) => Datum::Str(s@),
            TableValue::Int(i) => Datum::Int(*i),
        }
    }
}

/// An ordered sequence of cells, one per column.
#[derive(Debug, PartialEq, Eq)]
pub struct Row {
    pub values: Vec<TableValue>,
}

impl View for Row {
    type V = Seq<Datum>;

    open spec fn view(&self) -> Seq<Datum> {
        Seq::new(self.values@.len(), |i: int| self.values@[i]@)
    }
}

/// The code point of a character, as an integer.
pub open spec fn char_code(c: char) -> int {
    c as int
}

/// Whether `a` comes before `b` from position `i` on, given that they agree
/// before `i`: the first differing character decides by code point, and a
/// proper prefix comes first.
pub open spec fn chars_lt_from(a: Seq<char>, b: Seq<char>, i: int) -> bool
    decreases a.len() - i,
{
    if i < 0 || i >= b.len() {
        false
    } else if i >= a.len() {
        true
    } else if a[i] != b[i] {
        char_code(a[i]) < char_code(b[i])
    } else {
        chars_lt_from(a, b, i + 1)
    }
}

/// Lexicographic order of strings by code point.
pub open spec fn chars_lt(a: Seq<char>, b: Seq<char>) -> bool {
    chars_lt_from(a, b, 0)
}

/// The order on cells: integers by value, strings lexicographically, and
/// every integer before every string.
pub open spec fn datum_lt(a: Datum, b: Datum) -> bool {
    match (a, b) {
        (Datum::Int(x), Datum::Int(y)) => x < y,
        (Datum::Str(x), Datum::Str(y)) => chars_lt(x, y),
        (Datum::Int(_), Datum::Str(_)) => true,
        (Datum::Str(_), Datum::Int(_)) => false,
    }
}

/// Whether key `a` comes before key `b` on positions `i..k`, given that they
/// agree before `i`.
pub open spec fn key_lt_from(a: Seq<Datum>, b: Seq<Datum>, i: int, k: int) -> bool
    decreases k - i,
{
    if i < 0 || i >= k {
        false
    } else if a[i] != b[i] {
        datum_lt(a[i], b[i])
    } else {
        key_lt_from(a, b, i + 1, k)
    }
}

/// Lexicographic order of two keys over their first `k` cells.
pub open spec fn key_lt(a: Seq<Datum>, b: Seq<Datum>, k: int) -> bool {
    key_lt_from(a, b, 0, k)
}

/// Whether two keys agree on their first `k` cells.
pub open spec fn key_eq(a: Seq<Datum>, b: Seq<Datum>, k: int) -> bool {
    forall|i: int| 0 <= i < k ==> a[i] == b[i]
}

proof fn lemma_chars_irreflexive(a: Seq<char>, i: int)
    ensures
        !chars_lt_from(a, a, i),
    decreases a.len() - i,
{
    if 0 <= i < a.len() {
        lemma_chars_irreflexive(a, i + 1);
    }
}

proof fn lemma_chars_transitive(a: Seq<char>, b: Seq<char>, c: Seq<char>, i: int)
    requires
        chars_lt_from(a, b, i),
        chars_lt_from(b, c, i),
    ensures
        chars_lt_from(a, c, i),
    decreases a.len() - i,
{
    if i < a.len() && a[i] == b[i] && b[i] == c[i] {
        lemma_chars_transitive(a, b, c, i + 1);
    }
}

proof fn lemma_chars_total(a: Seq<char>, b: Seq<char>, i: int)
    requires
        0 <= i,
        i <= a.len(),
        i <= b.len(),
        forall|j: int| 0 <= j < i ==> a[j] == b[j],
        !chars_lt_from(a, b, i),
        !chars_lt_from(b, a, i),
    ensures
        a == b,
    decreases a.len() - i,
{
    if i < a.len() && i < b.len() {
        lemma_chars_total(a, b, i + 1);
    } else {
        assert(a =~= b);
    }
}

/// No cell comes before itself.
pub proof fn lemma_datum_irreflexive(a: Datum)
    ensures
        !datum_lt(a, a),
{
    match a {
        Datum::Str(s) => lemma_chars_irreflexive(s, 0),
        Datum::Int(_) => {},
    }
}

/// The order on cells is transitive.
pub proof fn lemma_datum_transitive(a: Datum, b: Datum, c: Datum)
    requires
        datum_lt(a, b),
        datum_lt(b, c),
    ensures
        datum_lt(a, c),
{
    match (a, b, c) {
        (Datum::Str(x), Datum::Str(y), Datum::Str(z)) => lemma_chars_transitive(x, y, z, 0),
        _ => {},
    }
}

/// Two different cells are ordered one way or the other.
pub proof fn lemma_datum_total(a: Datum, b: Datum)
    requires
        a != b,
    ensures
        datum_lt(a, b) || datum_lt(b, a),
{
    match (a, b) {
        (Datum::Str(x), Datum::Str(y)) => {
            if !chars_lt(x, y) && !chars_lt(y, x) {
                lemma_chars_total(x, y, 0);
            }
        },
        _ => {},
    }
}

proof fn lemma_key_irreflexive_from(a: Seq<Datum>, i: int, k: int)
    ensures
        !key_lt_from(a, a, i, k),
    decreases k - i,
{
    if 0 <= i < k {
        lemma_key_irreflexive_from(a, i + 1, k);
    }
}

proof fn lemma_key_transitive_from(a: Seq<Datum>, b: Seq<Datum>, c: Seq<Datum>, i: int, k: int)
    requires
        key_lt_from(a, b, i, k),
        key_lt_from(b, c, i, k),
    ensures
        key_lt_from(a, c, i, k),
    decreases k - i,
{
    if a[i] == b[i] && b[i] == c[i] {
        lemma_key_transitive_from(a, b, c, i + 1, k);
    } else if a[i] != b[i] && b[i] != c[i] {
        lemma_datum_transitive(a[i], b[i], c[i]);
        lemma_datum_irreflexive(a[i]);
    }
}

proof fn lemma_key_total_from(a: Seq<Datum>, b: Seq<Datum>, i: int, k: int)
    requires
        0 <= i <= k,
        !key_lt_from(a, b, i, k),
        !key_lt_from(b, a, i, k),
    ensures
        forall|j: int| i <= j < k ==> a[j] == b[j],
    decreases k - i,
{
    if i < k {
        if a[i] != b[i] {
            lemma_datum_total(a[i], b[i]);
        }
        lemma_key_total_from(a, b, i + 1, k);
    }
}

proof fn lemma_key_eq_from(a: Seq<Datum>, b: Seq<Datum>, c: Seq<Datum>, i: int, k: int)
    requires
        0 <= i,
        forall|j: int| i <= j < k ==> a[j] == b[j],
    ensures
        key_lt_from(a, c, i, k) == key_lt_from(b, c, i, k),
        key_lt_from(c, a, i, k) == key_lt_from(c, b, i, k),
    decreases k - i,
{
    if i < k {
        lemma_key_eq_from(a, b, c, i + 1, k);
    }
}

/// No key comes before itself.
pub proof fn lemma_key_irreflexive(a: Seq<Datum>, k: int)
    ensures
        !key_lt(a, a, k),
{
    lemma_key_irreflexive_from(a, 0, k);
}

/// The order on keys is transitive.
pub proof fn lemma_key_transitive(a: Seq<Datum>, b: Seq<Datum>, c: Seq<Datum>, k: int)
    requires
        key_lt(a, b, k),
        key_lt(b, c, k),
    ensures
        key_lt(a, c, k),
{
    lemma_key_transitive_from(a, b, c, 0, k);
}

/// Two keys of which neither comes before the other agree on their first `k`
/// cells: the order is total.
pub proof fn lemma_key_total(a: Seq<Datum>, b: Seq<Datum>, k: int)
    requires
        0 <= k,
        !key_lt(a, b, k),
        !key_lt(b, a, k),
    ensures
        key_eq(a, b, k),
{
    lemma_key_total_from(a, b, 0, k);
}

/// Keys that agree on their first `k` cells compare alike with every other key.
pub proof fn lemma_key_eq_congruent(a: Seq<Datum>, b: Seq<Datum>, c: Seq<Datum>, k: int)
    requires
        key_eq(a, b, k),
    ensures
        key_lt(a, c, k) == key_lt(b, c, k),
        key_lt(c, a, k) == key_lt(c, b, k),
{
    lemma_key_eq_from(a, b, c, 0, k);
}

impl TableValue {
    /// A copy of this cell.
    pub fn duplicate(&self) -> (r: TableValue)
        ensures
            r@ == self@,
    {
        match self {
            TableValue::String(s) => TableValue::String(s.clone()),
            TableValue::Int(i) => TableValue::Int(*i),
        }
    }
}

impl Row {
    pub fn new(values: Vec<TableValue>) -> (r: Row)
        ensures
            r.values == values,
    {
        Row { values }
    }

    pub fn len(&self) -> (n: usize)
        ensures
            n == self@.len(),
    {
        self.values.len()
    }

    pub fn values(&self) -> (v: &Vec<TableValue>)
        ensures
            v == &self.values,
    {
        &self.values
    }

    /// A copy of this row.
    pub fn duplicate(&self) -> (r: Row)
        ensures
            r@ == self@,
    {
        let mut values: Vec<TableValue> = Vec::new();
        let mut i: usize = 0;
        while i < self.values.len()
            invariant
                i <= self.values.len(),
                values@.len() == i,
                forall|j: int| 0 <= j < i ==> values@[j]@ == self.values@[j]@,
            decreases self.values.len() - i,
        {
            values.push(self.values[i].duplicate());
            i += 1;
        }
        let r = Row { values };
        assert(r@ =~= self@);
        r
    }
}

} // verus!
