//! Names of durable objects, derived from their numeric identity.

use vstd::prelude::*;

verus! {

/// The character of the decimal digit `d`.
pub open spec fn digit_char(d: int) -> char {
    if d == 0 {
        '0'
    } else if d == 1 {
        '1'
    } else if d == 2 {
        '2'
    } else if d == 3 {
        '3'
    } else if d == 4 {
        '4'
    } else if d == 5 {
        '5'
    } else if d == 6 {
        '6'
    } else if d == 7 {
        '7'
    } else if d == 8 {
        '8'
    } else {
        '9'
    }
}

/// The decimal digits of `n`, most significant first, without leading zeros.
pub open spec fn decimal(n: nat) -> Seq<char>
    decreases n,
{
    if n < 10 {
        seq![digit_char(n as int)]
    } else {
        decimal(n / 10).push(digit_char((n % 10) as int))
    }
}

/// The durable name of the write-ahead record `wal_id`.
pub open spec fn wal_path(wal_id: u64) -> Seq<char> {
    decimal(wal_id as nat) + ".wal"@
}

/// The durable name of the chunk `chunk_id`.
pub open spec fn chunk_path(chunk_id: u64) -> Seq<char> {
    decimal(chunk_id as nat) + ".chunk.parquet"@
}

fn digit_str(d: u64) -> (s: &'static str)
    requires
        d < 10,
    ensures
        s@ == seq![digit_char(d as int)],
{
    proof {
        reveal_strlit("0");
        reveal_strlit("1");
        reveal_strlit("2");
        reveal_strlit("3");
        reveal_strlit("4");
        reveal_strlit("5");
        reveal_strlit("6");
        reveal_strlit("7");
        reveal_strlit("8");
        reveal_strlit("9");
    }
    let s = if d == 0 {
        "0"
    } else if d == 1 {
        "1"
    } else if d == 2 {
        "2"
    } else if d == 3 {
        "3"
    } else if d == 4 {
        "4"
    } else if d == 5 {
        "5"
    } else if d == 6 {
        "6"
    } else if d == 7 {
        "7"
    } else if d == 8 {
        "8"
    } else {
        "9"
    };
    assert(s@ =~= seq![digit_char(d as int)]);
    s
}

/// `n` written in decimal.
pub fn decimal_string(n: u64) -> (s: String)
    ensures
        s@ == decimal(n as nat),
    decreases n,
{
    if n < 10 {
        String::from_str(digit_str(n))
    } else {
        let mut s = decimal_string(n / 10);
        s.append(digit_str(n % 10));
        assert(s@ =~= decimal(n as nat));
        s
    }
}

/// The durable name of the write-ahead record `wal_id`.
pub fn wal_file_name(wal_id: u64) -> (s: String)
    ensures
        s@ == wal_path(wal_id),
{
    let mut s = decimal_string(wal_id);
    s.append(".wal");
    s
}

/// The durable name of the chunk `chunk_id`.
pub fn chunk_file_name(chunk_id: u64) -> (s: String)
    ensures
        s@ == chunk_path(chunk_id),
{
    let mut s = decimal_string(chunk_id);
    s.append(".chunk.parquet");
    s
}

proof fn lemma_decimal_len(n: nat)
    ensures
        decimal(n).len() >= 1,
        n >= 10 ==> decimal(n).len() >= 2,
    decreases n,
{
    if n >= 10 {
        lemma_decimal_len(n / 10);
    }
}

/// Different numbers are written differently.
pub proof fn lemma_decimal_injective(a: nat, b: nat)
    requires
        decimal(a) == decimal(b),
    ensures
        a == b,
    decreases a,
{
    lemma_decimal_len(a);
    lemma_decimal_len(b);
    if a < 10 && b < 10 {
        assert(decimal(a)[0] == digit_char(a as int));
        assert(decimal(b)[0] == digit_char(b as int));
    } else if a >= 10 && b >= 10 {
        let da = decimal(a / 10);
        let db = decimal(b / 10);
        assert(decimal(a).last() == digit_char((a % 10) as int));
        assert(decimal(b).last() == digit_char((b % 10) as int));
        assert(a % 10 == b % 10);
        assert(da == decimal(a).drop_last());
        assert(db == decimal(b).drop_last());
        lemma_decimal_injective(a / 10, b / 10);
        assert(a / 10 == b / 10);
    } else {
        assert(decimal(a).len() != decimal(b).len());
    }
}

/// Different write-ahead records, and different chunks, have different
/// durable names.
pub proof fn lemma_paths_injective(a: u64, b: u64)
    ensures
        wal_path(a) == wal_path(b) ==> a == b,
        chunk_path(a) == chunk_path(b) ==> a == b,
{
    let da = decimal(a as nat);
    let db = decimal(b as nat);
    if wal_path(a) == wal_path(b) {
        let s = ".wal"@;
        assert((da + s).len() == (db + s).len());
        assert(da =~= (da + s).subrange(0, da.len() as int));
        assert(db =~= (db + s).subrange(0, db.len() as int));
        lemma_decimal_injective(a as nat, b as nat);
    }
    if chunk_path(a) == chunk_path(b) {
        let s = ".chunk.parquet"@;
        assert((da + s).len() == (db + s).len());
        assert(da =~= (da + s).subrange(0, da.len() as int));
        assert(db =~= (db + s).subrange(0, db.len() as int));
        lemma_decimal_injective(a as nat, b as nat);
    }
}

} // verus!
