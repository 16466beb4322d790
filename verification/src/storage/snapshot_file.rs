use vstd::prelude::*;
use crate::model::config::{all_digits, digits_value};
use crate::storage::balances::Balances;
use crate::storage::hive::SUPPLY;
use crate::storage::snapshot::Snapshot;
use crate::transaction::transaction::{hex_decode, spec_hex_decode, Address};

verus! {

/// The `i64` written in decimal: an optional `+` or `-`, then one digit or more,
/// in range.
pub open spec fn spec_parse_i64(s: Seq<u8>) -> Option<i64> {
    let neg = s.len() > 0 && s[0] == 45;
    let body = if s.len() > 0 && (s[0] == 45 || s[0] == 43) {
        s.skip(1)
    } else {
        s
    };
    if body.len() == 0 || !all_digits(body) {
        None
    } else {
        let v = if neg {
            -digits_value(body)
        } else {
            digits_value(body)
        };
        if i64::MIN <= v <= i64::MAX {
            Some(v as i64)
        } else {
            None
        }
    }
}

proof fn lemma_digits_prefix(s: Seq<u8>, i: int, j: int)
    requires
        all_digits(s),
        0 <= i <= j <= s.len(),
    ensures
        0 <= digits_value(s.take(i)) <= digits_value(s.take(j)),
    decreases j - i,
{
    if i < j {
        lemma_digits_prefix(s, i, j - 1);
        assert(s.take(j).drop_last() =~= s.take(j - 1));
        assert(s.take(j).last() == s[j - 1]);
    } else {
        lemma_digits_zero_below(s.take(i));
    }
}

proof fn lemma_digits_zero_below(s: Seq<u8>)
    requires
        all_digits(s),
    ensures
        0 <= digits_value(s),
    decreases s.len(),
{
    if s.len() > 0 {
        assert(all_digits(s.drop_last()));
        lemma_digits_zero_below(s.drop_last());
    }
}

/// Reads an `i64` written in decimal, as `str::parse` does.
pub fn parse_i64(s: &[u8]) -> (r: Option<i64>)
    ensures
        r == spec_parse_i64(s@),
{
    let ghost sb = s@;
    let n = s.len();
    let neg = n > 0 && s[0] == 45u8;
    let start: usize = if n > 0 && (s[0] == 45u8 || s[0] == 43u8) {
        1
    } else {
        0
    };
    let ghost body = if n > 0 && (sb[0] == 45 || sb[0] == 43) {
        sb.skip(1)
    } else {
        sb
    };
    assert(body =~= sb.subrange(start as int, n as int));
    if start == n {
        return None;
    }
    let mut acc: i128 = 0;
    let mut i: usize = start;
    while i < n
        invariant
            sb == s@,
            n == sb.len(),
            body == (if n > 0 && (sb[0] == 45 || sb[0] == 43) {
                sb.skip(1)
            } else {
                sb
            }),
            neg == (n > 0 && sb[0] == 45),
            start <= i <= n,
            body =~= sb.subrange(start as int, n as int),
            all_digits(body.take(i - start)),
            acc == digits_value(body.take(i - start)),
            0 <= acc <= 9223372036854775808,
        decreases n - i,
    {
        let c = s[i];
        if c < 48u8 || c > 57u8 {
            assert(body[i - start] == c);
            return None;
        }
        proof {
            assert(body.take(i - start + 1).drop_last() =~= body.take(i - start));
            assert(body.take(i - start + 1).last() == c);
        }
        acc = acc * 10 + (c - 48u8) as i128;
        i = i + 1;
        proof {
            assert forall|k: int| 0 <= k < i - start implies 48 <= #[trigger] body.take(
                i - start,
            )[k] <= 57 by {
                if k < i - start - 1 {
                    assert(body.take(i - start)[k] == body.take(i - start - 1)[k]);
                }
            }
        }
        if acc > 9223372036854775808 {
            proof {
                if all_digits(body) {
                    lemma_digits_prefix(body, i - start, body.len() as int);
                    assert(body.take(body.len() as int) =~= body);
                }
            }
            return None;
        }
    }
    assert(body.take(n - start) =~= body);
    if neg {
        Some((-acc) as i64)
    } else {
        if acc > 9223372036854775807 {
            return None;
        }
        Some(acc as i64)
    }
}

/// Why the file of the initial balances was refused.
#[derive(Copy, Clone, Debug, PartialEq, Eq, Structural)]
pub enum SnapshotError {
    /// A line has no space between address and balance.
    MissingBalance,
    /// A balance is not an `i64` in decimal.
    InvalidBalance,
    /// An address is not a letter and at least 21 bytes in hexadecimal.
    InvalidAddress,
    /// An address has two lines.
    DuplicateAddress,
    /// The balances add up to more than an `i64` holds.
    TotalOverflow,
    /// The balances do not add up to the supply.
    WrongTotal,
}

/// The position of the first byte `c` of `b`.
pub open spec fn first_index(b: Seq<u8>, c: u8) -> Option<int> {
    if exists|i: int| 0 <= i < b.len() && b[i] == c && forall|j: int| 0 <= j < i ==> b[j] != c {
        Some(choose|i: int| 0 <= i < b.len() && b[i] == c && forall|j: int| 0 <= j < i ==> b[j] != c)
    } else {
        None
    }
}

/// The first position of `c` in `b`.
pub fn find_byte(b: &[u8], c: u8) -> (r: Option<usize>)
    ensures
        match first_index(b@, c) {
            Some(i) => r == Some(i as usize),
            None => r is None,
        },
        r matches Some(i) ==> i < b@.len() && b@[i as int] == c,
{
    let mut i: usize = 0;
    while i < b.len()
        invariant
            i <= b@.len(),
            forall|j: int| 0 <= j < i ==> b@[j] != c,
        decreases b@.len() - i,
    {
        if b[i] == c {
            proof {
                let k = choose|k: int| 0 <= k < b@.len() && b@[k] == c && forall|j: int| 0 <= j < k ==> b@[j] != c;
                assert(0 <= i < b@.len() && b@[i as int] == c && forall|j: int| 0 <= j < i ==> b@[j] != c);
                if k < i {
                    assert(b@[k] != c);
                } else if k > i {
                    assert(b@[i as int] != c);
                }
            }
            return Some(i);
        }
        i = i + 1;
    }
    None
}

/// A line of the file of initial balances: an address (a letter, then at least
/// 21 bytes in hexadecimal, of which the first 21 count), a space, and a balance.
/// The balance is read first.
pub open spec fn spec_snapshot_line(b: Seq<u8>) -> Result<(Seq<u8>, i64), SnapshotError> {
    match first_index(b, 32) {
        None => Err(SnapshotError::MissingBalance),
        Some(sp) => match spec_parse_i64(b.skip(sp + 1)) {
            None => Err(SnapshotError::InvalidBalance),
            Some(v) => if sp == 0 {
                Err(SnapshotError::InvalidAddress)
            } else {
                match spec_hex_decode(b.subrange(1, sp)) {
                    Some(d) => if d.len() >= 21 {
                        Ok((d.take(21), v))
                    } else {
                        Err(SnapshotError::InvalidAddress)
                    },
                    None => Err(SnapshotError::InvalidAddress),
                }
            },
        },
    }
}

/// Reads a line of the file of initial balances.
pub fn parse_snapshot_line(line: &[u8]) -> (r: Result<(Address, i64), SnapshotError>)
    ensures
        match spec_snapshot_line(line@) {
            Ok((a, v)) => r matches Ok(p) && p.0.0@ == a && p.1 == v,
            Err(e) => r == Err::<(Address, i64), SnapshotError>(e),
        },
{
    let sp = match find_byte(line, 32u8) {
        Some(sp) => sp,
        None => return Err(SnapshotError::MissingBalance),
    };
    let n = line.len();
    assert(sp < n);
    let balance_text = vstd::slice::slice_subrange(line, sp + 1, n);
    assert(balance_text@ =~= line@.skip(sp + 1));
    let balance = match parse_i64(balance_text) {
        Some(v) => v,
        None => return Err(SnapshotError::InvalidBalance),
    };
    if sp == 0 {
        return Err(SnapshotError::InvalidAddress);
    }
    let address_text = vstd::slice::slice_subrange(line, 1, sp);
    let decoded = match hex_decode(address_text) {
        Some(d) => d,
        None => return Err(SnapshotError::InvalidAddress),
    };
    if decoded.len() < 21 {
        return Err(SnapshotError::InvalidAddress);
    }
    let mut bytes = [0u8; 21];
    let mut i: usize = 0;
    while i < 21
        invariant
            decoded@.len() >= 21,
            i <= 21,
            forall|k: int| 0 <= k < i ==> bytes@[k] == decoded@[k],
        decreases 21 - i,
    {
        bytes[i] = decoded[i];
        i = i + 1;
    }
    assert(bytes@ =~= decoded@.take(21));
    Ok((Address(bytes), balance))
}

/// The balances and their total after the lines, in order: the first line that
/// cannot be read, repeats an address, or makes the total overflow decides the
/// error.
pub open spec fn spec_load(lines: Seq<Seq<u8>>) -> Result<(Map<Seq<u8>, int>, int), SnapshotError>
    decreases lines.len(),
{
    if lines.len() == 0 {
        Ok((Map::empty(), 0))
    } else {
        match spec_load(lines.drop_last()) {
            Err(e) => Err(e),
            Ok((m, t)) => match spec_snapshot_line(lines.last()) {
                Err(e) => Err(e),
                Ok((a, v)) => if m.dom().contains(a) {
                    Err(SnapshotError::DuplicateAddress)
                } else if !(i64::MIN <= t + v <= i64::MAX) {
                    Err(SnapshotError::TotalOverflow)
                } else {
                    Ok((m.insert(a, v as int), t + v))
                },
            },
        }
    }
}

/// The bytes of each line.
pub open spec fn line_bytes(lines: Seq<String>) -> Seq<Seq<u8>> {
    lines.map_values(|l: String| vstd::utf8::encode_utf8(l@))
}

proof fn lemma_load_err_extends(ls: Seq<Seq<u8>>, k: int)
    requires
        0 <= k <= ls.len(),
        spec_load(ls.take(k)) is Err,
    ensures
        spec_load(ls) == spec_load(ls.take(k)),
    decreases ls.len() - k,
{
    if k < ls.len() {
        assert(ls.take(k + 1).drop_last() =~= ls.take(k));
        lemma_load_err_extends(ls, k + 1);
    } else {
        assert(ls.take(k) =~= ls);
    }
}

impl Snapshot {
    /// The initial balances, from the lines of their file: every line read, no
    /// address twice, and a total equal to the supply.
    pub fn init_initial_state(lines: &[String]) -> (r: Result<Balances, SnapshotError>)
        ensures
            match spec_load(line_bytes(lines@)) {
                Err(e) => r == Err::<Balances, SnapshotError>(e),
                Ok((m, t)) => if t != SUPPLY {
                    r == Err::<Balances, SnapshotError>(SnapshotError::WrongTotal)
                } else {
                    r matches Ok(b) && b.wf() && b@ == m
                },
            },
    {
        let ghost ls = line_bytes(lines@);
        let mut balances = Balances::new();
        let mut total: i64 = 0;
        let mut i: usize = 0;
        assert(ls.take(0) =~= Seq::<Seq<u8>>::empty());
        while i < lines.len()
            invariant
                ls == line_bytes(lines@),
                i <= lines@.len(),
                balances.wf(),
                spec_load(ls.take(i as int)) == Ok::<(Map<Seq<u8>, int>, int), SnapshotError>(
                    (balances@, total as int),
                ),
            decreases lines@.len() - i,
        {
            proof {
                assert(ls.take(i + 1).drop_last() =~= ls.take(i as int));
                assert(ls.take(i + 1).last() == ls[i as int]);
            }
            let b = lines[i].as_str().as_bytes();
            assert(b@ == ls[i as int]);
            let (a, v) = match parse_snapshot_line(b) {
                Ok(p) => p,
                Err(e) => {
                    proof {
                        lemma_load_err_extends(ls, i + 1);
                    }
                    return Err(e);
                },
            };
            if balances.get(&a).is_some() {
                proof {
                    lemma_load_err_extends(ls, i + 1);
                }
                return Err(SnapshotError::DuplicateAddress);
            }
            let new_total = match total.checked_add(v) {
                Some(t) => t,
                None => {
                    proof {
                        lemma_load_err_extends(ls, i + 1);
                    }
                    return Err(SnapshotError::TotalOverflow);
                },
            };
            balances.insert(a, v);
            total = new_total;
            i = i + 1;
        }
        assert(ls.take(lines@.len() as int) =~= ls);
        if total != 1_000_000_000i64 {
            return Err(SnapshotError::WrongTotal);
        }
        Ok(balances)
    }
}

} // verus!
