use vstd::prelude::*;
use vstd::string::StringSliceAdditionalSpecFns;
use crate::model::config::{all_digits, digits_value};

verus! {

/// The decimal digits of `n`, most significant first, as ASCII bytes.
pub open spec fn spec_decimal(n: nat) -> Seq<u8>
    decreases n,
{
    if n < 10 {
        seq![(48 + n) as u8]
    } else {
        spec_decimal(n / 10).push((48 + n % 10) as u8)
    }
}

/// The `u64` written in decimal: an optional `+`, then one digit or more, in range.
pub open spec fn spec_parse_u64(s: Seq<u8>) -> Option<u64> {
    let body = if s.len() > 0 && s[0] == 43 {
        s.skip(1)
    } else {
        s
    };
    if body.len() == 0 || !all_digits(body) {
        None
    } else if digits_value(body) <= u64::MAX {
        Some(digits_value(body) as u64)
    } else {
        None
    }
}

/// The bytes of a text.
pub open spec fn text_bytes(s: String) -> Seq<u8> {
    vstd::utf8::encode_utf8(s@)
}

proof fn lemma_decimal_digits(n: nat)
    ensures
        all_digits(spec_decimal(n)),
        spec_decimal(n).len() > 0,
        digits_value(spec_decimal(n)) == n,
        spec_decimal(n)[0] != 43,
    decreases n,
{
    if n >= 10 {
        lemma_decimal_digits(n / 10);
        let d = spec_decimal(n);
        assert(d.drop_last() =~= spec_decimal(n / 10));
        assert forall|i: int| 0 <= i < d.len() implies 48 <= #[trigger] d[i] <= 57 by {
            if i < d.len() - 1 {
                assert(d[i] == spec_decimal(n / 10)[i]);
            }
        }
        assert(d[0] == spec_decimal(n / 10)[0]);
        assert(d.last() == (48 + n % 10) as u8);
        assert(d.last() - 48 == n % 10);
        assert(digits_value(d) == digits_value(spec_decimal(n / 10)) * 10 + (d.last() - 48));
        vstd::arithmetic::div_mod::lemma_fundamental_div_mod(n as int, 10);
        assert(digits_value(d) == (n / 10) * 10 + n % 10);
    } else {
        let d = spec_decimal(n);
        assert(d.drop_last() =~= Seq::<u8>::empty());
        assert(d.last() - 48 == n);
        assert(digits_value(d) == digits_value(d.drop_last()) * 10 + (d.last() - 48));
    }
}

/// Reading back the decimal text of a number gives the number.
pub proof fn law_decimal_roundtrip(n: u64)
    ensures
        spec_parse_u64(spec_decimal(n as nat)) == Some(n),
{
    lemma_decimal_digits(n as nat);
}

pub(crate) proof fn lemma_ascii_valid(b: Seq<u8>)
    requires
        forall|i: int| 0 <= i < b.len() ==> #[trigger] b[i] < 128,
    ensures
        vstd::utf8::valid_utf8(b),
        vstd::utf8::encode_utf8(vstd::utf8::decode_utf8(b)) == b,
{
    assert(b.subrange(0, 0) =~= Seq::<u8>::empty());
    assert(vstd::utf8::partial_valid_utf8(b, 0)) by {
        assert(vstd::utf8::valid_utf8(Seq::<u8>::empty()));
    }
    assert forall|i: int| 0 <= 0 <= i < b.len() <= b.len() implies #[trigger]
        vstd::utf8::is_leading_byte_width_1(b[i]) by {
    }
    vstd::utf8::partial_valid_utf8_extend_ascii_block(b, 0, b.len() as int);
    assert(b.subrange(0, b.len() as int) =~= b);
    vstd::utf8::decode_utf8_encode_utf8(b);
}

/// The decimal text of `n`, as `u64::to_string` writes it.
pub fn u64_to_decimal(n: u64) -> (r: String)
    ensures
        text_bytes(r) == spec_decimal(n as nat),
{
    let mut rev: Vec<u8> = Vec::new();
    let mut m: u64 = n;
    loop
        invariant_except_break
            spec_decimal(n as nat) == spec_decimal(m as nat) + rev@.reverse(),
        invariant
            forall|i: int| 0 <= i < rev@.len() ==> 48 <= #[trigger] rev@[i] <= 57,
        ensures
            spec_decimal(n as nat) == rev@.reverse(),
            forall|i: int| 0 <= i < rev@.len() ==> 48 <= #[trigger] rev@[i] <= 57,
        decreases m,
    {
        let d: u8 = (m % 10) as u8;
        let ghost before = rev@;
        rev.push(48u8 + d);
        assert(rev@.reverse() =~= seq![(48 + m % 10) as u8] + before.reverse());
        if m < 10 {
            assert(spec_decimal(m as nat) =~= seq![(48 + m) as u8]);
            break;
        }
        assert(spec_decimal(m as nat) == spec_decimal((m / 10) as nat).push((48 + m % 10) as u8));
        assert(spec_decimal(m as nat) + before.reverse() =~= spec_decimal((m / 10) as nat)
            + rev@.reverse());
        m = m / 10;
    }
    let mut out: Vec<u8> = Vec::new();
    let mut i: usize = rev.len();
    while i > 0
        invariant
            i <= rev@.len(),
            out@ == rev@.subrange(i as int, rev@.len() as int).reverse(),
            forall|k: int| 0 <= k < rev@.len() ==> 48 <= #[trigger] rev@[k] <= 57,
        decreases i,
    {
        i = i - 1;
        out.push(rev[i]);
        proof {
            assert(rev@.subrange(i as int, rev@.len() as int).reverse() =~= rev@.subrange(
                (i + 1) as int,
                rev@.len() as int,
            ).reverse().push(rev@[i as int]));
        }
    }
    assert(rev@.subrange(0, rev@.len() as int) =~= rev@);
    proof {
        assert forall|k: int| 0 <= k < out@.len() implies #[trigger] out@[k] < 128 by {
            assert(out@[k] == rev@[rev@.len() - 1 - k]);
        }
        lemma_ascii_valid(out@);
    }
    let ghost bytes = out@;
    match crate::pm::serializable::string_from_utf8(out) {
        Some(s) => s,
        None => {
            proof {
                assert(false);
            }
            String::new()
        },
    }
}

/// Reads a `u64` written in decimal, as `str::parse` does.
pub fn parse_u64(text: &str) -> (r: Option<u64>)
    ensures
        r == spec_parse_u64(text.spec_bytes()),
{
    let s = text.as_bytes();
    let ghost sb = s@;
    let n = s.len();
    let start: usize = if n > 0 && s[0] == 43u8 {
        1
    } else {
        0
    };
    let ghost body = if n > 0 && sb[0] == 43 {
        sb.skip(1)
    } else {
        sb
    };
    assert(body =~= sb.subrange(start as int, n as int));
    if start == n {
        return None;
    }
    let mut acc: u64 = 0;
    let mut i: usize = start;
    while i < n
        invariant
            sb == s@,
            n == sb.len(),
            sb == text.spec_bytes(),
            body == (if n > 0 && sb[0] == 43 {
                sb.skip(1)
            } else {
                sb
            }),
            start <= i <= n,
            body =~= sb.subrange(start as int, n as int),
            all_digits(body.take(i - start)),
            acc == digits_value(body.take(i - start)),
        decreases n - i,
    {
        let c = s[i];
        if c < 48u8 || c > 57u8 {
            assert(body[i - start] == c);
            return None;
        }
        proof {
            assert(body.take(i - start + 1).drop_last() =~= body.take(i - start));
            assert(body.take(i - start + 1).last() == c);
            assert forall|k: int| 0 <= k < i - start + 1 implies 48 <= #[trigger] body.take(
                i - start + 1,
            )[k] <= 57 by {
                if k < i - start {
                    assert(body.take(i - start + 1)[k] == body.take(i - start)[k]);
                }
            }
        }
        let d: u64 = (c - 48u8) as u64;
        match acc.checked_mul(10) {
            Some(t) => match t.checked_add(d) {
                Some(v) => {
                    acc = v;
                },
                None => {
                    proof {
                        lemma_past_max(body, (i - start + 1) as int);
                    }
                    return None;
                },
            },
            None => {
                proof {
                    lemma_past_max(body, (i - start + 1) as int);
                }
                return None;
            },
        }
        i = i + 1;
    }
    assert(body.take(n - start) =~= body);
    Some(acc)
}

proof fn lemma_past_max(body: Seq<u8>, k: int)
    requires
        0 < k <= body.len(),
        all_digits(body.take(k)),
        digits_value(body.take(k)) > u64::MAX,
    ensures
        spec_parse_u64_body_fails(body),
{
    if all_digits(body) {
        lemma_grow(body, k, body.len() as int);
        assert(body.take(body.len() as int) =~= body);
    }
}

/// A digit string whose value does not fit in a `u64`, or that has a non-digit.
spec fn spec_parse_u64_body_fails(body: Seq<u8>) -> bool {
    !all_digits(body) || digits_value(body) > u64::MAX
}

proof fn lemma_grow(s: Seq<u8>, i: int, j: int)
    requires
        all_digits(s),
        0 <= i <= j <= s.len(),
    ensures
        digits_value(s.take(i)) <= digits_value(s.take(j)),
    decreases j - i,
{
    if i < j {
        lemma_grow(s, i, j - 1);
        assert(s.take(j).drop_last() =~= s.take(j - 1));
        lemma_nonneg(s.take(j - 1));
    }
}

proof fn lemma_nonneg(s: Seq<u8>)
    requires
        all_digits(s),
    ensures
        0 <= digits_value(s),
    decreases s.len(),
{
    if s.len() > 0 {
        assert(all_digits(s.drop_last()));
        lemma_nonneg(s.drop_last());
    }
}

} // verus!
