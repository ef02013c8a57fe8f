//! Decimal rendering and parsing of the size field of an object header.

use vstd::prelude::*;

verus! {

/// The decimal rendering of `n`: most significant digit first, no sign and
/// no leading zeros (`"0"` for zero).
pub open spec fn dec_rep(n: nat) -> Seq<u8>
    decreases n,
{
    if n < 10 {
        seq![(n + 48) as u8]
    } else {
        dec_rep(n / 10).push(((n % 10) + 48) as u8)
    }
}

/// Whether every byte of `s` is an ASCII digit.
pub open spec fn all_digits(s: Seq<u8>) -> bool {
    forall|i: int| 0 <= i < s.len() ==> 48 <= #[trigger] s[i] <= 57
}

/// The numeric value of a digit string, most significant digit first.
pub open spec fn dec_val(s: Seq<u8>) -> int
    decreases s.len(),
{
    if s.len() == 0 {
        0
    } else {
        dec_val(s.drop_last()) * 10 + s.last() - 48
    }
}

/// The digit part of a size field: everything after one optional leading
/// ASCII `+` sign.
pub open spec fn digits_part(s: Seq<u8>) -> Seq<u8> {
    if s.len() > 0 && s[0] == 43 {
        s.skip(1)
    } else {
        s
    }
}

/// What the size field of a header means: a non-negative base-10 integer
/// with an optional leading `+`, rejected when empty, when any byte is not
/// a digit, or when the value does not fit in 64 bits.
pub open spec fn parse_size_spec(s: Seq<u8>) -> Option<u64> {
    let d = digits_part(s);
    if d.len() == 0 || !all_digits(d) || dec_val(d) > u64::MAX {
        None
    } else {
        Some(dec_val(d) as u64)
    }
}

/// A digit string has a non-negative value.
pub proof fn lemma_dec_val_nonneg(s: Seq<u8>)
    requires
        all_digits(s),
    ensures
        dec_val(s) >= 0,
    decreases s.len(),
{
    if s.len() > 0 {
        assert(all_digits(s.drop_last()));
        lemma_dec_val_nonneg(s.drop_last());
    }
}

/// Extending a digit string can only increase its value.
pub proof fn lemma_dec_val_prefix(s: Seq<u8>, j: int)
    requires
        all_digits(s),
        0 <= j <= s.len(),
    ensures
        dec_val(s) >= dec_val(s.take(j)),
    decreases s.len() - j,
{
    if j < s.len() {
        assert(s.take(j + 1).drop_last() =~= s.take(j));
        assert(s.take(j + 1).last() == s[j]);
        assert(all_digits(s.take(j)));
        lemma_dec_val_nonneg(s.take(j));
        assert(dec_val(s.take(j + 1)) == dec_val(s.take(j)) * 10 + s[j] - 48);
        lemma_dec_val_prefix(s, j + 1);
    } else {
        assert(s.take(j) =~= s);
    }
}

/// The decimal rendering consists only of digits.
pub proof fn lemma_dec_rep_digits(n: nat)
    ensures
        dec_rep(n).len() >= 1,
        all_digits(dec_rep(n)),
        48 <= dec_rep(n)[0] <= 57,
    decreases n,
{
    if n >= 10 {
        lemma_dec_rep_digits(n / 10);
    }
}

/// Parsing the decimal rendering of `n` gives back `n`.
pub proof fn lemma_dec_rep_val(n: nat)
    ensures
        dec_val(dec_rep(n)) == n,
    decreases n,
{
    if n < 10 {
        assert(dec_rep(n).drop_last() =~= Seq::<u8>::empty());
        assert(dec_rep(n).last() == (n + 48) as u8);
        assert(((n + 48) as u8) as int == n + 48);
        assert(dec_val(dec_rep(n)) == dec_val(Seq::<u8>::empty()) * 10 + (n + 48) - 48);
    } else {
        lemma_dec_rep_val(n / 10);
        assert(dec_rep(n).drop_last() =~= dec_rep(n / 10));
        assert(dec_rep(n).last() == ((n % 10) + 48) as u8);
        assert((((n % 10) + 48) as u8) as int == (n % 10) + 48);
        assert(dec_val(dec_rep(n)) == dec_val(dec_rep(n / 10)) * 10 + ((n % 10) + 48) - 48);
        assert(n / 10 * 10 + n % 10 == n);
    }
}

/// The size round trip: rendering a 64-bit size and parsing it back yields
/// the same size.
pub proof fn lemma_dec_round_trip(n: u64)
    ensures
        parse_size_spec(dec_rep(n as nat)) == Some(n),
{
    lemma_dec_rep_digits(n as nat);
    lemma_dec_rep_val(n as nat);
    assert(digits_part(dec_rep(n as nat)) == dec_rep(n as nat));
}

/// Render `n` in decimal, most significant digit first.
pub fn render_dec(n: u64) -> (r: Vec<u8>)
    ensures
        r@ == dec_rep(n as nat),
    decreases n,
{
    if n < 10 {
        let v: Vec<u8> = vec![(n as u8) + 48];
        proof {
            assert(v@ =~= dec_rep(n as nat));
        }
        v
    } else {
        let mut v = render_dec(n / 10);
        v.push(((n % 10) as u8) + 48);
        proof {
            assert(v@ =~= dec_rep(n as nat));
        }
        v
    }
}

/// Parse a size field: an optional leading `+`, then decimal digits whose
/// value fits in 64 bits; `None` exactly on the inputs `parse_size_spec`
/// rejects.
pub fn parse_dec(s: &[u8]) -> (r: Option<u64>)
    ensures
        r == parse_size_spec(s@),
{
    let ghost d = digits_part(s@);
    let start: usize = if s.len() > 0 && s[0] == 43 {
        1
    } else {
        0
    };
    proof {
        assert(d =~= s@.subrange(start as int, s@.len() as int));
    }
    if s.len() == start {
        return None;
    }
    let mut acc: u64 = 0;
    let mut i: usize = start;
    while i < s.len()
        invariant
            start <= i <= s@.len(),
            d == digits_part(s@),
            d == s@.subrange(start as int, s@.len() as int),
            all_digits(d.take(i - start)),
            acc == dec_val(d.take(i - start)),
        decreases s@.len() - i,
    {
        let b = s[i];
        proof {
            assert(d[i - start] == s@[i as int]);
        }
        if b < 48 || b > 57 {
            proof {
                assert(!all_digits(d));
            }
            return None;
        }
        let db = (b - 48) as u64;
        if acc > (u64::MAX - db) / 10 {
            proof {
                assert(d.take(i - start + 1).drop_last() =~= d.take(i - start));
                assert(d.take(i - start + 1).last() == d[i - start]);
                assert(dec_val(d.take(i - start + 1)) == acc * 10 + db);
                assert(acc * 10 + db > u64::MAX) by {
                    assert(acc >= (u64::MAX - db) / 10 + 1);
                    assert(acc * 10 >= ((u64::MAX - db) / 10 + 1) * 10) by (nonlinear_arith)
                        requires
                            acc >= (u64::MAX - db) / 10 + 1,
                    ;
                }
                if all_digits(d) {
                    lemma_dec_val_prefix(d, i - start + 1);
                }
            }
            return None;
        }
        proof {
            assert(d.take(i - start + 1).drop_last() =~= d.take(i - start));
            assert(d.take(i - start + 1).last() == d[i - start]);
            assert(acc * 10 + db <= u64::MAX) by {
                assert(acc <= (u64::MAX - db) / 10);
                assert(acc * 10 <= ((u64::MAX - db) / 10) * 10) by (nonlinear_arith)
                    requires
                        acc <= (u64::MAX - db) / 10,
                ;
            }
        }
        acc = acc * 10 + db;
        i = i + 1;
    }
    proof {
        assert(d.take(i - start) =~= d);
    }
    Some(acc)
}

} // verus!
