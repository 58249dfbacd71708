//! Coordinator verifier: the decisions that bridge the batch executor
//! and the ledger client. Before a ledger-linked batch is dispatched,
//! its id is parsed and the fetched batch record is required to exist
//! and be finalized.

use vstd::prelude::*;

use crate::error::ProxyError;
use crate::records::{OnChainBatch, OnChainBatchStatus};
use crate::text::{spec_decimal, u64_to_decimal};

verus! {

/// Whether `c` is a decimal digit.
pub open spec fn spec_is_digit(c: char) -> bool {
    48 <= c as u32 <= 57
}

/// The value of a decimal digit character.
pub open spec fn spec_digit_val(c: char) -> int {
    c as u32 - 48
}

/// Whether every character of `s` is a decimal digit.
pub open spec fn spec_all_digits(s: Seq<char>) -> bool {
    forall|i: int| 0 <= i < s.len() ==> spec_is_digit(#[trigger] s[i])
}

/// The numeric value of a digit string.
pub open spec fn spec_digits_val(s: Seq<char>) -> int
    decreases s.len(),
{
    if s.len() == 0 {
        0
    } else {
        spec_digits_val(s.drop_last()) * 10 + spec_digit_val(s.last())
    }
}

/// What parsing a batch id from text yields: after an optional leading
/// plus sign, at least one character, all decimal digits, whose value
/// fits in a `u64`.
pub open spec fn spec_parse_u64(s: Seq<char>) -> Option<u64> {
    let digits = if s.len() > 0 && s[0] == '+' {
        s.drop_first()
    } else {
        s
    };
    if digits.len() == 0 || !spec_all_digits(digits) {
        None
    } else if spec_digits_val(digits) > u64::MAX {
        None
    } else {
        Some(spec_digits_val(digits) as u64)
    }
}

/// The value of an all-digit string is never negative.
proof fn lemma_digits_val_nonneg(s: Seq<char>)
    requires
        spec_all_digits(s),
    ensures
        spec_digits_val(s) >= 0,
    decreases s.len(),
{
    if s.len() > 0 {
        assert(spec_all_digits(s.drop_last())) by {
            assert(forall|i: int| 0 <= i < s.len() - 1 ==> s.drop_last()[i] == s[i]);
        }
        lemma_digits_val_nonneg(s.drop_last());
        assert(spec_is_digit(s.last()));
    }
}

/// The value of a prefix of an all-digit string never exceeds the
/// value of the whole string.
proof fn lemma_digits_val_prefix_le(s: Seq<char>, m: int)
    requires
        spec_all_digits(s),
        0 <= m <= s.len(),
    ensures
        spec_digits_val(s.take(m)) <= spec_digits_val(s),
    decreases s.len() - m,
{
    if m < s.len() {
        let t = s.take(m + 1);
        assert(t.drop_last() =~= s.take(m));
        assert(t.last() == s[m]);
        assert(spec_all_digits(t)) by {
            assert(forall|i: int| 0 <= i < t.len() ==> t[i] == s[i]);
        }
        assert(spec_all_digits(s.take(m))) by {
            assert(forall|i: int| 0 <= i < m ==> s.take(m)[i] == s[i]);
        }
        lemma_digits_val_nonneg(s.take(m));
        assert(spec_digits_val(t) == spec_digits_val(s.take(m)) * 10 + spec_digit_val(s[m]));
        assert(spec_digits_val(s.take(m)) * 10 >= spec_digits_val(s.take(m))) by (
        nonlinear_arith)
            requires
                spec_digits_val(s.take(m)) >= 0,
        ;
        assert(spec_is_digit(s[m]));
        assert(spec_digits_val(s.take(m)) <= spec_digits_val(t));
        lemma_digits_val_prefix_le(s, m + 1);
        assert(s.take(s.len() as int) =~= s);
    } else {
        assert(s.take(m) =~= s);
    }
}

/// Parse a batch id from text: an optional leading plus sign, then one
/// or more decimal digits whose value fits in a `u64`. Anything else is
/// rejected.
pub fn parse_batch_id(s: &str) -> (r: Option<u64>)
    ensures
        r == spec_parse_u64(s@),
{
    let n = s.unicode_len();
    let plus = n > 0 && s.get_char(0) == '+';
    let start: usize = if plus {
        1
    } else {
        0
    };
    let ghost digits = if plus {
        s@.drop_first()
    } else {
        s@
    };
    proof {
        assert(digits.len() == n - start);
        assert(forall|i: int| 0 <= i < digits.len() ==> digits[i] == s@[i + start]);
    }
    if n == start {
        return None;
    }
    let mut acc: u64 = 0;
    let mut i: usize = start;
    proof {
        assert(digits.take(0) =~= Seq::<char>::empty());
    }
    while i < n
        invariant
            start <= i <= n,
            n == s@.len(),
            plus == (s@.len() > 0 && s@[0] == '+'),
            start == (if plus {
                1int
            } else {
                0int
            }),
            digits == (if plus {
                s@.drop_first()
            } else {
                s@
            }),
            digits.len() == n - start,
            forall|j: int| 0 <= j < digits.len() ==> digits[j] == s@[j + start],
            spec_all_digits(digits.take(i - start)),
            acc == spec_digits_val(digits.take(i - start)),
        decreases n - i,
    {
        let c = s.get_char(i);
        let cu = c as u32;
        if cu < 48 || cu > 57 {
            proof {
                assert(digits[i - start] == c);
                assert(!spec_is_digit(digits[i - start]));
                assert(!spec_all_digits(digits));
            }
            return None;
        }
        let d = (cu - 48) as u64;
        proof {
            let t = digits.take(i - start + 1);
            assert(t.drop_last() =~= digits.take(i - start));
            assert(t.last() == digits[i - start] && digits[i - start] == c);
            assert(spec_all_digits(t)) by {
                assert(forall|k: int| 0 <= k < t.len() - 1 ==> t[k] == digits.take(i - start)[k]);
            }
        }
        let step = match acc.checked_mul(10) {
            Some(x) => x.checked_add(d),
            None => None,
        };
        match step {
            Some(x) => {
                acc = x;
            },
            None => {
                proof {
                    let t = digits.take(i - start + 1);
                    assert(spec_digits_val(t) == acc * 10 + spec_digit_val(c));
                    assert(spec_digits_val(t) > u64::MAX);
                    if spec_all_digits(digits) {
                        lemma_digits_val_prefix_le(digits, i - start + 1);
                        assert(spec_digits_val(digits) > u64::MAX);
                    }
                }
                return None;
            },
        }
        i = i + 1;
    }
    proof {
        assert(digits.take(n - start) =~= digits);
        lemma_digits_val_nonneg(digits);
    }
    Some(acc)
}

impl OnChainBatchStatus {
    /// The printable name of a status.
    pub open spec fn spec_name(self) -> Seq<char> {
        match self {
            OnChainBatchStatus::Pending => "Pending"@,
            OnChainBatchStatus::Finalized => "Finalized"@,
            OnChainBatchStatus::Executed => "Executed"@,
        }
    }

    /// The printable name of a status.
    pub fn as_str(&self) -> (r: &'static str)
        ensures
            r@ == self.spec_name(),
    {
        match self {
            OnChainBatchStatus::Pending => "Pending",
            OnChainBatchStatus::Finalized => "Finalized",
            OnChainBatchStatus::Executed => "Executed",
        }
    }
}

/// The error returned when a request's batch id is not parseable.
pub fn invalid_batch_id_error(batch_id_str: &str) -> (r: ProxyError)
    ensures
        r matches ProxyError::InvalidQuery(m) && m@ == "Invalid batch_id: "@ + batch_id_str@,
{
    let text = String::from_str("Invalid batch_id: ").concat(batch_id_str);
    ProxyError::InvalidQuery(text)
}

/// The cross-check applied to a ledger-linked batch before dispatch:
/// the fetched batch must exist and be finalized on the ledger, else
/// the whole call is rejected — batches are dispatched only after the
/// ledger has finalized them.
pub fn check_fetched_batch(batch_id: u64, fetched: &Option<OnChainBatch>) -> (r: Result<
    (),
    ProxyError,
>)
    ensures
        r is Ok <==> (fetched matches Some(b) && b@.status is Finalized),
        fetched is None ==> (r matches Err(ProxyError::InvalidQuery(m)) && m@ == "Batch "@
            + spec_decimal(batch_id as nat) + " not found on-chain"@),
        (fetched matches Some(b) && !(b@.status is Finalized)) ==> (r matches Err(
            ProxyError::InvalidQuery(m),
        ) && m@ == "Batch "@ + spec_decimal(batch_id as nat) + " is not finalized (status: "@
            + fetched.unwrap()@.status.spec_name() + ")"@),
{
    match fetched {
        Some(b) => {
            if b.status.to_byte() == 1 {
                Ok(())
            } else {
                let mut text = String::from_str("Batch ");
                let idtext = u64_to_decimal(batch_id);
                text.append(idtext.as_str());
                text.append(" is not finalized (status: ");
                text.append(b.status.as_str());
                text.append(")");
                Err(ProxyError::InvalidQuery(text))
            }
        },
        None => {
            let mut text = String::from_str("Batch ");
            let idtext = u64_to_decimal(batch_id);
            text.append(idtext.as_str());
            text.append(" not found on-chain");
            Err(ProxyError::InvalidQuery(text))
        },
    }
}

} // verus!
