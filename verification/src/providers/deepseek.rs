//! The DeepSeek balance reply: its currencies and decimal amounts, kept as text.
use crate::models::{DeepSeekBalance, DeepSeekSnapshot, ProviderErrorCategory, ProviderSnapshot};
use crate::providers::{invalid_response_error, status_error, ProviderError};
use crate::text::{all_digits, ascii_digit, chars_of, find_char, find_char_from, lit};
use vstd::prelude::*;

verus! {

broadcast use vstd::string::group_string_axioms;

#[derive(Debug, Clone, Copy, PartialEq, Eq, Structural)]
pub enum Currency {
    Cny,
    Usd,
}

pub open spec fn currency_code(currency: Currency) -> Seq<char> {
    match currency {
        Currency::Cny => "CNY"@,
        Currency::Usd => "USD"@,
    }
}

impl Currency {
    pub fn as_str(&self) -> (r: &'static str)
        ensures
            r@ == currency_code(*self),
    {
        match self {
            Currency::Cny => "CNY",
            Currency::Usd => "USD",
        }
    }
}

/// One currency's balances as the service states them.
#[derive(Debug)]
pub struct BalanceInfo {
    pub currency: Currency,
    pub total_balance: String,
    pub granted_balance: String,
    pub topped_up_balance: String,
}

/// The balance reply of the DeepSeek service.
#[derive(Debug)]
pub struct BalanceResponse {
    pub is_available: bool,
    pub balance_infos: Vec<BalanceInfo>,
}

/// A decimal number written with digits: an optional minus sign, digits, and
/// optionally a point followed by digits.
pub open spec fn is_decimal_spec(value: Seq<char>) -> bool {
    let v = if value.len() > 0 && value[0] == '-' {
        value.skip(1)
    } else {
        value
    };
    match find_char_from(v, '.', 0) {
        None => v.len() > 0 && all_digits(v),
        Some(p) => p > 0 && all_digits(v.take(p)) && v.len() > p + 1 && all_digits(v.skip(p + 1)),
    }
}

fn digits_between(v: &[char], from: usize, to: usize) -> (r: bool)
    requires
        from <= to <= v@.len(),
    ensures
        r == all_digits(v@.subrange(from as int, to as int)),
{
    let mut i = from;
    while i < to
        invariant
            from <= i <= to <= v@.len(),
            all_digits(v@.subrange(from as int, i as int)),
        decreases to - i,
    {
        if !ascii_digit(v[i]) {
            proof {
                assert(v@.subrange(from as int, to as int)[i - from] == v@[i as int]);
            }
            return false;
        }
        proof {
            assert forall|k: int| 0 <= k < i + 1 - from implies crate::text::is_ascii_digit(
                #[trigger] v@.subrange(from as int, i + 1)[k],
            ) by {
                if k < i - from {
                    assert(v@.subrange(from as int, i + 1)[k] == v@.subrange(from as int, i as int)[k]);
                }
            }
        }
        i += 1;
    }
    true
}

pub fn is_decimal_string(value: &str) -> (r: bool)
    ensures
        r == is_decimal_spec(value@),
{
    let chars = chars_of(value);
    let v = if chars.len() > 0 && chars[0] == '-' {
        crate::text::slice_vec(&chars, 1, chars.len())
    } else {
        chars
    };
    proof {
        if value@.len() > 0 && value@[0] == '-' {
            assert(v@ =~= value@.skip(1));
        }
    }
    match find_char(&v, '.') {
        None => {
            let r = v.len() > 0 && digits_between(&v, 0, v.len());
            proof {
                assert(v@.subrange(0, v@.len() as int) =~= v@);
            }
            r
        },
        Some(p) => {
            let r = p > 0 && digits_between(&v, 0, p) && v.len() > p + 1 && digits_between(
                &v,
                p + 1,
                v.len(),
            );
            proof {
                assert(v@.subrange(0, p as int) =~= v@.take(p as int));
                assert(v@.subrange(p + 1, v@.len() as int) =~= v@.skip(p + 1));
            }
            r
        },
    }
}

/// Whether every balance of a reply is written as a decimal number.
pub open spec fn amounts_are_decimal(infos: Seq<BalanceInfo>) -> bool {
    forall|i: int|
        0 <= i < infos.len() ==> {
            &&& is_decimal_spec((#[trigger] infos[i]).total_balance@)
            &&& is_decimal_spec(infos[i].granted_balance@)
            &&& is_decimal_spec(infos[i].topped_up_balance@)
        }
}

/// The snapshot kept of a balance entry.
pub open spec fn balance_matches(b: DeepSeekBalance, info: BalanceInfo) -> bool {
    &&& b.currency@ == currency_code(info.currency)
    &&& b.total_balance@ == info.total_balance@
    &&& b.granted_balance@ == info.granted_balance@
    &&& b.topped_up_balance@ == info.topped_up_balance@
}

/// Whether `r` is what a DeepSeek reply with HTTP `status` and `payload` (none
/// when the body is not a balance reply) reads as, captured at `captured_at`.
pub open spec fn deepseek_reading(
    r: Result<ProviderSnapshot, ProviderError>,
    status: u16,
    payload: Option<BalanceResponse>,
    captured_at: Seq<char>,
) -> bool {
    if status != 200 {
        r matches Err(e) && e.parts() == status_error(status)
    } else {
        match payload {
            None => r matches Err(e) && e.parts() == invalid_response_error(),
            Some(p) => if !amounts_are_decimal(p.balance_infos@) {
                r matches Err(e) && e.parts() == (
                    ProviderErrorCategory::InvalidResponse,
                    "DeepSeek 返回了无效的余额金额。"@,
                )
            } else {
                r matches Ok(ProviderSnapshot::DeepSeek(s)) && {
                    &&& s.id@ == captured_at
                    &&& s.captured_at@ == captured_at
                    &&& s.is_available == p.is_available
                    &&& s.balances@.len() == p.balance_infos@.len()
                    &&& forall|i: int|
                        0 <= i < s.balances@.len() ==> balance_matches(
                            #[trigger] s.balances@[i],
                            p.balance_infos@[i],
                        )
                }
            },
        }
    }
}

/// Reads a DeepSeek balance reply.
pub fn parse_response(status: u16, payload: Option<BalanceResponse>, captured_at: String) -> (r:
    Result<ProviderSnapshot, ProviderError>)
    ensures
        deepseek_reading(r, status, payload, captured_at@),
{
    if status != 200 {
        return Err(ProviderError::from_status(status));
    }
    let reply = match &payload {
        Some(reply) => reply,
        None => return Err(ProviderError::invalid_response()),
    };
    let ghost infos = reply.balance_infos@;
    let mut balances: Vec<DeepSeekBalance> = Vec::new();
    let mut i: usize = 0;
    while i < reply.balance_infos.len()
        invariant
            i <= infos.len(),
            status == 200,
            payload == Some(*reply),
            infos == reply.balance_infos@,
            balances@.len() == i,
            amounts_are_decimal(infos.take(i as int)),
            forall|k: int| 0 <= k < i ==> balance_matches(#[trigger] balances@[k], infos[k]),
        decreases infos.len() - i,
    {
        let info = &reply.balance_infos[i];
        if !is_decimal_string(info.total_balance.as_str()) || !is_decimal_string(
            info.granted_balance.as_str(),
        ) || !is_decimal_string(info.topped_up_balance.as_str()) {
            proof {
                assert(!amounts_are_decimal(infos));
            }
            return Err(
                ProviderError::new(
                    ProviderErrorCategory::InvalidResponse,
                    "DeepSeek 返回了无效的余额金额。",
                ),
            );
        }
        balances.push(
            DeepSeekBalance {
                currency: lit(info.currency.as_str()),
                total_balance: info.total_balance.clone(),
                granted_balance: info.granted_balance.clone(),
                topped_up_balance: info.topped_up_balance.clone(),
            },
        );
        proof {
            assert forall|k: int| 0 <= k < i + 1 implies {
                &&& is_decimal_spec((#[trigger] infos.take(i + 1)[k]).total_balance@)
                &&& is_decimal_spec(infos.take(i + 1)[k].granted_balance@)
                &&& is_decimal_spec(infos.take(i + 1)[k].topped_up_balance@)
            } by {
                if k < i {
                    assert(infos.take(i + 1)[k] == infos.take(i as int)[k]);
                }
            }
        }
        i += 1;
    }
    proof {
        assert(infos.take(infos.len() as int) =~= infos);
    }
    Ok(
        ProviderSnapshot::DeepSeek(
            DeepSeekSnapshot {
                id: captured_at.clone(),
                captured_at,
                is_available: reply.is_available,
                balances,
            },
        ),
    )
}

} // verus!
