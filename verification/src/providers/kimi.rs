//! The Kimi (China) balance reply: amounts kept as the exact number text the service sent.
use crate::models::{KimiRegion, KimiSnapshot, ProviderErrorCategory, ProviderSnapshot};
use crate::providers::{invalid_response_error, status_error, ProviderError};
use crate::text::{chars_of, lit};
use vstd::prelude::*;

verus! {

broadcast use vstd::string::group_string_axioms;

/// The balances of a Kimi reply, each the exact text of a JSON number.
#[derive(Debug)]
pub struct BalanceData {
    pub available_balance: String,
    pub voucher_balance: String,
    pub cash_balance: String,
}

/// The balance reply of the Kimi service.
#[derive(Debug)]
pub struct BalanceResponse {
    pub code: i64,
    pub data: BalanceData,
    pub scode: String,
    pub status: bool,
}

/// The index of the first exponent mark (`e` or `E`) at or after `i`, or the end.
pub open spec fn exponent_from(s: Seq<char>, i: int) -> int
    decreases s.len() - i,
{
    if i < 0 || i >= s.len() {
        s.len() as int
    } else if s[i] == 'e' || s[i] == 'E' {
        i
    } else {
        exponent_from(s, i + 1)
    }
}

/// Whether a JSON number text is not below zero: it has no minus sign, or its
/// mantissa has no digit but zeros.
pub open spec fn number_is_non_negative_spec(representation: Seq<char>) -> bool {
    if representation.len() == 0 || representation[0] != '-' {
        true
    } else {
        let magnitude = representation.skip(1);
        forall|i: int|
            0 <= i < exponent_from(magnitude, 0) ==> #[trigger] magnitude[i] == '.' || magnitude[i]
                == '0'
    }
}

pub fn number_is_non_negative(representation: &str) -> (r: bool)
    ensures
        r == number_is_non_negative_spec(representation@),
{
    let chars = chars_of(representation);
    if chars.len() == 0 || chars[0] != '-' {
        return true;
    }
    let ghost magnitude = representation@.skip(1);
    let mut i: usize = 1;
    while i < chars.len() && chars[i] != 'e' && chars[i] != 'E'
        invariant
            1 <= i <= chars@.len(),
            chars@ == representation@,
            representation@.len() > 0 && representation@[0] == '-',
            magnitude == representation@.skip(1),
            exponent_from(magnitude, 0) == exponent_from(magnitude, i - 1),
            forall|k: int| 0 <= k < i - 1 ==> #[trigger] magnitude[k] == '.' || magnitude[k] == '0',
        decreases chars.len() - i,
    {
        if chars[i] != '.' && chars[i] != '0' {
            proof {
                lemma_exponent_after(magnitude, 0, i - 1);
                assert(magnitude[i - 1] == chars@[i as int]);
                assert(!(magnitude[i - 1] == '.' || magnitude[i - 1] == '0'));
            }
            return false;
        }
        i += 1;
    }
    true
}

proof fn lemma_exponent_after(s: Seq<char>, from: int, k: int)
    requires
        0 <= from <= k < s.len(),
        exponent_from(s, from) == exponent_from(s, k),
        s[k] != 'e' && s[k] != 'E',
    ensures
        k < exponent_from(s, from),
    decreases s.len() - k,
{
    assert(exponent_from(s, k) == exponent_from(s, k + 1));
    lemma_exponent_bounds(s, k + 1);
}

proof fn lemma_exponent_bounds(s: Seq<char>, i: int)
    requires
        0 <= i <= s.len(),
    ensures
        i <= exponent_from(s, i) <= s.len(),
    decreases s.len() - i,
{
    if i < s.len() && !(s[i] == 'e' || s[i] == 'E') {
        lemma_exponent_bounds(s, i + 1);
    }
}

proof fn lemma_exponent_beyond(s: Seq<char>, i: int, k: int)
    requires
        0 <= i <= k < s.len(),
        forall|j: int| i <= j <= k ==> #[trigger] s[j] != 'e' && s[j] != 'E',
    ensures
        k < exponent_from(s, i),
    decreases k - i,
{
    if i < k {
        lemma_exponent_beyond(s, i + 1, k);
    } else {
        lemma_exponent_bounds(s, i + 1);
    }
}

/// A number text with a minus sign whose mantissa (before any exponent mark)
/// holds a digit other than zero is below zero, and a successful Kimi reply
/// whose voucher balance is such a number is refused as a negative voucher.
pub proof fn lemma_negative_voucher_is_refused(
    voucher: Seq<char>,
    k: int,
    r: Result<ProviderSnapshot, ProviderError>,
    p: BalanceResponse,
    captured_at: Seq<char>,
)
    requires
        voucher.len() > 0,
        voucher[0] == '-',
        1 <= k < voucher.len(),
        '1' <= voucher[k] <= '9',
        forall|j: int| 1 <= j < k ==> #[trigger] voucher[j] != 'e' && voucher[j] != 'E',
    ensures
        !number_is_non_negative_spec(voucher),
        p.code == 0 && p.status && p.scode@.len() > 0 && p.data.voucher_balance@ == voucher && kimi_reading(
            r,
            200,
            Some(p),
            captured_at,
        ) ==> (r matches Err(e) && e.parts() == (
            ProviderErrorCategory::InvalidResponse,
            "Kimi 返回了无效的负数代金券余额。"@,
        )),
{
    let magnitude = voucher.skip(1);
    assert forall|j: int| 0 <= j <= k - 1 implies #[trigger] magnitude[j] != 'e' && magnitude[j] != 'E' by {
        assert(magnitude[j] == voucher[j + 1]);
    }
    lemma_exponent_beyond(magnitude, 0, k - 1);
    assert(magnitude[k - 1] == voucher[k]);
    assert(!(magnitude[k - 1] == '.' || magnitude[k - 1] == '0'));
}

/// Whether `r` is what a Kimi reply with HTTP `status` and `payload` (none when
/// the body is not a balance reply) reads as, captured at `captured_at`.
pub open spec fn kimi_reading(
    r: Result<ProviderSnapshot, ProviderError>,
    status: u16,
    payload: Option<BalanceResponse>,
    captured_at: Seq<char>,
) -> bool {
    if status != 200 {
        r matches Err(e) && e.parts() == status_error(status)
    } else {
        match payload {
            None => r matches Err(e) && e.parts() == invalid_response_error(),
            Some(p) => if p.code != 0 || !p.status {
                r matches Err(e) && e.parts() == (
                    ProviderErrorCategory::InvalidResponse,
                    "Kimi 余额服务返回了失败状态。"@,
                )
            } else if p.scode@.len() == 0 {
                r matches Err(e) && e.parts() == invalid_response_error()
            } else if !number_is_non_negative_spec(p.data.voucher_balance@) {
                r matches Err(e) && e.parts() == (
                    ProviderErrorCategory::InvalidResponse,
                    "Kimi 返回了无效的负数代金券余额。"@,
                )
            } else {
                r matches Ok(ProviderSnapshot::Kimi(s)) && {
                    &&& s.id@ == captured_at
                    &&& s.captured_at@ == captured_at
                    &&& s.region == KimiRegion::China
                    &&& s.currency@ == "CNY"@
                    &&& s.available_balance@ == p.data.available_balance@
                    &&& s.cash_balance@ == p.data.cash_balance@
                    &&& s.voucher_balance@ == p.data.voucher_balance@
                }
            },
        }
    }
}

/// Reads a Kimi balance reply.
pub fn parse_response(status: u16, payload: Option<BalanceResponse>, captured_at: String) -> (r:
    Result<ProviderSnapshot, ProviderError>)
    ensures
        kimi_reading(r, status, payload, captured_at@),
{
    if status != 200 {
        return Err(ProviderError::from_status(status));
    }
    let payload = match payload {
        Some(payload) => payload,
        None => return Err(ProviderError::invalid_response()),
    };
    if payload.code != 0 || !payload.status {
        return Err(
            ProviderError::new(ProviderErrorCategory::InvalidResponse, "Kimi 余额服务返回了失败状态。"),
        );
    }
    if payload.scode.as_str().unicode_len() == 0 {
        return Err(ProviderError::invalid_response());
    }
    if !number_is_non_negative(payload.data.voucher_balance.as_str()) {
        return Err(
            ProviderError::new(
                ProviderErrorCategory::InvalidResponse,
                "Kimi 返回了无效的负数代金券余额。",
            ),
        );
    }
    Ok(
        ProviderSnapshot::Kimi(
            KimiSnapshot {
                id: captured_at.clone(),
                captured_at,
                region: KimiRegion::China,
                currency: lit("CNY"),
                available_balance: payload.data.available_balance,
                cash_balance: payload.data.cash_balance,
                voucher_balance: payload.data.voucher_balance,
            },
        ),
    )
}

} // verus!
