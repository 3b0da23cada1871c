//! Billing vocabulary: account states, currencies, cycles, usage kinds,
//! invoice states and payment methods. Amounts of money are kept outside
//! the library.
use vstd::prelude::*;
use crate::text::{decimal, push_char, u64_to_string};

verus! {

/// Billing account status.
#[derive(Debug, Clone, Copy, PartialEq, Eq, Structural)]
pub enum AccountStatus {
    Active,
    Suspended,
    Overdue,
    Closed,
}

/// Currency code (ISO 4217).
#[derive(Debug, Clone, PartialEq, Eq)]
pub enum Currency {
    USD,
    EUR,
    GBP,
    JPY,
    CNY,
    Custom(String),
}

impl Currency {
    /// The currency's symbol (none for a custom currency).
    pub open spec fn spec_symbol(&self) -> Seq<char> {
        match self {
            Currency::USD => "$"@,
            Currency::EUR => "€"@,
            Currency::GBP => "£"@,
            Currency::JPY => "¥"@,
            Currency::CNY => "¥"@,
            Currency::Custom(_) => ""@,
        }
    }

    /// The currency's symbol.
    pub fn symbol(&self) -> (r: &'static str)
        ensures
            r@ == self.spec_symbol(),
    {
        match self {
            Currency::USD => "$",
            Currency::EUR => "€",
            Currency::GBP => "£",
            Currency::JPY => "¥",
            Currency::CNY => "¥",
            Currency::Custom(_) => "",
        }
    }
}

/// Billing cycle frequency.
#[derive(Debug, Clone, Copy, PartialEq, Eq, Structural)]
pub enum BillingCycle {
    Monthly,
    Quarterly,
    Yearly,
    PayAsYouGo,
}

/// Usage type for billing.
#[derive(Debug, Clone, PartialEq, Eq, Hash)]
pub enum UsageType {
    InboundMinutes,
    OutboundMinutes,
    InternalMinutes,
    TollFreeMinutes,
    InternationalMinutes,
    SmsOutbound,
    SmsInbound,
    StorageGB,
    Recording,
    Conference,
    Custom(String),
}

/// Invoice status.
#[derive(Debug, Clone, Copy, PartialEq, Eq, Structural)]
pub enum InvoiceStatus {
    Draft,
    Issued,
    Paid,
    Overdue,
    Cancelled,
    Refunded,
}

/// Payment method.
#[derive(Debug, Clone)]
pub enum PaymentMethod {
    CreditCard { last4: String, brand: String },
    BankTransfer { account_number: String },
    PayPal { email: String },
    Other(String),
}


/// `s` preceded by as many `0` as bring it to `width` characters.
pub open spec fn zero_padded(s: Seq<char>, width: nat) -> Seq<char> {
    if s.len() >= width {
        s
    } else {
        Seq::new((width - s.len()) as nat, |i: int| '0') + s
    }
}

/// The number of the `n`-th invoice: `INV-` and `n` in at least eight
/// digits, with leading zeros.
pub fn invoice_number(n: u64) -> (r: String)
    ensures
        r@ == "INV-"@ + zero_padded(decimal(n as nat), 8),
{
    let digits = u64_to_string(n);
    let mut r = String::from_str("INV-");
    proof {
        reveal_strlit("INV-");
    }
    let ghost d = digits@;
    let len = digits.as_str().unicode_len();
    let mut k: usize = len;
    while k < 8
        invariant
            len == d.len(),
            len <= k <= 8 || (len > 8 && k == len),
            r@ == "INV-"@ + Seq::new((k - len) as nat, |i: int| '0'),
        decreases 8 - k,
    {
        push_char(&mut r, '0');
        assert(Seq::new((k + 1 - len) as nat, |i: int| '0') =~= Seq::new((k - len) as nat, |i: int| '0').push('0'));
        k = k + 1;
    }
    r.append(digits.as_str());
    proof {
        if d.len() >= 8 {
            assert(Seq::new((k - len) as nat, |i: int| '0') =~= Seq::<char>::empty());
            assert(r@ =~= "INV-"@ + d);
        } else {
            assert(r@ =~= "INV-"@ + (Seq::new((8 - d.len()) as nat, |i: int| '0') + d));
        }
    }
    r
}


} // verus!
