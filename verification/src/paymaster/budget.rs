//! `paymaster budget`: the unit, amount and reason of a budget change.

use vstd::prelude::*;
use crate::text::{str_eq, unicode_uppercase, uppercase, ascii_upper, is_ascii_text};

verus! {

/// The unit a budget is kept in.
#[derive(Clone, Copy, PartialEq, Eq, Structural, Debug)]
pub enum FeeUnit {
    /// Credits: hundredths of a US dollar.
    Credit,
    /// STRK tokens.
    Strk,
}

/// Why an administrator changes a budget.
#[derive(Clone, Copy, PartialEq, Eq, Structural, Debug)]
pub enum BudgetReason {
    Advance,
    Settlement,
    Refund,
    Promotion,
    Correction,
}

/// The options of `paymaster budget increase`.
#[derive(Debug)]
pub struct IncreaseBudgetArgs {
    pub amount: u64,
    pub unit: String,
    pub admin: bool,
    pub reason: Option<String>,
}

/// The options of `paymaster budget decrease`.
#[derive(Debug)]
pub struct DecreaseBudgetArgs {
    pub amount: u64,
    pub unit: String,
    pub admin: bool,
    pub reason: Option<String>,
}

/// The two budget operations.
#[derive(Debug)]
pub enum BudgetSubcommand {
    Increase(IncreaseBudgetArgs),
    Decrease(DecreaseBudgetArgs),
}

/// The options of `paymaster budget`.
#[derive(Debug)]
pub struct BudgetCmd {
    pub command: BudgetSubcommand,
}

/// The unit and the amount sent for a requested amount in a unit, by the
/// upper-cased unit name: dollars are sent as credits, a hundred to the
/// dollar; `None` for an unknown unit.
pub open spec fn budget_unit_amount(unit: Seq<char>, amount: u64) -> Option<(FeeUnit, i64)> {
    let upper = unicode_uppercase(unit);
    if upper == "USD"@ {
        Some((FeeUnit::Credit, (amount * 100) as i64))
    } else if upper == "STRK"@ {
        Some((FeeUnit::Strk, amount as i64))
    } else {
        None
    }
}

/// The amount in dollars would not fit in 64 bits as credits, where the
/// command's multiplication panics.
pub open spec fn credit_overflow(unit: Seq<char>, amount: u64) -> bool {
    unicode_uppercase(unit) == "USD"@ && amount * 100 > u64::MAX
}

/// The name a budget change gives a unit in: credits are asked for in US
/// dollars.
pub open spec fn budget_unit_text(u: FeeUnit) -> Seq<char> {
    match u {
        FeeUnit::Credit => "USD"@,
        FeeUnit::Strk => "STRK"@,
    }
}

/// An upper-cased unit text reads as a budget unit exactly where it is that
/// unit's name, and the amount sent is the amount asked for, in credits for
/// dollars: a hundred credits to the dollar.
pub proof fn budget_units_read_back(upper: Seq<char>, u: FeeUnit, unit: Seq<char>, amount: u64)
    ensures
        budget_unit_named(upper) == Some(u) <==> upper == budget_unit_text(u),
        budget_unit_amount(unit, amount) matches Some((FeeUnit::Credit, x)) ==> (amount * 100 <= i64::MAX ==> x == amount * 100),
        budget_unit_amount(unit, amount) matches Some((FeeUnit::Strk, x)) ==> (amount <= i64::MAX ==> x == amount),
        budget_unit_amount(unit, amount) matches Some((v, _)) ==> budget_unit_named(unicode_uppercase(unit)) == Some(v),
{
    reveal_strlit("USD");
    reveal_strlit("STRK");
    assert("USD"@.len() != "STRK"@.len());
}

/// The error for an unknown unit.
pub open spec fn invalid_unit_message(unit: Seq<char>) -> Seq<char> {
    "Invalid unit: "@ + unit + ". Supported units: USD, STRK"@
}

/// The unit an upper-cased unit name stands for in a budget change.
pub open spec fn budget_unit_named(upper: Seq<char>) -> Option<FeeUnit> {
    if upper == "USD"@ {
        Some(FeeUnit::Credit)
    } else if upper == "STRK"@ {
        Some(FeeUnit::Strk)
    } else {
        None
    }
}

/// The unit an upper-cased unit name stands for: `USD` is kept as credits.
pub fn budget_unit_of(upper: &str) -> (r: Option<FeeUnit>)
    ensures
        r == budget_unit_named(upper@),
{
    if str_eq(upper, "USD") {
        Some(FeeUnit::Credit)
    } else if str_eq(upper, "STRK") {
        Some(FeeUnit::Strk)
    } else {
        None
    }
}

/// Converts a requested amount to the unit and amount the API takes.
pub fn unit_and_amount(unit: &str, amount: u64) -> (r: Result<(FeeUnit, i64), String>)
    requires
        !credit_overflow(unit@, amount),
    ensures
        match budget_unit_amount(unit@, amount) {
            Some(p) => r == Ok::<(FeeUnit, i64), String>(p),
            None => r matches Err(m) && m@ == invalid_unit_message(unit@),
        },
        is_ascii_text(unit@) ==> unicode_uppercase(unit@) == ascii_upper(unit@),
{
    let upper = uppercase(unit);
    match budget_unit_of(upper.as_str()) {
        Some(FeeUnit::Credit) => {
            let credits = amount * 100;
            Ok((FeeUnit::Credit, credits as i64))
        },
        Some(FeeUnit::Strk) => Ok((FeeUnit::Strk, amount as i64)),
        None => Err(String::from_str("Invalid unit: ").concat(unit).concat(". Supported units: USD, STRK")),
    }
}

/// [`unit_and_amount`] on every input: `None` exactly where the dollar
/// amount does not fit in 64 bits as credits.
pub fn try_unit_and_amount(unit: &str, amount: u64) -> (r: Option<Result<(FeeUnit, i64), String>>)
    ensures
        r is None <==> credit_overflow(unit@, amount),
        r matches Some(o) ==> match budget_unit_amount(unit@, amount) {
            Some(p) => o == Ok::<(FeeUnit, i64), String>(p),
            None => o matches Err(m) && m@ == invalid_unit_message(unit@),
        },
{
    let upper = uppercase(unit);
    if str_eq(upper.as_str(), "USD") && amount > 184467440737095516 {
        None
    } else {
        Some(unit_and_amount(unit, amount))
    }
}

/// The reason named by an upper-cased reason text.
pub open spec fn reason_named(upper: Seq<char>) -> Option<BudgetReason> {
    if upper == "ADVANCE"@ {
        Some(BudgetReason::Advance)
    } else if upper == "SETTLEMENT"@ {
        Some(BudgetReason::Settlement)
    } else if upper == "REFUND"@ {
        Some(BudgetReason::Refund)
    } else if upper == "PROMOTION"@ {
        Some(BudgetReason::Promotion)
    } else if upper == "CORRECTION"@ {
        Some(BudgetReason::Correction)
    } else {
        None
    }
}

/// The name of the value of the API's budget-reason enumeration that a
/// reason is sent as.
pub open spec fn reason_api_name(r: BudgetReason) -> Seq<char> {
    match r {
        BudgetReason::Advance => "ADVANCE"@,
        BudgetReason::Settlement => "SETTLEMENT"@,
        BudgetReason::Refund => "REFUND"@,
        BudgetReason::Promotion => "PROMOTION"@,
        BudgetReason::Correction => "CORRECTION"@,
    }
}

/// An upper-cased reason text reads as a reason exactly where it is that
/// reason's API name: each name gives its own reason, and no two names give
/// the same one.
pub proof fn reason_names_read_back(upper: Seq<char>, r: BudgetReason)
    ensures
        reason_named(upper) == Some(r) <==> upper == reason_api_name(r),
{
    reveal_strlit("ADVANCE");
    reveal_strlit("SETTLEMENT");
    reveal_strlit("REFUND");
    reveal_strlit("PROMOTION");
    reveal_strlit("CORRECTION");
    assert("CORRECTION"@[0] != "SETTLEMENT"@[0]);
    let names = seq!["ADVANCE"@, "SETTLEMENT"@, "REFUND"@, "PROMOTION"@, "CORRECTION"@];
    assert(names[0].len() == 7 && names[1].len() == 10 && names[2].len() == 6 && names[3].len() == 9 && names[4].len() == 10);
    assert(names[1] != names[4]) by {
        assert(names[1][0] != names[4][0]);
    }
    match r {
        BudgetReason::Advance => {},
        BudgetReason::Settlement => {},
        BudgetReason::Refund => {},
        BudgetReason::Promotion => {},
        BudgetReason::Correction => {},
    }
}

/// The error for an unknown reason.
pub open spec fn invalid_reason_message(reason: Seq<char>) -> Seq<char> {
    "Invalid reason: "@ + reason + ". Supported reasons: ADVANCE, SETTLEMENT, REFUND, PROMOTION, CORRECTION"@
}

/// The reason an upper-cased reason text names.
pub fn reason_of(upper: &str) -> (r: Option<BudgetReason>)
    ensures
        r == reason_named(upper@),
{
    if str_eq(upper, "ADVANCE") {
        Some(BudgetReason::Advance)
    } else if str_eq(upper, "SETTLEMENT") {
        Some(BudgetReason::Settlement)
    } else if str_eq(upper, "REFUND") {
        Some(BudgetReason::Refund)
    } else if str_eq(upper, "PROMOTION") {
        Some(BudgetReason::Promotion)
    } else if str_eq(upper, "CORRECTION") {
        Some(BudgetReason::Correction)
    } else {
        None
    }
}

/// Reads the optional reason of a budget change, in any letter case.
pub fn parse_reason(reason: &Option<String>) -> (r: Result<Option<BudgetReason>, String>)
    ensures
        match reason {
            None => r == Ok::<Option<BudgetReason>, String>(None),
            Some(t) => match reason_named(unicode_uppercase(t@)) {
                Some(b) => r == Ok::<Option<BudgetReason>, String>(Some(b)),
                None => r matches Err(m) && m@ == invalid_reason_message(t@),
            },
        },
        reason matches Some(t) ==> (is_ascii_text(t@) ==> unicode_uppercase(t@) == ascii_upper(t@)),
{
    match reason {
        None => Ok(None),
        Some(t) => {
            let upper = uppercase(t.as_str());
            match reason_of(upper.as_str()) {
                Some(b) => Ok(Some(b)),
                None => Err(String::from_str("Invalid reason: ").concat(t.as_str()).concat(
                    ". Supported reasons: ADVANCE, SETTLEMENT, REFUND, PROMOTION, CORRECTION",
                )),
            }
        },
    }
}

/// What a budget change sends: the paymaster, whether the budget grows, the
/// amount and unit, whether an administrator acts, and the reason.
#[derive(Debug)]
pub struct BudgetRequest {
    pub paymaster_name: String,
    pub increase: bool,
    pub amount: i64,
    pub unit: FeeUnit,
    pub admin: bool,
    pub reason: Option<BudgetReason>,
}

/// The request a budget change makes, or the first error of its options:
/// the unit is checked before the reason.
pub open spec fn budget_request(
    name: Seq<char>,
    increase: bool,
    amount: u64,
    unit: Seq<char>,
    admin: bool,
    reason: Option<String>,
    r: Result<BudgetRequest, String>,
) -> bool {
    match budget_unit_amount(unit, amount) {
        None => r matches Err(m) && m@ == invalid_unit_message(unit),
        Some((u, a)) => match reason {
            Some(t) if reason_named(unicode_uppercase(t@)) is None =>
                r matches Err(m) && m@ == invalid_reason_message(t@),
            _ => r matches Ok(q) && q.paymaster_name@ == name && q.increase == increase
                && q.amount == a && q.unit == u && q.admin == admin
                && q.reason == match reason {
                    Some(t) => reason_named(unicode_uppercase(t@)),
                    None => None,
                },
        },
    }
}

impl BudgetCmd {
    /// The amount a change asks for and its unit name.
    pub open spec fn spec_amount_unit(&self) -> (u64, Seq<char>) {
        match self.command {
            BudgetSubcommand::Increase(a) => (a.amount, a.unit@),
            BudgetSubcommand::Decrease(a) => (a.amount, a.unit@),
        }
    }

    /// Builds the request of `paymaster <name> budget increase|decrease`.
    pub fn request(&self, name: &str) -> (r: Result<BudgetRequest, String>)
        requires
            !credit_overflow(self.spec_amount_unit().1, self.spec_amount_unit().0),
        ensures
            match self.command {
                BudgetSubcommand::Increase(a) => budget_request(name@, true, a.amount, a.unit@, a.admin, a.reason, r),
                BudgetSubcommand::Decrease(a) => budget_request(name@, false, a.amount, a.unit@, a.admin, a.reason, r),
            },
            is_ascii_text(self.spec_amount_unit().1) ==> unicode_uppercase(self.spec_amount_unit().1) == ascii_upper(
                self.spec_amount_unit().1,
            ),
    {
        let (increase, amount, unit, admin, reason) = match &self.command {
            BudgetSubcommand::Increase(a) => (true, a.amount, &a.unit, a.admin, &a.reason),
            BudgetSubcommand::Decrease(a) => (false, a.amount, &a.unit, a.admin, &a.reason),
        };
        let (fee_unit, sent) = match unit_and_amount(unit.as_str(), amount) {
            Ok(p) => p,
            Err(m) => return Err(m),
        };
        let why = match parse_reason(reason) {
            Ok(w) => w,
            Err(m) => return Err(m),
        };
        Ok(BudgetRequest {
            paymaster_name: String::from_str(name),
            increase,
            amount: sent,
            unit: fee_unit,
            admin,
            reason: why,
        })
    }

    /// [`Self::request`] on every input: `None` exactly where the dollar
    /// amount does not fit in 64 bits as credits.
    pub fn try_request(&self, name: &str) -> (r: Option<Result<BudgetRequest, String>>)
        ensures
            r is None <==> credit_overflow(self.spec_amount_unit().1, self.spec_amount_unit().0),
            r matches Some(o) ==> match self.command {
                BudgetSubcommand::Increase(a) => budget_request(name@, true, a.amount, a.unit@, a.admin, a.reason, o),
                BudgetSubcommand::Decrease(a) => budget_request(name@, false, a.amount, a.unit@, a.admin, a.reason, o),
            },
    {
        let (amount, unit) = match &self.command {
            BudgetSubcommand::Increase(a) => (a.amount, &a.unit),
            BudgetSubcommand::Decrease(a) => (a.amount, &a.unit),
        };
        let upper = uppercase(unit.as_str());
        if str_eq(upper.as_str(), "USD") && amount > 184467440737095516 {
            None
        } else {
            Some(self.request(name))
        }
    }
}

} // verus!
