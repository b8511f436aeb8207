//! `paymaster info`: the parts of the report that are whole numbers and
//! labels.

use vstd::prelude::*;

verus! {

/// The options of `paymaster info` (none).
#[derive(Debug)]
pub struct InfoArgs {}

/// The unit a paymaster's budget is reported in.
#[derive(Clone, Copy, PartialEq, Eq, Structural, Debug)]
pub enum BudgetFeeUnit {
    Credit,
    Strk,
    /// A unit this tool does not know.
    Other,
}

/// The label of the budget unit: credits are shown as dollars.
pub open spec fn unit_label(u: BudgetFeeUnit) -> Seq<char> {
    match u {
        BudgetFeeUnit::Credit => "USD"@,
        BudgetFeeUnit::Strk => "STRK"@,
        BudgetFeeUnit::Other => "UNKNOWN"@,
    }
}

/// The report labels a known unit by the name a budget change is given in,
/// and a budget change in the labelled unit is read as that unit: the
/// labels and the budget options agree.
pub proof fn unit_labels_match_budget_units(u: super::budget::FeeUnit)
    ensures
        unit_label(match u {
            super::budget::FeeUnit::Credit => BudgetFeeUnit::Credit,
            super::budget::FeeUnit::Strk => BudgetFeeUnit::Strk,
        }) == super::budget::budget_unit_text(u),
        super::budget::budget_unit_named(unit_label(match u {
            super::budget::FeeUnit::Credit => BudgetFeeUnit::Credit,
            super::budget::FeeUnit::Strk => BudgetFeeUnit::Strk,
        })) == Some(u),
{
    super::budget::budget_units_read_back(super::budget::budget_unit_text(u), u, seq![], 0);
}

/// The label of a budget unit, as the report prints it.
pub fn budget_unit_label(u: BudgetFeeUnit) -> (r: &'static str)
    ensures
        r@ == unit_label(u),
{
    match u {
        BudgetFeeUnit::Credit => "USD",
        BudgetFeeUnit::Strk => "STRK",
        BudgetFeeUnit::Other => "UNKNOWN",
    }
}

/// The transaction counts of a paymaster since its creation.
#[derive(Clone, Copy, PartialEq, Eq, Structural, Debug)]
pub struct LifetimeTransactions {
    pub total: i64,
    pub successful: i64,
    pub reverted: i64,
}

/// Adds the counts kept before the self-service migration to the current
/// ones: successful and reverted transactions, and their total.
pub fn lifetime_transactions(successful: i64, legacy_successful: i64, reverted: i64, legacy_reverted: i64) -> (r: LifetimeTransactions)
    requires
        i64::MIN <= successful + legacy_successful <= i64::MAX,
        i64::MIN <= reverted + legacy_reverted <= i64::MAX,
        i64::MIN <= successful + legacy_successful + reverted + legacy_reverted <= i64::MAX,
    ensures
        r.successful == successful + legacy_successful,
        r.reverted == reverted + legacy_reverted,
        r.total == r.successful + r.reverted,
{
    let s = successful + legacy_successful;
    let v = reverted + legacy_reverted;
    LifetimeTransactions { total: s + v, successful: s, reverted: v }
}

/// Whether the report has an outstanding balance section: some fee was
/// spent before the self-service migration.
pub fn has_outstanding_balance(legacy_strk_fees: i64, legacy_eth_fees: i64) -> (r: bool)
    ensures
        r == (legacy_strk_fees > 0 || legacy_eth_fees > 0),
{
    legacy_strk_fees > 0 || legacy_eth_fees > 0
}

} // verus!
