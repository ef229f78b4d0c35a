//! Accounts: where splits are posted.
use crate::commodity::{Amount, CommodityId, Quantity};
use crate::party::PartyId;
use crate::time::Timestamp;
use vstd::prelude::*;

verus! {

/// An account's identifier, fixed when the account is created.
#[derive(Clone, Debug)]
pub struct AccountId(pub String);

/// The five kinds of account, with the common refinements of the first two.
#[derive(Clone, Copy, Debug, PartialEq, Eq, Structural)]
pub enum AccountKind {
    Asset,
    AccountsReceivable,
    Bank,
    Equity,
    Liability,
    AccountsPayable,
    Credit,
    Income,
    Expense,
}

impl AccountKind {
    /// The top-level kind that a refinement belongs to.
    pub fn base(self) -> (r: AccountKind)
        ensures
            r == match self {
                AccountKind::AccountsReceivable | AccountKind::Bank => AccountKind::Asset,
                AccountKind::AccountsPayable | AccountKind::Credit => AccountKind::Liability,
                k => k,
            },
    {
        match self {
            AccountKind::AccountsReceivable | AccountKind::Bank => AccountKind::Asset,
            AccountKind::AccountsPayable | AccountKind::Credit => AccountKind::Liability,
            k => k,
        }
    }
}

/// An account of a ledger. `commodity` is the unit of its balance; `parent_id`, if any,
/// names another account of the same ledger.
#[derive(Clone, Debug)]
pub struct Account {
    pub id: AccountId,
    pub created: Timestamp,
    pub is_active: bool,
    pub parent_id: Option<String>,
    pub kind: AccountKind,
    pub commodity: CommodityId,
    pub description: String,
    pub is_recording: bool,
}

impl Account {
    /// A new active, recording root account, created now.
    pub fn new(id: String, kind: AccountKind, commodity: CommodityId, description: String) -> (r: Account)
        ensures
            r.id.0@ == id@,
            r.kind == kind,
            r.commodity@ == commodity@,
            r.description@ == description@,
            r.parent_id is None,
            r.is_active,
            r.is_recording,
    {
        Account {
            id: AccountId(id),
            created: Timestamp::now(),
            is_active: true,
            parent_id: None,
            kind,
            commodity,
            description,
            is_recording: true,
        }
    }
}

/// What an account stands for in the world.
#[derive(Clone, Copy, Debug, PartialEq, Eq, Structural)]
pub enum AccountRepresents {
    BankAccount,
    BrokerageAccount,
    CreditCard,
    Customer,
    Equipment,
    Loan,
    Supplier,
    Salary,
    Tax,
    UtilityService,
}

#[derive(Clone, Debug)]
pub struct BankAccount {
    pub institution: PartyId,
    pub account_number: String,
    pub interest_apr: Option<Amount>,
}

#[derive(Clone, Debug)]
pub struct BrokerageAccount {
    pub institution: PartyId,
    pub account_number: String,
}

#[derive(Clone, Debug)]
pub struct CreditCard {
    pub institution: PartyId,
    pub account_number: String,
    pub close_month: u8,
    pub close_day: u8,
    pub interest_apr: Amount,
    pub annual_fee: Quantity,
}

#[derive(Clone, Debug)]
pub struct Customer {
    pub party: PartyId,
}

#[derive(Clone, Debug)]
pub struct Equipment {}

#[derive(Clone, Debug)]
pub struct Loan {
    pub institution: PartyId,
    pub account_number: String,
    pub interest_apr: Option<Amount>,
    pub term_in_months: u8,
}

#[derive(Clone, Debug)]
pub struct Supplier {
    pub party: PartyId,
}

#[derive(Clone, Debug)]
pub struct Salary {}

#[derive(Clone, Debug)]
pub struct Tax {}

#[derive(Clone, Debug)]
pub struct UtilityService {
    pub provider: PartyId,
    pub account_number: String,
}

} // verus!
