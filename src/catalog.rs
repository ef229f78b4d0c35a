//! Products, services and their packaging.
use crate::commodity::Amount;
use vstd::prelude::*;

verus! {

pub struct ProductCategory {}

pub struct Product {}

/// A unit of measure, such as a UN/CEFACT code.
#[derive(Clone, Debug)]
pub struct UnitCode(pub String);

#[derive(Clone, Copy, Debug, PartialEq, Eq, Structural)]
pub enum UnitPackageKind {
    Each,
    Carton,
    Crate,
    Pallet,
    Container,
}

/// A count of packages of one kind.
pub struct UnitPackage {
    pub kind: UnitPackageKind,
    pub quantity: u64,
}

pub enum BulkPackageKind {
    Length(UnitCode),
    Weight(UnitCode),
    Volume(UnitCode),
}

/// A measured quantity of bulk goods.
pub struct BulkPackage {
    pub kind: BulkPackageKind,
    pub quantity: Amount,
}

pub struct PackageHierarchy {}

pub struct Service {}

pub struct RateCard {}

} // verus!
