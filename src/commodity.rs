//! Commodities (currencies and securities) and exact quantities of them.
use vstd::prelude::*;

verus! {

/// Whether `code` is an alphabetic code of the ISO 4217 currency list.
pub uninterp spec fn iso_4217_listed(code: Seq<char>) -> bool;

/// Relies on `<codes_iso_4217::CurrencyCode as FromStr>::from_str`, which accepts exactly the
/// alphabetic codes of its list, each of three characters.
#[verifier::external_body]
fn currency_code_listed(code: &str) -> (r: bool)
    ensures
        r == iso_4217_listed(code@),
        r ==> code@.len() == 3,
{
    <codes_iso_4217::CurrencyCode as std::str::FromStr>::from_str(code).is_ok()
}

/// An ISO 4217 alphabetic currency code, such as `USD`.
#[derive(Clone, Debug)]
pub struct CurrencyCode {
    code: String,
}

impl CurrencyCode {
    pub closed spec fn view(&self) -> Seq<char> {
        self.code@
    }

    /// Whether this value holds a listed code.
    pub open spec fn wf(&self) -> bool {
        iso_4217_listed(self@)
    }

    /// Accepts `code` exactly when it is listed in ISO 4217.
    pub fn parse(code: &str) -> (r: Option<CurrencyCode>)
        ensures
            r is Some <==> iso_4217_listed(code@),
            r matches Some(c) ==> c@ == code@ && c.wf(),
    {
        if currency_code_listed(code) {
            Some(CurrencyCode { code: code.to_string() })
        } else {
            None
        }
    }

    /// The alphabetic code.
    pub fn alpha_code(&self) -> (r: &str)
        ensures
            r@ == self@,
    {
        self.code.as_str()
    }

    /// `XXX`, the code for transactions in which no currency is involved.
    pub fn no_currency() -> (r: CurrencyCode)
        ensures
            r@ == seq!['X', 'X', 'X'],
    {
        let s = "XXX";
        proof {
            reveal_strlit("XXX");
        }
        CurrencyCode { code: s.to_string() }
    }

    /// A copy of this code.
    pub fn copy(&self) -> (r: CurrencyCode)
        ensures
            r@ == self@,
    {
        CurrencyCode { code: self.code.clone() }
    }

    pub fn same_as(&self, other: &CurrencyCode) -> (r: bool)
        ensures
            r == (self@ == other@),
    {
        self.code == other.code
    }
}

/// International Securities Identification Number (ISIN, ISO 6166), such as
/// `US0378331005`.
#[derive(Clone, Debug)]
pub struct InternationalSecuritiesId(pub String);

/// National Securities Identifying Number (NSIN), the nine-character middle part of an ISIN.
#[derive(Clone, Debug)]
pub struct NationalSecuritiesId(pub String);

/// What a commodity identifier stands for, for comparison in contracts.
pub enum CommodityKey {
    Currency(Seq<char>),
    Security(Seq<char>),
}

/// A currency or a security; two identifiers are equal when kind and code are.
#[derive(Clone, Debug)]
pub enum CommodityId {
    Currency(CurrencyCode),
    Security(InternationalSecuritiesId),
}

impl CommodityId {
    /// A copy of this identifier.
    pub fn copy(&self) -> (r: CommodityId)
        ensures
            r@ == self@,
    {
        match self {
            CommodityId::Currency(c) => CommodityId::Currency(c.copy()),
            CommodityId::Security(s) => CommodityId::Security(InternationalSecuritiesId(s.0.clone())),
        }
    }

    pub open spec fn view(&self) -> CommodityKey {
        match self {
            CommodityId::Currency(c) => CommodityKey::Currency(c@),
            CommodityId::Security(s) => CommodityKey::Security(s.0@),
        }
    }

    pub fn same_as(&self, other: &CommodityId) -> (r: bool)
        ensures
            r == (self@ == other@),
    {
        match (self, other) {
            (CommodityId::Currency(a), CommodityId::Currency(b)) => a.same_as(b),
            (CommodityId::Security(a), CommodityId::Security(b)) => a.0 == b.0,
            _ => false,
        }
    }
}

/// The largest number of decimal places an amount may carry.
pub const MAX_SCALE: u32 = 18;

/// `10` to the power `n`.
pub open spec fn pow10(n: nat) -> int
    decreases n,
{
    if n == 0 {
        1
    } else {
        10 * pow10((n - 1) as nat)
    }
}

pub proof fn lemma_pow10_positive(n: nat)
    ensures
        pow10(n) >= 1,
    decreases n,
{
    if n > 0 {
        lemma_pow10_positive((n - 1) as nat);
    }
}

pub proof fn lemma_pow10_adds(a: nat, b: nat)
    ensures
        pow10(a + b) == pow10(a) * pow10(b),
    decreases a,
{
    if a > 0 {
        lemma_pow10_adds((a - 1) as nat, b);
        assert(pow10(a + b) == 10 * pow10((a - 1 + b) as nat));
        assert(10 * (pow10((a - 1) as nat) * pow10(b)) == (10 * pow10((a - 1) as nat)) * pow10(b))
            by (nonlinear_arith);
    }
}

pub proof fn lemma_pow10_monotone(a: nat, b: nat)
    requires
        a <= b,
    ensures
        pow10(a) <= pow10(b),
    decreases b,
{
    if a < b {
        lemma_pow10_monotone(a, (b - 1) as nat);
        lemma_pow10_positive((b - 1) as nat);
    }
}

/// `10^n` as an integer; `n` is at most 36, so that the result fits.
fn pow10_exec(n: u32) -> (r: i128)
    requires
        n <= 36,
    ensures
        r == pow10(n as nat),
{
    let mut r: i128 = 1;
    let mut k: u32 = 0;
    proof {
        reveal_with_fuel(pow10, 37);
        lemma_pow10_monotone(n as nat, 36);
    }
    while k < n
        invariant
            k <= n <= 36,
            r == pow10(k as nat),
            pow10(n as nat) <= pow10(36),
            pow10(36) == 1000000000000000000000000000000000000,
        decreases n - k,
    {
        proof {
            lemma_pow10_monotone((k + 1) as nat, n as nat);
            assert(pow10((k + 1) as nat) == 10 * pow10(k as nat));
            assert(r * 10 <= pow10(36));
            lemma_pow10_positive(k as nat);
        }
        r = r * 10;
        k = k + 1;
    }
    r
}

/// An exact decimal amount: `mantissa / 10^scale`.
#[derive(Clone, Copy, Debug, PartialEq, Eq, Structural)]
pub struct Amount {
    pub mantissa: i64,
    pub scale: u32,
}

impl Amount {
    /// The scale is within the supported range.
    pub open spec fn wf(self) -> bool {
        self.scale <= MAX_SCALE
    }

    /// The amount counted in units of `10^-18`, which is exact for every well-formed amount.
    pub open spec fn fine(self) -> int {
        self.mantissa * pow10((MAX_SCALE - self.scale) as nat)
    }

    /// An amount of `mantissa / 10^scale`, if the scale is supported.
    pub fn new(mantissa: i64, scale: u32) -> (r: Option<Amount>)
        ensures
            r is Some <==> scale <= MAX_SCALE,
            r matches Some(a) ==> a.mantissa == mantissa && a.scale == scale,
    {
        if scale <= MAX_SCALE {
            Some(Amount { mantissa, scale })
        } else {
            None
        }
    }

    /// A whole number of units.
    pub fn units(mantissa: i64) -> (r: Amount)
        ensures
            r.mantissa == mantissa && r.scale == 0 && r.wf(),
    {
        Amount { mantissa, scale: 0 }
    }

    /// The amount in units of `10^-18`.
    pub fn fine_units(self) -> (r: i128)
        requires
            self.wf(),
        ensures
            r == self.fine(),
            -10000000000000000000000000000000000000 < r < 10000000000000000000000000000000000000,
    {
        let p = pow10_exec(MAX_SCALE - self.scale);
        proof {
            reveal_with_fuel(pow10, 19);
            lemma_pow10_positive((MAX_SCALE - self.scale) as nat);
            lemma_pow10_monotone((MAX_SCALE - self.scale) as nat, 18);
            let m = self.mantissa as int;
            let q = p as int;
            assert(-9223372036854775808 <= m <= 9223372036854775807);
            assert(1 <= q <= 1000000000000000000);
            assert(-9223372036854775808 * 1000000000000000000 <= m * q <= 9223372036854775807
                * 1000000000000000000) by (nonlinear_arith)
                requires
                    -9223372036854775808 <= m <= 9223372036854775807,
                    1 <= q <= 1000000000000000000,
            ;
        }
        (self.mantissa as i128) * p
    }
}

/// An amount of one commodity.
#[derive(Clone, Debug)]
pub struct Quantity {
    pub commodity: CommodityId,
    pub amount: Amount,
}

/// The larger of two scales.
pub open spec fn max_scale(a: u32, b: u32) -> u32 {
    if a >= b {
        a
    } else {
        b
    }
}

/// The mantissa of `a + b` at the larger of their scales.
pub open spec fn sum_mantissa(a: Amount, b: Amount) -> int {
    let s = max_scale(a.scale, b.scale);
    a.mantissa * pow10((s - a.scale) as nat) + b.mantissa * pow10((s - b.scale) as nat)
}

impl Quantity {
    /// The sum of two quantities. Quantities of different commodities cannot be added
    /// (`Conversion`); the sum is kept at the larger of the two scales and must fit an
    /// amount (`AmountRange`).
    pub fn checked_add(&self, other: &Quantity) -> (r: Result<Quantity, crate::error::Violation>)
        requires
            self.amount.wf(),
            other.amount.wf(),
        ensures
            self.commodity@ != other.commodity@ ==> r == Err::<Quantity, crate::error::Violation>(crate::error::Violation::Conversion),
            self.commodity@ == other.commodity@ ==> (r is Ok <==> i64::MIN <= sum_mantissa(self.amount, other.amount) <= i64::MAX),
            self.commodity@ == other.commodity@ && r is Err ==> r == Err::<Quantity, crate::error::Violation>(crate::error::Violation::AmountRange),
            r matches Ok(q) ==> {
                &&& q.commodity@ == self.commodity@
                &&& q.amount.scale == max_scale(self.amount.scale, other.amount.scale)
                &&& q.amount.mantissa == sum_mantissa(self.amount, other.amount)
                &&& q.amount.wf()
                &&& q.amount.fine() == self.amount.fine() + other.amount.fine()
            },
    {
        if !self.commodity.same_as(&other.commodity) {
            return Err(crate::error::Violation::Conversion);
        }
        let a = self.amount;
        let b = other.amount;
        let s: u32 = if a.scale >= b.scale { a.scale } else { b.scale };
        let pa = pow10_exec(s - a.scale);
        let pb = pow10_exec(s - b.scale);
        proof {
            lemma_pow10_positive((s - a.scale) as nat);
            lemma_pow10_positive((s - b.scale) as nat);
            lemma_pow10_monotone((s - a.scale) as nat, 18);
            lemma_pow10_monotone((s - b.scale) as nat, 18);
            reveal_with_fuel(pow10, 19);
            let am = a.mantissa as int;
            let bm = b.mantissa as int;
            let x = pa as int;
            let y = pb as int;
            assert(-9223372036854775808 * 1000000000000000000 <= am * x <= 9223372036854775807 * 1000000000000000000)
                by (nonlinear_arith)
                requires
                    -9223372036854775808 <= am <= 9223372036854775807,
                    1 <= x <= 1000000000000000000,
            ;
            assert(-9223372036854775808 * 1000000000000000000 <= bm * y <= 9223372036854775807 * 1000000000000000000)
                by (nonlinear_arith)
                requires
                    -9223372036854775808 <= bm <= 9223372036854775807,
                    1 <= y <= 1000000000000000000,
            ;
        }
        let m: i128 = (a.mantissa as i128) * pa + (b.mantissa as i128) * pb;
        if m < i64::MIN as i128 || m > i64::MAX as i128 {
            return Err(crate::error::Violation::AmountRange);
        }
        let q = Amount { mantissa: m as i64, scale: s };
        proof {
            let k = (18 - s) as nat;
            lemma_pow10_adds((s - a.scale) as nat, k);
            lemma_pow10_adds((s - b.scale) as nat, k);
            assert(((s - a.scale) as nat + k) as nat == (18 - a.scale) as nat);
            assert(((s - b.scale) as nat + k) as nat == (18 - b.scale) as nat);
            let am = a.mantissa as int;
            let bm = b.mantissa as int;
            let x = pa as int;
            let y = pb as int;
            let pk = pow10(k);
            assert((am * x + bm * y) * pk == am * (x * pk) + bm * (y * pk)) by (nonlinear_arith);
        }
        Ok(Quantity { commodity: self.commodity.copy(), amount: q })
    }
}

/// The record of an exchange: the quantity given up (`source`) and the rate by which each
/// unit of it became units of the quantity received.
#[derive(Clone, Debug)]
pub struct RatedQuantity {
    pub source: Quantity,
    pub rate: Amount,
}

/// Whether `source * rate == target` exactly, the three read as decimals.
pub open spec fn rate_holds(source: Amount, rate: Amount, target: Amount) -> bool {
    source.mantissa * rate.mantissa * pow10(target.scale as nat) == target.mantissa * pow10(
        (source.scale + rate.scale) as nat,
    )
}

proof fn lemma_cancel_pow(x: int, y: int, n: nat)
    ensures
        (x * pow10(n) == y * pow10(n)) == (x == y),
{
    lemma_pow10_positive(n);
    if x * pow10(n) == y * pow10(n) {
        vstd::arithmetic::mul::lemma_mul_is_commutative(x, pow10(n));
        vstd::arithmetic::mul::lemma_mul_is_commutative(y, pow10(n));
        vstd::arithmetic::mul::lemma_mul_equality_converse(pow10(n), x, y);
    }
}

impl RatedQuantity {
    /// Whether this exchange, at its rate, yields exactly `target`.
    pub fn yields(&self, target: Amount) -> (r: bool)
        requires
            self.source.amount.wf(),
            self.rate.wf(),
            target.wf(),
        ensures
            r == rate_holds(self.source.amount, self.rate, target),
    {
        let src = self.source.amount;
        let rate = self.rate;
        let lim: i128 = 85070591730234615865843651857942052864; // 2^126
        proof {
            let a = src.mantissa as int;
            let b = rate.mantissa as int;
            assert(-lim <= a * b <= lim) by (nonlinear_arith)
                requires
                    -9223372036854775808 <= a <= 9223372036854775807,
                    -9223372036854775808 <= b <= 9223372036854775807,
                    lim == 85070591730234615865843651857942052864,
            ;
        }
        let product: i128 = (src.mantissa as i128) * (rate.mantissa as i128);
        let s: u32 = src.scale + rate.scale;
        let ghost pm = product as int;
        let ghost tm = target.mantissa as int;
        if target.scale <= s {
            let d = s - target.scale;
            let p = pow10_exec(d);
            proof {
                lemma_pow10_adds(d as nat, target.scale as nat);
                assert(tm * pow10(s as nat) == (tm * pow10(d as nat)) * pow10(target.scale as nat))
                    by (nonlinear_arith)
                    requires
                        pow10(s as nat) == pow10(d as nat) * pow10(target.scale as nat),
                ;
                lemma_cancel_pow(pm, tm * pow10(d as nat), target.scale as nat);
            }
            match (target.mantissa as i128).checked_mul(p) {
                Some(x) => x == product,
                None => false,
            }
        } else {
            let d = target.scale - s;
            let p = pow10_exec(d);
            proof {
                lemma_pow10_adds(d as nat, s as nat);
                assert(pm * pow10(target.scale as nat) == (pm * pow10(d as nat)) * pow10(s as nat))
                    by (nonlinear_arith)
                    requires
                        pow10(target.scale as nat) == pow10(d as nat) * pow10(s as nat),
                ;
                lemma_cancel_pow(pm * pow10(d as nat), tm, s as nat);
            }
            match product.checked_mul(p) {
                Some(x) => x == target.mantissa as i128,
                None => false,
            }
        }
    }
}

/// Market Identifier Code (ISO 10383).
#[derive(Clone, Debug)]
pub struct MarketIdentifierCode(pub String);

/// A trading venue.
#[derive(Clone, Debug)]
pub struct Market {
    pub mic: MarketIdentifierCode,
    pub name: String,
    pub country: crate::party::CountryCode,
    pub city: String,
    pub bloomberg: Option<String>,
}

/// A security traded on a market.
#[derive(Clone, Debug)]
pub struct Security {
    pub market: MarketIdentifierCode,
    pub symbol: Option<String>,
    pub isin: Option<InternationalSecuritiesId>,
    pub name: Option<String>,
    pub base_currency: Option<CurrencyCode>,
}

} // verus!
