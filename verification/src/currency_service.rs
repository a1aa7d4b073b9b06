//! Supported fiat currencies and their static properties: codes, names,
//! symbols, and per-currency transaction limits in sats.

use vstd::prelude::*;

verus! {

/// The supported currencies.
#[derive(Debug, Clone, Copy, PartialEq, Eq, Hash, Structural)]
pub enum Currency {
    KES,
    TZS,
    UGX,
    NGN,
    ZAR,
    GHS,
    ETB,
    MWK,
    ZMW,
    BWP,
}

/// The ISO-style code of each currency.
pub open spec fn spec_code(c: Currency) -> Seq<char> {
    match c {
        Currency::KES => "KES"@,
        Currency::TZS => "TZS"@,
        Currency::UGX => "UGX"@,
        Currency::NGN => "NGN"@,
        Currency::ZAR => "ZAR"@,
        Currency::GHS => "GHS"@,
        Currency::ETB => "ETB"@,
        Currency::MWK => "MWK"@,
        Currency::ZMW => "ZMW"@,
        Currency::BWP => "BWP"@,
    }
}

/// The English name of each currency.
pub open spec fn spec_name(c: Currency) -> Seq<char> {
    match c {
        Currency::KES => "Kenyan Shilling"@,
        Currency::TZS => "Tanzanian Shilling"@,
        Currency::UGX => "Ugandan Shilling"@,
        Currency::NGN => "Nigerian Naira"@,
        Currency::ZAR => "South African Rand"@,
        Currency::GHS => "Ghanaian Cedi"@,
        Currency::ETB => "Ethiopian Birr"@,
        Currency::MWK => "Malawian Kwacha"@,
        Currency::ZMW => "Zambian Kwacha"@,
        Currency::BWP => "Botswanan Pula"@,
    }
}

/// The symbol of each currency.
pub open spec fn spec_symbol(c: Currency) -> Seq<char> {
    match c {
        Currency::KES => "KSh"@,
        Currency::TZS => "TSh"@,
        Currency::UGX => "USh"@,
        Currency::NGN => "N"@,
        Currency::ZAR => "R"@,
        Currency::GHS => "GHS"@,
        Currency::ETB => "Br"@,
        Currency::MWK => "MK"@,
        Currency::ZMW => "ZK"@,
        Currency::BWP => "P"@,
    }
}

/// The smallest transaction each currency accepts, in sats.
pub open spec fn spec_min_sats(c: Currency) -> int {
    match c {
        Currency::KES => 100,
        Currency::TZS => 250,
        Currency::UGX => 250,
        Currency::NGN => 50,
        Currency::ZAR => 50,
        Currency::GHS => 50,
        Currency::ETB => 50,
        Currency::MWK => 100,
        Currency::ZMW => 50,
        Currency::BWP => 50,
    }
}

/// The largest transaction each currency accepts, in sats.
pub open spec fn spec_max_sats(c: Currency) -> int {
    match c {
        Currency::KES => 1_000_000,
        Currency::TZS => 2_500_000,
        Currency::UGX => 2_500_000,
        Currency::NGN => 500_000,
        Currency::ZAR => 500_000,
        Currency::GHS => 500_000,
        Currency::ETB => 500_000,
        Currency::MWK => 1_000_000,
        Currency::ZMW => 500_000,
        Currency::BWP => 500_000,
    }
}

impl Currency {
    /// The currency code as text.
    pub fn code(&self) -> (r: &'static str)
        ensures
            r@ == spec_code(*self),
    {
        match self {
            Currency::KES => "KES",
            Currency::TZS => "TZS",
            Currency::UGX => "UGX",
            Currency::NGN => "NGN",
            Currency::ZAR => "ZAR",
            Currency::GHS => "GHS",
            Currency::ETB => "ETB",
            Currency::MWK => "MWK",
            Currency::ZMW => "ZMW",
            Currency::BWP => "BWP",
        }
    }

    /// The currency's English name.
    pub fn name(&self) -> (r: &'static str)
        ensures
            r@ == spec_name(*self),
    {
        match self {
            Currency::KES => "Kenyan Shilling",
            Currency::TZS => "Tanzanian Shilling",
            Currency::UGX => "Ugandan Shilling",
            Currency::NGN => "Nigerian Naira",
            Currency::ZAR => "South African Rand",
            Currency::GHS => "Ghanaian Cedi",
            Currency::ETB => "Ethiopian Birr",
            Currency::MWK => "Malawian Kwacha",
            Currency::ZMW => "Zambian Kwacha",
            Currency::BWP => "Botswanan Pula",
        }
    }

    /// The currency's symbol.
    pub fn symbol(&self) -> (r: &'static str)
        ensures
            r@ == spec_symbol(*self),
    {
        match self {
            Currency::KES => "KSh",
            Currency::TZS => "TSh",
            Currency::UGX => "USh",
            Currency::NGN => "N",
            Currency::ZAR => "R",
            Currency::GHS => "GHS",
            Currency::ETB => "Br",
            Currency::MWK => "MK",
            Currency::ZMW => "ZK",
            Currency::BWP => "P",
        }
    }

    /// The smallest transaction this currency accepts, in sats.
    pub fn min_sats(&self) -> (r: u64)
        ensures
            r as int == spec_min_sats(*self),
    {
        match self {
            Currency::KES => 100,
            Currency::TZS => 250,
            Currency::UGX => 250,
            Currency::NGN => 50,
            Currency::ZAR => 50,
            Currency::GHS => 50,
            Currency::ETB => 50,
            Currency::MWK => 100,
            Currency::ZMW => 50,
            Currency::BWP => 50,
        }
    }

    /// The largest transaction this currency accepts, in sats.
    pub fn max_sats(&self) -> (r: u64)
        ensures
            r as int == spec_max_sats(*self),
    {
        match self {
            Currency::KES => 1_000_000,
            Currency::TZS => 2_500_000,
            Currency::UGX => 2_500_000,
            Currency::NGN => 500_000,
            Currency::ZAR => 500_000,
            Currency::GHS => 500_000,
            Currency::ETB => 500_000,
            Currency::MWK => 1_000_000,
            Currency::ZMW => 500_000,
            Currency::BWP => 500_000,
        }
    }
}

/// One currency's static properties, gathered for callers.
#[derive(Debug)]
pub struct CurrencyInfo {
    pub code: String,
    pub name: String,
    pub symbol: String,
    pub min_sats: u64,
    pub max_sats: u64,
}

/// The list of supported currencies, in a fixed order.
pub fn get_supported_currencies() -> (r: Vec<Currency>)
    ensures
        r@ =~= seq![
            Currency::KES,
            Currency::TZS,
            Currency::UGX,
            Currency::NGN,
            Currency::ZAR,
            Currency::GHS,
            Currency::ETB,
            Currency::MWK,
            Currency::ZMW,
            Currency::BWP,
        ],
{
    let mut v: Vec<Currency> = Vec::new();
    v.push(Currency::KES);
    v.push(Currency::TZS);
    v.push(Currency::UGX);
    v.push(Currency::NGN);
    v.push(Currency::ZAR);
    v.push(Currency::GHS);
    v.push(Currency::ETB);
    v.push(Currency::MWK);
    v.push(Currency::ZMW);
    v.push(Currency::BWP);
    v
}

/// The gathered static properties of one currency.
pub fn get_currency_info(currency: Currency) -> (r: CurrencyInfo)
    ensures
        r.code@ == spec_code(currency),
        r.name@ == spec_name(currency),
        r.symbol@ == spec_symbol(currency),
        r.min_sats as int == spec_min_sats(currency),
        r.max_sats as int == spec_max_sats(currency),
{
    CurrencyInfo {
        code: currency.code().to_owned(),
        name: currency.name().to_owned(),
        symbol: currency.symbol().to_owned(),
        min_sats: currency.min_sats(),
        max_sats: currency.max_sats(),
    }
}

} // verus!
