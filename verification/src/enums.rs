//! Enumerated types.
use vstd::prelude::*;
use vstd::std_specs::convert::FromSpecImpl;
use crate::text::{decimal, decimal_string};

verus! {

/// Languages used in API calls.
///
/// See <https://partner.steamgames.com/doc/store/localization/languages> for more information.
#[derive(Debug, PartialEq, Eq, Structural, Clone, Copy)]
pub enum Language {
    /// Arabic language.
    Arabic,
    /// Bulgarian language.
    Bulgarian,
    /// Chinese (Simplified) language.
    ChineseSimplified,
    /// Chinese (Traditional) language.
    ChineseTraditional,
    /// Czech language.
    Czech,
    /// Danish language.
    Danish,
    /// Dutch language.
    Dutch,
    /// English language. This is the default language.
    English,
    /// Finnish language.
    Finnish,
    /// French language.
    French,
    /// German language.
    German,
    /// Greek language.
    Greek,
    /// Hungarian language.
    Hungarian,
    /// Italian language.
    Italian,
    /// Japanese language.
    Japanese,
    /// Korean language.
    Korean,
    /// Norwegian language.
    Norwegian,
    /// Polish language.
    Polish,
    /// Portuguese language.
    Portuguese,
    /// Portuguese (Brazil) language.
    PortugueseBrazil,
    /// Romanian language.
    Romanian,
    /// Russian language.
    Russian,
    /// Spanish (Spain) language.
    SpanishSpain,
    /// Spanish (Latin America) language.
    SpanishLatinAmerica,
    /// Swedish language.
    Swedish,
    /// Thai language.
    Thai,
    /// Turkish language.
    Turkish,
    /// Ukrainian language.
    Ukrainian,
    /// Vietnamese language.
    Vietnamese,
}

impl Default for Language {
    /// English is the default language.
    fn default() -> (res: Self)
        ensures
            res == Language::English,
    {
        Language::English
    }
}

/// The code used with the Steamworks client APIs for `l`.
pub open spec fn web_api_code(l: Language) -> Seq<char> {
    match l {
        Language::Arabic => "ar"@,
        Language::Bulgarian => "bg"@,
        Language::ChineseSimplified => "zh-CN"@,
        Language::ChineseTraditional => "zh-TW"@,
        Language::Czech => "cs"@,
        Language::Danish => "da"@,
        Language::Dutch => "nl"@,
        Language::English => "en"@,
        Language::Finnish => "fi"@,
        Language::French => "fr"@,
        Language::German => "de"@,
        Language::Greek => "el"@,
        Language::Hungarian => "hu"@,
        Language::Italian => "it"@,
        Language::Japanese => "ja"@,
        Language::Korean => "ko"@,
        Language::Norwegian => "no"@,
        Language::Polish => "pl"@,
        Language::Portuguese => "pt"@,
        Language::PortugueseBrazil => "pt-BR"@,
        Language::Romanian => "ro"@,
        Language::Russian => "ru"@,
        Language::SpanishSpain => "es"@,
        Language::SpanishLatinAmerica => "es-419"@,
        Language::Swedish => "sv"@,
        Language::Thai => "th"@,
        Language::Turkish => "tr"@,
        Language::Ukrainian => "uk"@,
        Language::Vietnamese => "vn"@,
    }
}

/// The code used with the Steamworks Web API for `l`.
pub open spec fn api_code(l: Language) -> Seq<char> {
    match l {
        Language::Arabic => "arabic"@,
        Language::Bulgarian => "bulgarian"@,
        Language::ChineseSimplified => "schinese"@,
        Language::ChineseTraditional => "tchinese"@,
        Language::Czech => "czech"@,
        Language::Danish => "danish"@,
        Language::Dutch => "dutch"@,
        Language::English => "english"@,
        Language::Finnish => "finnish"@,
        Language::French => "french"@,
        Language::German => "german"@,
        Language::Greek => "greek"@,
        Language::Hungarian => "hungarian"@,
        Language::Italian => "italian"@,
        Language::Japanese => "japanese"@,
        Language::Korean => "koreana"@,
        Language::Norwegian => "norwegian"@,
        Language::Polish => "polish"@,
        Language::Portuguese => "portuguese"@,
        Language::PortugueseBrazil => "brazilian"@,
        Language::Romanian => "romanian"@,
        Language::Russian => "russian"@,
        Language::SpanishSpain => "spanish"@,
        Language::SpanishLatinAmerica => "latam"@,
        Language::Swedish => "swedish"@,
        Language::Thai => "thai"@,
        Language::Turkish => "turkish"@,
        Language::Ukrainian => "ukrainian"@,
        Language::Vietnamese => "vietnamese"@,
    }
}

impl Language {
    /// API language codes are used with the clientside APIs in the
    /// [Steamworks API](https://partner.steamgames.com/doc/sdk/api).
    pub fn web_api_language_code(&self) -> (res: &'static str)
        ensures
            res@ == web_api_code(*self),
    {
        match self {
            Language::Arabic => "ar",
            Language::Bulgarian => "bg",
            Language::ChineseSimplified => "zh-CN",
            Language::ChineseTraditional => "zh-TW",
            Language::Czech => "cs",
            Language::Danish => "da",
            Language::Dutch => "nl",
            Language::English => "en",
            Language::Finnish => "fi",
            Language::French => "fr",
            Language::German => "de",
            Language::Greek => "el",
            Language::Hungarian => "hu",
            Language::Italian => "it",
            Language::Japanese => "ja",
            Language::Korean => "ko",
            Language::Norwegian => "no",
            Language::Polish => "pl",
            Language::Portuguese => "pt",
            Language::PortugueseBrazil => "pt-BR",
            Language::Romanian => "ro",
            Language::Russian => "ru",
            Language::SpanishSpain => "es",
            Language::SpanishLatinAmerica => "es-419",
            Language::Swedish => "sv",
            Language::Thai => "th",
            Language::Turkish => "tr",
            Language::Ukrainian => "uk",
            Language::Vietnamese => "vn",
        }
    }

    /// Web API language codes are used with the
    /// [Steamworks Web API](https://partner.steamgames.com/doc/webapi).
    pub fn api_language_code(&self) -> (res: &'static str)
        ensures
            res@ == api_code(*self),
    {
        match self {
            Language::Arabic => "arabic",
            Language::Bulgarian => "bulgarian",
            Language::ChineseSimplified => "schinese",
            Language::ChineseTraditional => "tchinese",
            Language::Czech => "czech",
            Language::Danish => "danish",
            Language::Dutch => "dutch",
            Language::English => "english",
            Language::Finnish => "finnish",
            Language::French => "french",
            Language::German => "german",
            Language::Greek => "greek",
            Language::Hungarian => "hungarian",
            Language::Italian => "italian",
            Language::Japanese => "japanese",
            Language::Korean => "koreana",
            Language::Norwegian => "norwegian",
            Language::Polish => "polish",
            Language::Portuguese => "portuguese",
            Language::PortugueseBrazil => "brazilian",
            Language::Romanian => "romanian",
            Language::Russian => "russian",
            Language::SpanishSpain => "spanish",
            Language::SpanishLatinAmerica => "latam",
            Language::Swedish => "swedish",
            Language::Thai => "thai",
            Language::Turkish => "turkish",
            Language::Ukrainian => "ukrainian",
            Language::Vietnamese => "vietnamese",
        }
    }

    /// The text that `Display` writes for this language: its web API language code.
    pub fn to_display_string(&self) -> (res: String)
        ensures
            res@ == web_api_code(*self),
    {
        self.web_api_language_code().to_string()
    }
}

/// The state of a trade offer.
#[derive(Debug, PartialEq, Eq, Structural, Clone, Copy)]
pub enum TradeOfferState {
    /// Invalid.
    Invalid,
    /// This trade offer has been sent, neither party has acted on it yet.
    Active,
    /// The trade offer was accepted by the recipient and items were exchanged.
    Accepted,
    /// The recipient made a counter offer.
    Countered,
    /// The trade offer was not accepted before the expiration date.
    Expired,
    /// The sender cancelled the offer.
    Canceled,
    /// The recipient declined the offer.
    Declined,
    /// Some of the items in the offer are no longer available (indicated by the missing flag in
    /// the output).
    InvalidItems,
    /// The offer hasn't been sent yet and is awaiting email/mobile confirmation. The offer is
    /// only visible to the sender.
    CreatedNeedsConfirmation,
    /// Either party canceled the offer via email/mobile. The offer is visible to both parties,
    /// even if the sender canceled it before it was sent.
    CanceledBySecondFactor,
    /// The trade has been placed on hold. The items involved in the trade have all been removed
    /// from both parties' inventories and will be automatically delivered in the future.
    InEscrow,
}

/// Status of a trade.
#[derive(Debug, PartialEq, Eq, Structural, Clone, Copy)]
pub enum TradeStatus {
    /// Trade has just been accepted/confirmed, but no work has been done yet.
    Init,
    /// Steam is about to start committing the trade.
    PreCommitted,
    /// The items have been exchanged.
    Committed,
    /// All work is finished.
    Complete,
    /// Something went wrong after Init, but before Committed, and the trade has been rolled back.
    Failed,
    /// A support person rolled back the trade for one side.
    PartialSupportRollback,
    /// A support person rolled back the trade for both sides.
    FullSupportRollback,
    /// A support person rolled back the trade for some set of items.
    SupportRollbackSelective,
    /// We tried to roll back the trade when it failed, but haven't managed to do that for all
    /// items yet.
    RollbackFailed,
    /// We tried to roll back the trade, but some failure didn't go away and we gave up.
    RollbackAbandoned,
    /// Trade is in escrow.
    InEscrow,
    /// A trade in escrow was rolled back.
    EscrowRollback,
}

/// The method of confirmation.
#[derive(Debug, PartialEq, Eq, Structural, Clone, Copy)]
pub enum ConfirmationMethod {
    /// Invalid.
    Invalid,
    /// An email was sent with details on how to confirm the trade offer.
    Email,
    /// The trade offer may be confirmed via the mobile app.
    MobileApp,
}

/// Filter for getting trade offers.
#[derive(Debug, PartialEq, Eq, Structural, Clone, Copy)]
pub enum OfferFilter {
    /// Fetch active offers only.
    ActiveOnly,
    /// Fetch historical offers only.
    HistoricalOnly,
    /// Fetch all offers.
    All,
}

/// The type of confirmation.
#[derive(Debug, PartialEq, Eq, Structural, Clone, Copy)]
pub enum ConfirmationType {
    /// Generic.
    Generic,
    /// Confirmation to confirm trade.
    Trade,
    /// Confirmation to confirm on market.
    MarketSell,
    /// Confirmation for account recovery.
    AccountRecovery,
    /// Unknown.
    Unknown(u32),
}

/// The confirmation type that the number `n` stands for.
pub open spec fn confirmation_type_of(n: u32) -> ConfirmationType {
    if n == 1 {
        ConfirmationType::Generic
    } else if n == 2 {
        ConfirmationType::Trade
    } else if n == 3 {
        ConfirmationType::MarketSell
    } else if n == 6 {
        ConfirmationType::AccountRecovery
    } else {
        ConfirmationType::Unknown(n)
    }
}

impl Default for ConfirmationType {
    /// `Generic` is the default.
    fn default() -> (res: Self)
        ensures
            res == ConfirmationType::Generic,
    {
        ConfirmationType::Generic
    }
}

impl From<u32> for ConfirmationType {
    fn from(n: u32) -> (res: Self) {
        if n == 1 {
            ConfirmationType::Generic
        } else if n == 2 {
            ConfirmationType::Trade
        } else if n == 3 {
            ConfirmationType::MarketSell
        } else if n == 6 {
            ConfirmationType::AccountRecovery
        } else {
            ConfirmationType::Unknown(n)
        }
    }
}

impl FromSpecImpl<u32> for ConfirmationType {
    open spec fn obeys_from_spec() -> bool {
        true
    }

    open spec fn from_spec(n: u32) -> ConfirmationType {
        confirmation_type_of(n)
    }
}

impl ConfirmationType {
    /// The confirmation type that the number `n` stands for.
    pub fn from_number(n: u32) -> (res: Self)
        ensures
            res == confirmation_type_of(n),
    {
        ConfirmationType::from(n)
    }
}

/// Method for obtaining a user's escrow details.
#[derive(Debug, Clone)]
pub enum GetUserDetailsMethod {
    /// Obtain details without using an identifier. This will only work if you are friends with
    /// the user.
    NoIdentifier,
    /// Obtain details using an access token.
    Token(String),
    /// Obtain details using a tradeofferid.
    TradeOfferId(u64),
}

/// The path segment that `m` asks for: `new`, or the trade offer's ID in decimal.
pub open spec fn pathname_spec(m: GetUserDetailsMethod) -> Seq<char> {
    match m {
        GetUserDetailsMethod::TradeOfferId(id) => decimal(id as nat),
        _ => "new"@,
    }
}

impl GetUserDetailsMethod {
    /// The token to use for the request.
    pub fn token(&self) -> (res: Option<&str>)
        ensures
            match *self {
                GetUserDetailsMethod::Token(s) => res is Some && res->0@ == s@,
                _ => res is None,
            },
    {
        match self {
            GetUserDetailsMethod::Token(s) => Some(s.as_str()),
            _ => None,
        }
    }

    /// The pathname to use for the request.
    pub fn pathname(&self) -> (res: String)
        ensures
            res@ == pathname_spec(*self),
    {
        match self {
            GetUserDetailsMethod::TradeOfferId(tradeofferid) => decimal_string(*tradeofferid),
            _ => "new".to_string(),
        }
    }

    /// The method that an optional access token stands for: the token, or none.
    pub fn from_token(value: Option<String>) -> (res: Self)
        ensures
            match value {
                Some(s) => res == GetUserDetailsMethod::Token(s),
                None => res == GetUserDetailsMethod::NoIdentifier,
            },
    {
        match value {
            Some(s) => GetUserDetailsMethod::Token(s),
            None => GetUserDetailsMethod::NoIdentifier,
        }
    }

    /// The method that uses the trade offer `tradeofferid`.
    pub fn from_tradeofferid(tradeofferid: u64) -> (res: Self)
        ensures
            res == GetUserDetailsMethod::TradeOfferId(tradeofferid),
    {
        GetUserDetailsMethod::TradeOfferId(tradeofferid)
    }
}

impl From<Option<String>> for GetUserDetailsMethod {
    fn from(value: Option<String>) -> (res: Self) {
        match value {
            Some(s) => GetUserDetailsMethod::Token(s),
            None => GetUserDetailsMethod::NoIdentifier,
        }
    }
}

impl FromSpecImpl<Option<String>> for GetUserDetailsMethod {
    open spec fn obeys_from_spec() -> bool {
        true
    }

    open spec fn from_spec(value: Option<String>) -> GetUserDetailsMethod {
        match value {
            Some(s) => GetUserDetailsMethod::Token(s),
            None => GetUserDetailsMethod::NoIdentifier,
        }
    }
}

impl From<u64> for GetUserDetailsMethod {
    fn from(value: u64) -> (res: Self) {
        GetUserDetailsMethod::TradeOfferId(value)
    }
}

impl FromSpecImpl<u64> for GetUserDetailsMethod {
    open spec fn obeys_from_spec() -> bool {
        true
    }

    open spec fn from_spec(value: u64) -> GetUserDetailsMethod {
        GetUserDetailsMethod::TradeOfferId(value)
    }
}

impl From<String> for GetUserDetailsMethod {
    fn from(value: String) -> (res: Self) {
        GetUserDetailsMethod::Token(value)
    }
}

impl FromSpecImpl<String> for GetUserDetailsMethod {
    open spec fn obeys_from_spec() -> bool {
        true
    }

    open spec fn from_spec(value: String) -> GetUserDetailsMethod {
        GetUserDetailsMethod::Token(value)
    }
}

} // verus!
