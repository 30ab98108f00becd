//! The three price sources: what to request from each, and how to read its reply.
use vstd::prelude::*;
use vstd::string::*;
use crate::json::{json_leaf_at, leaf_at, JsonLeaf};
use crate::price::{decimal_text, nat_text, parse_price, price_of, Price};

verus! {

pub const COINGECKO_URL: &'static str =
    "https://api.coingecko.com/api/v3/simple/price?ids=solana&vs_currencies=usd";

pub const COINCAP_URL: &'static str = "https://api.coincap.io/v2/assets/solana";

pub const BINANCE_URL: &'static str = "https://api.binance.com/api/v3/ticker/price?symbol=SOLUSDT";

/// How the optional CoinGecko key is appended to its request.
pub const API_KEY_PARAM: &'static str = "&x_cg_demo_api_key=";

pub const COINGECKO_PATH: &'static str = "/solana/usd";

pub const COINCAP_PATH: &'static str = "/data/priceUsd";

pub const BINANCE_PATH: &'static str = "/price";

/// A public price API.
#[derive(Clone, Copy, Debug, PartialEq, Eq, Structural)]
pub enum Source {
    CoinGecko,
    CoinCap,
    Binance,
}

/// Why one source gave no price.
#[derive(Clone, Debug, PartialEq, Eq)]
pub enum Failure {
    /// No reply came: the connection failed or timed out.
    Unreachable,
    /// The reply's status was not in the 2xx range.
    HttpStatus(u16),
    /// The body is not JSON, or not of the shape that the source promises.
    Parse,
    /// The body lacks the price.
    PriceNotFound,
    /// The price field holds this text, which is no decimal number.
    NumericFormat(String),
}

/// A failure and the source it came from.
#[derive(Clone, Debug, PartialEq, Eq)]
pub struct FetchError {
    pub source: Source,
    pub failure: Failure,
}

/// What one request to a source brought back.
#[derive(Clone, Debug, PartialEq, Eq)]
pub enum Reply {
    Unreachable,
    Response { status: u16, body: String },
}

pub open spec fn url_of(source: Source, api_key: Option<Seq<char>>) -> Seq<char> {
    match source {
        Source::CoinGecko => match api_key {
            Some(k) => COINGECKO_URL@ + API_KEY_PARAM@ + k,
            None => COINGECKO_URL@,
        },
        Source::CoinCap => COINCAP_URL@,
        Source::Binance => BINANCE_URL@,
    }
}

/// The JSON pointer at which a source's reply holds the price.
pub open spec fn path_of(source: Source) -> Seq<char> {
    match source {
        Source::CoinGecko => COINGECKO_PATH@,
        Source::CoinCap => COINCAP_PATH@,
        Source::Binance => BINANCE_PATH@,
    }
}

/// CoinGecko sends the price as a JSON number; the others as a string.
pub open spec fn numeric_price(source: Source) -> bool {
    source == Source::CoinGecko
}

pub open spec fn price_or_format_error(t: String) -> Result<Price, Failure> {
    match price_of(t@) {
        Some(p) => Ok(p),
        None => Err(Failure::NumericFormat(t)),
    }
}

/// How a source's reading of its body turns into a price or a failure.
pub open spec fn outcome_of(source: Source, leaf: Option<JsonLeaf>) -> Result<Price, Failure> {
    match leaf {
        None => Err(Failure::Parse),
        Some(JsonLeaf::Missing) => if numeric_price(source) {
            Err(Failure::PriceNotFound)
        } else {
            Err(Failure::Parse)
        },
        Some(JsonLeaf::Text(t)) => if numeric_price(source) {
            Err(Failure::Parse)
        } else {
            price_or_format_error(t)
        },
        Some(JsonLeaf::Number(t)) => if numeric_price(source) {
            price_or_format_error(t)
        } else {
            Err(Failure::Parse)
        },
        Some(JsonLeaf::Other) => Err(Failure::Parse),
    }
}

pub open spec fn is_success(status: u16) -> bool {
    200 <= status && status <= 299
}

/// What a source makes of a reply.
pub open spec fn reply_outcome(source: Source, reply: Reply) -> Result<Price, Failure> {
    match reply {
        Reply::Unreachable => Err(Failure::Unreachable),
        Reply::Response { status, body } => if !is_success(status) {
            Err(Failure::HttpStatus(status))
        } else {
            outcome_of(source, json_leaf_at(body@, path_of(source)))
        },
    }
}

/// How a failure is reported: the source's name and the cause.
pub open spec fn message_of(e: FetchError) -> Seq<char> {
    let n = e.source.spec_name();
    match e.failure {
        Failure::Unreachable => n + ": no response"@,
        Failure::HttpStatus(c) => n + " API error: "@ + nat_text(c as nat),
        Failure::Parse => n + ": unexpected response body"@,
        Failure::PriceNotFound => n + ": price not found"@,
        Failure::NumericFormat(t) => n + ": invalid numeric format: "@ + t@,
    }
}

impl FetchError {
    /// A line that tells which source failed, and why.
    pub fn message(&self) -> (r: String)
        ensures
            r@ == message_of(*self),
    {
        let mut r = String::from_str(self.source.name());
        match &self.failure {
            Failure::Unreachable => r.append(": no response"),
            Failure::HttpStatus(c) => {
                r.append(" API error: ");
                let code = decimal_text(*c as u128);
                r.append(code.as_str());
            },
            Failure::Parse => r.append(": unexpected response body"),
            Failure::PriceNotFound => r.append(": price not found"),
            Failure::NumericFormat(t) => {
                r.append(": invalid numeric format: ");
                r.append(t.as_str());
            },
        }
        r
    }
}

impl Source {
    pub open spec fn spec_name(&self) -> Seq<char> {
        match self {
            Source::CoinGecko => "CoinGecko"@,
            Source::CoinCap => "CoinCap"@,
            Source::Binance => "Binance"@,
        }
    }

    /// The name under which the source is reported.
    pub fn name(&self) -> (r: &'static str)
        ensures
            r@ == self.spec_name(),
    {
        match self {
            Source::CoinGecko => "CoinGecko",
            Source::CoinCap => "CoinCap",
            Source::Binance => "Binance",
        }
    }

    /// The address to request; the CoinGecko key, where one is given, goes verbatim
    /// into its query, and its absence only leaves that parameter out.
    pub fn request_url(&self, api_key: Option<&str>) -> (r: String)
        ensures
            r@ == url_of(*self, match api_key {
                Some(k) => Some(k@),
                None => None,
            }),
    {
        match self {
            Source::CoinGecko => {
                let mut url = String::from_str(COINGECKO_URL);
                match api_key {
                    Some(k) => {
                        url.append(API_KEY_PARAM);
                        url.append(k);
                    },
                    None => {},
                }
                url
            },
            Source::CoinCap => String::from_str(COINCAP_URL),
            Source::Binance => String::from_str(BINANCE_URL),
        }
    }

    /// The JSON pointer at which the source's reply holds the price.
    pub fn price_path(&self) -> (r: &'static str)
        ensures
            r@ == path_of(*self),
    {
        match self {
            Source::CoinGecko => COINGECKO_PATH,
            Source::CoinCap => COINCAP_PATH,
            Source::Binance => BINANCE_PATH,
        }
    }

    /// Reads the price out of what was found at the price path of a body.
    pub fn read_price(&self, leaf: Option<JsonLeaf>) -> (r: Result<Price, Failure>)
        ensures
            r == outcome_of(*self, leaf),
            r matches Ok(p) ==> p.wf(),
    {
        let numeric = match self {
            Source::CoinGecko => true,
            _ => false,
        };
        match leaf {
            None => Err(Failure::Parse),
            Some(JsonLeaf::Missing) => if numeric {
                Err(Failure::PriceNotFound)
            } else {
                Err(Failure::Parse)
            },
            Some(JsonLeaf::Text(t)) => if numeric {
                Err(Failure::Parse)
            } else {
                read_decimal(t)
            },
            Some(JsonLeaf::Number(t)) => if numeric {
                read_decimal(t)
            } else {
                Err(Failure::Parse)
            },
            Some(JsonLeaf::Other) => Err(Failure::Parse),
        }
    }

    /// What the source makes of a reply: the price, or why there is none.
    pub fn outcome(&self, reply: &Reply) -> (r: Result<Price, FetchError>)
        ensures
            r matches Ok(p) ==> p.wf(),
            match reply_outcome(*self, *reply) {
                Ok(p) => r == Ok::<Price, FetchError>(p),
                Err(f) => r == Err::<Price, FetchError>(FetchError { source: *self, failure: f }),
            },
    {
        let read = match reply {
            Reply::Unreachable => Err(Failure::Unreachable),
            Reply::Response { status, body } => if *status < 200 || *status > 299 {
                Err(Failure::HttpStatus(*status))
            } else {
                self.read_price(leaf_at(body.as_str(), self.price_path()))
            },
        };
        match read {
            Ok(p) => Ok(p),
            Err(f) => Err(FetchError { source: *self, failure: f }),
        }
    }
}

fn read_decimal(t: String) -> (r: Result<Price, Failure>)
    ensures
        r == price_or_format_error(t),
        r matches Ok(p) ==> p.wf(),
{
    match parse_price(t.as_str()) {
        Some(p) => Ok(p),
        None => Err(Failure::NumericFormat(t)),
    }
}

/// A 2xx reply whose body holds, at the source's price path, a decimal of the kind the
/// source sends (a number for CoinGecko, a string for the others) gives exactly the
/// price that decimal spells.
pub proof fn lemma_well_formed_reply_gives_its_price(
    source: Source,
    status: u16,
    body: String,
    t: String,
)
    requires
        is_success(status),
        json_leaf_at(body@, path_of(source)) == Some(
            if numeric_price(source) {
                JsonLeaf::Number(t)
            } else {
                JsonLeaf::Text(t)
            },
        ),
        price_of(t@) is Some,
    ensures
        reply_outcome(source, Reply::Response { status, body }) == Ok::<Price, Failure>(
            price_of(t@)->0,
        ),
{
}

} // verus!
