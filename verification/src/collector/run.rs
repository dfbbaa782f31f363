//! Running the collector: where the data comes from, and when to stop.

use vstd::prelude::*;

use crate::text;

verus! {

/// Exchange that data is collected from directly.
#[derive(Debug, Clone, Copy, PartialEq, Eq, Structural)]
pub enum Exchange {
    BinanceFuturesUm,
    BinanceFuturesCm,
    BinanceSpot,
    Bybit,
    Hyperliquid,
}

/// The exchange of a name on the command line.
pub open spec fn exchange_named(name: Seq<char>) -> Option<Exchange> {
    if name == "binancefutures"@ || name == "binancefuturesum"@ {
        Some(Exchange::BinanceFuturesUm)
    } else if name == "binancefuturescm"@ {
        Some(Exchange::BinanceFuturesCm)
    } else if name == "binance"@ || name == "binancespot"@ {
        Some(Exchange::BinanceSpot)
    } else if name == "bybit"@ {
        Some(Exchange::Bybit)
    } else if name == "hyperliquid"@ {
        Some(Exchange::Hyperliquid)
    } else {
        None
    }
}

/// The streams that are collected from an exchange; `$symbol` stands for the symbol.
pub open spec fn streams_of(exchange: Exchange) -> Seq<Seq<char>> {
    match exchange {
        Exchange::BinanceFuturesUm | Exchange::BinanceFuturesCm => seq![
            "$symbol@trade"@,
            "$symbol@bookTicker"@,
            "$symbol@depth@0ms"@,
        ],
        Exchange::BinanceSpot => seq![
            "$symbol@trade"@,
            "$symbol@bookTicker"@,
            "$symbol@depth@100ms"@,
        ],
        Exchange::Bybit => seq![
            "orderbook.1.$symbol"@,
            "orderbook.50.$symbol"@,
            "orderbook.500.$symbol"@,
            "publicTrade.$symbol"@,
        ],
        Exchange::Hyperliquid => seq!["trades"@, "l2Book"@, "bbo"@],
    }
}

/// The streams that are collected from an exchange.
pub fn streams(exchange: Exchange) -> (r: Vec<String>)
    ensures
        text::strings(r@) == streams_of(exchange),
{
    let mut r: Vec<String> = Vec::new();
    match exchange {
        Exchange::BinanceFuturesUm | Exchange::BinanceFuturesCm => {
            r.push("$symbol@trade".to_string());
            r.push("$symbol@bookTicker".to_string());
            r.push("$symbol@depth@0ms".to_string());
        },
        Exchange::BinanceSpot => {
            r.push("$symbol@trade".to_string());
            r.push("$symbol@bookTicker".to_string());
            r.push("$symbol@depth@100ms".to_string());
        },
        Exchange::Bybit => {
            r.push("orderbook.1.$symbol".to_string());
            r.push("orderbook.50.$symbol".to_string());
            r.push("orderbook.500.$symbol".to_string());
            r.push("publicTrade.$symbol".to_string());
        },
        Exchange::Hyperliquid => {
            r.push("trades".to_string());
            r.push("l2Book".to_string());
            r.push("bbo".to_string());
        },
    }
    assert(text::strings(r@) =~= streams_of(exchange));
    r
}

/// Where the data comes from.
#[derive(Debug, Clone, Copy, PartialEq, Eq, Structural)]
pub enum Source {
    /// A running connector.
    Connector,
    /// The exchange itself.
    Direct(Exchange),
}

/// Chooses the source by the command line: a connector where one is named,
/// else the exchange of the given name.
pub fn choose_source(ipc: bool, exchange: &str, no_symbols: bool) -> (r: Result<Source, String>)
    ensures
        match r {
            Ok(source) => if ipc {
                !no_symbols && source == Source::Connector
            } else {
                exchange_named(exchange@) is Some && source == Source::Direct(
                    exchange_named(exchange@)->0,
                )
            },
            Err(message) => if ipc {
                &&& no_symbols
                &&& message@
                    == "At least one symbol is required for IPC mode. Example: collector ./data --ipc bf btcusdt"@
            } else {
                &&& exchange_named(exchange@) is None
                &&& message@ == (if exchange@.len() == 0 {
                    "Exchange name is required in direct mode. Use --ipc for IPC mode."@
                } else {
                    exchange@ + " is not supported."@
                })
            },
        },
{
    if ipc {
        if no_symbols {
            return Err(
                "At least one symbol is required for IPC mode. Example: collector ./data --ipc bf btcusdt".to_string(),
            );
        }
        return Ok(Source::Connector);
    }
    proof {
        reveal_strlit("binancefutures");
        reveal_strlit("binancefuturesum");
        reveal_strlit("binancefuturescm");
        reveal_strlit("binance");
        reveal_strlit("binancespot");
        reveal_strlit("bybit");
        reveal_strlit("hyperliquid");
    }
    if exchange.is_empty() {
        return Err("Exchange name is required in direct mode. Use --ipc for IPC mode.".to_string());
    }
    if text::same_text(exchange, "binancefutures") || text::same_text(
        exchange,
        "binancefuturesum",
    ) {
        Ok(Source::Direct(Exchange::BinanceFuturesUm))
    } else if text::same_text(exchange, "binancefuturescm") {
        Ok(Source::Direct(Exchange::BinanceFuturesCm))
    } else if text::same_text(exchange, "binance") || text::same_text(exchange, "binancespot") {
        Ok(Source::Direct(Exchange::BinanceSpot))
    } else if text::same_text(exchange, "bybit") {
        Ok(Source::Direct(Exchange::Bybit))
    } else if text::same_text(exchange, "hyperliquid") {
        Ok(Source::Direct(Exchange::Hyperliquid))
    } else {
        let mut message = exchange.to_string();
        message.append(" is not supported.");
        Err(message)
    }
}

/// Tells whether the collector stops: the time limit in seconds is reached, a
/// shutdown has been asked for, or the process has been told to end.
pub fn should_stop(
    elapsed_nanos: u128,
    limit_secs: Option<u64>,
    shutdown: bool,
    signalled: bool,
) -> (r: bool)
    ensures
        r == (shutdown || signalled || (limit_secs is Some && elapsed_nanos >= limit_secs->0
            * 1_000_000_000)),
{
    let reached: bool = match limit_secs {
        Some(limit) => elapsed_nanos >= limit as u128 * 1_000_000_000,
        None => false,
    };
    reached || shutdown || signalled
}

} // verus!
