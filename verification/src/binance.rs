//! Addresses of the venue: REST and stream URLs built from a base and a
//! path.

use vstd::prelude::*;
use vstd::string::*;
use crate::text::{lowercase_of, to_lowercase, to_uppercase, trim_end, trim_start, uppercase_of};

verus! {

/// Seconds to wait before a lost stream is connected again.
pub const RECONNECT_DELAY_SECS: u64 = 5;

/// Seconds between two renewals of a user-data session.
pub const KEEPALIVE_INTERVAL_SECS: u64 = 1800;

/// Whether `s` ends with `suffix`.
pub open spec fn ends_with(s: Seq<char>, suffix: Seq<char>) -> bool {
    s.len() >= suffix.len() && s.subrange(s.len() - suffix.len(), s.len() as int) == suffix
}

/// The spot REST URL for `path` under `base`: slashes between the two are
/// reduced to one, and `/api` is put in unless the base already ends with
/// it.
pub open spec fn spot_rest_url_of(base: Seq<char>, path: Seq<char>) -> Seq<char> {
    let root = trim_end(base, '/');
    let leaf = trim_start(path, '/');
    if ends_with(root, seq!['/', 'a', 'p', 'i']) {
        root + seq!['/'] + leaf
    } else {
        root + seq!['/', 'a', 'p', 'i', '/'] + leaf
    }
}

/// The futures REST URL for `path` under `base`: the two joined by one
/// slash.
pub open spec fn futures_rest_url_of(base: Seq<char>, path: Seq<char>) -> Seq<char> {
    trim_end(base, '/') + seq!['/'] + trim_start(path, '/')
}

/// The stream URL for `stream_name` under `ws_base`: the two joined by
/// `/ws/`.
pub open spec fn ws_stream_url_of(ws_base: Seq<char>, stream_name: Seq<char>) -> Seq<char> {
    trim_end(ws_base, '/') + seq!['/', 'w', 's', '/'] + trim_start(stream_name, '/')
}

/// Where the spot REST API is found unless configured otherwise.
pub fn default_spot_rest_base() -> (base: &'static str)
    ensures
        base@ == "https://api.binance.com/api"@,
{
    "https://api.binance.com/api"
}

/// Where the spot streams are found unless configured otherwise.
pub fn default_spot_ws_base() -> (base: &'static str)
    ensures
        base@ == "wss://stream.binance.com:9443"@,
{
    "wss://stream.binance.com:9443"
}

/// Where the futures REST API is found unless configured otherwise.
pub fn default_futures_rest_base() -> (base: &'static str)
    ensures
        base@ == "https://fapi.binance.com"@,
{
    "https://fapi.binance.com"
}

/// Where the futures streams are found unless configured otherwise.
pub fn default_futures_ws_base() -> (base: &'static str)
    ensures
        base@ == "wss://fstream.binance.com"@,
{
    "wss://fstream.binance.com"
}

/// `s` without the slashes at its end.
pub fn trim_end_slashes(s: &str) -> (trimmed: &str)
    ensures
        trimmed@ == trim_end(s@, '/'),
{
    let mut n = s.unicode_len();
    assert(s@.take(n as int) =~= s@);
    while n > 0 && s.get_char(n - 1) == '/'
        invariant
            n <= s@.len(),
            trim_end(s@, '/') == trim_end(s@.take(n as int), '/'),
        decreases n,
    {
        assert(s@.take(n as int).drop_last() =~= s@.take(n as int - 1));
        n -= 1;
    }
    assert(s@.take(n as int) =~= s@.subrange(0, n as int));
    s.substring_char(0, n)
}

/// `s` without the slashes at its start.
pub fn trim_start_slashes(s: &str) -> (trimmed: &str)
    ensures
        trimmed@ == trim_start(s@, '/'),
{
    let len = s.unicode_len();
    let mut n: usize = 0;
    assert(s@.skip(0) =~= s@);
    while n < len && s.get_char(n) == '/'
        invariant
            n <= len,
            len == s@.len(),
            trim_start(s@, '/') == trim_start(s@.skip(n as int), '/'),
        decreases len - n,
    {
        assert(s@.skip(n as int).drop_first() =~= s@.skip(n as int + 1));
        n += 1;
    }
    assert(s@.skip(n as int) =~= s@.subrange(n as int, len as int));
    s.substring_char(n, len)
}

/// Whether `s` ends with `/api`.
pub fn ends_with_api(s: &str) -> (yes: bool)
    ensures
        yes == ends_with(s@, seq!['/', 'a', 'p', 'i']),
{
    let n = s.unicode_len();
    if n < 4 {
        return false;
    }
    let yes = s.get_char(n - 4) == '/' && s.get_char(n - 3) == 'a' && s.get_char(n - 2) == 'p'
        && s.get_char(n - 1) == 'i';
    proof {
        let tail = s@.subrange(n - 4, n as int);
        let want = seq!['/', 'a', 'p', 'i'];
        if yes {
            assert(tail =~= want);
        } else {
            assert(tail[0] == s@[n - 4] && tail[1] == s@[n - 3] && tail[2] == s@[n - 2]
                && tail[3] == s@[n - 1]);
            assert(want[0] == '/' && want[1] == 'a' && want[2] == 'p' && want[3] == 'i');
        }
    }
    yes
}

/// The URL of the spot REST endpoint `path` under `base`.
pub fn spot_rest_url(base: &str, path: &str) -> (url: String)
    ensures
        url@ == spot_rest_url_of(base@, path@),
{
    let root = trim_end_slashes(base);
    let leaf = trim_start_slashes(path);
    let mut url = String::from_str(root);
    proof {
        reveal_strlit("/");
        reveal_strlit("/api/");
        assert("/"@ =~= seq!['/']);
        assert("/api/"@ =~= seq!['/', 'a', 'p', 'i', '/']);
    }
    if ends_with_api(root) {
        url.append("/");
    } else {
        url.append("/api/");
    }
    url.append(leaf);
    url
}

/// The URL of the futures REST endpoint `path` under `base`.
pub fn futures_rest_url(base: &str, path: &str) -> (url: String)
    ensures
        url@ == futures_rest_url_of(base@, path@),
{
    let mut url = String::from_str(trim_end_slashes(base));
    proof {
        reveal_strlit("/");
        assert("/"@ =~= seq!['/']);
    }
    url.append("/");
    url.append(trim_start_slashes(path));
    url
}

/// The URL of the stream `stream_name` under `ws_base`.
pub fn ws_stream_url(ws_base: &str, stream_name: &str) -> (url: String)
    ensures
        url@ == ws_stream_url_of(ws_base@, stream_name@),
{
    let mut url = String::from_str(trim_end_slashes(ws_base));
    proof {
        reveal_strlit("/ws/");
        assert("/ws/"@ =~= seq!['/', 'w', 's', '/']);
    }
    url.append("/ws/");
    url.append(trim_start_slashes(stream_name));
    url
}

/// The URL of the stream `channel` of `symbol` under `ws_base`: the stream
/// is named by the symbol in lower case, `@`, and the channel.
pub open spec fn symbol_stream_url_of(
    ws_base: Seq<char>,
    symbol: Seq<char>,
    channel: Seq<char>,
) -> Seq<char> {
    trim_end(ws_base, '/') + seq!['/', 'w', 's', '/'] + lowercase_of(symbol) + seq!['@'] + channel
}

/// The URL of the depth snapshot of `symbol`, ten levels a side, under the
/// spot REST base `base`.
pub open spec fn depth_url_of(base: Seq<char>, symbol: Seq<char>) -> Seq<char> {
    spot_rest_url_of(base, "v3/depth?symbol="@ + uppercase_of(symbol) + "&limit=10"@)
}

/// The URL at which a user-data session is opened, under the spot REST
/// base `rest_base`.
pub open spec fn listen_key_url_of(rest_base: Seq<char>) -> Seq<char> {
    trim_end(rest_base, '/') + "/v3/userDataStream"@
}

/// The URL at which the user-data session `listen_key` is kept alive.
pub open spec fn listen_key_renew_url_of(rest_base: Seq<char>, listen_key: Seq<char>) -> Seq<char> {
    trim_end(rest_base, '/') + "/v3/userDataStream?listenKey="@ + listen_key
}

/// The URL of the stream `channel` of `symbol`.
pub fn symbol_stream_url(ws_base: &str, symbol: &str, channel: &str) -> (url: String)
    ensures
        url@ == symbol_stream_url_of(ws_base@, symbol@, channel@),
{
    let mut url = String::from_str(trim_end_slashes(ws_base));
    proof {
        reveal_strlit("/ws/");
        reveal_strlit("@");
        assert("/ws/"@ =~= seq!['/', 'w', 's', '/']);
        assert("@"@ =~= seq!['@']);
    }
    url.append("/ws/");
    url.append(to_lowercase(symbol).as_str());
    url.append("@");
    url.append(channel);
    url
}

/// The URL of the `bookTicker` stream of `symbol`.
pub fn bookticker_stream_url(ws_base: &str, symbol: &str) -> (url: String)
    ensures
        url@ == symbol_stream_url_of(ws_base@, symbol@, "bookTicker"@),
{
    symbol_stream_url(ws_base, symbol, "bookTicker")
}

/// The URL of the `aggTrade` stream of `symbol`.
pub fn aggtrade_stream_url(ws_base: &str, symbol: &str) -> (url: String)
    ensures
        url@ == symbol_stream_url_of(ws_base@, symbol@, "aggTrade"@),
{
    symbol_stream_url(ws_base, symbol, "aggTrade")
}

/// The URL of the depth snapshot of `symbol`.
pub fn depth_url(base: &str, symbol: &str) -> (url: String)
    ensures
        url@ == depth_url_of(base@, symbol@),
{
    let mut path = String::from_str("v3/depth?symbol=");
    path.append(to_uppercase(symbol).as_str());
    path.append("&limit=10");
    spot_rest_url(base, path.as_str())
}

/// The URL at which a user-data session is opened.
pub fn listen_key_url(rest_base: &str) -> (url: String)
    ensures
        url@ == listen_key_url_of(rest_base@),
{
    let mut url = String::from_str(trim_end_slashes(rest_base));
    url.append("/v3/userDataStream");
    url
}

/// The URL at which the user-data session `listen_key` is kept alive.
pub fn listen_key_renew_url(rest_base: &str, listen_key: &str) -> (url: String)
    ensures
        url@ == listen_key_renew_url_of(rest_base@, listen_key@),
{
    let mut url = String::from_str(trim_end_slashes(rest_base));
    url.append("/v3/userDataStream?listenKey=");
    url.append(listen_key);
    url
}

} // verus!
