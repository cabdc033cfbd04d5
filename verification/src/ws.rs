//! The websocket side: stream names, the subscription request, the stream
//! address, and what a text message names as its topic.

use vstd::prelude::*;
use vstd::string::*;

use crate::enums::{category_name, BybitCategory};
use crate::text::{
    contains, contains_text, decimal_string, decimal_text, last_piece, nth_piece, push_char,
    split_last, split_nth, split_pieces, lemma_split_concat, lemma_split_without_separator,
};

verus! {

/// The address of the public websocket streams; the category follows it.
pub const WS_BASE_URL: &'static str = "wss://stream.bybit.com/v5/public/";

/// The address of the public stream of a category.
pub fn ws_url(category: BybitCategory) -> (url: String)
    ensures
        url@ == WS_BASE_URL@ + category_name(category),
{
    let mut url = WS_BASE_URL.to_string();
    url.append(category.to_string().as_str());
    url
}

/// The depth of an order-book stream when none is asked for.
pub const DEFAULT_STREAM_DEPTH: u16 = 50;

/// The largest order-book stream depth of a category.
pub open spec fn stream_depth_cap(category: BybitCategory) -> u16 {
    match category {
        BybitCategory::Linear | BybitCategory::Inverse => 500,
        BybitCategory::Spot => 200,
        BybitCategory::Option => 100,
    }
}

/// The depth of the order-book stream subscribed to: 50 when no depth is
/// asked for, else the depth asked for held to the cap of the category.
pub open spec fn stream_depth(category: BybitCategory, depth: Option<u16>) -> u16 {
    match depth {
        None => DEFAULT_STREAM_DEPTH,
        Some(d) => if d < stream_depth_cap(category) {
            d
        } else {
            stream_depth_cap(category)
        },
    }
}

/// The depth of an order-book stream is 50 when none is asked for, and
/// otherwise the smaller of the depth asked for and the category's cap:
/// 500 for linear and inverse contracts, 200 for spot, 100 for options.
pub proof fn lemma_stream_depth(category: BybitCategory, depth: u16)
    ensures
        stream_depth(category, None) == 50,
        stream_depth(category, Some(depth)) <= depth,
        stream_depth(category, Some(depth)) <= stream_depth_cap(category),
        stream_depth(category, Some(depth)) == depth || stream_depth(category, Some(depth))
            == stream_depth_cap(category),
        category == BybitCategory::Linear ==> stream_depth_cap(category) == 500,
        category == BybitCategory::Inverse ==> stream_depth_cap(category) == 500,
        category == BybitCategory::Spot ==> stream_depth_cap(category) == 200,
        category == BybitCategory::Option ==> stream_depth_cap(category) == 100,
{
}

/// The name of the order-book stream of a symbol: `orderbook.{depth}.{symbol}`.
pub open spec fn orderbook_stream_name(
    category: BybitCategory,
    symbol: Seq<char>,
    depth: Option<u16>,
) -> Seq<char> {
    "orderbook."@ + decimal_text(stream_depth(category, depth) as nat) + seq!['.'] + symbol
}

/// The name of the public-trade stream of a symbol: `publicTrade.{symbol}`.
pub open spec fn trade_stream_name(symbol: Seq<char>) -> Seq<char> {
    "publicTrade."@ + symbol
}

/// The name of the order-book stream of `symbol` at the depth asked for.
pub fn orderbook_stream(category: BybitCategory, symbol: &str, depth: Option<u16>) -> (name: String)
    ensures
        name@ == orderbook_stream_name(category, symbol@, depth),
{
    let d: u16 = match depth {
        None => DEFAULT_STREAM_DEPTH,
        Some(d) => {
            let cap: u16 = match category {
                BybitCategory::Linear | BybitCategory::Inverse => 500,
                BybitCategory::Spot => 200,
                BybitCategory::Option => 100,
            };
            if d < cap {
                d
            } else {
                cap
            }
        },
    };
    let mut name = "orderbook.".to_string();
    name.append(decimal_string(d as u64).as_str());
    push_char(&mut name, '.');
    name.append(symbol);
    name
}

/// The name of the public-trade stream of `symbol`.
pub fn trade_stream(symbol: &str) -> (name: String)
    ensures
        name@ == trade_stream_name(symbol@),
{
    let mut name = "publicTrade.".to_string();
    name.append(symbol);
    name
}

/// The texts of a list of strings.
pub open spec fn string_views(v: Seq<String>) -> Seq<Seq<char>> {
    v.map_values(|s: String| s@)
}

/// The order-book streams of the symbols, in their order.
pub fn orderbook_streams(category: BybitCategory, symbols: &Vec<String>, depth: Option<u16>) -> (streams:
    Vec<String>)
    ensures
        streams@.len() == symbols@.len(),
        forall|i: int|
            0 <= i < symbols@.len() ==> #[trigger] streams@[i]@ == orderbook_stream_name(
                category,
                symbols@[i]@,
                depth,
            ),
{
    let mut streams: Vec<String> = Vec::new();
    let mut i: usize = 0;
    while i < symbols.len()
        invariant
            i <= symbols.len(),
            streams@.len() == i,
            forall|j: int|
                0 <= j < i ==> #[trigger] streams@[j]@ == orderbook_stream_name(
                    category,
                    symbols@[j]@,
                    depth,
                ),
        decreases symbols.len() - i,
    {
        streams.push(orderbook_stream(category, symbols[i].as_str(), depth));
        i = i + 1;
    }
    streams
}

/// The public-trade streams of the symbols, in their order.
pub fn trade_streams(symbols: &Vec<String>) -> (streams: Vec<String>)
    ensures
        streams@.len() == symbols@.len(),
        forall|i: int|
            0 <= i < symbols@.len() ==> #[trigger] streams@[i]@ == trade_stream_name(
                symbols@[i]@,
            ),
{
    let mut streams: Vec<String> = Vec::new();
    let mut i: usize = 0;
    while i < symbols.len()
        invariant
            i <= symbols.len(),
            streams@.len() == i,
            forall|j: int|
                0 <= j < i ==> #[trigger] streams@[j]@ == trade_stream_name(symbols@[j]@),
        decreases symbols.len() - i,
    {
        streams.push(trade_stream(symbols[i].as_str()));
        i = i + 1;
    }
    streams
}

/// The symbol that a stream name ends with: the text after its last `.`.
pub fn stream_symbol(stream: &str) -> (symbol: String)
    ensures
        symbol@ == last_piece(stream@, '.'),
{
    split_last(stream, '.')
}

/// What a text message of the websocket is about.
pub enum TopicMessage {
    /// The message names no topic (a reply to a request, a pong).
    NoTopic,
    /// The message mentions a topic but holds too few quoted fields to
    /// name one.
    Malformed,
    /// The message is about the stream of this name.
    Topic(String),
}

/// The text of a topic message's stream name: the fourth field of the
/// message split at `"`, as in `{"topic":"<stream>",...}`.
pub fn message_topic(text: &str) -> (res: TopicMessage)
    ensures
        res is NoTopic <==> !contains_text(text@, "topic"@),
        res is Malformed <==> contains_text(text@, "topic"@) && nth_piece(text@, '"', 3) is None,
        res matches TopicMessage::Topic(stream) ==> contains_text(text@, "topic"@) && nth_piece(
            text@,
            '"',
            3,
        ) == Some(stream@),
{
    if !contains(text, "topic") {
        return TopicMessage::NoTopic;
    }
    match split_nth(text, '"', 3) {
        Some(stream) => TopicMessage::Topic(stream),
        None => TopicMessage::Malformed,
    }
}

/// What a watcher of trades does with a text message.
pub enum TradeAction {
    /// Nothing: the message names no topic.
    Ignore,
    /// Stop: the message mentions a topic but names no stream.
    Malformed,
    /// Store the message's trades with the imbalances of this symbol.
    Store { symbol: String },
}

/// Decides what to do with a text message of the public-trade streams:
/// the symbol is the text after the last `.` of the stream name.
pub fn trade_action(text: &str) -> (action: TradeAction)
    ensures
        match action {
            TradeAction::Ignore => !contains_text(text@, "topic"@),
            TradeAction::Malformed => contains_text(text@, "topic"@) && nth_piece(text@, '"', 3) is None,
            TradeAction::Store { symbol } => {
                &&& contains_text(text@, "topic"@)
                &&& nth_piece(text@, '"', 3) matches Some(stream)
                &&& symbol@ == last_piece(stream, '.')
            },
        },
{
    match message_topic(text) {
        TopicMessage::NoTopic => TradeAction::Ignore,
        TopicMessage::Malformed => TradeAction::Malformed,
        TopicMessage::Topic(stream) => TradeAction::Store { symbol: stream_symbol(stream.as_str()) },
    }
}

/// Whether a topic message is a snapshot of the book, not a delta.
pub fn is_snapshot_message(text: &str) -> (b: bool)
    ensures
        b == contains_text(text@, "snapshot"@),
{
    contains(text, "snapshot")
}

/// The symbol read back from the name of an order-book stream is the
/// symbol the name was made for, when that symbol holds no `.`.
pub proof fn lemma_orderbook_stream_symbol(category: BybitCategory, symbol: Seq<char>, depth: Option<u16>)
    requires
        !symbol.contains('.'),
    ensures
        last_piece(orderbook_stream_name(category, symbol, depth), '.') == symbol,
{
    let prefix = "orderbook."@ + decimal_text(stream_depth(category, depth) as nat);
    assert(orderbook_stream_name(category, symbol, depth) == prefix + seq!['.'] + symbol);
    lemma_split_concat(prefix, '.', symbol);
    lemma_split_without_separator(symbol, '.');
}

/// The symbol read back from the name of a public-trade stream is the
/// symbol the name was made for, when that symbol holds no `.`.
pub proof fn lemma_trade_stream_symbol(symbol: Seq<char>)
    requires
        !symbol.contains('.'),
    ensures
        last_piece(trade_stream_name(symbol), '.') == symbol,
{
    reveal_strlit("publicTrade.");
    let prefix = "publicTrade."@.subrange(0, 11);
    assert("publicTrade."@ =~= prefix + seq!['.']);
    assert(trade_stream_name(symbol) =~= prefix + seq!['.'] + symbol);
    lemma_split_concat(prefix, '.', symbol);
    lemma_split_without_separator(symbol, '.');
}

/// A message that opens with its topic: `{"topic":"<stream>"` and the rest.
pub open spec fn topic_message_text(stream: Seq<char>, rest: Seq<char>) -> Seq<char> {
    seq!['{', '"'] + "topic"@ + seq!['"', ':', '"'] + stream + seq!['"'] + rest
}

/// A message that opens with its topic is read as being about that
/// stream, when the stream name holds no `"`.
pub proof fn lemma_topic_message(stream: Seq<char>, rest: Seq<char>)
    requires
        !stream.contains('"'),
    ensures
        contains_text(topic_message_text(stream, rest), "topic"@),
        nth_piece(topic_message_text(stream, rest), '"', 3) == Some(stream),
{
    reveal_strlit("topic");
    let t = topic_message_text(stream, rest);
    assert(t.subrange(2, 7) =~= "topic"@);
    assert(crate::text::occurs_at(t, "topic"@, 2));
    let open = seq!['{'];
    let colon = seq![':'];
    let q = seq!['"'];
    assert(t =~= open + q + ("topic"@ + q + (colon + q + (stream + q + rest))));
    lemma_split_concat(open, '"', "topic"@ + q + (colon + q + (stream + q + rest)));
    lemma_split_concat("topic"@, '"', colon + q + (stream + q + rest));
    lemma_split_concat(colon, '"', stream + q + rest);
    lemma_split_concat(stream, '"', rest);
    assert(!open.contains('"')) by {
        assert(open[0] == '{');
    }
    assert(!colon.contains('"')) by {
        assert(colon[0] == ':');
    }
    assert(!"topic"@.contains('"')) by {
        assert forall|i: int| 0 <= i < "topic"@.len() implies "topic"@[i] != '"' by {}
    }
    lemma_split_without_separator(open, '"');
    lemma_split_without_separator("topic"@, '"');
    lemma_split_without_separator(colon, '"');
    lemma_split_without_separator(stream, '"');
}

#[verifier::external_type_specification]
#[verifier::external_body]
pub struct ExUrl(url::Url);

#[verifier::external_type_specification]
#[verifier::external_body]
pub struct ExUrlParseError(url::ParseError);

/// What `url::Url::parse` returns for a text: the parsed URL, or the kind
/// of error that refused it.
pub uninterp spec fn url_parse_outcome(input: Seq<char>) -> Result<url::Url, url::ParseError>;

/// Calls `url::Url::parse`. Claimed of it: its result, URL or error,
/// depends on the input text alone; what that result is, is left to the
/// name above.
#[verifier::external_body]
fn url_parse(input: &str) -> (res: Result<url::Url, url::ParseError>)
    ensures
        res == url_parse_outcome(input@),
{
    url::Url::parse(input)
}

/// Why a text was refused as a URL: the parser's kind of error, and its
/// description in the parser's words.
pub struct UrlParseError {
    pub kind: url::ParseError,
    pub message: String,
}

/// Parses the address of a stream: the URL that the parser gives, or the
/// kind of error with which it refuses the text.
pub fn parse_url(uri: &str) -> (res: Result<url::Url, UrlParseError>)
    ensures
        match url_parse_outcome(uri@) {
            Ok(u) => res == Ok::<url::Url, UrlParseError>(u),
            Err(e) => res matches Err(err) && err.kind == e,
        },
{
    match url_parse(uri) {
        Ok(url) => Ok(url),
        Err(err) => {
            let message = err.to_string();
            Err(UrlParseError { kind: err, message })
        },
    }
}

#[verifier::external_type_specification]
#[verifier::external_body]
pub struct ExJsonError(serde_json::Error);

/// The lower-case hexadecimal digit for `d`.
pub open spec fn hex_digit(d: int) -> char {
    seq!['0', '1', '2', '3', '4', '5', '6', '7', '8', '9', 'a', 'b', 'c', 'd', 'e', 'f'][d]
}

/// How a character is written inside a JSON string: `"` and `\` after a
/// backslash; backspace, tab, line feed, form feed and carriage return as
/// `\b`, `\t`, `\n`, `\f`, `\r`; every other character below U+0020 as
/// `\u00` and two lower-case hexadecimal digits; all others as they are.
pub open spec fn json_char(c: char) -> Seq<char> {
    if c == '"' {
        seq!['\\', '"']
    } else if c == '\\' {
        seq!['\\', '\\']
    } else if c == '\u{8}' {
        seq!['\\', 'b']
    } else if c == '\t' {
        seq!['\\', 't']
    } else if c == '\n' {
        seq!['\\', 'n']
    } else if c == '\u{c}' {
        seq!['\\', 'f']
    } else if c == '\r' {
        seq!['\\', 'r']
    } else if (c as int) < 0x20 {
        seq!['\\', 'u', '0', '0', hex_digit((c as int) / 16), hex_digit((c as int) % 16)]
    } else {
        seq![c]
    }
}

/// The escaped contents of a JSON string.
pub open spec fn json_escaped(s: Seq<char>) -> Seq<char>
    decreases s.len(),
{
    if s.len() == 0 {
        Seq::empty()
    } else {
        json_escaped(s.drop_last()) + json_char(s.last())
    }
}

/// A text as a JSON string: its escaped contents between `"` and `"`.
pub open spec fn json_string(s: Seq<char>) -> Seq<char> {
    seq!['"'] + json_escaped(s) + seq!['"']
}

/// The JSON strings of a list of texts, separated by `,`.
pub open spec fn json_items(items: Seq<Seq<char>>) -> Seq<char>
    decreases items.len(),
{
    if items.len() == 0 {
        Seq::empty()
    } else if items.len() == 1 {
        json_string(items[0])
    } else {
        json_items(items.drop_last()) + seq![','] + json_string(items.last())
    }
}

/// A list of texts as a compact JSON array: `[`, the JSON strings separated
/// by `,`, and `]`, with no white space.
pub open spec fn json_string_array(items: Seq<Seq<char>>) -> Seq<char> {
    seq!['['] + json_items(items) + seq![']']
}

/// A text with no character that JSON escapes is written as it is.
pub proof fn lemma_json_escaped_plain(s: Seq<char>)
    requires
        forall|i: int| 0 <= i < s.len() ==> #[trigger] s[i] != '"' && s[i] != '\\' && (s[i] as int) >= 0x20,
    ensures
        json_escaped(s) == s,
    decreases s.len(),
{
    if s.len() > 0 {
        let init = s.drop_last();
        assert forall|i: int| 0 <= i < init.len() implies #[trigger] init[i] != '"' && init[i] != '\\'
            && (init[i] as int) >= 0x20 by {
            assert(init[i] == s[i]);
        }
        lemma_json_escaped_plain(init);
        assert(s[s.len() - 1] == s.last());
        assert(init + seq![s.last()] =~= s);
    }
}

/// Calls `serde_json::to_string` on a list of strings. Claimed of it: it
/// succeeds, since a string never fails to serialize and the output is
/// written to memory; and the text is the compact JSON array of the
/// strings, escaped as serde_json's escape table does.
#[verifier::external_body]
fn json_strings(items: &Vec<String>) -> (res: Result<String, serde_json::Error>)
    ensures
        res is Ok,
        res matches Ok(text) ==> text@ == json_string_array(string_views(items@)),
{
    serde_json::to_string(items)
}

/// The subscription request around the JSON array of its streams:
/// `{"args":<streams>,"op":"subscribe"}`, its keys in sorted order.
pub open spec fn subscription_text(args_json: Seq<char>) -> Seq<char> {
    "{\"args\":"@ + args_json + ",\"op\":\"subscribe\"}"@
}

/// Frames the JSON array of the streams as a subscription request.
pub fn subscription_frame(args_json: &str) -> (text: String)
    ensures
        text@ == subscription_text(args_json@),
{
    let mut text = "{\"args\":".to_string();
    text.append(args_json);
    text.append(",\"op\":\"subscribe\"}");
    text
}

/// Why a subscription request could not be written, in the words of the
/// JSON writer.
pub struct SubscribeError {
    pub message: String,
}

/// The subscription request for the streams. Writing it never fails.
pub fn subscription_message(streams: &Vec<String>) -> (res: Result<String, SubscribeError>)
    ensures
        res is Ok,
        res matches Ok(text) ==> text@ == subscription_text(
            json_string_array(string_views(streams@)),
        ),
{
    match json_strings(streams) {
        Ok(args) => Ok(subscription_frame(args.as_str())),
        Err(err) => Err(SubscribeError { message: err.to_string() }),
    }
}

} // verus!
