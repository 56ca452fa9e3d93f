use vstd::prelude::*;
use vstd::string::*;
use crate::symbols::{SymbolDataType, symbol_prefix_of};
use crate::text::{concat_str, starts_with, str_eq, strip_prefix, strip_prefix_or_self, trim_start_all, trim_start_matches};

verus! {

/// Kind of market data carried by a feed message.
#[derive(Debug, Clone, Copy, PartialEq, Eq, Hash, Structural)]
pub enum DataType {
    Tick,
    Dom,
    Quote,
}

pub open spec fn prefix_of(t: DataType) -> Seq<char> {
    match t {
        DataType::Tick => "ticks/"@,
        DataType::Dom => "doms/"@,
        DataType::Quote => "quotes/"@,
    }
}

impl DataType {
    /// Key-expression prefix under which this kind of data is published.
    pub fn prefix(&self) -> (res: &'static str)
        ensures
            res@ == prefix_of(*self),
    {
        match self {
            DataType::Tick => "ticks/",
            DataType::Dom => "doms/",
            DataType::Quote => "quotes/",
        }
    }
}

/// Transport the market data arrives over.
#[derive(Debug, Clone, Copy, PartialEq, Eq, Structural)]
pub enum DataFeedBackend {
    Zmq,
    Zenoh,
}

impl Default for DataFeedBackend {
    fn default() -> (res: DataFeedBackend)
        ensures
            res == DataFeedBackend::Zmq,
    {
        DataFeedBackend::Zmq
    }
}

/// A symbol together with one kind of data for it.
pub struct Subscription {
    pub symbol: String,
    pub data_type: DataType,
}

/// The key under which a provider records a subscription: the data type's
/// prefix followed by the symbol.
pub open spec fn key_of(symbol: Seq<char>, t: DataType) -> Seq<char> {
    prefix_of(t) + symbol
}

/// Builds the subscription key of `symbol` for data type `t`.
pub fn subscription_key(symbol: &str, t: DataType) -> (res: String)
    ensures
        res@ == key_of(symbol@, t),
{
    concat_str(t.prefix(), symbol)
}

proof fn lemma_prefix_literals()
    ensures
        "ticks/"@.len() == 6 && "ticks/"@[0] == 't',
        "doms/"@.len() == 5 && "doms/"@[0] == 'd',
        "quotes/"@.len() == 7 && "quotes/"@[0] == 'q',
{
    reveal_strlit("ticks/");
    reveal_strlit("doms/");
    reveal_strlit("quotes/");
}

/// Distinct (symbol, data type) pairs get distinct keys.
pub proof fn lemma_key_injective(s1: Seq<char>, t1: DataType, s2: Seq<char>, t2: DataType)
    requires
        key_of(s1, t1) == key_of(s2, t2),
    ensures
        s1 == s2,
        t1 == t2,
{
    lemma_prefix_literals();
    assert(key_of(s1, t1)[0] == prefix_of(t1)[0]);
    assert(key_of(s2, t2)[0] == prefix_of(t2)[0]);
    assert(t1 == t2);
    let n = prefix_of(t1).len() as int;
    assert(s1 =~= key_of(s1, t1).skip(n));
    assert(s2 =~= key_of(s2, t2).skip(n));
}

/// The symbol a subscription key stands for, given its data type: the key
/// without the data type's prefix (the whole key when the prefix is absent).
pub fn symbol_of_key(key: &str, t: DataType) -> (res: String)
    ensures
        res@ == strip_prefix_or_self(key@, prefix_of(t)),
{
    String::from_str(strip_prefix(key, t.prefix()))
}

/// Reading the symbol back from a key gives the symbol it was built from.
pub proof fn lemma_symbol_of_key_roundtrip(symbol: Seq<char>, t: DataType)
    ensures
        strip_prefix_or_self(key_of(symbol, t), prefix_of(t)) == symbol,
{
    let k = key_of(symbol, t);
    let p = prefix_of(t);
    assert(k.subrange(0, p.len() as int) =~= p);
    assert(k.skip(p.len() as int) =~= symbol);
}

/// Data type of a transport topic, by its leading `ticks.`, `doms.` or
/// `quotes.`.
pub open spec fn topic_kind(topic: Seq<char>) -> Option<DataType> {
    if "ticks."@.len() <= topic.len() && topic.subrange(0, "ticks."@.len() as int) == "ticks."@ {
        Some(DataType::Tick)
    } else if "doms."@.len() <= topic.len() && topic.subrange(0, "doms."@.len() as int) == "doms."@ {
        Some(DataType::Dom)
    } else if "quotes."@.len() <= topic.len() && topic.subrange(0, "quotes."@.len() as int)
        == "quotes."@ {
        Some(DataType::Quote)
    } else {
        None
    }
}

/// Symbol of a transport topic: the topic with every leading `ticks.`, then
/// every leading `doms.`, then every leading `quotes.` removed.
pub open spec fn topic_symbol(topic: Seq<char>) -> Seq<char> {
    trim_start_all(trim_start_all(trim_start_all(topic, "ticks."@), "doms."@), "quotes."@)
}

/// Routes a received topic to its data type and symbol; unknown topics give
/// `None`.
pub fn route_topic(topic: &str) -> (res: Option<(DataType, String)>)
    ensures
        match res {
            Some((t, s)) => topic_kind(topic@) == Some(t) && s@ == topic_symbol(topic@),
            None => topic_kind(topic@) is None,
        },
{
    let t = if starts_with(topic, "ticks.") {
        DataType::Tick
    } else if starts_with(topic, "doms.") {
        DataType::Dom
    } else if starts_with(topic, "quotes.") {
        DataType::Quote
    } else {
        return None;
    };
    let a = trim_start_matches(topic, "ticks.");
    let b = trim_start_matches(a, "doms.");
    let c = trim_start_matches(b, "quotes.");
    Some((t, String::from_str(c)))
}


/// The feed data type that carries a symbol data type.
pub open spec fn feed_type_of(t: SymbolDataType) -> DataType {
    match t {
        SymbolDataType::Tick => DataType::Tick,
        SymbolDataType::Dom => DataType::Dom,
        SymbolDataType::Quote => DataType::Quote,
    }
}

/// The feed data type carrying a symbol data type.
pub fn data_type_of(t: SymbolDataType) -> (res: DataType)
    ensures
        res == feed_type_of(t),
{
    match t {
        SymbolDataType::Tick => DataType::Tick,
        SymbolDataType::Dom => DataType::Dom,
        SymbolDataType::Quote => DataType::Quote,
    }
}

/// `s` starts with `p`.
pub open spec fn has_prefix(s: Seq<char>, p: Seq<char>) -> bool {
    p.len() <= s.len() && s.subrange(0, p.len() as int) == p
}

proof fn lemma_topic_literals()
    ensures
        "ticks."@.len() == 6 && "ticks."@[0] == 't',
        "doms."@.len() == 5 && "doms."@[0] == 'd',
        "quotes."@.len() == 7 && "quotes."@[0] == 'q',
{
    reveal_strlit("ticks.");
    reveal_strlit("doms.");
    reveal_strlit("quotes.");
}

/// Trimming a prefix that `s` does not start with leaves `s` alone.
proof fn lemma_trim_absent(s: Seq<char>, p: Seq<char>)
    requires
        !has_prefix(s, p),
    ensures
        trim_start_all(s, p) == s,
{
}

/// Trimming `p` from `p + s` gives `s` when `s` does not start with `p`.
proof fn lemma_trim_once(s: Seq<char>, p: Seq<char>)
    requires
        p.len() > 0,
        !has_prefix(s, p),
    ensures
        trim_start_all(p + s, p) == s,
{
    assert((p + s).subrange(0, p.len() as int) =~= p);
    assert((p + s).skip(p.len() as int) =~= s);
    lemma_trim_absent(s, p);
}

/// A word starting with one prefix does not start with another prefix
/// whose first character differs.
proof fn lemma_first_char_differs(w: Seq<char>, q: Seq<char>)
    requires
        w.len() > 0,
        q.len() > 0,
        w[0] != q[0],
    ensures
        !has_prefix(w, q),
{
    if has_prefix(w, q) {
        assert(w.subrange(0, q.len() as int)[0] == w[0]);
    }
}

/// A topic made of a data type's topic prefix and a symbol routes back to
/// that data type and that symbol, provided the symbol does not itself start
/// with a topic prefix.
pub proof fn lemma_route_topic_roundtrip(symbol: Seq<char>, t: SymbolDataType)
    requires
        !has_prefix(symbol, "ticks."@),
        !has_prefix(symbol, "doms."@),
        !has_prefix(symbol, "quotes."@),
    ensures
        topic_kind(symbol_prefix_of(t) + symbol) == Some(feed_type_of(t)),
        topic_symbol(symbol_prefix_of(t) + symbol) == symbol,
{
    lemma_topic_literals();
    let tk = "ticks."@;
    let dm = "doms."@;
    let qt = "quotes."@;
    let topic = symbol_prefix_of(t) + symbol;
    match t {
        SymbolDataType::Tick => {
            assert(topic.subrange(0, 6) =~= tk);
            lemma_trim_once(symbol, tk);
            lemma_trim_absent(symbol, dm);
            lemma_trim_absent(symbol, qt);
        },
        SymbolDataType::Dom => {
            assert(topic[0] == 'd');
            lemma_first_char_differs(topic, tk);
            assert(topic.subrange(0, 5) =~= dm);
            lemma_trim_absent(topic, tk);
            lemma_trim_once(symbol, dm);
            lemma_trim_absent(symbol, qt);
        },
        SymbolDataType::Quote => {
            assert(topic[0] == 'q');
            lemma_first_char_differs(topic, tk);
            lemma_first_char_differs(topic, dm);
            assert(topic.subrange(0, 7) =~= qt);
            lemma_trim_absent(topic, tk);
            lemma_trim_absent(topic, dm);
            lemma_trim_once(symbol, qt);
        },
    }
}

/// Where a decoded feed update for `symbol` goes while `current` is the
/// symbol on screen: updates for other symbols are dropped, the rest go to
/// the view of their data type.
pub fn route_update(current: &str, symbol: &str, data_type: DataType) -> (res: Option<DataType>)
    ensures
        res == (if symbol@ == current@ {
            Some(data_type)
        } else {
            None
        }),
{
    if str_eq(symbol, current) {
        Some(data_type)
    } else {
        None
    }
}

} // verus!
