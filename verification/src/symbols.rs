use vstd::prelude::*;
use vstd::string::*;
use crate::text::str_eq;

verus! {

/// Kind of market data a symbol can be subscribed to.
#[derive(Debug, Clone, Copy, PartialEq, Eq, Hash, Structural)]
pub enum SymbolDataType {
    Tick,
    Dom,
    Quote,
}

pub open spec fn symbol_prefix_of(t: SymbolDataType) -> Seq<char> {
    match t {
        SymbolDataType::Tick => "ticks."@,
        SymbolDataType::Dom => "doms."@,
        SymbolDataType::Quote => "quotes."@,
    }
}

impl SymbolDataType {
    /// Topic prefix of this kind of data.
    pub fn prefix(&self) -> (res: &'static str)
        ensures
            res@ == symbol_prefix_of(*self),
    {
        match self {
            SymbolDataType::Tick => "ticks.",
            SymbolDataType::Dom => "doms.",
            SymbolDataType::Quote => "quotes.",
        }
    }
}

/// All three kinds of data, in the order the terminal subscribes to them.
pub open spec fn all_data_types() -> Seq<SymbolDataType> {
    seq![SymbolDataType::Tick, SymbolDataType::Dom, SymbolDataType::Quote]
}

/// A tradable symbol and the kinds of data enabled for it.
#[derive(Debug, Clone)]
pub struct SymbolConfig {
    pub name: String,
    pub enabled_types: Vec<SymbolDataType>,
}

fn all_types_vec() -> (res: Vec<SymbolDataType>)
    ensures
        res@ == all_data_types(),
{
    let mut v: Vec<SymbolDataType> = Vec::new();
    v.push(SymbolDataType::Tick);
    v.push(SymbolDataType::Dom);
    v.push(SymbolDataType::Quote);
    v
}

impl SymbolConfig {
    /// A symbol with every kind of data enabled.
    pub fn new(name: &str) -> (res: SymbolConfig)
        ensures
            res.name@ == name@,
            res.enabled_types@ == all_data_types(),
    {
        SymbolConfig { name: String::from_str(name), enabled_types: all_types_vec() }
    }

    /// The same symbol with exactly the given kinds of data enabled.
    pub fn with_types(self, types: Vec<SymbolDataType>) -> (res: SymbolConfig)
        ensures
            res.name@ == self.name@,
            res.enabled_types@ == types@,
    {
        let mut s = self;
        s.enabled_types = types;
        s
    }
}

/// The CME futures codes the terminal knows, in selector order.
pub open spec fn available_codes() -> Seq<Seq<char>> {
    seq!["6L"@, "6E"@, "6A"@, "6B"@, "6C"@, "6J"@, "6S"@, "6M"@, "6N"@]
}

/// Forex display name of a CME futures code; unknown codes show as "UNKNOWN".
pub open spec fn display_name_of(symbol: Seq<char>) -> Seq<char> {
    if symbol == "6E"@ {
        "EURUSD"@
    } else if symbol == "6B"@ {
        "GBPUSD"@
    } else if symbol == "6A"@ {
        "AUDUSD"@
    } else if symbol == "6N"@ {
        "NZDUSD"@
    } else if symbol == "6L"@ {
        "USDBRL"@
    } else if symbol == "6J"@ {
        "USDJPY"@
    } else if symbol == "6C"@ {
        "USDCAD"@
    } else if symbol == "6S"@ {
        "USDCHF"@
    } else if symbol == "6M"@ {
        "USDMXN"@
    } else {
        "UNKNOWN"@
    }
}

/// CME futures code of a display name; unknown names fall back to "6E".
pub open spec fn symbol_of_display(display: Seq<char>) -> Seq<char> {
    if display == "EURUSD"@ {
        "6E"@
    } else if display == "GBPUSD"@ {
        "6B"@
    } else if display == "AUDUSD"@ {
        "6A"@
    } else if display == "NZDUSD"@ {
        "6N"@
    } else if display == "USDBRL"@ {
        "6L"@
    } else if display == "USDJPY"@ {
        "6J"@
    } else if display == "USDCAD"@ {
        "6C"@
    } else if display == "USDCHF"@ {
        "6S"@
    } else if display == "USDMXN"@ {
        "6M"@
    } else {
        "6E"@
    }
}

/// Convert a CME futures code to its display name (Forex pair format).
pub fn get_display_name(symbol: &str) -> (res: &'static str)
    ensures
        res@ == display_name_of(symbol@),
{
    if str_eq(symbol, "6E") {
        "EURUSD"
    } else if str_eq(symbol, "6B") {
        "GBPUSD"
    } else if str_eq(symbol, "6A") {
        "AUDUSD"
    } else if str_eq(symbol, "6N") {
        "NZDUSD"
    } else if str_eq(symbol, "6L") {
        "USDBRL"
    } else if str_eq(symbol, "6J") {
        "USDJPY"
    } else if str_eq(symbol, "6C") {
        "USDCAD"
    } else if str_eq(symbol, "6S") {
        "USDCHF"
    } else if str_eq(symbol, "6M") {
        "USDMXN"
    } else {
        "UNKNOWN"
    }
}

/// Convert a display name back to the internal CME futures code.
pub fn get_symbol_from_display(display: &str) -> (res: &'static str)
    ensures
        res@ == symbol_of_display(display@),
{
    if str_eq(display, "EURUSD") {
        "6E"
    } else if str_eq(display, "GBPUSD") {
        "6B"
    } else if str_eq(display, "AUDUSD") {
        "6A"
    } else if str_eq(display, "NZDUSD") {
        "6N"
    } else if str_eq(display, "USDBRL") {
        "6L"
    } else if str_eq(display, "USDJPY") {
        "6J"
    } else if str_eq(display, "USDCAD") {
        "6C"
    } else if str_eq(display, "USDCHF") {
        "6S"
    } else if str_eq(display, "USDMXN") {
        "6M"
    } else {
        "6E"
    }
}

/// The symbols offered in the selector, each with every kind of data enabled.
pub fn get_available_symbols() -> (res: Vec<SymbolConfig>)
    ensures
        res@.len() == available_codes().len(),
        forall|i: int|
            0 <= i < res@.len() ==> (#[trigger] res@[i]).name@ == available_codes()[i]
                && res@[i].enabled_types@ == all_data_types(),
{
    let mut v: Vec<SymbolConfig> = Vec::new();
    v.push(SymbolConfig::new("6L").with_types(all_types_vec()));
    v.push(SymbolConfig::new("6E").with_types(all_types_vec()));
    v.push(SymbolConfig::new("6A").with_types(all_types_vec()));
    v.push(SymbolConfig::new("6B").with_types(all_types_vec()));
    v.push(SymbolConfig::new("6C").with_types(all_types_vec()));
    v.push(SymbolConfig::new("6J").with_types(all_types_vec()));
    v.push(SymbolConfig::new("6S").with_types(all_types_vec()));
    v.push(SymbolConfig::new("6M").with_types(all_types_vec()));
    v.push(SymbolConfig::new("6N").with_types(all_types_vec()));
    v
}


/// Facts about the symbol and display-name literals that tell them apart.
proof fn lemma_symbol_literals()
    ensures
        forall|i: int, j: int|
            0 <= i < j < available_codes().len() ==> available_codes()[i] != available_codes()[j],
        "EURUSD"@ != "UNKNOWN"@,
        "GBPUSD"@ != "UNKNOWN"@,
        "AUDUSD"@ != "UNKNOWN"@,
        "NZDUSD"@ != "UNKNOWN"@,
        "USDBRL"@ != "UNKNOWN"@,
        "USDJPY"@ != "UNKNOWN"@,
        "USDCAD"@ != "UNKNOWN"@,
        "USDCHF"@ != "UNKNOWN"@,
        "USDMXN"@ != "UNKNOWN"@,
        "GBPUSD"@ != "EURUSD"@,
        "AUDUSD"@ != "EURUSD"@,
        "AUDUSD"@ != "GBPUSD"@,
        "NZDUSD"@ != "EURUSD"@,
        "NZDUSD"@ != "GBPUSD"@,
        "NZDUSD"@ != "AUDUSD"@,
        "USDBRL"@ != "EURUSD"@,
        "USDBRL"@ != "GBPUSD"@,
        "USDBRL"@ != "AUDUSD"@,
        "USDBRL"@ != "NZDUSD"@,
        "USDJPY"@ != "EURUSD"@,
        "USDJPY"@ != "GBPUSD"@,
        "USDJPY"@ != "AUDUSD"@,
        "USDJPY"@ != "NZDUSD"@,
        "USDJPY"@ != "USDBRL"@,
        "USDCAD"@ != "EURUSD"@,
        "USDCAD"@ != "GBPUSD"@,
        "USDCAD"@ != "AUDUSD"@,
        "USDCAD"@ != "NZDUSD"@,
        "USDCAD"@ != "USDBRL"@,
        "USDCAD"@ != "USDJPY"@,
        "USDCHF"@ != "EURUSD"@,
        "USDCHF"@ != "GBPUSD"@,
        "USDCHF"@ != "AUDUSD"@,
        "USDCHF"@ != "NZDUSD"@,
        "USDCHF"@ != "USDBRL"@,
        "USDCHF"@ != "USDJPY"@,
        "USDCHF"@ != "USDCAD"@,
        "USDMXN"@ != "EURUSD"@,
        "USDMXN"@ != "GBPUSD"@,
        "USDMXN"@ != "AUDUSD"@,
        "USDMXN"@ != "NZDUSD"@,
        "USDMXN"@ != "USDBRL"@,
        "USDMXN"@ != "USDJPY"@,
        "USDMXN"@ != "USDCAD"@,
        "USDMXN"@ != "USDCHF"@,
{
    reveal_strlit("6L");
    assert("6L"@.len() == 2 && "6L"@[1] == 'L');
    reveal_strlit("6E");
    assert("6E"@.len() == 2 && "6E"@[1] == 'E');
    reveal_strlit("6A");
    assert("6A"@.len() == 2 && "6A"@[1] == 'A');
    reveal_strlit("6B");
    assert("6B"@.len() == 2 && "6B"@[1] == 'B');
    reveal_strlit("6C");
    assert("6C"@.len() == 2 && "6C"@[1] == 'C');
    reveal_strlit("6J");
    assert("6J"@.len() == 2 && "6J"@[1] == 'J');
    reveal_strlit("6S");
    assert("6S"@.len() == 2 && "6S"@[1] == 'S');
    reveal_strlit("6M");
    assert("6M"@.len() == 2 && "6M"@[1] == 'M');
    reveal_strlit("6N");
    assert("6N"@.len() == 2 && "6N"@[1] == 'N');
    reveal_strlit("EURUSD");
    assert("EURUSD"@.len() == 6 && "EURUSD"@[0] == 'E' && "EURUSD"@[3] == 'U' && "EURUSD"@[4] == 'S');
    reveal_strlit("GBPUSD");
    assert("GBPUSD"@.len() == 6 && "GBPUSD"@[0] == 'G' && "GBPUSD"@[3] == 'U' && "GBPUSD"@[4] == 'S');
    reveal_strlit("AUDUSD");
    assert("AUDUSD"@.len() == 6 && "AUDUSD"@[0] == 'A' && "AUDUSD"@[3] == 'U' && "AUDUSD"@[4] == 'S');
    reveal_strlit("NZDUSD");
    assert("NZDUSD"@.len() == 6 && "NZDUSD"@[0] == 'N' && "NZDUSD"@[3] == 'U' && "NZDUSD"@[4] == 'S');
    reveal_strlit("USDBRL");
    assert("USDBRL"@.len() == 6 && "USDBRL"@[0] == 'U' && "USDBRL"@[3] == 'B' && "USDBRL"@[4] == 'R');
    reveal_strlit("USDJPY");
    assert("USDJPY"@.len() == 6 && "USDJPY"@[0] == 'U' && "USDJPY"@[3] == 'J' && "USDJPY"@[4] == 'P');
    reveal_strlit("USDCAD");
    assert("USDCAD"@.len() == 6 && "USDCAD"@[0] == 'U' && "USDCAD"@[3] == 'C' && "USDCAD"@[4] == 'A');
    reveal_strlit("USDCHF");
    assert("USDCHF"@.len() == 6 && "USDCHF"@[0] == 'U' && "USDCHF"@[3] == 'C' && "USDCHF"@[4] == 'H');
    reveal_strlit("USDMXN");
    assert("USDMXN"@.len() == 6 && "USDMXN"@[0] == 'U' && "USDMXN"@[3] == 'M' && "USDMXN"@[4] == 'X');
    reveal_strlit("UNKNOWN");
    assert("UNKNOWN"@.len() == 7 && "UNKNOWN"@[0] == 'U' && "UNKNOWN"@[3] == 'N' && "UNKNOWN"@[4] == 'O');
}

/// Every symbol offered in the selector has a known display name, and going
/// from the code to its display name and back gives the code again.
pub proof fn lemma_display_roundtrip_for_available(i: int)
    requires
        0 <= i < available_codes().len(),
    ensures
        display_name_of(available_codes()[i]) != "UNKNOWN"@,
        symbol_of_display(display_name_of(available_codes()[i])) == available_codes()[i],
{
    lemma_symbol_literals();
}

/// Going from a known display name to its code and back gives the display
/// name again.
pub proof fn lemma_symbol_roundtrip_for_known_display(display: Seq<char>)
    requires
        exists|i: int| 0 <= i < available_codes().len() && display == display_name_of(
            #[trigger] available_codes()[i],
        ),
    ensures
        display_name_of(symbol_of_display(display)) == display,
{
    lemma_symbol_literals();
}

/// The selector offers no symbol twice.
pub proof fn lemma_available_codes_distinct()
    ensures
        forall|i: int, j: int|
            0 <= i < j < available_codes().len() ==> available_codes()[i] != available_codes()[j],
{
    lemma_symbol_literals();
}


/// Announcement that the selected symbol changed.
#[derive(Debug, Clone)]
pub struct SymbolChangeEvent {
    pub old_symbol: Option<String>,
    pub new_symbol: Option<String>,
    pub data_types: Vec<SymbolDataType>,
}

pub open spec fn opt_string_view(o: Option<String>) -> Option<Seq<char>> {
    match o {
        Some(s) => Some(s@),
        None => None,
    }
}

/// Map from symbol to data types given by an association list; a later
/// entry for the same symbol overrides an earlier one.
pub open spec fn assoc_map(s: Seq<(String, Vec<SymbolDataType>)>) -> Map<
    Seq<char>,
    Seq<SymbolDataType>,
>
    decreases s.len(),
{
    if s.len() == 0 {
        Map::empty()
    } else {
        assoc_map(s.drop_last()).insert(s.last().0@, s.last().1@)
    }
}

pub open spec fn keys_unique(s: Seq<(String, Vec<SymbolDataType>)>) -> bool {
    forall|i: int, j: int| 0 <= i < j < s.len() ==> (#[trigger] s[i]).0@ != (#[trigger] s[j]).0@
}

proof fn lemma_assoc_map_domain(s: Seq<(String, Vec<SymbolDataType>)>, k: Seq<char>)
    ensures
        assoc_map(s).dom().contains(k) <==> exists|i: int| 0 <= i < s.len() && (#[trigger] s[i]).0@ == k,
    decreases s.len(),
{
    if s.len() > 0 {
        lemma_assoc_map_domain(s.drop_last(), k);
        if assoc_map(s).dom().contains(k) && s.last().0@ != k {
            let i = choose|i: int| 0 <= i < s.drop_last().len() && (#[trigger] s.drop_last()[i]).0@ == k;
            assert(s[i].0@ == k);
        }
        if exists|i: int| 0 <= i < s.len() && (#[trigger] s[i]).0@ == k {
            let i = choose|i: int| 0 <= i < s.len() && (#[trigger] s[i]).0@ == k;
            if i < s.len() - 1 {
                assert(s.drop_last()[i].0@ == k);
            }
        }
    }
}

proof fn lemma_assoc_map_update(
    s: Seq<(String, Vec<SymbolDataType>)>,
    i: int,
    e: (String, Vec<SymbolDataType>),
)
    requires
        keys_unique(s),
        0 <= i < s.len(),
        s[i].0@ == e.0@,
    ensures
        assoc_map(s.update(i, e)) == assoc_map(s).insert(e.0@, e.1@),
    decreases s.len(),
{
    let t = s.update(i, e);
    if i == s.len() - 1 {
        assert(t.drop_last() =~= s.drop_last());
        assert(assoc_map(t) =~= assoc_map(s).insert(e.0@, e.1@));
    } else {
        assert(t.drop_last() =~= s.drop_last().update(i, e));
        assert(keys_unique(s.drop_last()));
        lemma_assoc_map_update(s.drop_last(), i, e);
        assert(s.last().0@ != e.0@);
        assert(assoc_map(t) =~= assoc_map(s).insert(e.0@, e.1@));
    }
}

/// Tracks the selected symbol and, for every symbol ever selected, the data
/// types last requested for it.
pub struct SymbolManager {
    current_symbol: Option<String>,
    subscriptions: Vec<(String, Vec<SymbolDataType>)>,
}

fn copy_types(v: &Vec<SymbolDataType>) -> (res: Vec<SymbolDataType>)
    ensures
        res@ == v@,
{
    let mut r: Vec<SymbolDataType> = Vec::new();
    let mut i: usize = 0;
    while i < v.len()
        invariant
            i <= v@.len(),
            r@ == v@.take(i as int),
        decreases v@.len() - i,
    {
        r.push(v[i]);
        i = i + 1;
        assert(r@ =~= v@.take(i as int));
    }
    assert(v@.take(v@.len() as int) =~= v@);
    r
}

impl SymbolManager {
    /// No symbol is recorded twice.
    #[verifier::type_invariant]
    closed spec fn wf(&self) -> bool {
        keys_unique(self.subscriptions@)
    }

    /// The selected symbol, if any.
    pub closed spec fn current(&self) -> Option<Seq<char>> {
        opt_string_view(self.current_symbol)
    }

    /// The data types last requested for each symbol that was ever selected.
    pub closed spec fn subscriptions(&self) -> Map<Seq<char>, Seq<SymbolDataType>> {
        assoc_map(self.subscriptions@)
    }

    /// No symbol selected, nothing recorded.
    pub fn new() -> (res: SymbolManager)
        ensures
            res.current() == None::<Seq<char>>,
            res.subscriptions() == Map::<Seq<char>, Seq<SymbolDataType>>::empty(),
    {
        SymbolManager { current_symbol: None, subscriptions: Vec::new() }
    }

    /// Selects `symbol`, records the requested data types for it and returns
    /// the change event to announce: the previous selection, the new one and
    /// the data types.
    pub fn set_symbol(&mut self, symbol: &str, data_types: Vec<SymbolDataType>) -> (res:
        SymbolChangeEvent)
        ensures
            final(self).current() == Some(symbol@),
            final(self).subscriptions() == old(self).subscriptions().insert(symbol@, data_types@),
            opt_string_view(res.old_symbol) == old(self).current(),
            opt_string_view(res.new_symbol) == Some(symbol@),
            res.data_types@ == data_types@,
    {
        proof {
            use_type_invariant(&*self);
        }
        let old_symbol = match &self.current_symbol {
            Some(s) => Some(s.clone()),
            None => None,
        };
        self.current_symbol = Some(String::from_str(symbol));
        let entry = (String::from_str(symbol), copy_types(&data_types));
        let mut subs: Vec<(String, Vec<SymbolDataType>)> = Vec::new();
        std::mem::swap(&mut subs, &mut self.subscriptions);
        let ghost before = subs@;
        assert(before == old(self).subscriptions@);
        let mut i: usize = 0;
        let mut found = false;
        while i < subs.len()
            invariant_except_break
                !found,
            invariant
                i <= subs@.len(),
                subs@ == before,
                forall|j: int| 0 <= j < i ==> (#[trigger] subs@[j]).0@ != symbol@,
            ensures
                subs@ == before,
                found ==> i < subs@.len() && subs@[i as int].0@ == symbol@,
                !found ==> forall|j: int| 0 <= j < subs@.len() ==> (#[trigger] subs@[j]).0@ != symbol@,
            decreases subs@.len() - i,
        {
            if str_eq(subs[i].0.as_str(), symbol) {
                found = true;
                break;
            }
            i = i + 1;
        }
        if found {
            proof {
                lemma_assoc_map_update(before, i as int, entry);
            }
            subs.set(i, entry);
            assert(keys_unique(subs@));
        } else {
            subs.push(entry);
            assert(subs@.drop_last() =~= before);
            assert(keys_unique(subs@));
        }
        self.subscriptions = subs;
        let new_symbol = Some(String::from_str(symbol));
        SymbolChangeEvent { old_symbol, new_symbol, data_types }
    }
}

/// ISO code of the currency a CME FX future is written on (6E Euro FX,
/// 6B British pound, 6A Australian dollar, 6N New Zealand dollar, 6L
/// Brazilian real, 6J Japanese yen, 6C Canadian dollar, 6S Swiss franc, 6M
/// Mexican peso); empty for other codes.
pub open spec fn contract_currency(code: Seq<char>) -> Seq<char> {
    if code == "6E"@ {
        "EUR"@
    } else if code == "6B"@ {
        "GBP"@
    } else if code == "6A"@ {
        "AUD"@
    } else if code == "6N"@ {
        "NZD"@
    } else if code == "6L"@ {
        "BRL"@
    } else if code == "6J"@ {
        "JPY"@
    } else if code == "6C"@ {
        "CAD"@
    } else if code == "6S"@ {
        "CHF"@
    } else if code == "6M"@ {
        "MXN"@
    } else {
        Seq::empty()
    }
}

/// A six-letter pair name made of `currency` and USD, in either order.
pub open spec fn is_usd_pair_of(name: Seq<char>, currency: Seq<char>) -> bool {
    name == currency + "USD"@ || name == "USD"@ + currency
}

proof fn lemma_currency_literals()
    ensures
        "EURUSD"@ == "EUR"@ + "USD"@,
        "GBPUSD"@ == "GBP"@ + "USD"@,
        "AUDUSD"@ == "AUD"@ + "USD"@,
        "NZDUSD"@ == "NZD"@ + "USD"@,
        "USDBRL"@ == "USD"@ + "BRL"@,
        "USDJPY"@ == "USD"@ + "JPY"@,
        "USDCAD"@ == "USD"@ + "CAD"@,
        "USDCHF"@ == "USD"@ + "CHF"@,
        "USDMXN"@ == "USD"@ + "MXN"@,
{
    reveal_strlit("USD");
    reveal_strlit("EUR");
    reveal_strlit("GBP");
    reveal_strlit("AUD");
    reveal_strlit("NZD");
    reveal_strlit("BRL");
    reveal_strlit("JPY");
    reveal_strlit("CAD");
    reveal_strlit("CHF");
    reveal_strlit("MXN");
    reveal_strlit("EURUSD");
    reveal_strlit("GBPUSD");
    reveal_strlit("AUDUSD");
    reveal_strlit("NZDUSD");
    reveal_strlit("USDBRL");
    reveal_strlit("USDJPY");
    reveal_strlit("USDCAD");
    reveal_strlit("USDCHF");
    reveal_strlit("USDMXN");
    assert("EURUSD"@ =~= "EUR"@ + "USD"@);
    assert("GBPUSD"@ =~= "GBP"@ + "USD"@);
    assert("AUDUSD"@ =~= "AUD"@ + "USD"@);
    assert("NZDUSD"@ =~= "NZD"@ + "USD"@);
    assert("USDBRL"@ =~= "USD"@ + "BRL"@);
    assert("USDJPY"@ =~= "USD"@ + "JPY"@);
    assert("USDCAD"@ =~= "USD"@ + "CAD"@);
    assert("USDCHF"@ =~= "USD"@ + "CHF"@);
    assert("USDMXN"@ =~= "USD"@ + "MXN"@);
}

/// Every offered future is shown as the pair of its own currency against
/// USD, and selecting that pair by name gives the future back.
pub proof fn lemma_display_names_name_the_contract_currency(i: int)
    requires
        0 <= i < available_codes().len(),
    ensures
        is_usd_pair_of(display_name_of(available_codes()[i]), contract_currency(available_codes()[i])),
        symbol_of_display(display_name_of(available_codes()[i])) == available_codes()[i],
{
    lemma_currency_literals();
    lemma_symbol_literals();
}

/// Selecting a pair by the name of an offered future's currency against USD
/// (in either order, as the selector lists it) gives that future.
pub proof fn lemma_selecting_a_pair_gives_its_future(name: Seq<char>, i: int)
    requires
        0 <= i < available_codes().len(),
        name == display_name_of(available_codes()[i]),
    ensures
        is_usd_pair_of(name, contract_currency(symbol_of_display(name))),
        contract_currency(symbol_of_display(name)) == contract_currency(available_codes()[i]),
{
    lemma_display_names_name_the_contract_currency(i);
}

} // verus!
