use acterminal::symbols::{
    get_available_symbols, get_display_name, get_symbol_from_display, SymbolConfig, SymbolDataType, SymbolManager,
};

const CODES: [&str; 9] = ["6E", "6B", "6A", "6N", "6L", "6J", "6C", "6S", "6M"];

#[test]
fn display_names() {
    assert_eq!(get_display_name("6E"), "EURUSD");
    assert_eq!(get_display_name("6L"), "USDBRL");
    assert_eq!(get_display_name("6M"), "USDMXN");
    assert_eq!(get_display_name("ES"), "UNKNOWN");
    assert_eq!(get_symbol_from_display("USDJPY"), "6J");
    assert_eq!(get_symbol_from_display("EURGBP"), "6E");
}

#[test]
fn display_roundtrips() {
    for c in CODES {
        let d = get_display_name(c);
        assert_ne!(d, "UNKNOWN");
        assert_eq!(get_symbol_from_display(d), c);
        assert_eq!(get_display_name(get_symbol_from_display(d)), d);
    }
}

#[test]
fn available_symbols_in_selector_order() {
    let v = get_available_symbols();
    let names: Vec<&str> = v.iter().map(|c| c.name.as_str()).collect();
    assert_eq!(names, vec!["6L", "6E", "6A", "6B", "6C", "6J", "6S", "6M", "6N"]);
    for c in &v {
        assert_eq!(c.enabled_types, vec![SymbolDataType::Tick, SymbolDataType::Dom, SymbolDataType::Quote]);
        assert_ne!(get_display_name(&c.name), "UNKNOWN");
    }
}

#[test]
fn config_builders() {
    let c = SymbolConfig::new("6E");
    assert_eq!(c.name, "6E");
    assert_eq!(c.enabled_types.len(), 3);
    let c = c.with_types(vec![SymbolDataType::Quote]);
    assert_eq!(c.name, "6E");
    assert_eq!(c.enabled_types, vec![SymbolDataType::Quote]);
}

#[test]
fn symbol_prefixes() {
    assert_eq!(SymbolDataType::Tick.prefix(), "ticks.");
    assert_eq!(SymbolDataType::Dom.prefix(), "doms.");
    assert_eq!(SymbolDataType::Quote.prefix(), "quotes.");
}

#[test]
fn symbol_manager_reports_previous_selection() {
    let mut m = SymbolManager::new();
    let e = m.set_symbol("6E", vec![SymbolDataType::Tick, SymbolDataType::Dom]);
    assert_eq!(e.old_symbol, None);
    assert_eq!(e.new_symbol.as_deref(), Some("6E"));
    assert_eq!(e.data_types, vec![SymbolDataType::Tick, SymbolDataType::Dom]);
    let e = m.set_symbol("6J", vec![SymbolDataType::Quote]);
    assert_eq!(e.old_symbol.as_deref(), Some("6E"));
    assert_eq!(e.new_symbol.as_deref(), Some("6J"));
    let e = m.set_symbol("6E", vec![]);
    assert_eq!(e.old_symbol.as_deref(), Some("6J"));
    assert!(e.data_types.is_empty());
}
