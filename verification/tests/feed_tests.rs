use acterminal::feed::{data_type_of, route_topic, subscription_key, symbol_of_key, DataFeedBackend, DataType};
use acterminal::subscriptions::{apply_symbol_change, plan_sync, SubscriptionTable};
use acterminal::symbols::SymbolChangeEvent;
use acterminal::symbols::SymbolDataType;

#[test]
fn prefixes_and_keys() {
    assert_eq!(DataType::Tick.prefix(), "ticks/");
    assert_eq!(DataType::Dom.prefix(), "doms/");
    assert_eq!(DataType::Quote.prefix(), "quotes/");
    assert_eq!(subscription_key("6E", DataType::Tick), "ticks/6E");
    assert_eq!(subscription_key("6J", DataType::Quote), "quotes/6J");
    assert_ne!(subscription_key("6E", DataType::Dom), subscription_key("6E", DataType::Quote));
}

#[test]
fn symbol_back_from_key() {
    assert_eq!(symbol_of_key("doms/6L", DataType::Dom), "6L");
    assert_eq!(symbol_of_key(&subscription_key("6S", DataType::Tick), DataType::Tick), "6S");
    assert_eq!(symbol_of_key("doms/6L", DataType::Tick), "doms/6L");
}

#[test]
fn topics_route_to_type_and_symbol() {
    assert_eq!(route_topic("ticks.6E"), Some((DataType::Tick, "6E".to_string())));
    assert_eq!(route_topic("doms.6J"), Some((DataType::Dom, "6J".to_string())));
    assert_eq!(route_topic("quotes.6A"), Some((DataType::Quote, "6A".to_string())));
    assert_eq!(route_topic("ticks.ticks.6E"), Some((DataType::Tick, "6E".to_string())));
    assert_eq!(route_topic("ticks.doms.6E"), Some((DataType::Tick, "6E".to_string())));
    assert_eq!(route_topic("quotes.doms.X"), Some((DataType::Quote, "doms.X".to_string())));
    assert_eq!(route_topic("tick.6E"), None);
    assert_eq!(route_topic(""), None);
    let t = "ticks.ticks.doms.quotes.Z";
    let expected = t.trim_start_matches("ticks.").trim_start_matches("doms.").trim_start_matches("quotes.");
    assert_eq!(route_topic(t).unwrap().1, expected);
}

#[test]
fn backend_default_and_type_mapping() {
    assert_eq!(DataFeedBackend::default(), DataFeedBackend::Zmq);
    assert_eq!(data_type_of(SymbolDataType::Tick), DataType::Tick);
    assert_eq!(data_type_of(SymbolDataType::Dom), DataType::Dom);
    assert_eq!(data_type_of(SymbolDataType::Quote), DataType::Quote);
}

#[test]
fn subscribe_unsubscribe() {
    let mut t = SubscriptionTable::new();
    assert!(!t.is_subscribed("6E", DataType::Tick));
    t.subscribe("6E", DataType::Tick);
    t.subscribe("6E", DataType::Dom);
    assert!(t.is_subscribed("6E", DataType::Tick));
    assert!(t.is_subscribed("6E", DataType::Dom));
    assert!(!t.is_subscribed("6E", DataType::Quote));
    assert!(!t.is_subscribed("6J", DataType::Tick));
    t.subscribe("6E", DataType::Tick);
    assert_eq!(t.entries().len(), 2);
    t.unsubscribe("6E", DataType::Tick);
    assert!(!t.is_subscribed("6E", DataType::Tick));
    assert!(t.is_subscribed("6E", DataType::Dom));
    t.unsubscribe("6J", DataType::Tick);
    assert_eq!(t.entries().len(), 1);
    assert!(t.contains_key("doms/6E"));
    assert_eq!(t.get("doms/6E"), Some(DataType::Dom));
    assert_eq!(t.get("ticks/6E"), None);
}

#[test]
fn insert_replaces_and_remove_reports() {
    let mut t = SubscriptionTable::new();
    t.insert("k".to_string(), DataType::Tick);
    t.insert("k".to_string(), DataType::Quote);
    assert_eq!(t.entries(), vec![("k".to_string(), DataType::Quote)]);
    assert_eq!(t.remove("k"), Some(DataType::Quote));
    assert_eq!(t.remove("k"), None);
}

#[test]
fn sync_plan_brings_live_to_target() {
    let mut live = SubscriptionTable::new();
    live.subscribe("6E", DataType::Tick);
    live.subscribe("6E", DataType::Dom);
    let mut target = SubscriptionTable::new();
    target.subscribe("6E", DataType::Dom);
    target.subscribe("6J", DataType::Tick);
    target.subscribe("6J", DataType::Quote);
    let plan = plan_sync(&live, &target);
    assert_eq!(plan.to_remove, vec!["ticks/6E".to_string()]);
    let mut added: Vec<String> = plan.to_add.iter().map(|(k, _)| k.clone()).collect();
    added.sort();
    assert_eq!(added, vec!["quotes/6J".to_string(), "ticks/6J".to_string()]);
    for k in &plan.to_remove {
        live.remove(k);
    }
    for (k, t) in plan.to_add {
        live.insert(k, t);
    }
    let mut a = live.entries();
    let mut b = target.entries();
    a.sort_by(|x, y| x.0.cmp(&y.0));
    b.sort_by(|x, y| x.0.cmp(&y.0));
    assert_eq!(a, b);
    let again = plan_sync(&live, &target);
    assert!(again.to_remove.is_empty() && again.to_add.is_empty());
}

#[test]
fn topic_from_prefix_routes_back() {
    for (t, d) in [
        (SymbolDataType::Tick, DataType::Tick),
        (SymbolDataType::Dom, DataType::Dom),
        (SymbolDataType::Quote, DataType::Quote),
    ] {
        for symbol in ["6E", "6J", "X"] {
            let topic = format!("{}{}", t.prefix(), symbol);
            assert_eq!(route_topic(&topic), Some((d, symbol.to_string())));
            assert_eq!(data_type_of(t), d);
        }
    }
}

#[test]
fn symbol_change_moves_subscriptions() {
    let all = vec![SymbolDataType::Tick, SymbolDataType::Dom, SymbolDataType::Quote];
    let mut t = SubscriptionTable::new();
    t.subscribe("6E", DataType::Tick);
    t.subscribe("6E", DataType::Dom);
    t.subscribe("6E", DataType::Quote);
    t.subscribe("6A", DataType::Tick);
    let event = SymbolChangeEvent {
        old_symbol: Some("6E".to_string()),
        new_symbol: Some("6J".to_string()),
        data_types: all.clone(),
    };
    apply_symbol_change(&mut t, &event);
    for d in [DataType::Tick, DataType::Dom, DataType::Quote] {
        assert!(!t.is_subscribed("6E", d));
        assert!(t.is_subscribed("6J", d));
    }
    assert!(t.is_subscribed("6A", DataType::Tick));
    assert_eq!(t.entries().len(), 4);

    let first = SymbolChangeEvent { old_symbol: None, new_symbol: Some("6B".to_string()), data_types: vec![SymbolDataType::Dom] };
    apply_symbol_change(&mut t, &first);
    assert!(t.is_subscribed("6B", DataType::Dom));
    assert!(!t.is_subscribed("6B", DataType::Tick));
    assert_eq!(t.entries().len(), 5);
}

#[test]
fn symbol_change_keeps_existing_record() {
    let mut t = SubscriptionTable::new();
    t.insert("ticks/6J".to_string(), DataType::Quote);
    let event = SymbolChangeEvent { old_symbol: None, new_symbol: Some("6J".to_string()), data_types: vec![SymbolDataType::Tick] };
    apply_symbol_change(&mut t, &event);
    assert_eq!(t.get("ticks/6J"), Some(DataType::Quote));
}

#[test]
fn unsubscribe_undoes_subscribe() {
    let mut t = SubscriptionTable::new();
    t.subscribe("6A", DataType::Quote);
    let before = t.entries();
    t.subscribe("6N", DataType::Dom);
    t.unsubscribe("6N", DataType::Dom);
    assert_eq!(t.entries(), before);
}
