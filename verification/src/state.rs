use vstd::prelude::*;
use vstd::string::*;

verus! {

/// Tabs of the terminal window.
#[derive(Debug, Clone, Copy, PartialEq, Eq, Structural)]
pub enum MonitorTab {
    OrderFlow,
    Infos,
    Settings,
}

pub open spec fn tab_of_index(index: usize) -> MonitorTab {
    if index == 1 {
        MonitorTab::Infos
    } else if index == 2 {
        MonitorTab::Settings
    } else {
        MonitorTab::OrderFlow
    }
}

impl MonitorTab {
    /// Tab at a position of the tab bar; unknown positions show the
    /// order-flow tab.
    pub fn from_index(index: usize) -> (res: MonitorTab)
        ensures
            res == tab_of_index(index),
    {
        match index {
            0 => MonitorTab::OrderFlow,
            1 => MonitorTab::Infos,
            2 => MonitorTab::Settings,
            _ => MonitorTab::OrderFlow,
        }
    }

    /// Position of the tab in the tab bar.
    pub fn index(&self) -> (res: usize)
        ensures
            tab_of_index(res) == *self,
            res < 3,
    {
        match self {
            MonitorTab::OrderFlow => 0,
            MonitorTab::Infos => 1,
            MonitorTab::Settings => 2,
        }
    }
}

/// The selected symbol and the latest tick, DOM snapshot and quote received.
pub struct MarketDataState<T, D, Q> {
    current_symbol: String,
    last_tick: Option<T>,
    last_dom: Option<D>,
    last_quote: Option<Q>,
}

impl<T, D, Q> MarketDataState<T, D, Q> {
    pub closed spec fn symbol_view(&self) -> Seq<char> {
        self.current_symbol@
    }

    pub closed spec fn tick_view(&self) -> Option<T> {
        self.last_tick
    }

    pub closed spec fn dom_view(&self) -> Option<D> {
        self.last_dom
    }

    pub closed spec fn quote_view(&self) -> Option<Q> {
        self.last_quote
    }

    /// Nothing received yet for `initial_symbol`.
    pub fn new(initial_symbol: &str) -> (res: Self)
        ensures
            res.symbol_view() == initial_symbol@,
            res.tick_view() is None,
            res.dom_view() is None,
            res.quote_view() is None,
    {
        MarketDataState {
            current_symbol: String::from_str(initial_symbol),
            last_tick: None,
            last_dom: None,
            last_quote: None,
        }
    }

    /// Records the latest tick.
    pub fn update_tick(&mut self, tick: T)
        ensures
            final(self).tick_view() == Some(tick),
            final(self).dom_view() == old(self).dom_view(),
            final(self).quote_view() == old(self).quote_view(),
            final(self).symbol_view() == old(self).symbol_view(),
    {
        self.last_tick = Some(tick);
    }

    /// Records the latest DOM snapshot.
    pub fn update_dom(&mut self, dom: D)
        ensures
            final(self).dom_view() == Some(dom),
            final(self).tick_view() == old(self).tick_view(),
            final(self).quote_view() == old(self).quote_view(),
            final(self).symbol_view() == old(self).symbol_view(),
    {
        self.last_dom = Some(dom);
    }

    /// Records the latest quote.
    pub fn update_quote(&mut self, quote: Q)
        ensures
            final(self).quote_view() == Some(quote),
            final(self).tick_view() == old(self).tick_view(),
            final(self).dom_view() == old(self).dom_view(),
            final(self).symbol_view() == old(self).symbol_view(),
    {
        self.last_quote = Some(quote);
    }

    /// The latest tick, if any.
    pub fn get_last_tick(&self) -> (res: &Option<T>)
        ensures
            *res == self.tick_view(),
    {
        &self.last_tick
    }

    /// The latest DOM snapshot, if any.
    pub fn get_last_dom(&self) -> (res: &Option<D>)
        ensures
            *res == self.dom_view(),
    {
        &self.last_dom
    }

    /// The latest quote, if any.
    pub fn get_last_quote(&self) -> (res: &Option<Q>)
        ensures
            *res == self.quote_view(),
    {
        &self.last_quote
    }

    /// The selected symbol.
    pub fn get_symbol(&self) -> (res: String)
        ensures
            res@ == self.symbol_view(),
    {
        self.current_symbol.clone()
    }

    /// Selects another symbol.
    pub fn set_symbol(&mut self, symbol: &str)
        ensures
            final(self).symbol_view() == symbol@,
            final(self).tick_view() == old(self).tick_view(),
            final(self).dom_view() == old(self).dom_view(),
            final(self).quote_view() == old(self).quote_view(),
    {
        self.current_symbol = String::from_str(symbol);
    }

    /// Forgets the latest tick, DOM snapshot and quote.
    pub fn clear(&mut self)
        ensures
            final(self).tick_view() is None,
            final(self).dom_view() is None,
            final(self).quote_view() is None,
            final(self).symbol_view() == old(self).symbol_view(),
    {
        self.last_tick = None;
        self.last_dom = None;
        self.last_quote = None;
    }
}

} // verus!
