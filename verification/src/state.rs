//! Shared application state: the current query, the scored result items, the
//! selection, and the interaction mode.
use vstd::prelude::*;

use crate::commands::Action;
use crate::commands::ActionView;
use crate::commands::clone_opt_str;
use crate::commands::opt_str_view;

verus! {

/// Which interaction mode the application is in.
#[derive(Clone, Copy, Debug, PartialEq, Eq, Structural)]
pub enum AppMode {
    Search,
    Command,
}

/// A scored result produced by the search engine. Immutable once placed into
/// the shared state; its identifier stays stable for a query's lifetime so
/// selection and activation can reference it safely.
#[derive(Debug, PartialEq)]
pub struct Item {
    pub id: u128,
    pub title: String,
    pub subtitle: Option<String>,
    pub icon: Option<String>,
    pub score: u32,
    pub actions: Vec<Action>,
}

/// Mathematical model of an `Item`.
pub ghost struct ItemView {
    pub id: u128,
    pub title: Seq<char>,
    pub subtitle: Option<Seq<char>>,
    pub icon: Option<Seq<char>>,
    pub score: u32,
    pub actions: Seq<ActionView>,
}

impl View for Item {
    type V = ItemView;

    open spec fn view(&self) -> ItemView {
        ItemView {
            id: self.id,
            title: self.title@,
            subtitle: opt_str_view(self.subtitle),
            icon: opt_str_view(self.icon),
            score: self.score,
            actions: self.actions@.map_values(|a: Action| a@),
        }
    }
}

impl Clone for Item {
    fn clone(&self) -> (r: Self)
        ensures
            r@ == self@,
    {
        let mut cloned_actions: Vec<Action> = Vec::new();
        let mut i: usize = 0;
        while i < self.actions.len()
            invariant
                i <= self.actions.len(),
                cloned_actions@.len() == i as int,
                forall|j: int| 0 <= j < i ==> cloned_actions@[j]@ == self.actions@[j]@,
            decreases self.actions.len() - i,
        {
            cloned_actions.push(self.actions[i].clone());
            i = i + 1;
        }
        proof {
            assert(cloned_actions@.map_values(|a: Action| a@) =~= self.actions@.map_values(
                |a: Action| a@,
            ));
        }
        Item {
            id: self.id,
            title: self.title.clone(),
            subtitle: clone_opt_str(&self.subtitle),
            icon: clone_opt_str(&self.icon),
            score: self.score,
            actions: cloned_actions,
        }
    }
}

/// The single source of truth for the current query, the result items, the
/// selection index, and the mode. `selected_index` is meaningful only while
/// `items` is non-empty; consumers treat an out-of-range index as "no
/// selection", never as an error.
#[derive(Debug, PartialEq)]
pub struct AppState {
    pub query: String,
    pub items: Vec<Item>,
    pub selected_index: usize,
    pub mode: AppMode,
}

/// Mathematical model of the shared state.
pub ghost struct AppStateView {
    pub query: Seq<char>,
    pub items: Seq<ItemView>,
    pub selected_index: usize,
    pub mode: AppMode,
}

impl View for AppState {
    type V = AppStateView;

    open spec fn view(&self) -> AppStateView {
        AppStateView {
            query: self.query@,
            items: self.items@.map_values(|it: Item| it@),
            selected_index: self.selected_index,
            mode: self.mode,
        }
    }
}

impl Default for AppState {
    /// The state an application starts in: empty query, no items, no
    /// selection, search mode.
    fn default() -> (r: Self)
        ensures
            r@.query.len() == 0,
            r@.items.len() == 0,
            r@.selected_index == 0,
            r@.mode == AppMode::Search,
    {
        AppState { query: String::new(), items: Vec::new(), selected_index: 0, mode: AppMode::Search }
    }
}

} // verus!
