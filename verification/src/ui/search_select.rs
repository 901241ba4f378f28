use crate::steam::client::{trim, trimmed};
use crate::steam::{SteamStoreItem, StoreItemKind};
use vstd::prelude::*;

verus! {

/// The state of the store search: the term typed, what the last search
/// found, and whether a search is under way.
pub struct SearchSelect {
    pub term: String,
    pub results: Vec<SteamStoreItem>,
    pub is_loading: bool,
}

/// What a selection did.
#[derive(Debug, Clone, Copy, PartialEq, Eq, Structural)]
pub struct SearchSelectResponse {
    pub changed: bool,
}

/// Whether an item of the store is an application.
pub open spec fn is_app(item: SteamStoreItem) -> bool {
    item.kind == StoreItemKind::App
}

/// The rule by which search results are kept, as a predicate on items.
pub open spec fn apps_only() -> spec_fn(SteamStoreItem) -> bool {
    |item: SteamStoreItem| is_app(item)
}

/// Whether the result at `index` can be given away: it is there, and it has
/// a price.
pub open spec fn selectable(results: Seq<SteamStoreItem>, index: int) -> bool {
    0 <= index < results.len() && results[index].price is Some
}

/// Whether `selected` holds an item that says what `item` says.
pub open spec fn holds_copy_of(selected: Option<SteamStoreItem>, item: SteamStoreItem) -> bool {
    selected is Some && selected.unwrap().same_content(&item)
}

impl SearchSelect {
    pub fn new() -> (search: Self)
        ensures
            search.term@.len() == 0,
            search.results@.len() == 0,
            !search.is_loading,
    {
        SearchSelect { term: String::new(), results: Vec::new(), is_loading: false }
    }

    /// Takes the term as it was edited. A term that is more than white
    /// space asks for a search, which is then under way. Tells whether it
    /// does.
    pub fn edit_term(&mut self, term: String) -> (search: bool)
        ensures
            final(self).term == term,
            search == (trimmed(term@).len() > 0),
            final(self).is_loading == (old(self).is_loading || search),
            final(self).results@ == old(self).results@,
    {
        let is_blank = trim(term.as_str()).is_empty();
        self.take_term(term, is_blank)
    }

    /// Takes the term as it was edited, given whether it is white space
    /// only. A term that is more asks for a search, which is then under
    /// way. Tells whether it does.
    pub fn take_term(&mut self, term: String, is_blank: bool) -> (search: bool)
        ensures
            final(self).term == term,
            search == !is_blank,
            final(self).is_loading == (old(self).is_loading || search),
            final(self).results@ == old(self).results@,
    {
        self.term = term;
        if !is_blank {
            self.is_loading = true;
        }
        !is_blank
    }

    /// Takes what a search found: the applications among it become the
    /// results, in the order they came, and no search is under way.
    pub fn receive(&mut self, found: Vec<SteamStoreItem>)
        ensures
            final(self).results@ == found@.filter(apps_only()),
            !final(self).is_loading,
            final(self).term == old(self).term,
    {
        let mut kept = found;
        let ghost mut read: int = 0;
        let mut i: usize = 0;
        proof {
            reveal(Seq::filter);
            assert(found@.take(0).filter(apps_only()) =~= kept@.take(0));
            assert(kept@.skip(0) == found@.skip(0));
        }
        while i < kept.len()
            invariant
                i <= kept.len(),
                i <= read <= found@.len(),
                kept@.len() - i == found@.len() - read,
                kept@.take(i as int) == found@.take(read).filter(apps_only()),
                kept@.skip(i as int) == found@.skip(read),
            decreases kept.len() - i,
        {
            let ghost held = kept@;
            proof {
                reveal(Seq::filter);
                assert(found@.take(read + 1).drop_last() == found@.take(read));
                assert(found@.take(read + 1).last() == found@[read]);
                assert(held.skip(i as int)[0] == found@.skip(read)[0]);
                assert(held.skip(i + 1) =~= held.skip(i as int).drop_first());
                assert(found@.skip(read + 1) =~= found@.skip(read).drop_first());
            }
            if matches!(kept[i].kind, StoreItemKind::App) {
                proof {
                    assert(held.take(i + 1) == held.take(i as int).push(held[i as int]));
                }
                i += 1;
            } else {
                kept.remove(i);
                proof {
                    assert(kept@.take(i as int) == held.take(i as int));
                    assert(kept@.skip(i as int) == held.skip(i + 1));
                }
            }
            proof {
                read = read + 1;
            }
        }
        proof {
            assert(kept@.take(i as int) == kept@);
            assert(found@.take(read) == found@);
        }
        self.results = kept;
        self.is_loading = false;
    }

    /// Selects the result at `index` if it can be given away, and leaves
    /// the selection as it is otherwise. Tells whether it selected.
    pub fn select(&self, index: usize, selected: &mut Option<SteamStoreItem>) -> (response:
        SearchSelectResponse)
        ensures
            response.changed == selectable(self.results@, index as int),
            response.changed ==> holds_copy_of(*final(selected), self.results@[index as int]),
            !response.changed ==> *final(selected) == *old(selected),
    {
        if index < self.results.len() {
            let item = &self.results[index];
            if item.price.is_some() {
                *selected = Some(item.clone());
                return SearchSelectResponse { changed: true };
            }
        }
        SearchSelectResponse { changed: false }
    }
}

} // verus!
