//! The lookup store: entries of canonical text, found again by the hashes of
//! the words they are made of.

use crate::ast::nodes::{Command, CommandComponent, CommandView, ComponentView};
use crate::chars::push_char;
use crate::hash::{text_hash, CirceHash};
use std::collections::HashMap;
use vstd::prelude::*;
use vstd::string::StringExecFns;

verus! {

/// A store of entries and an index from hashes to them.
pub struct Database {
    entries: Vec<(u64, String)>,
    lookup: HashMap<u64, Vec<u64>>,
}

impl Database {
    /// The entries of the store: each a hash and a text.
    pub closed spec fn entries(&self) -> Seq<(u64, Seq<char>)> {
        self.entries.deep_view()
    }

    /// The index of the store: for a lookup hash, the hashes of the entries
    /// that it leads to.
    pub closed spec fn index(&self) -> Map<u64, Seq<u64>> {
        self.lookup@.map_values(|found: Vec<u64>| found@)
    }

    /// An empty store.
    pub fn new() -> (r: Database)
        ensures
            r.entries() == Seq::<(u64, Seq<char>)>::empty(),
            r.index() == Map::<u64, Seq<u64>>::empty(),
    {
        let r = Database { entries: Vec::new(), lookup: HashMap::new() };
        assert(r.entries() =~= Seq::empty());
        assert(r.index() =~= Map::empty());
        r
    }
}

impl Default for Database {
    fn default() -> (r: Database)
        ensures
            r.entries() == Seq::<(u64, Seq<char>)>::empty(),
            r.index() == Map::<u64, Seq<u64>>::empty(),
    {
        Database::new()
    }
}

/// What can be kept in the store.
pub trait DatabaseObject {
    /// The hashes under which the value is found.
    spec fn lookups(&self) -> Seq<u64>;

    /// The canonical text of the value.
    spec fn conversion(&self) -> Seq<char>;

    fn get_lookups(&self) -> (r: Vec<u64>)
        ensures
            r@ == self.lookups(),
    ;

    fn get_conversion(&self) -> (r: String)
        ensures
            r@ == self.conversion(),
    ;
}

/// The hash under which a component is found: that of its text.
pub open spec fn component_lookup(component: ComponentView) -> u64 {
    match component {
        ComponentView::Literal(text) => text_hash(text),
        ComponentView::Keyword(text) => text_hash(text),
    }
}

/// The canonical text of a component: a keyword as it is, a literal between
/// single quotes.
pub open spec fn component_text(component: ComponentView) -> Seq<char> {
    match component {
        ComponentView::Literal(text) => seq!['\''] + text + seq!['\''],
        ComponentView::Keyword(text) => text,
    }
}

/// The canonical text of the first `n` of a run of components: each
/// component's text with a space behind it.
pub open spec fn components_text(components: Seq<ComponentView>, n: nat) -> Seq<char>
    decreases n,
{
    if n == 0 {
        Seq::empty()
    } else {
        components_text(components, (n - 1) as nat) + component_text(components[n - 1]) + seq![
            ' ',
        ]
    }
}

/// The canonical text of the first `n` modifier clauses: for each, a bar, a
/// space and the text of its components.
pub open spec fn modifiers_text(modifiers: Seq<Seq<ComponentView>>, n: nat) -> Seq<char>
    decreases n,
{
    if n == 0 {
        Seq::empty()
    } else {
        modifiers_text(modifiers, (n - 1) as nat) + seq!['|', ' '] + components_text(
            modifiers[n - 1],
            modifiers[n - 1].len(),
        )
    }
}

/// Every component of a command: its own, then those of its modifier clauses
/// in order.
pub open spec fn all_components(command: CommandView) -> Seq<ComponentView> {
    command.components + command.modifiers.flatten()
}

impl DatabaseObject for CommandComponent {
    open spec fn lookups(&self) -> Seq<u64> {
        seq![component_lookup(self@)]
    }

    open spec fn conversion(&self) -> Seq<char> {
        component_text(self@)
    }

    fn get_lookups(&self) -> (r: Vec<u64>) {
        let hash = match self {
            CommandComponent::Literal(text) => text.hash(),
            CommandComponent::Keyword(text) => text.hash(),
        };
        let mut lookups: Vec<u64> = Vec::new();
        lookups.push(hash);
        assert(lookups@ =~= seq![component_lookup(self@)]);
        lookups
    }

    fn get_conversion(&self) -> (r: String) {
        match self {
            CommandComponent::Literal(text) => {
                let mut quoted = String::new();
                push_char(&mut quoted, '\'');
                quoted.append(text.as_str());
                push_char(&mut quoted, '\'');
                assert(quoted@ =~= seq!['\''] + text@ + seq!['\'']);
                quoted
            },
            CommandComponent::Keyword(text) => text.clone(),
        }
    }
}

/// Appends the lookups of `components` to `lookups`.
fn extend_lookups(lookups: &mut Vec<u64>, components: &Vec<CommandComponent>)
    ensures
        final(lookups)@ == old(lookups)@ + components.deep_view().map_values(
            |component: ComponentView| component_lookup(component),
        ),
{
    let ghost before = lookups@;
    let ghost all = components.deep_view();
    let mut i: usize = 0;
    while i < components.len()
        invariant
            i <= components.len(),
            all == components.deep_view(),
            lookups@ == before + all.take(i as int).map_values(
                |component: ComponentView| component_lookup(component),
            ),
        decreases components.len() - i,
    {
        let mut found = components[i].get_lookups();
        lookups.append(&mut found);
        assert(all.take(i + 1) =~= all.take(i as int).push(components[i as int]@));
        assert(lookups@ =~= before + all.take(i + 1).map_values(
            |component: ComponentView| component_lookup(component),
        ));
        i = i + 1;
    }
    assert(all.take(i as int) =~= all);
}

/// Appends the canonical text of `components` to `text`.
fn extend_text(text: &mut String, components: &Vec<CommandComponent>)
    ensures
        final(text)@ == old(text)@ + components_text(
            components.deep_view(),
            components.deep_view().len(),
        ),
{
    let ghost before = text@;
    let ghost all = components.deep_view();
    let mut i: usize = 0;
    while i < components.len()
        invariant
            i <= components.len(),
            all == components.deep_view(),
            text@ == before + components_text(all, i as nat),
        decreases components.len() - i,
    {
        let part = components[i].get_conversion();
        text.append(part.as_str());
        push_char(text, ' ');
        assert(text@ =~= before + components_text(all, (i + 1) as nat));
        i = i + 1;
    }
}

impl DatabaseObject for Command {
    open spec fn lookups(&self) -> Seq<u64> {
        all_components(self@).map_values(|component: ComponentView| component_lookup(component))
    }

    open spec fn conversion(&self) -> Seq<char> {
        components_text(self@.components, self@.components.len()) + modifiers_text(
            self@.modifiers,
            self@.modifiers.len(),
        )
    }

    fn get_lookups(&self) -> (r: Vec<u64>) {
        let mut lookups: Vec<u64> = Vec::new();
        extend_lookups(&mut lookups, &self.components);
        let ghost own = self@.components;
        let ghost clauses = self@.modifiers;
        let mut i: usize = 0;
        assert(clauses.take(0) =~= Seq::empty());
        assert(lookups@ =~= (own + clauses.take(0).flatten()).map_values(
            |component: ComponentView| component_lookup(component),
        ));
        while i < self.modifiers.len()
            invariant
                i <= self.modifiers.len(),
                own == self@.components,
                clauses == self@.modifiers,
                lookups@ == (own + clauses.take(i as int).flatten()).map_values(
                    |component: ComponentView| component_lookup(component),
                ),
            decreases self.modifiers.len() - i,
        {
            extend_lookups(&mut lookups, &self.modifiers[i]);
            proof {
                let done = clauses.take(i as int);
                let clause = clauses[i as int];
                assert(clause == self.modifiers[i as int].deep_view());
                assert(clauses.take(i + 1) =~= done.push(clause));
                done.lemma_flatten_push(clause);
                assert(own + (done.flatten() + clause) =~= (own + done.flatten()) + clause);
                assert(lookups@ =~= (own + clauses.take(i + 1).flatten()).map_values(
                    |component: ComponentView| component_lookup(component),
                ));
            }
            i = i + 1;
        }
        assert(clauses.take(i as int) =~= clauses);
        lookups
    }

    fn get_conversion(&self) -> (r: String) {
        let mut conversions = String::new();
        extend_text(&mut conversions, &self.components);
        let ghost head = conversions@;
        let ghost clauses = self@.modifiers;
        let mut i: usize = 0;
        assert(conversions@ =~= head + modifiers_text(clauses, 0));
        while i < self.modifiers.len()
            invariant
                i <= self.modifiers.len(),
                clauses == self@.modifiers,
                conversions@ == head + modifiers_text(clauses, i as nat),
            decreases self.modifiers.len() - i,
        {
            conversions.append("| ");
            extend_text(&mut conversions, &self.modifiers[i]);
            proof {
                reveal_strlit("| ");
                assert("| "@ =~= seq!['|', ' ']);
                assert(conversions@ =~= head + modifiers_text(clauses, (i + 1) as nat));
            }
            i = i + 1;
        }
        conversions
    }
}

} // verus!
