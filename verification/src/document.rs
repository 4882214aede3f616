//! The document: what has been taken in so far, the store and the
//! registry of types. It is what the handlers of directives work on.

use crate::commands::typecm::{lemma_verdict_is_no_io, TypeDefinition, TypeDefinitionView};
use crate::error::{outcome, AamlError, ErrorView};
use crate::found_value::FoundValue;
use crate::store::{deep_value, has_value, text_of, Store};
use crate::types::Type;
use vstd::hash_map::StringHashMap;
use vstd::prelude::*;
use vstd::string::StringExecFns;

verus! {

/// A document as mathematics: the value of each key, and the definition of
/// each type name.
#[verifier::ext_equal]
pub struct DocumentView {
    pub store: Map<Seq<char>, Seq<char>>,
    pub types: Map<Seq<char>, TypeDefinitionView>,
}

impl DocumentView {
    /// The document without entries and without types.
    pub open spec fn empty() -> DocumentView {
        DocumentView { store: Map::empty(), types: Map::empty() }
    }

    /// The document in which `key` has the value `value`.
    pub open spec fn with_entry(self, key: Seq<char>, value: Seq<char>) -> DocumentView {
        DocumentView { store: self.store.insert(key, value), types: self.types }
    }

    /// The document in which `name` stands for `definition`.
    pub open spec fn with_type(self, name: Seq<char>, definition: TypeDefinitionView) -> DocumentView {
        DocumentView { store: self.store, types: self.types.insert(name, definition) }
    }

    /// The document in which `name` stands for no type.
    pub open spec fn without_type(self, name: Seq<char>) -> DocumentView {
        DocumentView { store: self.store, types: self.types.remove(name) }
    }

    /// The document with the entries and the types of `other` on top:
    /// where both have a key or a type name, what `other` has stays.
    pub open spec fn combined(self, other: DocumentView) -> DocumentView {
        DocumentView {
            store: self.store.union_prefer_right(other.store),
            types: self.types.union_prefer_right(other.types),
        }
    }

    /// Whether `value` meets the type registered as `name`. An
    /// unregistered name is a not-found error. A value that fails the type
    /// is an invalid-type error, which names the type and says, in the
    /// words of the error that the type gave, why.
    pub open spec fn verdict(self, name: Seq<char>, value: Seq<char>) -> Result<(), ErrorView> {
        if !self.types.contains_key(name) {
            Err(ErrorView::NotFound(name))
        } else {
            match self.types[name].verdict(value) {
                Ok(_) => Ok(()),
                Err(e) => Err(ErrorView::InvalidType { name, details: e.text() }),
            }
        }
    }
}

/// What a combined document holds under a key: what the second has, and
/// what the first has where the second has nothing.
pub proof fn lemma_combined_store(first: DocumentView, second: DocumentView, key: Seq<char>)
    ensures
        first.combined(second).store.contains_key(key) <==> first.store.contains_key(key)
            || second.store.contains_key(key),
        second.store.contains_key(key) ==> first.combined(second).store[key] == second.store[key],
        !second.store.contains_key(key) && first.store.contains_key(key) ==> first.combined(
            second,
        ).store[key] == first.store[key],
{
}

/// The definitions of a registry, each by its view.
pub open spec fn definitions(types: Map<Seq<char>, TypeDefinition>) -> Map<
    Seq<char>,
    TypeDefinitionView,
> {
    types.map_values(|t: TypeDefinition| t@)
}

/// The text of what a lookup found.
pub open spec fn found_text(found: Option<FoundValue>) -> Option<Seq<char>> {
    match found {
        Some(v) => Some(v@),
        None => None,
    }
}

/// The store and the registry of types.
pub struct Document {
    store: Store,
    types: StringHashMap<TypeDefinition>,
}

impl View for Document {
    type V = DocumentView;

    closed spec fn view(&self) -> DocumentView {
        DocumentView { store: self.store@, types: definitions(self.types@) }
    }
}

/// A lookup's result, wrapped.
fn wrap<'a>(found: Option<&'a str>) -> (r: Option<FoundValue<'a>>)
    ensures
        found_text(r) == text_of(found),
{
    match found {
        Some(text) => Some(FoundValue::new(text)),
        None => None,
    }
}

impl Document {
    /// A document without entries and without types.
    pub fn new() -> (r: Document)
        ensures
            r@ == DocumentView::empty(),
    {
        let r = Document { store: Store::new(), types: StringHashMap::new() };
        assert(definitions(r.types@) =~= Map::empty());
        r
    }

    /// A document without entries and without types, its store sized in
    /// advance for `capacity` entries.
    pub fn with_capacity(capacity: usize) -> (r: Document)
        ensures
            r@ == DocumentView::empty(),
    {
        let r = Document { store: Store::with_capacity(capacity), types: StringHashMap::new() };
        assert(definitions(r.types@) =~= Map::empty());
        r
    }

    /// Gives `key` the value `value`.
    pub fn insert(&mut self, key: String, value: String)
        ensures
            final(self)@ == old(self)@.with_entry(key@, value@),
    {
        self.store.insert(key, value);
    }

    /// Registers `type_def` under `name`, in place of what was registered
    /// under it.
    pub fn register_type(&mut self, name: String, type_def: TypeDefinition)
        ensures
            final(self)@ == old(self)@.with_type(name@, type_def@),
    {
        self.types.insert(name, type_def);
        assert(definitions(self.types@) =~= definitions(old(self).types@).insert(
            name@,
            type_def@,
        ));
    }

    /// Removes what is registered under `name`, if anything is.
    pub fn unregister_type(&mut self, name: &str)
        ensures
            final(self)@ == old(self)@.without_type(name@),
    {
        self.types.remove(name);
        assert(definitions(self.types@) =~= definitions(old(self).types@).remove(name@));
    }

    /// What is registered under `name`.
    pub fn get_type(&self, name: &str) -> (r: Option<&TypeDefinition>)
        ensures
            match r {
                Some(t) => self@.types.contains_key(name@) && self@.types[name@] == t@,
                None => !self@.types.contains_key(name@),
            },
    {
        self.types.get(name)
    }

    /// Holds `value` to the type registered as `name`.
    pub fn validate_value(&self, name: &str, value: &str) -> (r: Result<(), AamlError>)
        ensures
            outcome(r) == self@.verdict(name@, value@),
    {
        match self.types.get(name) {
            Some(type_def) => match type_def.validate(value) {
                Ok(()) => Ok(()),
                Err(e) => {
                    proof {
                        lemma_verdict_is_no_io(type_def@, value@);
                    }
                    Err(
                        AamlError::InvalidType {
                            name: String::from_str(name),
                            details: e.message(),
                        },
                    )
                },
            },
            None => Err(AamlError::not_found(name)),
        }
    }

    /// The value of `key`; where `key` is no key, a key whose value is
    /// `key`.
    pub fn find_obj(&self, key: &str) -> (r: Option<FoundValue<'_>>)
        ensures
            self@.store.contains_key(key@) ==> found_text(r) == Some(self@.store[key@]),
            !self@.store.contains_key(key@) ==> (r is None <==> !has_value(self@.store, key@)),
            !self@.store.contains_key(key@) ==> (r matches Some(k) ==> self@.store.contains_key(k@)
                && self@.store[k@] == key@),
    {
        wrap(self.store.find_obj(key))
    }

    /// A key whose value is `value`.
    pub fn find_key(&self, value: &str) -> (r: Option<FoundValue<'_>>)
        ensures
            r matches Some(k) ==> self@.store.contains_key(k@) && self@.store[k@] == value@,
            r is None <==> !has_value(self@.store, value@),
    {
        wrap(self.store.find_key(value))
    }

    /// What `key` resolves to when aliases are followed.
    pub fn find_deep(&self, key: &str) -> (r: Option<FoundValue<'_>>)
        ensures
            self@.store.dom().finite(),
            found_text(r) == deep_value(self@.store, key@),
    {
        wrap(self.store.find_deep(key))
    }

    /// Takes over the entries and the types of `other`.
    pub fn absorb(&mut self, other: Document)
        ensures
            final(self)@ == old(self)@.combined(other@),
    {
        self.store.absorb(other.store);
        self.types.union_prefer_right(other.types);
        assert(definitions(self.types@) =~= definitions(old(self).types@).union_prefer_right(
            definitions(other.types@),
        ));
    }
}

} // verus!
