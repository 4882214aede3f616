//! Type definitions, and `@type <name> = <definition>`, which registers
//! one.

use crate::commands::{taken, Command, Pending, PendingView};
use crate::document::{Document, DocumentView};
use crate::error::{AamlError, ErrorView};
use crate::text::{find_char, find_path_sep, path_sep_position, position, to_chars, trim, trimmed};
use crate::types::primitive_type::PrimitiveType;
use crate::types::{builtin, resolve_builtin, Type};
use vstd::prelude::*;
use vstd::string::StringExecFns;

verus! {

/// What a registered type name stands for.
#[derive(Debug)]
pub enum TypeDefinition {
    /// The primitive kind of this name. The name is looked up when a value
    /// is held to the type, not before.
    Primitive(String),
    /// A name that every value meets.
    Alias(String),
    /// The built-in type at this path, looked up when a value is held to
    /// the type, not before.
    Builtin(String),
}

/// A [`TypeDefinition`] with its text as a character sequence.
pub enum TypeDefinitionView {
    Primitive(Seq<char>),
    Alias(Seq<char>),
    Builtin(Seq<char>),
}

impl View for TypeDefinition {
    type V = TypeDefinitionView;

    open spec fn view(&self) -> TypeDefinitionView {
        match self {
            TypeDefinition::Primitive(name) => TypeDefinitionView::Primitive(name@),
            TypeDefinition::Alias(name) => TypeDefinitionView::Alias(name@),
            TypeDefinition::Builtin(path) => TypeDefinitionView::Builtin(path@),
        }
    }
}

impl Clone for TypeDefinition {
    fn clone(&self) -> (r: TypeDefinition)
        ensures
            r@ == self@,
    {
        match self {
            TypeDefinition::Primitive(name) => TypeDefinition::Primitive(name.clone()),
            TypeDefinition::Alias(name) => TypeDefinition::Alias(name.clone()),
            TypeDefinition::Builtin(path) => TypeDefinition::Builtin(path.clone()),
        }
    }
}

impl TypeDefinitionView {
    /// The definition that `@type` makes of the text `definition`: with a
    /// `::` in it a built-in path, without one the name of a primitive.
    pub open spec fn of(definition: Seq<char>) -> TypeDefinitionView {
        if find_path_sep(definition, 0) < definition.len() {
            TypeDefinitionView::Builtin(definition)
        } else {
            TypeDefinitionView::Primitive(definition)
        }
    }

    /// The primitive kind under the definition: `String` for an alias and
    /// for a name or path that stands for nothing.
    pub open spec fn base(self) -> PrimitiveType {
        match self {
            TypeDefinitionView::Primitive(name) => match PrimitiveType::by_name(name) {
                Some(t) => t,
                None => PrimitiveType::String,
            },
            TypeDefinitionView::Alias(_) => PrimitiveType::String,
            TypeDefinitionView::Builtin(path) => match builtin(path) {
                Some(t) => t.base(),
                None => PrimitiveType::String,
            },
        }
    }

    /// Whether `value` meets the definition. A name or path that stands
    /// for nothing fails every value with a not-found error.
    pub open spec fn verdict(self, value: Seq<char>) -> Result<(), ErrorView> {
        match self {
            TypeDefinitionView::Primitive(name) => match PrimitiveType::by_name(name) {
                Some(t) => t.verdict(value),
                None => Err(ErrorView::NotFound(name)),
            },
            TypeDefinitionView::Alias(_) => Ok(()),
            TypeDefinitionView::Builtin(path) => match builtin(path) {
                Some(t) => t.verdict(value),
                None => Err(ErrorView::NotFound(path)),
            },
        }
    }
}

/// No value fails a definition with an I/O error.
pub proof fn lemma_verdict_is_no_io(definition: TypeDefinitionView, value: Seq<char>)
    ensures
        definition.verdict(value) matches Err(e) ==> !(e is Io),
{
}

impl Type for TypeDefinition {
    /// No name stands for a definition.
    open spec fn by_name(name: Seq<char>) -> Option<TypeDefinition> {
        None
    }

    open spec fn base(&self) -> PrimitiveType {
        self@.base()
    }

    open spec fn verdict(&self, value: Seq<char>) -> Result<(), ErrorView> {
        self@.verdict(value)
    }

    fn from_name(name: &str) -> (r: Result<TypeDefinition, AamlError>)
        ensures
            r matches Err(e) ==> e@ == ErrorView::NotFound(
                "TypeDefinition::from_name not supported"@,
            ),
    {
        Err(AamlError::not_found("TypeDefinition::from_name not supported"))
    }

    fn base_type(&self) -> (r: PrimitiveType) {
        match self {
            TypeDefinition::Builtin(path) => match resolve_builtin(path.as_str()) {
                Ok(t) => t.base_type(),
                Err(_) => PrimitiveType::String,
            },
            TypeDefinition::Primitive(name) => match PrimitiveType::from_name(name.as_str()) {
                Ok(t) => t.base_type(),
                Err(_) => PrimitiveType::String,
            },
            TypeDefinition::Alias(_) => PrimitiveType::String,
        }
    }

    fn validate(&self, value: &str) -> (r: Result<(), AamlError>) {
        match self {
            TypeDefinition::Builtin(path) => match resolve_builtin(path.as_str()) {
                Ok(t) => t.validate(value),
                Err(e) => Err(e),
            },
            TypeDefinition::Primitive(name) => match PrimitiveType::from_name(name.as_str()) {
                Ok(t) => t.validate(value),
                Err(e) => Err(e),
            },
            TypeDefinition::Alias(_) => Ok(()),
        }
    }
}

/// The handler of `@type`.
pub struct TypeCommand;

/// What `@type` does with the arguments `args`. They are a name and a
/// definition with the first `=` between them, neither empty once the
/// white space around it is dropped; anything else is a parse error at
/// line 0, which holds the arguments. The definition is registered under
/// the name, in place of what was registered under it. Nothing is looked up
/// yet, so a definition that stands for nothing is registered all the same.
pub open spec fn type_directive(doc: DocumentView, args: Seq<char>) -> (
    DocumentView,
    Result<PendingView, ErrorView>,
) {
    let at = find_char(args, '=', 0);
    let name = trimmed(args.subrange(0, at));
    let definition = trimmed(args.subrange(at + 1, args.len() as int));
    let refused = |details: Seq<char>|
        (doc, Err::<PendingView, ErrorView>(ErrorView::Parse { line: 0, content: args, details }));
    if at >= args.len() {
        refused("Type definition must be in the format 'name = definition'"@)
    } else if name.len() == 0 {
        refused("Type name cannot be empty"@)
    } else if definition.len() == 0 {
        refused("Type definition cannot be empty"@)
    } else {
        (doc.with_type(name, TypeDefinitionView::of(definition)), Ok(PendingView::Nothing))
    }
}

impl Command for TypeCommand {
    open spec fn label(&self) -> Seq<char> {
        "type"@
    }

    open spec fn allows(
        &self,
        before: DocumentView,
        args: Seq<char>,
        after: DocumentView,
        r: Result<PendingView, ErrorView>,
    ) -> bool {
        after == type_directive(before, args).0 && r == type_directive(before, args).1
    }

    fn name(&self) -> (r: &str) {
        "type"
    }

    fn execute(&self, doc: &mut Document, args: &str) -> (r: Result<Pending, AamlError>)
        ensures
            final(doc)@ == type_directive(old(doc)@, args@).0,
            taken(r) == type_directive(old(doc)@, args@).1,
    {
        let v = to_chars(args);
        let n = v.len();
        let at = position(&v, '=', 0);
        if at >= n {
            return Err(
                AamlError::bad_arguments(
                    args,
                    "Type definition must be in the format 'name = definition'",
                ),
            );
        }
        let name = trim(args.substring_char(0, at));
        let definition = trim(args.substring_char(at + 1, n));
        if name.unicode_len() == 0 {
            return Err(AamlError::bad_arguments(args, "Type name cannot be empty"));
        }
        if definition.unicode_len() == 0 {
            return Err(AamlError::bad_arguments(args, "Type definition cannot be empty"));
        }
        let d = to_chars(definition);
        let type_def = if path_sep_position(&d) < d.len() {
            TypeDefinition::Builtin(String::from_str(definition))
        } else {
            TypeDefinition::Primitive(String::from_str(definition))
        };
        doc.register_type(String::from_str(name), type_def);
        Ok(Pending::Nothing)
    }
}

} // verus!
