//! The engine: a document and the handlers of its directives, and the
//! taking in of text, line by line.

use crate::commands::import::{import_directive, ImportCommand};
use crate::commands::typecm::{type_directive, TypeCommand, TypeDefinition};
use crate::commands::{taken, Command, Pending, PendingView};
use crate::document::{found_text, Document, DocumentView};
use crate::error::{outcome, AamlError, ErrorView};
use crate::found_value::FoundValue;
use crate::store::{deep_value, has_value};
use crate::syntax::{assignment, without_comment};
use crate::text::{
    find_space, lines, space_position, split_lines, texts, to_chars, trim, trimmed,
};
use vstd::hash_map::StringHashMap;
use vstd::prelude::*;
use vstd::string::StringExecFns;

verus! {

/// How far a merge came.
#[derive(Debug)]
pub enum Progress {
    /// To the end of the text.
    Complete,
    /// To a directive that asks for the file at `path`. Once that file is
    /// merged, the merge of this text goes on at the line with the index
    /// `next_line`, counted from 0.
    Import { path: String, next_line: usize },
}

/// A [`Progress`] with its path as a character sequence.
pub enum ProgressView {
    Complete,
    Import { path: Seq<char>, next_line: nat },
}

impl View for Progress {
    type V = ProgressView;

    open spec fn view(&self) -> ProgressView {
        match self {
            Progress::Complete => ProgressView::Complete,
            Progress::Import { path, next_line } => ProgressView::Import {
                path: path@,
                next_line: *next_line as nat,
            },
        }
    }
}

/// The result of a merge, by its views.
pub open spec fn merged(r: Result<Progress, AamlError>) -> Result<ProgressView, ErrorView> {
    match r {
        Ok(p) => Ok(p@),
        Err(e) => Err(e@),
    }
}

/// A handler as the engine holds it.
enum Handler {
    Import,
    Type,
    Custom(Box<dyn Command>),
}

/// A handler as mathematics: one of the two that are built in, or one
/// from outside, which is known by what it allows.
pub enum HandlerView {
    Import,
    Type,
    Custom(
        spec_fn(DocumentView, Seq<char>, DocumentView, Result<PendingView, ErrorView>) -> bool,
    ),
}

impl HandlerView {
    /// The document that the handler leaves, and its result; `None` for a
    /// handler from outside, whose outcome is its own to choose.
    pub open spec fn run(self, doc: DocumentView, args: Seq<char>) -> Option<
        (DocumentView, Result<PendingView, ErrorView>),
    > {
        match self {
            HandlerView::Import => Some(import_directive(doc, args)),
            HandlerView::Type => Some(type_directive(doc, args)),
            HandlerView::Custom(_) => None,
        }
    }

    /// Whether the handler, given the document `before` and the arguments
    /// `args`, may leave the document `after` and return `r`.
    pub open spec fn allows(
        self,
        before: DocumentView,
        args: Seq<char>,
        after: DocumentView,
        r: Result<PendingView, ErrorView>,
    ) -> bool {
        match self {
            HandlerView::Import => after == import_directive(before, args).0 && r
                == import_directive(before, args).1,
            HandlerView::Type => after == type_directive(before, args).0 && r == type_directive(
                before,
                args,
            ).1,
            HandlerView::Custom(allowed) => allowed(before, args, after, r),
        }
    }
}

impl View for Handler {
    type V = HandlerView;

    /// The handler by what it does. Of a handler from outside that is
    /// what the command in the box allows; which command that is, is no
    /// part of the view.
    closed spec fn view(&self) -> HandlerView {
        match self {
            Handler::Import => HandlerView::Import,
            Handler::Type => HandlerView::Type,
            Handler::Custom(command) => HandlerView::Custom(
                |
                    before: DocumentView,
                    args: Seq<char>,
                    after: DocumentView,
                    r: Result<PendingView, ErrorView>,
                |
                    command.allows(before, args, after, r),
            ),
        }
    }
}

/// The handler from outside that holds `command`, boxed.
spec fn holding<C: Command + 'static>(command: C) -> Handler {
    let boxed: Box<dyn Command> = Box::new(command);
    Handler::Custom(boxed)
}

/// `command` as the engine holds it: boxed, as a handler from outside.
fn custom<C: Command + 'static>(command: C) -> (r: Handler)
    ensures
        r == holding(command),
        r@ is Custom,
{
    let boxed: Box<dyn Command> = Box::new(command);
    Handler::Custom(boxed)
}

/// `command` as the engine sees it once it is registered: a handler from
/// outside, known by what the command in the box allows.
pub closed spec fn handler_of<C: Command + 'static>(command: C) -> HandlerView {
    holding(command)@
}

/// A command is, as a handler, one from outside.
pub proof fn lemma_handler_of<C: Command + 'static>(command: C)
    ensures
        handler_of(command) is Custom,
{
}

/// The handlers that every engine starts with: `import` and `type`.
pub open spec fn default_handlers() -> Map<Seq<char>, HandlerView> {
    Map::<Seq<char>, HandlerView>::empty().insert("import"@, HandlerView::Import).insert(
        "type"@,
        HandlerView::Type,
    )
}

/// The name of the directive `content`, the text of a line behind its
/// `@`: what stands before the first white space.
pub open spec fn directive_name(content: Seq<char>) -> Seq<char> {
    content.subrange(0, find_space(content, 0))
}

/// The arguments of the directive `content`: all that follows the one
/// white space that ends the name, as it stands; nothing where the name
/// is all there is.
pub open spec fn directive_args(content: Seq<char>) -> Seq<char> {
    let at = find_space(content, 0);
    if at < content.len() {
        content.subrange(at + 1, content.len() as int)
    } else {
        Seq::empty()
    }
}

/// The name and the arguments of the directive `content`. They are what
/// the engine looks the handler up by, and what it hands to the handler.
pub fn directive_parts(content: &str) -> (r: (&str, &str))
    ensures
        r.0@ == directive_name(content@),
        r.1@ == directive_args(content@),
{
    let v = to_chars(content);
    let n = v.len();
    let at = space_position(&v, 0);
    let name = content.substring_char(0, at);
    if at < n {
        (name, content.substring_char(at + 1, n))
    } else {
        proof {
            reveal_strlit("");
            assert(""@ =~= Seq::<char>::empty());
        }
        (name, "")
    }
}

/// What the directive `content`, the text of a line behind its `@`, does
/// to `doc`. The name of the directive ends at the first white space; the
/// arguments are all that follows that one character. An empty name and a
/// name without a handler are parse errors at line `number`, and leave
/// `doc` as it is. Otherwise the handler of that name decides; `None`
/// where that is a handler from outside.
pub open spec fn directive_step(
    handlers: Map<Seq<char>, HandlerView>,
    doc: DocumentView,
    content: Seq<char>,
    number: nat,
) -> Option<(DocumentView, Result<PendingView, ErrorView>)> {
    let name = directive_name(content);
    let args = directive_args(content);
    if name.len() == 0 {
        Some((doc, Err(ErrorView::Parse { line: number, content, details: "Empty directive"@ })))
    } else if !handlers.contains_key(name) {
        Some(
            (
                doc,
                Err(
                    ErrorView::Parse {
                        line: number,
                        content,
                        details: "Unknown directive: @"@ + name,
                    },
                ),
            ),
        )
    } else {
        handlers[name].run(doc, args)
    }
}

/// What the line `raw`, the line with the number `number`, does to `doc`.
/// The line is taken without its comment and without the white space
/// around what is left. An empty line does nothing. A line that starts
/// with `@` is a directive. Any other line is an assignment, which gives
/// its key its value; one that is not well formed is a parse error, which
/// holds the number, the line as it was taken, and the reason. `None`
/// where a handler from outside decides.
pub open spec fn line_step(
    handlers: Map<Seq<char>, HandlerView>,
    doc: DocumentView,
    raw: Seq<char>,
    number: nat,
) -> Option<(DocumentView, Result<PendingView, ErrorView>)> {
    let line = trimmed(without_comment(raw));
    if line.len() == 0 {
        Some((doc, Ok(PendingView::Nothing)))
    } else if line[0] == '@' {
        directive_step(handlers, doc, line.subrange(1, line.len() as int), number)
    } else {
        match assignment(line) {
            Ok((key, value)) => Some((doc.with_entry(key, value), Ok(PendingView::Nothing))),
            Err(reason) => Some(
                (doc, Err(ErrorView::Parse { line: number, content: line, details: reason })),
            ),
        }
    }
}

/// Whether the directive `content` may leave the document `after` and
/// give the result `r`. Where the engine or a handler that is built in
/// decides, that is the one outcome of `directive_step`. Where a handler
/// from outside decides, it is what that handler allows, given `doc` and
/// the arguments of the directive.
pub open spec fn directive_allows(
    handlers: Map<Seq<char>, HandlerView>,
    doc: DocumentView,
    content: Seq<char>,
    number: nat,
    after: DocumentView,
    r: Result<PendingView, ErrorView>,
) -> bool {
    match directive_step(handlers, doc, content, number) {
        Some(step) => after == step.0 && r == step.1,
        None => handlers[directive_name(content)].allows(
            doc,
            directive_args(content),
            after,
            r,
        ),
    }
}

/// Whether the line `raw` may leave the document `after` and give the
/// result `r`: the one outcome of `line_step`, or, where the line is a
/// directive with a handler from outside, what that handler allows.
pub open spec fn line_allows(
    handlers: Map<Seq<char>, HandlerView>,
    doc: DocumentView,
    raw: Seq<char>,
    number: nat,
    after: DocumentView,
    r: Result<PendingView, ErrorView>,
) -> bool {
    let line = trimmed(without_comment(raw));
    match line_step(handlers, doc, raw, number) {
        Some(step) => after == step.0 && r == step.1,
        None => directive_allows(
            handlers,
            doc,
            line.subrange(1, line.len() as int),
            number,
            after,
            r,
        ),
    }
}

/// What taking in `lines`, from the line with the index `from` on, does
/// to `doc`. Line follows line, numbered from 1, each working on what the
/// one before left. The first error ends it: what the lines before it did
/// stays. So does the first request for an import, which comes with the
/// index of the line to go on with. `None` where a line is reached that a
/// handler from outside decides.
pub open spec fn ingest(
    handlers: Map<Seq<char>, HandlerView>,
    doc: DocumentView,
    lines: Seq<Seq<char>>,
    from: int,
) -> Option<(DocumentView, Result<ProgressView, ErrorView>)>
    decreases lines.len() - from,
{
    if 0 <= from < lines.len() {
        match line_step(handlers, doc, lines[from], (from + 1) as nat) {
            None => None,
            Some((next, Ok(PendingView::Nothing))) => ingest(handlers, next, lines, from + 1),
            Some((next, Ok(PendingView::Import(path)))) => Some(
                (next, Ok(ProgressView::Import { path, next_line: (from + 1) as nat })),
            ),
            Some((next, Err(e))) => Some((next, Err(e))),
        }
    } else {
        Some((doc, Ok(ProgressView::Complete)))
    }
}

/// Whether taking in `lines`, from the line with the index `from` on, may
/// leave the document `after` and give the result `r`: line follows line
/// as in `ingest`, each leaving a document and giving a result that
/// `line_allows`, up to the end, the first error or the first request for
/// an import. Where no handler from outside is reached, that is the one
/// outcome of `ingest`.
pub open spec fn ingest_allows(
    handlers: Map<Seq<char>, HandlerView>,
    doc: DocumentView,
    lines: Seq<Seq<char>>,
    from: int,
    after: DocumentView,
    r: Result<ProgressView, ErrorView>,
) -> bool
    decreases lines.len() - from,
{
    if 0 <= from < lines.len() {
        exists|mid: DocumentView, p: Result<PendingView, ErrorView>|
            #![trigger line_allows(handlers, doc, lines[from], (from + 1) as nat, mid, p)]
            line_allows(handlers, doc, lines[from], (from + 1) as nat, mid, p) && match p {
                Ok(PendingView::Nothing) => ingest_allows(
                    handlers,
                    mid,
                    lines,
                    from + 1,
                    after,
                    r,
                ),
                Ok(PendingView::Import(path)) => after == mid && r == Ok::<
                    ProgressView,
                    ErrorView,
                >(ProgressView::Import { path, next_line: (from + 1) as nat }),
                Err(e) => after == mid && r == Err::<ProgressView, ErrorView>(e),
            }
    } else {
        after == doc && r == Ok::<ProgressView, ErrorView>(ProgressView::Complete)
    }
}

/// Where no handler from outside is reached, a merge may go one way only:
/// the way of `ingest`.
pub proof fn lemma_ingest_allows_decided(
    handlers: Map<Seq<char>, HandlerView>,
    doc: DocumentView,
    lines: Seq<Seq<char>>,
    from: int,
    after: DocumentView,
    r: Result<ProgressView, ErrorView>,
)
    requires
        ingest(handlers, doc, lines, from) is Some,
    ensures
        ingest_allows(handlers, doc, lines, from, after, r) <==> ingest(handlers, doc, lines, from)
            == Some((after, r)),
    decreases lines.len() - from,
{
    if 0 <= from < lines.len() {
        let number = (from + 1) as nat;
        match line_step(handlers, doc, lines[from], number) {
            Some((next, taken)) => {
                assert(line_allows(handlers, doc, lines[from], number, next, taken));
                if taken == Ok::<PendingView, ErrorView>(PendingView::Nothing) {
                    lemma_ingest_allows_decided(handlers, next, lines, from + 1, after, r);
                }
                if ingest_allows(handlers, doc, lines, from, after, r) {
                    let (mid, p) = choose|mid: DocumentView, p: Result<PendingView, ErrorView>|
                        #![trigger line_allows(handlers, doc, lines[from], number, mid, p)]
                        line_allows(handlers, doc, lines[from], number, mid, p) && match p {
                            Ok(PendingView::Nothing) => ingest_allows(
                                handlers,
                                mid,
                                lines,
                                from + 1,
                                after,
                                r,
                            ),
                            Ok(PendingView::Import(path)) => after == mid && r == Ok::<
                                ProgressView,
                                ErrorView,
                            >(ProgressView::Import { path, next_line: (from + 1) as nat }),
                            Err(e) => after == mid && r == Err::<ProgressView, ErrorView>(e),
                        };
                    assert(mid == next && p == taken);
                }
            },
            None => {},
        }
    }
}

/// Whether the line `raw` is an assignment, of `value` to `key`.
pub open spec fn assigns(raw: Seq<char>, key: Seq<char>, value: Seq<char>) -> bool {
    let line = trimmed(without_comment(raw));
    &&& line.len() > 0
    &&& line[0] != '@'
    &&& assignment(line) == Ok::<(Seq<char>, Seq<char>), Seq<char>>((key, value))
}

/// An assignment gives its key its value and changes nothing else,
/// whatever the handlers are.
pub proof fn lemma_assignment_step(
    handlers: Map<Seq<char>, HandlerView>,
    doc: DocumentView,
    raw: Seq<char>,
    number: nat,
    key: Seq<char>,
    value: Seq<char>,
)
    requires
        assigns(raw, key, value),
    ensures
        line_step(handlers, doc, raw, number) == Some(
            (doc.with_entry(key, value), Ok::<PendingView, ErrorView>(PendingView::Nothing)),
        ),
{
}

/// Of two assignments to one key the later wins: after both, the key has
/// the value of the second, as if the first had not been.
pub proof fn lemma_later_assignment_wins(
    handlers: Map<Seq<char>, HandlerView>,
    doc: DocumentView,
    first: Seq<char>,
    second: Seq<char>,
    key: Seq<char>,
    earlier: Seq<char>,
    later: Seq<char>,
)
    requires
        assigns(first, key, earlier),
        assigns(second, key, later),
    ensures
        ingest(handlers, doc, seq![first, second], 0) == Some(
            (doc.with_entry(key, later), Ok::<ProgressView, ErrorView>(ProgressView::Complete)),
        ),
{
    reveal_with_fuel(ingest, 3);
    lemma_assignment_step(handlers, doc, first, 1, key, earlier);
    lemma_assignment_step(handlers, doc.with_entry(key, earlier), second, 2, key, later);
    assert(doc.with_entry(key, earlier).with_entry(key, later) =~= doc.with_entry(key, later));
}

/// A line that is neither empty, nor a directive, nor an assignment ends
/// the merge with a parse error that holds its number, counted from 1, and
/// the document stays as the lines before it left it.
pub proof fn lemma_malformed_line_fails(
    handlers: Map<Seq<char>, HandlerView>,
    doc: DocumentView,
    lines: Seq<Seq<char>>,
    at: int,
)
    requires
        0 <= at < lines.len(),
        trimmed(without_comment(lines[at])).len() > 0,
        trimmed(without_comment(lines[at]))[0] != '@',
        assignment(trimmed(without_comment(lines[at]))) is Err,
    ensures
        ingest(handlers, doc, lines, at) == Some(
            (
                doc,
                Err::<ProgressView, ErrorView>(
                    ErrorView::Parse {
                        line: (at + 1) as nat,
                        content: trimmed(without_comment(lines[at])),
                        details: assignment(trimmed(without_comment(lines[at])))->Err_0,
                    },
                ),
            ),
        ),
{
}

/// With the handlers that are built in, and no other, every text has its
/// outcome.
pub proof fn lemma_default_handlers_decide(doc: DocumentView, lines: Seq<Seq<char>>, from: int)
    ensures
        ingest(default_handlers(), doc, lines, from) is Some,
    decreases lines.len() - from,
{
    if 0 <= from < lines.len() {
        let step = line_step(default_handlers(), doc, lines[from], (from + 1) as nat);
        match step {
            Some((next, _)) => {
                lemma_default_handlers_decide(next, lines, from + 1);
            },
            None => {},
        }
    }
}

/// A document, and the handlers of the directives that its text may hold.
pub struct AAML {
    doc: Document,
    commands: StringHashMap<Handler>,
}

impl View for AAML {
    type V = DocumentView;

    /// The document of the engine. The handlers are no part of it:
    /// `handlers` gives them.
    closed spec fn view(&self) -> DocumentView {
        self.doc@
    }
}

impl AAML {
    /// The handlers, by the name of the directive that each is for.
    pub closed spec fn handlers(&self) -> Map<Seq<char>, HandlerView> {
        self.commands@.map_values(|h: Handler| h@)
    }

    /// An engine with an empty document and the two handlers that are
    /// built in.
    pub fn new() -> (r: AAML)
        ensures
            r@ == DocumentView::empty(),
            r.handlers() == default_handlers(),
    {
        let mut r = AAML { doc: Document::new(), commands: StringHashMap::new() };
        r.register_default_commands();
        r
    }

    /// As `new`, with the store sized in advance for `capacity` entries.
    pub fn with_capacity(capacity: usize) -> (r: AAML)
        ensures
            r@ == DocumentView::empty(),
            r.handlers() == default_handlers(),
    {
        let mut r = AAML {
            doc: Document::with_capacity(capacity),
            commands: StringHashMap::new(),
        };
        r.register_default_commands();
        r
    }

    fn register_default_commands(&mut self)
        requires
            old(self).commands@ == Map::<Seq<char>, Handler>::empty(),
        ensures
            final(self).doc == old(self).doc,
            final(self).handlers() == default_handlers(),
    {
        self.commands.insert(String::from_str("import"), Handler::Import);
        self.commands.insert(String::from_str("type"), Handler::Type);
        assert(self.handlers() =~= default_handlers());
    }

    /// Makes `command` the handler of the directive of its name, in place
    /// of the handler that the name had, and returns that name. A text
    /// that calls for the handler has no one outcome: what comes of it is
    /// what the handler allows.
    pub fn register_command<C: Command + 'static>(&mut self, command: C) -> (name: String)
        ensures
            name@ == command.label(),
            final(self)@ == old(self)@,
            final(self).handlers() == old(self).handlers().insert(name@, handler_of(command)),
    {
        let key = String::from_str(command.name());
        let name = key.clone();
        let handler = custom(command);
        self.commands.insert(key, handler);
        assert(self.handlers() =~= old(self).handlers().insert(name@, handler_of(command)));
        name
    }

    /// Registers `type_def` under `name`, in place of what was registered
    /// under it.
    pub fn register_type(&mut self, name: String, type_def: TypeDefinition)
        ensures
            final(self)@ == old(self)@.with_type(name@, type_def@),
            final(self).handlers() == old(self).handlers(),
    {
        self.doc.register_type(name, type_def);
    }

    /// Removes what is registered under `name`, if anything is.
    pub fn unregister_type(&mut self, name: &str)
        ensures
            final(self)@ == old(self)@.without_type(name@),
            final(self).handlers() == old(self).handlers(),
    {
        self.doc.unregister_type(name);
    }

    /// What is registered under `name`.
    pub fn get_type(&self, name: &str) -> (r: Option<&TypeDefinition>)
        ensures
            match r {
                Some(t) => self@.types.contains_key(name@) && self@.types[name@] == t@,
                None => !self@.types.contains_key(name@),
            },
    {
        self.doc.get_type(name)
    }

    /// Holds `value` to the type registered as `name`.
    pub fn validate_value(&self, name: &str, value: &str) -> (r: Result<(), AamlError>)
        ensures
            outcome(r) == self@.verdict(name@, value@),
    {
        self.doc.validate_value(name, value)
    }

    /// Runs the directive `content`, the text of line `line_num` behind
    /// its `@`.
    pub fn process_directive(&mut self, content: &str, line_num: usize) -> (r: Result<
        Pending,
        AamlError,
    >)
        ensures
            directive_allows(
                old(self).handlers(),
                old(self)@,
                content@,
                line_num as nat,
                final(self)@,
                taken(r),
            ),
            final(self).handlers() == old(self).handlers(),
    {
        let (name, args) = directive_parts(content);
        if name.unicode_len() == 0 {
            return Err(
                AamlError::ParseError {
                    line: line_num,
                    content: String::from_str(content),
                    details: String::from_str("Empty directive"),
                },
            );
        }
        match self.commands.get(name) {
            Some(handler) => match handler {
                Handler::Import => ImportCommand.execute(&mut self.doc, args),
                Handler::Type => TypeCommand.execute(&mut self.doc, args),
                Handler::Custom(command) => command.execute(&mut self.doc, args),
            },
            None => {
                let mut details = String::from_str("Unknown directive: @");
                details.append(name);
                Err(
                    AamlError::ParseError {
                        line: line_num,
                        content: String::from_str(content),
                        details,
                    },
                )
            },
        }
    }

    /// Takes in `raw_line`, the line with the number `line_num`.
    pub fn process_line(&mut self, raw_line: &str, line_num: usize) -> (r: Result<
        Pending,
        AamlError,
    >)
        ensures
            line_allows(
                old(self).handlers(),
                old(self)@,
                raw_line@,
                line_num as nat,
                final(self)@,
                taken(r),
            ),
            final(self).handlers() == old(self).handlers(),
    {
        let line = trim(Self::strip_comment(raw_line));
        let v = to_chars(line);
        let n = v.len();
        if n == 0 {
            return Ok(Pending::Nothing);
        }
        if v[0] == '@' {
            return self.process_directive(line.substring_char(1, n), line_num);
        }
        match Self::parse_assignment(line) {
            Ok((key, value)) => {
                self.doc.insert(String::from_str(key), String::from_str(value));
                Ok(Pending::Nothing)
            },
            Err(details) => Err(
                AamlError::ParseError {
                    line: line_num,
                    content: String::from_str(line),
                    details: String::from_str(details),
                },
            ),
        }
    }

    /// Takes in the lines of `content` from the line with the index
    /// `first_line` on, counted from 0, up to the end, the first error or
    /// the first request for an import.
    pub fn merge_from(&mut self, content: &str, first_line: usize) -> (r: Result<
        Progress,
        AamlError,
    >)
        ensures
            ingest(old(self).handlers(), old(self)@, lines(content@), first_line as int) matches Some(
                end,
            ) ==> final(self)@ == end.0 && merged(r) == end.1,
            ingest_allows(
                old(self).handlers(),
                old(self)@,
                lines(content@),
                first_line as int,
                final(self)@,
                merged(r),
            ),
            final(self).handlers() == old(self).handlers(),
    {
        let all = split_lines(content);
        let count = all.len();
        let mut i = first_line;
        while i < count
            invariant
                count == all.len(),
                texts(all@) == lines(content@),
                self.handlers() == old(self).handlers(),
                forall|after: DocumentView, r: Result<ProgressView, ErrorView>| #[trigger]
                    ingest_allows(old(self).handlers(), self@, lines(content@), i as int, after, r)
                        ==> ingest_allows(
                        old(self).handlers(),
                        old(self)@,
                        lines(content@),
                        first_line as int,
                        after,
                        r,
                    ),
                ingest(old(self).handlers(), old(self)@, lines(content@), first_line as int)
                    is Some ==> ingest(
                    old(self).handlers(),
                    old(self)@,
                    lines(content@),
                    first_line as int,
                ) == ingest(old(self).handlers(), self@, lines(content@), i as int),
            decreases count - i,
        {
            assert(texts(all@)[i as int] == all@[i as int]@);
            let ghost handlers = self.handlers();
            let ghost before = self@;
            let ghost all_lines = lines(content@);
            let taken_in = self.process_line(all[i].as_str(), i + 1);
            proof {
                assert(all_lines.len() == texts(all@).len());
                assert(line_allows(
                    handlers,
                    before,
                    all_lines[i as int],
                    (i + 1) as nat,
                    self@,
                    taken(taken_in),
                ));
            }
            match taken_in {
                Ok(Pending::Nothing) => {
                    assert forall|after: DocumentView, r: Result<ProgressView, ErrorView>| #[trigger]
                        ingest_allows(
                            handlers,
                            self@,
                            all_lines,
                            i + 1,
                            after,
                            r,
                        ) implies ingest_allows(
                        old(self).handlers(),
                        old(self)@,
                        all_lines,
                        first_line as int,
                        after,
                        r,
                    ) by {
                        assert(ingest_allows(handlers, before, all_lines, i as int, after, r));
                    }
                },
                Ok(Pending::Import(path)) => {
                    let r = Ok(Progress::Import { path, next_line: i + 1 });
                    assert(ingest_allows(handlers, before, all_lines, i as int, self@, merged(r)));
                    return r;
                },
                Err(e) => {
                    let r = Err(e);
                    assert(ingest_allows(handlers, before, all_lines, i as int, self@, merged(r)));
                    return r;
                },
            }
            i += 1;
        }
        let r = Ok(Progress::Complete);
        proof {
            assert(lines(content@).len() == texts(all@).len());
            assert(ingest_allows(
                old(self).handlers(),
                self@,
                lines(content@),
                i as int,
                self@,
                merged(r),
            ));
        }
        r
    }

    /// Takes in the lines of `content`.
    pub fn merge_content(&mut self, content: &str) -> (r: Result<Progress, AamlError>)
        ensures
            ingest(old(self).handlers(), old(self)@, lines(content@), 0) matches Some(end)
                ==> final(self)@ == end.0 && merged(r) == end.1,
            ingest_allows(
                old(self).handlers(),
                old(self)@,
                lines(content@),
                0,
                final(self)@,
                merged(r),
            ),
            final(self).handlers() == old(self).handlers(),
    {
        self.merge_from(content, 0)
    }

    /// A new engine that has taken in `content`, and how far it came. On
    /// an error no engine is left.
    pub fn parse(content: &str) -> (r: Result<(AAML, Progress), AamlError>)
        ensures
            ingest(default_handlers(), DocumentView::empty(), lines(content@), 0) matches Some(end)
                && match r {
                Ok((engine, progress)) => {
                    &&& engine.handlers() == default_handlers()
                    &&& engine@ == end.0
                    &&& Ok::<ProgressView, ErrorView>(progress@) == end.1
                },
                Err(e) => Err::<ProgressView, ErrorView>(e@) == end.1,
            },
    {
        let mut engine = AAML::new();
        proof {
            lemma_default_handlers_decide(DocumentView::empty(), lines(content@), 0);
        }
        match engine.merge_content(content) {
            Ok(progress) => Ok((engine, progress)),
            Err(e) => Err(e),
        }
    }

    /// The value of `key`; where `key` is no key, a key whose value is
    /// `key`.
    pub fn find_obj(&self, key: &str) -> (r: Option<FoundValue<'_>>)
        ensures
            self@.store.contains_key(key@) ==> found_text(r) == Some(self@.store[key@]),
            !self@.store.contains_key(key@) ==> (r is None <==> !has_value(self@.store, key@)),
            !self@.store.contains_key(key@) ==> (r matches Some(k) ==> self@.store.contains_key(k@)
                && self@.store[k@] == key@),
    {
        self.doc.find_obj(key)
    }

    /// What `key` resolves to when aliases are followed: a value that is
    /// itself a key is looked up in turn, until one is reached that is no
    /// key or that the chain has been at before.
    pub fn find_deep(&self, key: &str) -> (r: Option<FoundValue<'_>>)
        ensures
            self@.store.dom().finite(),
            found_text(r) == deep_value(self@.store, key@),
    {
        self.doc.find_deep(key)
    }

    /// A key whose value is `value`: the first that comes up when the
    /// store is walked. `None` where no key has that value.
    pub fn find_key(&self, value: &str) -> (r: Option<FoundValue<'_>>)
        ensures
            r matches Some(k) ==> self@.store.contains_key(k@) && self@.store[k@] == value@,
            r is None <==> !has_value(self@.store, value@),
    {
        self.doc.find_key(value)
    }

    /// This engine with the entries and the types of `other` on top of
    /// its own. The handlers stay those of this engine.
    pub fn combine(self, other: AAML) -> (r: AAML)
        ensures
            r@ == self@.combined(other@),
            r.handlers() == self.handlers(),
    {
        let mut r = self;
        r.absorb(other);
        r
    }

    /// Takes over the entries and the types of `other`.
    pub fn absorb(&mut self, other: AAML)
        ensures
            final(self)@ == old(self)@.combined(other@),
            final(self).handlers() == old(self).handlers(),
    {
        let AAML { doc, commands: _ } = other;
        self.doc.absorb(doc);
    }
}

impl std::ops::Add for AAML {
    type Output = AAML;

    /// `self.combine(rhs)`.
    fn add(self, rhs: AAML) -> (r: AAML)
        ensures
            r@ == self@.combined(rhs@),
            r.handlers() == self.handlers(),
    {
        self.combine(rhs)
    }
}

impl std::ops::AddAssign for AAML {
    /// `self.absorb(rhs)`.
    fn add_assign(&mut self, rhs: AAML)
        ensures
            final(self)@ == old(self)@.combined(rhs@),
            final(self).handlers() == old(self).handlers(),
    {
        self.absorb(rhs);
    }
}

impl vstd::std_specs::ops::AddSpecImpl for AAML {
    /// The sum is stated by the `ensures` of `add`, over views: no engine
    /// can be written down as a value.
    open spec fn obeys_add_spec() -> bool {
        false
    }

    open spec fn add_req(self, rhs: AAML) -> bool {
        true
    }

    open spec fn add_spec(self, rhs: AAML) -> AAML {
        self
    }
}

impl Default for AAML {
    fn default() -> (r: AAML)
        ensures
            r@ == DocumentView::empty(),
            r.handlers() == default_handlers(),
    {
        AAML::new()
    }
}

} // verus!
