//! Tools and the registry that holds them and runs them.

pub mod file_tools;

use crate::error::{AgentError, AgentErrorView};
use crate::json::clone_value;
use vstd::prelude::*;
use vstd::string::StringExecFns;

verus! {

/// A capability that the model may ask for. Nothing is promised of an
/// implementation: what its methods return is taken as it comes.
pub trait Tool: Send + Sync {
    /// The name under which the tool is registered and requested.
    fn name(&self) -> &str;

    /// What the tool does, in words for the model.
    fn description(&self) -> &str;

    /// The shape of the input that the tool accepts.
    fn input_schema(&self) -> serde_json::Value;

    /// Runs the tool on `input`: the content it produced, or why it failed.
    fn execute(&self, input: serde_json::Value) -> Result<String, AgentError>;
}

/// What a tool says of itself: its entry in the catalog.
#[derive(Debug, PartialEq, Eq)]
pub struct ToolDefinition {
    pub name: String,
    pub description: String,
    pub input_schema: serde_json::Value,
}

/// The mathematical content of a [`ToolDefinition`].
pub struct ToolDefinitionView {
    pub name: Seq<char>,
    pub description: Seq<char>,
    pub input_schema: serde_json::Value,
}

impl View for ToolDefinition {
    type V = ToolDefinitionView;

    open spec fn view(&self) -> ToolDefinitionView {
        ToolDefinitionView {
            name: self.name@,
            description: self.description@,
            input_schema: self.input_schema,
        }
    }
}

impl Clone for ToolDefinition {
    fn clone(&self) -> (copy: ToolDefinition)
        ensures
            copy@ == self@,
    {
        ToolDefinition {
            name: self.name.clone(),
            description: self.description.clone(),
            input_schema: clone_value(&self.input_schema),
        }
    }
}

/// `definition` is what `tool` says of itself: each part is something that
/// the tool's own method can return.
pub open spec fn describes<T: Tool + ?Sized>(tool: &T, definition: ToolDefinitionView) -> bool {
    &&& exists|name: &str| #[trigger]
        call_ensures(T::name, (tool,), name) && name@ == definition.name
    &&& exists|description: &str| #[trigger]
        call_ensures(T::description, (tool,), description) && description@
            == definition.description
    &&& call_ensures(T::input_schema, (tool,), definition.input_schema)
}

/// Asks `tool` for its name, its description and its input schema.
fn describe<T: Tool + ?Sized>(tool: &T) -> (definition: ToolDefinition)
    ensures
        describes(tool, definition@),
{
    let name = tool.name();
    let description = tool.description();
    ToolDefinition {
        name: String::from_str(name),
        description: String::from_str(description),
        input_schema: tool.input_schema(),
    }
}

impl ToolDefinition {
    /// Asks `tool` for its name, its description and its input schema.
    pub fn from_tool(tool: &dyn Tool) -> (definition: ToolDefinition)
        ensures
            describes::<dyn Tool>(tool, definition@),
    {
        describe::<dyn Tool>(tool)
    }
}

/// The catalog entries that a list of definitions stands for.
pub open spec fn definition_views(definitions: Seq<ToolDefinition>) -> Seq<ToolDefinitionView> {
    definitions.map_values(|definition: ToolDefinition| definition@)
}

/// A request to run a tool, as the model made it.
#[derive(Debug, PartialEq, Eq)]
pub struct ToolUse {
    pub id: String,
    pub name: String,
    pub input: serde_json::Value,
}

/// The mathematical content of a [`ToolUse`].
pub struct ToolUseView {
    pub id: Seq<char>,
    pub name: Seq<char>,
    pub input: serde_json::Value,
}

impl View for ToolUse {
    type V = ToolUseView;

    open spec fn view(&self) -> ToolUseView {
        ToolUseView { id: self.id@, name: self.name@, input: self.input }
    }
}

impl Clone for ToolUse {
    fn clone(&self) -> (copy: ToolUse)
        ensures
            copy@ == self@,
    {
        ToolUse {
            id: self.id.clone(),
            name: self.name.clone(),
            input: clone_value(&self.input),
        }
    }
}

/// What running a tool gave, keyed by the id of the request.
#[derive(Debug, PartialEq, Eq)]
pub struct ToolResult {
    pub tool_use_id: String,
    pub content: String,
    pub is_error: bool,
}

/// The mathematical content of a [`ToolResult`].
pub struct ToolResultView {
    pub tool_use_id: Seq<char>,
    pub content: Seq<char>,
    pub is_error: bool,
}

impl View for ToolResult {
    type V = ToolResultView;

    open spec fn view(&self) -> ToolResultView {
        ToolResultView {
            tool_use_id: self.tool_use_id@,
            content: self.content@,
            is_error: self.is_error,
        }
    }
}

impl Clone for ToolResult {
    fn clone(&self) -> (copy: ToolResult)
        ensures
            copy@ == self@,
    {
        ToolResult {
            tool_use_id: self.tool_use_id.clone(),
            content: self.content.clone(),
            is_error: self.is_error,
        }
    }
}

/// What a tool's run came to: the content it produced, or why it failed.
pub open spec fn outcome_view(outcome: Result<String, AgentError>) -> Result<
    Seq<char>,
    AgentErrorView,
> {
    match outcome {
        Ok(content) => Ok(content@),
        Err(failure) => Err(failure@),
    }
}

/// The result that answers a request for a tool nobody registered.
pub open spec fn missing(call: ToolUseView) -> ToolResultView {
    ToolResultView {
        tool_use_id: call.id,
        content: "tool '"@ + call.name + "' not found"@,
        is_error: true,
    }
}

/// The result that reports what a tool's run came to: its content as it is,
/// or its failure as an error that starts with `Error: `.
pub open spec fn settled(
    id: Seq<char>,
    outcome: Result<Seq<char>, AgentErrorView>,
) -> ToolResultView {
    match outcome {
        Ok(content) => ToolResultView { tool_use_id: id, content, is_error: false },
        Err(failure) => ToolResultView {
            tool_use_id: id,
            content: "Error: "@ + failure.message(),
            is_error: true,
        },
    }
}

impl ToolResult {
    /// The result that answers a request for a tool nobody registered.
    pub fn not_found(tool_use: &ToolUse) -> (result: ToolResult)
        ensures
            result@ == missing(tool_use@),
    {
        ToolResult {
            tool_use_id: tool_use.id.clone(),
            content: String::from_str("tool '").concat(tool_use.name.as_str()).concat(
                "' not found",
            ),
            is_error: true,
        }
    }

    /// The result that reports what a tool's run came to.
    pub fn from_outcome(tool_use_id: String, outcome: Result<String, AgentError>) -> (result:
        ToolResult)
        ensures
            result@ == settled(tool_use_id@, outcome_view(outcome)),
    {
        match outcome {
            Ok(content) => ToolResult { tool_use_id, content, is_error: false },
            Err(failure) => {
                let text = failure.message();
                ToolResult {
                    tool_use_id,
                    content: String::from_str("Error: ").concat(text.as_str()),
                    is_error: true,
                }
            },
        }
    }
}

/// `outcome` is something that running `tool` on `input` can give.
pub open spec fn runs<T: Tool + ?Sized>(
    tool: &T,
    input: serde_json::Value,
    outcome: Result<String, AgentError>,
) -> bool {
    call_ensures(T::execute, (tool, input), outcome)
}

/// One registered tool: what it said of itself when it was registered, and
/// the tool.
pub struct Registration<T: ?Sized> {
    pub definition: ToolDefinitionView,
    pub tool: Box<T>,
}

/// The registrations of a registry of any tools whatever, in order.
pub type Registrations = Seq<Registration<dyn Tool>>;

/// No two registrations share a name.
pub open spec fn distinct_names<T: ?Sized>(entries: Seq<Registration<T>>) -> bool {
    forall|i: int, j: int|
        0 <= i < j < entries.len() ==> entries[i].definition.name != entries[j].definition.name
}

/// Some registration has the name `name`.
pub open spec fn holds<T: ?Sized>(entries: Seq<Registration<T>>, name: Seq<char>) -> bool {
    exists|i: int| 0 <= i < entries.len() && entries[i].definition.name == name
}

/// The place of the registration named `name`, where there is one.
pub open spec fn slot<T: ?Sized>(entries: Seq<Registration<T>>, name: Seq<char>) -> int {
    choose|i: int| 0 <= i < entries.len() && entries[i].definition.name == name
}

/// The registrations after `entry` was registered: it takes the place of the
/// registration of the same name, or the last place where there was none.
pub open spec fn installed<T: ?Sized>(
    entries: Seq<Registration<T>>,
    entry: Registration<T>,
) -> Seq<Registration<T>> {
    if holds(entries, entry.definition.name) {
        entries.update(slot(entries, entry.definition.name), entry)
    } else {
        entries.push(entry)
    }
}

/// The registrations after `tool` was registered with `definition`.
pub open spec fn installed_as<T: ?Sized>(
    entries: Seq<Registration<T>>,
    definition: ToolDefinitionView,
    tool: Box<T>,
) -> Seq<Registration<T>> {
    installed(entries, Registration { definition, tool })
}

/// The catalog: the definition of each registration, in order.
pub open spec fn definitions_of<T: ?Sized>(entries: Seq<Registration<T>>) -> Seq<
    ToolDefinitionView,
> {
    entries.map_values(|entry: Registration<T>| entry.definition)
}

/// `result` answers `call` against these registrations. For a name that is
/// not registered it is the `missing` result. For a registered one it
/// reports something that running the tool of that name on the call's input
/// can give.
pub open spec fn answers<T: Tool + ?Sized>(
    entries: Seq<Registration<T>>,
    call: ToolUseView,
    result: ToolResultView,
) -> bool {
    if holds(entries, call.name) {
        exists|outcome: Result<String, AgentError>| #[trigger]
            runs(&*entries[slot(entries, call.name)].tool, call.input, outcome) && result
                == settled(call.id, outcome_view(outcome))
    } else {
        result == missing(call)
    }
}

/// A call for a tool that is not registered is answered by an error that
/// names the tool. Against a registry without tools that is every call.
pub proof fn lemma_unregistered_is_reported<T: Tool + ?Sized>(
    entries: Seq<Registration<T>>,
    call: ToolUseView,
    result: ToolResultView,
)
    requires
        entries.len() == 0 || !holds(entries, call.name),
        answers(entries, call, result),
    ensures
        result.tool_use_id == call.id,
        result.is_error,
        result.content == "tool '"@ + call.name + "' not found"@,
        crate::text::occurs(result.content, call.name),
{
    let at = "tool '"@.len() as int;
    assert(result.content.subrange(at, at + call.name.len()) =~= call.name);
    assert(crate::text::occurs_at(result.content, call.name, at));
}

/// Among distinct names, a name is found at one place only.
pub proof fn lemma_slot<T: ?Sized>(entries: Seq<Registration<T>>, at: int)
    requires
        distinct_names(entries),
        0 <= at < entries.len(),
    ensures
        holds(entries, entries[at].definition.name),
        slot(entries, entries[at].definition.name) == at,
{
    let name = entries[at].definition.name;
    let found = slot(entries, name);
    assert(0 <= found < entries.len() && entries[found].definition.name == name);
    if found < at {
        assert(entries[found].definition.name != entries[at].definition.name);
    }
    if at < found {
        assert(entries[at].definition.name != entries[found].definition.name);
    }
}

/// Registering keeps the names distinct, and the new registration is the one
/// found under its name.
pub proof fn lemma_installed<T: ?Sized>(entries: Seq<Registration<T>>, entry: Registration<T>)
    requires
        distinct_names(entries),
    ensures
        distinct_names(installed(entries, entry)),
        holds(installed(entries, entry), entry.definition.name),
        installed(entries, entry)[slot(installed(entries, entry), entry.definition.name)] == entry,
{
    let name = entry.definition.name;
    let after = installed(entries, entry);
    let at = if holds(entries, name) {
        slot(entries, name)
    } else {
        entries.len() as int
    };
    assert(0 <= at < after.len() && after[at] == entry);
    assert forall|i: int, j: int| 0 <= i < j < after.len() implies after[i].definition.name
        != after[j].definition.name by {
        if holds(entries, name) {
            assert(entries[i].definition.name != entries[j].definition.name);
        } else {
            if j < entries.len() {
                assert(entries[i].definition.name != entries[j].definition.name);
            }
        }
    }
    lemma_slot(after, at);
}

/// Last write wins: of two registrations under one name, made one after the
/// other, only the second is left. The catalog then holds that name exactly
/// once, with the second definition, and everything is as if the first had
/// never been made.
pub proof fn lemma_last_registration_wins<T: ?Sized>(
    entries: Seq<Registration<T>>,
    first: Registration<T>,
    second: Registration<T>,
)
    requires
        distinct_names(entries),
        first.definition.name == second.definition.name,
    ensures
        installed(installed(entries, first), second) == installed(entries, second),
        distinct_names(installed(entries, second)),
        ({
            let catalog = definitions_of(installed(installed(entries, first), second));
            let name = second.definition.name;
            &&& exists|i: int| 0 <= i < catalog.len() && catalog[i] == second.definition
            &&& forall|i: int, j: int|
                0 <= i < catalog.len() && 0 <= j < catalog.len() && catalog[i].name == name
                    && catalog[j].name == name ==> i == j
            &&& forall|i: int|
                0 <= i < catalog.len() && catalog[i].name == name ==> catalog[i]
                    == second.definition
        }),
{
    let name = second.definition.name;
    let once = installed(entries, first);
    let twice = installed(once, second);
    lemma_installed(entries, first);
    lemma_installed(once, second);
    lemma_installed(entries, second);
    if holds(entries, name) {
        lemma_slot(once, slot(entries, name));
    } else {
        lemma_slot(once, entries.len() as int);
    }
    assert(twice =~= installed(entries, second));
    let catalog = definitions_of(twice);
    let place = slot(twice, name);
    assert(0 <= place < catalog.len() && catalog[place] == second.definition);
    assert forall|i: int, j: int|
        0 <= i < catalog.len() && 0 <= j < catalog.len() && catalog[i].name == name
            && catalog[j].name == name implies i == j by {
        if i < j {
            assert(twice[i].definition.name != twice[j].definition.name);
        }
        if j < i {
            assert(twice[j].definition.name != twice[i].definition.name);
        }
    }
    assert forall|i: int| 0 <= i < catalog.len() && catalog[i].name == name implies catalog[i]
        == second.definition by {
        if i < place {
            assert(twice[i].definition.name != twice[place].definition.name);
        }
        if place < i {
            assert(twice[place].definition.name != twice[i].definition.name);
        }
    }
}

/// A tool as the registry keeps it.
///
/// The registry's work is written for any kind of tool `T`, and the registry
/// itself uses it for `dyn Tool`: what is proved of a `Box<T>` needs nothing
/// that is special to trait objects.
struct Entry<T: ?Sized> {
    definition: ToolDefinition,
    tool: Box<T>,
}

/// The registration that an entry stands for.
spec fn registration<T: ?Sized>(entry: Entry<T>) -> Registration<T> {
    Registration { definition: entry.definition@, tool: entry.tool }
}

/// The registrations that a list of entries stands for.
spec fn registrations<T: ?Sized>(entries: Seq<Entry<T>>) -> Seq<Registration<T>> {
    entries.map_values(|entry: Entry<T>| registration(entry))
}

/// The place of the entry named `name`.
fn position_in<T: ?Sized>(tools: &Vec<Entry<T>>, name: &str) -> (place: Option<usize>)
    requires
        distinct_names(registrations(tools@)),
    ensures
        place is Some <==> holds(registrations(tools@), name@),
        place is Some ==> place->0 < tools@.len() && slot(registrations(tools@), name@)
            == place->0,
{
    let key = String::from_str(name);
    let mut i: usize = 0;
    while i < tools.len()
        invariant
            i <= tools.len(),
            key@ == name@,
            distinct_names(registrations(tools@)),
            forall|j: int| 0 <= j < i ==> registrations(tools@)[j].definition.name != name@,
        decreases tools.len() - i,
    {
        assert(registrations(tools@)[i as int] == registration(tools@[i as int]));
        if tools[i].definition.name == key {
            proof {
                lemma_slot(registrations(tools@), i as int);
            }
            return Some(i);
        }
        i += 1;
    }
    None
}

/// Puts `tool` with `definition` in the place of the entry of the same name,
/// or at the end where there is none.
fn install_in<T: ?Sized>(tools: &mut Vec<Entry<T>>, definition: ToolDefinition, tool: Box<T>)
    requires
        distinct_names(registrations(old(tools)@)),
    ensures
        registrations(final(tools)@) == installed_as(
            registrations(old(tools)@),
            definition@,
            tool,
        ),
        distinct_names(registrations(final(tools)@)),
{
    let ghost before = registrations(tools@);
    let ghost entry = Registration { definition: definition@, tool: tool };
    proof {
        lemma_installed(before, entry);
    }
    match position_in(tools, definition.name.as_str()) {
        Some(place) => {
            tools.set(place, Entry { definition, tool });
            assert(registrations(tools@) =~= before.update(place as int, entry));
        },
        None => {
            tools.push(Entry { definition, tool });
            assert(registrations(tools@) =~= before.push(entry));
        },
    }
}

/// Asks `tool` what it is and puts it in the place that its name has.
fn register_in<T: Tool + ?Sized>(tools: &mut Vec<Entry<T>>, tool: Box<T>)
    requires
        distinct_names(registrations(old(tools)@)),
    ensures
        exists|definition: ToolDefinitionView|
            describes::<T>(&*tool, definition) && registrations(final(tools)@)
                == #[trigger] installed_as(registrations(old(tools)@), definition, tool),
        distinct_names(registrations(final(tools)@)),
{
    let definition = describe::<T>(&*tool);
    let ghost described = definition@;
    install_in(tools, definition, tool);
    assert(registrations(tools@) == installed_as(registrations(old(tools)@), described, tool));
}

/// The tool of the entry named `name`.
fn get_in<'a, T: ?Sized>(tools: &'a Vec<Entry<T>>, name: &str) -> (found: Option<&'a Box<T>>)
    requires
        distinct_names(registrations(tools@)),
    ensures
        found is Some <==> holds(registrations(tools@), name@),
        found is Some ==> *found->0 == registrations(tools@)[slot(
            registrations(tools@),
            name@,
        )].tool,
{
    match position_in(tools, name) {
        Some(place) => {
            assert(registrations(tools@)[place as int] == registration(tools@[place as int]));
            Some(&tools[place].tool)
        },
        None => None,
    }
}

/// A copy of the definition of each entry, in order.
fn definitions_in<T: ?Sized>(tools: &Vec<Entry<T>>) -> (catalog: Vec<ToolDefinition>)
    ensures
        definition_views(catalog@) == definitions_of(registrations(tools@)),
{
    let mut catalog: Vec<ToolDefinition> = Vec::new();
    let mut i: usize = 0;
    while i < tools.len()
        invariant
            i <= tools.len(),
            catalog@.len() == i,
            forall|j: int| 0 <= j < i ==> catalog@[j]@ == registrations(tools@)[j].definition,
        decreases tools.len() - i,
    {
        assert(registrations(tools@)[i as int] == registration(tools@[i as int]));
        catalog.push(tools[i].definition.clone());
        i += 1;
    }
    assert(definition_views(catalog@) =~= definitions_of(registrations(tools@)));
    catalog
}

/// Runs `tool` on `input`.
fn run<T: Tool + ?Sized>(tool: &T, input: serde_json::Value) -> (outcome: Result<
    String,
    AgentError,
>)
    ensures
        runs(tool, input, outcome),
{
    tool.execute(input)
}

/// Answers `tool_use` from these entries.
fn execute_in<T: Tool + ?Sized>(tools: &Vec<Entry<T>>, tool_use: &ToolUse) -> (result: ToolResult)
    requires
        distinct_names(registrations(tools@)),
    ensures
        result@.tool_use_id == tool_use@.id,
        answers(registrations(tools@), tool_use@, result@),
{
    match get_in(tools, tool_use.name.as_str()) {
        Some(tool) => {
            let outcome = run::<T>(&**tool, clone_value(&tool_use.input));
            let ghost came = outcome;
            let result = ToolResult::from_outcome(tool_use.id.clone(), outcome);
            assert(runs(
                &*registrations(tools@)[slot(registrations(tools@), tool_use@.name)].tool,
                tool_use@.input,
                came,
            ));
            result
        },
        None => ToolResult::not_found(tool_use),
    }
}

/// The tools that can be run, each under its own name, in the order in which
/// the names were first registered.
pub struct ToolRegistry {
    tools: Vec<Entry<dyn Tool>>,
}

impl View for ToolRegistry {
    type V = Registrations;

    closed spec fn view(&self) -> Registrations {
        registrations(self.tools@)
    }
}

impl ToolRegistry {
    #[verifier::type_invariant]
    spec fn well_formed(self) -> bool {
        distinct_names(self@)
    }

    /// A registry without tools.
    pub fn new() -> (registry: ToolRegistry)
        ensures
            registry@ == Registrations::empty(),
    {
        let registry = ToolRegistry { tools: Vec::new() };
        assert(registry@ =~= Registrations::empty());
        registry
    }

    /// Registers `tool` under `definition.name`, in place of whatever was
    /// registered under that name before.
    pub fn install(&mut self, definition: ToolDefinition, tool: Box<dyn Tool>)
        ensures
            final(self)@ == installed_as(old(self)@, definition@, tool),
            distinct_names(final(self)@),
    {
        proof {
            use_type_invariant(&*self);
        }
        let mut tools: Vec<Entry<dyn Tool>> = Vec::new();
        std::mem::swap(&mut self.tools, &mut tools);
        install_in(&mut tools, definition, tool);
        self.tools = tools;
    }

    /// Registers `tool` under the name it gives itself, in place of whatever
    /// was registered under that name before. The tool is asked once for its
    /// name, its description and its input schema, and the catalog shows them
    /// as they were given then.
    pub fn register(&mut self, tool: Box<dyn Tool>)
        ensures
            exists|definition: ToolDefinitionView|
                describes::<dyn Tool>(&*tool, definition) && final(self)@
                    == #[trigger] installed_as(old(self)@, definition, tool),
            distinct_names(final(self)@),
    {
        proof {
            use_type_invariant(&*self);
        }
        let mut tools: Vec<Entry<dyn Tool>> = Vec::new();
        std::mem::swap(&mut self.tools, &mut tools);
        register_in(&mut tools, tool);
        self.tools = tools;
    }

    /// The tool registered as `name`.
    pub fn get(&self, name: &str) -> (found: Option<&Box<dyn Tool>>)
        ensures
            found is Some <==> holds(self@, name@),
            found is Some ==> *found->0 == self@[slot(self@, name@)].tool,
    {
        proof {
            use_type_invariant(self);
        }
        get_in(&self.tools, name)
    }

    /// The catalog: what each registered tool said of itself, in order. No
    /// two of its entries share a name.
    pub fn definitions(&self) -> (catalog: Vec<ToolDefinition>)
        ensures
            definition_views(catalog@) == definitions_of(self@),
            distinct_names(self@),
    {
        proof {
            use_type_invariant(self);
        }
        definitions_in(&self.tools)
    }

    /// Runs the tool that `tool_use` names on a copy of its input and reports
    /// what came of it. This never fails: a name that is not registered and a
    /// tool that fails both give a result marked as an error.
    pub fn execute(&self, tool_use: &ToolUse) -> (result: Result<ToolResult, AgentError>)
        ensures
            result is Ok,
            result->Ok_0@.tool_use_id == tool_use@.id,
            answers(self@, tool_use@, result->Ok_0@),
    {
        proof {
            use_type_invariant(self);
        }
        Ok(execute_in(&self.tools, tool_use))
    }
}

} // verus!
