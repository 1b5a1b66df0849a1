//! Tools, the registry that holds them by name, and the prompt that tells a
//! model of them.
use vstd::prelude::*;

use crate::data::{Data, DataView};
use crate::order::{
    lemma_sorted_names, lemma_sorting_forgets_order, sort_names, sorted_names,
};
use crate::provider::optional;
use crate::text::{contains, occurs_at, same_text, texts};

verus! {

/// Why a tool gave no output.
#[derive(Debug, PartialEq, Eq)]
pub enum ToolError {
    InvalidArguments(String),
    Execution(String),
    Io(String),
}

/// What a [`ToolError`] says.
pub enum ToolErrorView {
    InvalidArguments(Seq<char>),
    Execution(Seq<char>),
    Io(Seq<char>),
}

impl View for ToolError {
    type V = ToolErrorView;

    open spec fn view(&self) -> ToolErrorView {
        match self {
            ToolError::InvalidArguments(e) => ToolErrorView::InvalidArguments(e@),
            ToolError::Execution(msg) => ToolErrorView::Execution(msg@),
            ToolError::Io(e) => ToolErrorView::Io(e@),
        }
    }
}

impl ToolErrorView {
    /// The error in words.
    pub open spec fn text(self) -> Seq<char> {
        match self {
            ToolErrorView::InvalidArguments(e) => "invalid tool arguments: "@ + e,
            ToolErrorView::Execution(msg) => "tool execution failed: "@ + msg,
            ToolErrorView::Io(e) => "tool io error: "@ + e,
        }
    }

    /// The message of the error beneath this one.
    pub open spec fn cause(self) -> Option<Seq<char>> {
        match self {
            ToolErrorView::InvalidArguments(e) => Some(e),
            ToolErrorView::Execution(_) => None,
            ToolErrorView::Io(e) => Some(e),
        }
    }
}

impl ToolError {
    /// The error in words.
    pub fn to_string(&self) -> (r: String)
        ensures
            r@ == self@.text(),
    {
        match self {
            ToolError::InvalidArguments(e) => {
                let mut text = "invalid tool arguments: ".to_owned();
                text.append(e.as_str());
                text
            },
            ToolError::Execution(msg) => {
                let mut text = "tool execution failed: ".to_owned();
                text.append(msg.as_str());
                text
            },
            ToolError::Io(e) => {
                let mut text = "tool io error: ".to_owned();
                text.append(e.as_str());
                text
            },
        }
    }

    /// The message of the error beneath this one.
    pub fn source(&self) -> (r: Option<String>)
        ensures
            optional(r) == self@.cause(),
    {
        match self {
            ToolError::InvalidArguments(e) => Some(e.clone()),
            ToolError::Execution(_) => None,
            ToolError::Io(e) => Some(e.clone()),
        }
    }
}

/// What a call of a tool gave.
pub open spec fn tool_result(r: Result<String, ToolError>) -> Result<Seq<char>, ToolErrorView> {
    match r {
        Ok(output) => Ok(output@),
        Err(e) => Err(e@),
    }
}

/// Something that a model can call by its name.
pub trait Tool: Sized {
    /// The name of the tool. A tool that is to be proved correct has to say what
    /// that is: what stands here is some function of the tool, of which nothing
    /// is known.
    open spec fn called(&self) -> Seq<char> {
        arbitrary::<spec_fn(Self) -> Seq<char>>()(*self)
    }

    /// What the tool does, in words. A tool that is to be proved correct has to
    /// say this too.
    open spec fn described(&self) -> Seq<char> {
        arbitrary::<spec_fn(Self) -> Seq<char>>()(*self)
    }

    /// Whether a call with `arguments` may give `result`. A tool that says
    /// nothing of it may give any result.
    open spec fn gives(
        &self,
        arguments: DataView,
        result: Result<Seq<char>, ToolErrorView>,
    ) -> bool {
        true
    }

    /// The name of the tool.
    fn name(&self) -> (r: &str)
        ensures
            r@ == self.called(),
    ;

    /// What the tool does, in words.
    fn description(&self) -> (r: &str)
        ensures
            r@ == self.described(),
    ;

    /// Call the tool.
    fn invoke(&self, args: &Data) -> (r: Result<String, ToolError>)
        ensures
            self.gives(args@, tool_result(r)),
    ;
}

// ---------------------------------------------------------------------------
// The registry
// ---------------------------------------------------------------------------
/// Why a tool was not registered.
#[derive(Debug, PartialEq, Eq)]
pub enum RegistryError {
    DuplicateName(String),
}

impl RegistryError {
    /// The name that was there already.
    pub open spec fn duplicate(self) -> Seq<char> {
        match self {
            RegistryError::DuplicateName(name) => name@,
        }
    }

    /// The error in words.
    pub fn to_string(&self) -> (r: String)
        ensures
            r@ == "tool already registered: "@ + self.duplicate(),
    {
        match self {
            RegistryError::DuplicateName(name) => {
                let mut text = "tool already registered: ".to_owned();
                text.append(name.as_str());
                text
            },
        }
    }
}

/// The names of tools.
pub open spec fn tool_names<T: Tool>(tools: Seq<T>) -> Seq<Seq<char>> {
    tools.map_values(|t: T| t.called())
}

/// The first tool with a name, from position `i` on.
pub open spec fn found_from<T: Tool>(tools: Seq<T>, name: Seq<char>, i: int) -> Option<T>
    decreases tools.len() - i,
{
    if i < 0 || i >= tools.len() {
        None
    } else if tools[i].called() == name {
        Some(tools[i])
    } else {
        found_from(tools, name, i + 1)
    }
}

/// The tool with a name.
pub open spec fn found<T: Tool>(tools: Seq<T>, name: Seq<char>) -> Option<T> {
    found_from(tools, name, 0)
}

/// The tools with one more behind them, or the name of the tool where there is
/// one of that name already.
pub open spec fn registered<T: Tool>(tools: Seq<T>, tool: T) -> Result<Seq<T>, Seq<char>> {
    if tool_names(tools).contains(tool.called()) {
        Err(tool.called())
    } else {
        Ok(tools.push(tool))
    }
}

/// Tools, no two of which have the same name.
pub struct ToolRegistry<T: Tool> {
    tools: Vec<T>,
}

impl<T: Tool> View for ToolRegistry<T> {
    type V = Seq<T>;

    /// The tools in the order in which they were registered.
    closed spec fn view(&self) -> Seq<T> {
        self.tools@
    }
}

impl<T: Tool> ToolRegistry<T> {
    #[verifier::type_invariant]
    spec fn well_formed(self) -> bool {
        tool_names(self.tools@).no_duplicates()
    }

    /// A registry without tools.
    pub fn new() -> (r: Self)
        ensures
            r@ == Seq::<T>::empty(),
    {
        Self { tools: Vec::new() }
    }

    /// Add a tool, unless one with its name is there.
    pub fn register(&mut self, tool: T) -> (r: Result<(), RegistryError>)
        ensures
            match r {
                Ok(()) => !tool_names(old(self)@).contains(tool.called()) && final(self)@ == old(
                    self,
                )@.push(tool),
                Err(e) => tool_names(old(self)@).contains(tool.called()) && e.duplicate()
                    == tool.called() && final(self)@ == old(self)@,
            },
            match registered(old(self)@, tool) {
                Ok(tools) => r is Ok && final(self)@ == tools,
                Err(name) => r is Err && r->Err_0.duplicate() == name && final(self)@ == old(
                    self,
                )@,
            },
    {
        proof {
            use_type_invariant(&*self);
        }
        let name = tool.name().to_owned();
        if self.get(name.as_str()).is_some() {
            proof {
                lemma_found(self@, name@);
            }
            return Err(RegistryError::DuplicateName(name));
        }
        proof {
            lemma_found(self@, name@);
        }
        let mut tools: Vec<T> = Vec::new();
        std::mem::swap(&mut tools, &mut self.tools);
        tools.push(tool);
        proof {
            assert(tool_names(tools@) =~= tool_names(old(self)@).push(tool.called()));
            assert forall|i: int, j: int| 0 <= i < j < tools@.len() implies tool_names(tools@)[i]
                != tool_names(tools@)[j] by {
                assert(tool_names(old(self)@).contains(tool_names(old(self)@)[i]));
            }
        }
        self.tools = tools;
        Ok(())
    }

    /// The tool with a name.
    pub fn get(&self, name: &str) -> (r: Option<&T>)
        ensures
            match r {
                Some(tool) => found(self@, name@) == Some(*tool),
                None => found(self@, name@) is None,
            },
    {
        let mut i: usize = 0;
        while i < self.tools.len()
            invariant
                i <= self.tools@.len(),
                self@ == self.tools@,
                found_from(self@, name@, i as int) == found(self@, name@),
            decreases self.tools@.len() - i,
        {
            if same_text(self.tools[i].name(), name) {
                return Some(&self.tools[i]);
            }
            i = i + 1;
        }
        None
    }

    /// The names of the tools, each once.
    pub fn names(&self) -> (r: Vec<String>)
        ensures
            texts(r@) == tool_names(self@),
            tool_names(self@).no_duplicates(),
    {
        proof {
            use_type_invariant(self);
        }
        let mut names: Vec<String> = Vec::new();
        let mut i: usize = 0;
        while i < self.tools.len()
            invariant
                i <= self.tools@.len(),
                self@ == self.tools@,
                names@.len() == i,
                forall|k: int| 0 <= k < i ==> (#[trigger] names@[k])@ == self@[k].called(),
            decreases self.tools@.len() - i,
        {
            names.push(self.tools[i].name().to_owned());
            i = i + 1;
        }
        assert(texts(names@) =~= tool_names(self@));
        names
    }
}

impl<T: Tool> Default for ToolRegistry<T> {
    fn default() -> (r: Self)
        ensures
            r@ == Seq::<T>::empty(),
    {
        Self::new()
    }
}

proof fn lemma_found_from<T: Tool>(tools: Seq<T>, name: Seq<char>, i: int)
    requires
        0 <= i,
    ensures
        found_from(tools, name, i) matches Some(t) ==> t.called() == name && exists|k: int|
            i <= k < tools.len() && #[trigger] tools[k] == t,
        found_from(tools, name, i) is None <==> forall|k: int|
            i <= k < tools.len() ==> (#[trigger] tools[k]).called() != name,
    decreases tools.len() - i,
{
    if i < tools.len() && tools[i].called() != name {
        lemma_found_from(tools, name, i + 1);
    }
}

/// A tool is found by a name exactly where a tool of that name is registered,
/// and what is found is a registered tool of that name.
pub proof fn lemma_found<T: Tool>(tools: Seq<T>, name: Seq<char>)
    ensures
        found(tools, name) is Some <==> tool_names(tools).contains(name),
        found(tools, name) matches Some(t) ==> tools.contains(t) && t.called() == name,
{
    lemma_found_from(tools, name, 0);
    if found(tools, name) is Some {
        let t = found(tools, name)->Some_0;
        let k = choose|k: int| 0 <= k < tools.len() && #[trigger] tools[k] == t;
        assert(tool_names(tools)[k] == name);
    } else if tool_names(tools).contains(name) {
        let k = choose|k: int| 0 <= k < tool_names(tools).len() && tool_names(tools)[k] == name;
        assert(tools[k].called() == name);
    }
}

/// Where names are not repeated, each tool is found by its name.
pub proof fn lemma_each_tool_is_found<T: Tool>(tools: Seq<T>, tool: T)
    requires
        tool_names(tools).no_duplicates(),
        tools.contains(tool),
    ensures
        found(tools, tool.called()) == Some(tool),
{
    let name = tool.called();
    let i = choose|i: int| 0 <= i < tools.len() && tools[i] == tool;
    assert(tool_names(tools)[i] == name);
    lemma_found(tools, name);
    let t = found(tools, name)->Some_0;
    let k = choose|k: int| 0 <= k < tools.len() && tools[k] == t;
    assert(tool_names(tools)[k] == name);
}

pub proof fn lemma_found_from_push<T: Tool>(tools: Seq<T>, tool: T, name: Seq<char>, i: int)
    requires
        0 <= i <= tools.len(),
    ensures
        found_from(tools.push(tool), name, i) == (match found_from(tools, name, i) {
            Some(t) => Some(t),
            None => if tool.called() == name {
                Some(tool)
            } else {
                None
            },
        }),
    decreases tools.len() - i,
{
    if i < tools.len() {
        lemma_found_from_push(tools, tool, name, i + 1);
    } else {
        reveal_with_fuel(found_from, 2);
    }
}

/// A tool that was registered is found by its name, and every other name finds
/// what it found before.
pub proof fn lemma_registered_is_found<T: Tool>(tools: Seq<T>, tool: T, other: Seq<char>)
    requires
        !tool_names(tools).contains(tool.called()),
        other != tool.called(),
    ensures
        found(tools.push(tool), tool.called()) == Some(tool),
        found(tools.push(tool), other) == found(tools, other),
{
    lemma_found(tools, tool.called());
    lemma_found_from_push(tools, tool, tool.called(), 0);
    lemma_found_from_push(tools, tool, other, 0);
}

// ---------------------------------------------------------------------------
// The prompt
// ---------------------------------------------------------------------------
/// What the prompt says before it lists the tools.
pub const PROMPT_HEAD: &'static str =
    "You are abcb, an agent that acts by emitting JSON.\n\nRespond with EXACTLY ONE JSON object and nothing else: no prose, no markdown code fences.\n\nThe object must be one of two shapes:\n\nTo call a tool:\n  {\"kind\":\"tool_call\",\"tool_name\":\"<one of the tools below>\",\"arguments\":{...}}\n\nTo give your final answer:\n  {\"kind\":\"final\",\"content\":\"<your answer>\"}\n\nAvailable tools:\n";

/// What the prompt says behind its list of tools.
pub const PROMPT_TAIL: &'static str =
    "\nExamples:\n  {\"kind\":\"tool_call\",\"tool_name\":\"echo\",\"arguments\":{\"text\":\"hello\"}}\n  {\"kind\":\"final\",\"content\":\"All done.\"}";

/// The line of a tool in the prompt.
pub open spec fn tool_line(name: Seq<char>, description: Seq<char>) -> Seq<char> {
    "- "@ + name + ": "@ + description + "\n"@
}

/// What the tool with a name does, in words.
pub open spec fn description_of<T: Tool>(tools: Seq<T>, name: Seq<char>) -> Seq<char> {
    match found(tools, name) {
        Some(tool) => tool.described(),
        None => ""@,
    }
}

/// The lines of the tools with these names.
pub open spec fn tool_lines<T: Tool>(tools: Seq<T>, names: Seq<Seq<char>>) -> Seq<char>
    decreases names.len(),
{
    if names.len() == 0 {
        Seq::empty()
    } else {
        tool_lines(tools, names.drop_last()) + tool_line(
            names.last(),
            description_of(tools, names.last()),
        )
    }
}

/// The prompt for a set of tools: the shape of a reply, the tools in the order
/// of their names, and examples.
pub open spec fn prompt<T: Tool>(tools: Seq<T>) -> Seq<char> {
    PROMPT_HEAD@ + tool_lines(tools, sorted_names(tool_names(tools))) + PROMPT_TAIL@
}

/// The prompt that teaches a model how to reply, and which tools there are.
pub fn system_prompt<T: Tool>(registry: &ToolRegistry<T>) -> (r: String)
    ensures
        r@ == prompt(registry@),
{
    let names = sort_names(registry.names());
    let ghost sorted = sorted_names(tool_names(registry@));
    let mut text = PROMPT_HEAD.to_owned();
    let ghost tools = registry@;
    assert(sorted.take(0) =~= Seq::empty());
    assert(text@ =~= PROMPT_HEAD@ + tool_lines(tools, sorted.take(0)));
    let mut i: usize = 0;
    while i < names.len()
        invariant
            i <= names@.len(),
            tools == registry@,
            sorted == texts(names@),
            text@ == PROMPT_HEAD@ + tool_lines(tools, sorted.take(i as int)),
        decreases names@.len() - i,
    {
        let ghost before = text@;
        let name = names[i].as_str();
        let description = match registry.get(name) {
            Some(tool) => tool.description(),
            None => "",
        };
        text.append("- ");
        text.append(name);
        text.append(": ");
        text.append(description);
        text.append("\n");
        proof {
            let next = sorted.take(i + 1);
            assert(next.drop_last() =~= sorted.take(i as int));
            assert(next.last() == name@);
            assert(text@ =~= before + tool_line(name@, description_of(tools, name@)));
            assert(text@ =~= PROMPT_HEAD@ + tool_lines(tools, next));
        }
        i = i + 1;
    }
    assert(sorted.take(i as int) =~= sorted);
    text.append(PROMPT_TAIL);
    text
}

proof fn lemma_lines_agree<T: Tool>(a: Seq<T>, b: Seq<T>, names: Seq<Seq<char>>)
    requires
        forall|i: int|
            0 <= i < names.len() ==> description_of(a, #[trigger] names[i]) == description_of(
                b,
                names[i],
            ),
    ensures
        tool_lines(a, names) == tool_lines(b, names),
    decreases names.len(),
{
    if names.len() > 0 {
        assert forall|i: int| 0 <= i < names.drop_last().len() implies description_of(
            a,
            #[trigger] names.drop_last()[i],
        ) == description_of(b, names.drop_last()[i]) by {
            assert(names.drop_last()[i] == names[i]);
        }
        lemma_lines_agree(a, b, names.drop_last());
        assert(description_of(a, names[names.len() - 1]) == description_of(b, names.last()));
    }
}

/// The prompt is the same whatever the order in which the tools were
/// registered.
pub proof fn lemma_prompt_forgets_order<T: Tool>(a: Seq<T>, b: Seq<T>)
    requires
        tool_names(a).no_duplicates(),
        tool_names(b).no_duplicates(),
        forall|t: T| a.contains(t) <==> b.contains(t),
    ensures
        prompt(a) == prompt(b),
{
    broadcast use vstd::multiset::group_multiset_axioms;

    let left = tool_names(a);
    let right = tool_names(b);
    assert forall|name: Seq<char>| left.contains(name) == right.contains(name) by {
        lemma_found(a, name);
        lemma_found(b, name);
        if left.contains(name) {
            let t = found(a, name)->Some_0;
            lemma_each_tool_is_found(b, t);
        }
        if right.contains(name) {
            let t = found(b, name)->Some_0;
            lemma_each_tool_is_found(a, t);
        }
    }
    left.lemma_multiset_has_no_duplicates();
    right.lemma_multiset_has_no_duplicates();
    assert forall|name: Seq<char>| left.to_multiset().count(name) == right.to_multiset().count(
        name,
    ) by {
        vstd::seq_lib::to_multiset_contains(left, name);
        vstd::seq_lib::to_multiset_contains(right, name);
        assert(left.contains(name) == right.contains(name));
    }
    assert(left.to_multiset() =~= right.to_multiset());
    lemma_sorting_forgets_order(left, right);
    let sorted = sorted_names(left);
    assert forall|i: int| 0 <= i < sorted.len() implies description_of(a, #[trigger] sorted[i])
        == description_of(b, sorted[i]) by {
        let name = sorted[i];
        lemma_found(a, name);
        lemma_found(b, name);
        if left.contains(name) {
            lemma_each_tool_is_found(b, found(a, name)->Some_0);
        } else {
            assert(!right.contains(name));
        }
    }
    lemma_lines_agree(a, b, sorted);
}

proof fn lemma_line_is_listed<T: Tool>(tools: Seq<T>, names: Seq<Seq<char>>, i: int) -> (at: int)
    requires
        0 <= i < names.len(),
    ensures
        occurs_at(
            tool_lines(tools, names),
            tool_line(names[i], description_of(tools, names[i])),
            at,
        ),
    decreases names.len(),
{
    let line = tool_line(names[i], description_of(tools, names[i]));
    let before = tool_lines(tools, names.drop_last());
    if i == names.len() - 1 {
        assert(tool_lines(tools, names).subrange(
            before.len() as int,
            before.len() as int + line.len(),
        ) =~= line);
        before.len() as int
    } else {
        let at = lemma_line_is_listed(tools, names.drop_last(), i);
        assert(tool_lines(tools, names).subrange(at, at + line.len()) =~= before.subrange(
            at,
            at + line.len(),
        ));
        at
    }
}

/// The prompt lists each tool with its name and its description.
pub proof fn lemma_prompt_lists_tool<T: Tool>(tools: Seq<T>, tool: T)
    requires
        tool_names(tools).no_duplicates(),
        tools.contains(tool),
    ensures
        contains(prompt(tools), tool_line(tool.called(), tool.described())),
{
    let names = tool_names(tools);
    let name = tool.called();
    lemma_each_tool_is_found(tools, tool);
    lemma_found(tools, name);
    let sorted = sorted_names(names);
    lemma_sorted_names(names);
    vstd::seq_lib::to_multiset_contains(names, name);
    vstd::seq_lib::to_multiset_contains(sorted, name);
    let i = choose|i: int| 0 <= i < sorted.len() && sorted[i] == name;
    let at = lemma_line_is_listed(tools, sorted, i);
    let line = tool_line(name, tool.described());
    let from = PROMPT_HEAD@.len() + at;
    assert(prompt(tools).subrange(from, from + line.len()) =~= tool_lines(tools, sorted).subrange(
        at,
        at + line.len(),
    ));
    assert(occurs_at(prompt(tools), line, from));
}

} // verus!
