//! The agent runtime model: assistant messages, the shared key-value state
//! that agents read and write, and the configuration of ReAct and
//! supervisor agents.
use vstd::prelude::*;

use crate::text::{
    chars_eq, chars_of, is_blank, is_blank_str, join, join_strings, replace, str_replace,
    to_string, trim, trim_str, views,
};

verus! {

// ---------------------------------------------------------------------------
// Assistant messages and state values
// ---------------------------------------------------------------------------

#[derive(Debug, PartialEq, Eq)]
pub struct AssistantMessage {
    text: String,
}

impl Clone for AssistantMessage {
    fn clone(&self) -> (r: Self)
        ensures
            r == *self,
    {
        AssistantMessage { text: self.text.clone() }
    }
}

impl View for AssistantMessage {
    type V = Seq<char>;

    closed spec fn view(&self) -> Seq<char> {
        self.text@
    }
}

impl AssistantMessage {
    pub fn new(text: &str) -> (r: Self)
        ensures
            r@ == text@,
    {
        AssistantMessage { text: to_string(text) }
    }

    pub fn text(&self) -> (r: &str)
        ensures
            r@ == self@,
    {
        self.text.as_str()
    }
}

/// What a state value holds: an assistant message or plain text.
pub enum StateValueModel {
    Message(Seq<char>),
    Text(Seq<char>),
}

impl StateValueModel {
    /// The text of the value, whichever kind it is.
    pub open spec fn text(self) -> Seq<char> {
        match self {
            StateValueModel::Message(t) => t,
            StateValueModel::Text(t) => t,
        }
    }
}

#[derive(Debug, PartialEq, Eq)]
pub enum StateValue {
    AssistantMessage(AssistantMessage),
    Text(String),
}

impl Clone for StateValue {
    fn clone(&self) -> (r: Self)
        ensures
            r == *self,
    {
        match self {
            StateValue::AssistantMessage(m) => StateValue::AssistantMessage(m.clone()),
            StateValue::Text(t) => StateValue::Text(t.clone()),
        }
    }
}

impl View for StateValue {
    type V = StateValueModel;

    open spec fn view(&self) -> StateValueModel {
        match self {
            StateValue::AssistantMessage(m) => StateValueModel::Message(m@),
            StateValue::Text(t) => StateValueModel::Text(t@),
        }
    }
}

impl StateValue {
    pub fn as_assistant_message(&self) -> (r: Option<&AssistantMessage>)
        ensures
            match self@ {
                StateValueModel::Message(t) => r is Some && r->0@ == t,
                StateValueModel::Text(_) => r is None,
            },
    {
        match self {
            StateValue::AssistantMessage(message) => Some(message),
            StateValue::Text(_) => None,
        }
    }

    pub fn as_text(&self) -> (r: &str)
        ensures
            r@ == self@.text(),
    {
        match self {
            StateValue::AssistantMessage(message) => message.text(),
            StateValue::Text(text) => text.as_str(),
        }
    }
}

// ---------------------------------------------------------------------------
// Overall state
// ---------------------------------------------------------------------------

/// The key-value map that the entries of a state spell out; a later entry
/// for a key overrides an earlier one.
pub open spec fn entries_map(entries: Seq<(String, StateValue)>) -> Map<Seq<char>, StateValueModel>
    decreases entries.len(),
{
    if entries.len() == 0 {
        Map::empty()
    } else {
        entries_map(entries.drop_last()).insert(entries.last().0@, entries.last().1@)
    }
}

/// No key occurs twice among the entries.
pub open spec fn distinct_keys(entries: Seq<(String, StateValue)>) -> bool {
    forall|i: int, j: int|
        0 <= i < entries.len() && 0 <= j < entries.len() && i != j ==> #[trigger] entries[i].0@
            != #[trigger] entries[j].0@
}

proof fn lemma_entries_map_dom(entries: Seq<(String, StateValue)>, k: Seq<char>)
    ensures
        entries_map(entries).contains_key(k) <==> exists|i: int|
            0 <= i < entries.len() && #[trigger] entries[i].0@ == k,
    decreases entries.len(),
{
    if entries.len() > 0 {
        let prefix = entries.drop_last();
        lemma_entries_map_dom(prefix, k);
        if entries_map(prefix).contains_key(k) {
            let i = choose|i: int| 0 <= i < prefix.len() && #[trigger] prefix[i].0@ == k;
            assert(entries[i].0@ == k);
        }
        if exists|i: int| 0 <= i < entries.len() && #[trigger] entries[i].0@ == k {
            let i = choose|i: int| 0 <= i < entries.len() && #[trigger] entries[i].0@ == k;
            if i < entries.len() - 1 {
                assert(prefix[i].0@ == k);
            }
        }
    }
}

proof fn lemma_entries_map_at(entries: Seq<(String, StateValue)>, i: int)
    requires
        distinct_keys(entries),
        0 <= i < entries.len(),
    ensures
        entries_map(entries).contains_key(entries[i].0@),
        entries_map(entries)[entries[i].0@] == entries[i].1@,
    decreases entries.len(),
{
    let prefix = entries.drop_last();
    if i < entries.len() - 1 {
        assert(prefix[i] == entries[i]);
        assert(distinct_keys(prefix)) by {
            assert forall|a: int, b: int|
                0 <= a < prefix.len() && 0 <= b < prefix.len() && a != b implies #[trigger] prefix[a].0@
                != #[trigger] prefix[b].0@ by {
                assert(prefix[a] == entries[a] && prefix[b] == entries[b]);
            }
        }
        lemma_entries_map_at(prefix, i);
        assert(entries[i].0@ != entries.last().0@);
    }
}

proof fn lemma_entries_map_update(
    entries: Seq<(String, StateValue)>,
    i: int,
    e: (String, StateValue),
)
    requires
        distinct_keys(entries),
        0 <= i < entries.len(),
        entries[i].0@ == e.0@,
    ensures
        entries_map(entries.update(i, e)) == entries_map(entries).insert(e.0@, e.1@),
        distinct_keys(entries.update(i, e)),
{
    let updated = entries.update(i, e);
    assert(distinct_keys(updated)) by {
        assert forall|a: int, b: int|
            0 <= a < updated.len() && 0 <= b < updated.len() && a != b implies #[trigger] updated[a].0@
            != #[trigger] updated[b].0@ by {
            assert(updated[a].0@ == entries[a].0@);
            assert(updated[b].0@ == entries[b].0@);
        }
    }
    let m1 = entries_map(updated);
    let m2 = entries_map(entries).insert(e.0@, e.1@);
    assert forall|k: Seq<char>| m1.contains_key(k) <==> m2.contains_key(k) by {
        lemma_entries_map_dom(updated, k);
        lemma_entries_map_dom(entries, k);
        if k == e.0@ {
            assert(updated[i].0@ == k);
        }
        if m2.contains_key(k) && k != e.0@ {
            let j = choose|j: int| 0 <= j < entries.len() && #[trigger] entries[j].0@ == k;
            assert(updated[j].0@ == k);
        }
        if m1.contains_key(k) {
            let j = choose|j: int| 0 <= j < updated.len() && #[trigger] updated[j].0@ == k;
            assert(entries[j].0@ == k);
        }
    }
    assert forall|k: Seq<char>| m1.contains_key(k) implies m1[k] == m2[k] by {
        lemma_entries_map_dom(updated, k);
        let j = choose|j: int| 0 <= j < updated.len() && #[trigger] updated[j].0@ == k;
        lemma_entries_map_at(updated, j);
        if j != i {
            assert(updated[j] == entries[j]);
            lemma_entries_map_at(entries, j);
        }
    }
    assert(m1 =~= m2);
}

/// The state shared by the agents of one run: values by key.
#[derive(Debug, PartialEq, Eq)]
pub struct OverAllState {
    entries: Vec<(String, StateValue)>,
}

impl Clone for OverAllState {
    fn clone(&self) -> (r: Self)
        ensures
            r@ == self@,
    {
        proof {
            use_type_invariant(self);
        }
        let mut entries: Vec<(String, StateValue)> = Vec::new();
        let mut i: usize = 0;
        while i < self.entries.len()
            invariant
                i <= self.entries.len(),
                entries@ == self.entries@.take(i as int),
            decreases self.entries.len() - i,
        {
            let key = self.entries[i].0.clone();
            let value = self.entries[i].1.clone();
            entries.push((key, value));
            assert(self.entries@.take(i + 1) =~= self.entries@.take(i as int).push(
                self.entries@[i as int],
            ));
            i = i + 1;
        }
        assert(self.entries@.take(self.entries.len() as int) =~= self.entries@);
        OverAllState { entries }
    }
}

impl View for OverAllState {
    type V = Map<Seq<char>, StateValueModel>;

    closed spec fn view(&self) -> Map<Seq<char>, StateValueModel> {
        entries_map(self.entries@)
    }
}

impl OverAllState {
    #[verifier::type_invariant]
    closed spec fn wf(&self) -> bool {
        distinct_keys(self.entries@)
    }

    pub fn new() -> (r: Self)
        ensures
            r@ == Map::<Seq<char>, StateValueModel>::empty(),
    {
        OverAllState { entries: Vec::new() }
    }

    fn index_of(&self, key: &str) -> (r: Option<usize>)
        requires
            self.wf(),
        ensures
            match r {
                Some(i) => i < self.entries.len() && self.entries@[i as int].0@ == key@,
                None => !self@.contains_key(key@),
            },
    {
        let k = chars_of(key);
        let mut i: usize = 0;
        while i < self.entries.len()
            invariant
                i <= self.entries.len(),
                k@ == key@,
                forall|j: int| 0 <= j < i ==> #[trigger] self.entries@[j].0@ != key@,
            decreases self.entries.len() - i,
        {
            let c = chars_of(self.entries[i].0.as_str());
            if chars_eq(&c, &k) {
                return Some(i);
            }
            i = i + 1;
        }
        proof {
            lemma_entries_map_dom(self.entries@, key@);
        }
        None
    }

    /// The value stored under `key`.
    pub fn value(&self, key: &str) -> (r: Option<&StateValue>)
        ensures
            match r {
                Some(v) => self@.contains_key(key@) && self@[key@] == v@,
                None => !self@.contains_key(key@),
            },
    {
        proof {
            use_type_invariant(self);
        }
        match self.index_of(key) {
            Some(i) => {
                proof {
                    lemma_entries_map_at(self.entries@, i as int);
                }
                Some(&self.entries[i].1)
            },
            None => None,
        }
    }

    /// The assistant message stored under `key`, if the value there is one.
    pub fn assistant_message(&self, key: &str) -> (r: Option<&AssistantMessage>)
        ensures
            match r {
                Some(m) => self@.contains_key(key@) && self@[key@] == StateValueModel::Message(m@),
                None => !(self@.contains_key(key@) && self@[key@] is Message),
            },
    {
        match self.value(key) {
            Some(v) => v.as_assistant_message(),
            None => None,
        }
    }

    /// The text of the value stored under `key`.
    pub fn text(&self, key: &str) -> (r: Option<&str>)
        ensures
            match r {
                Some(t) => self@.contains_key(key@) && t@ == self@[key@].text(),
                None => !self@.contains_key(key@),
            },
    {
        match self.value(key) {
            Some(v) => Some(v.as_text()),
            None => None,
        }
    }

    /// The text stored under `key`, or the empty string.
    pub fn text_or_empty(&self, key: &str) -> (r: &str)
        ensures
            r@ == text_or(self@, key@, Seq::empty()),
    {
        match self.text(key) {
            Some(t) => t,
            None => {
                proof {
                    reveal_strlit("");
                }
                ""
            },
        }
    }

    pub fn insert(&mut self, key: &str, value: StateValue)
        ensures
            final(self)@ == old(self)@.insert(key@, value@),
    {
        proof {
            use_type_invariant(&*self);
        }
        let entry = (to_string(key), value);
        let found = self.index_of(key);
        let ghost before = self.entries@;
        let mut entries: Vec<(String, StateValue)> = Vec::new();
        std::mem::swap(&mut entries, &mut self.entries);
        match found {
            Some(i) => {
                proof {
                    lemma_entries_map_update(before, i as int, entry);
                }
                entries.set(i, entry);
            },
            None => {
                proof {
                    assert(before.push(entry).drop_last() =~= before);
                    assert forall|j: int| 0 <= j < before.len() implies #[trigger] before[j].0@
                        != key@ by {
                        lemma_entries_map_dom(before, key@);
                    }
                }
                entries.push(entry);
            },
        }
        self.entries = entries;
    }

    pub fn insert_text(&mut self, key: &str, text: &str)
        ensures
            final(self)@ == old(self)@.insert(key@, StateValueModel::Text(text@)),
    {
        self.insert(key, StateValue::Text(to_string(text)));
    }

    pub fn insert_assistant_message(&mut self, key: &str, text: &str)
        ensures
            final(self)@ == old(self)@.insert(key@, StateValueModel::Message(text@)),
    {
        self.insert(key, StateValue::AssistantMessage(AssistantMessage::new(text)));
    }

    /// Records what an agent produced, under that agent's output key.
    pub fn record_agent_output(&mut self, agent_name: &str, output: &str)
        ensures
            final(self)@ == old(self)@.insert(
                agent_output_key_spec(agent_name@),
                StateValueModel::Message(output@),
            ),
    {
        let key = agent_output_key(agent_name);
        self.insert_assistant_message(key.as_str(), output);
    }

    /// What an agent produced, if it was recorded as an assistant message.
    pub fn agent_output(&self, agent_name: &str) -> (r: Option<&AssistantMessage>)
        ensures
            match r {
                Some(m) => self@.contains_key(agent_output_key_spec(agent_name@))
                    && self@[agent_output_key_spec(agent_name@)] == StateValueModel::Message(m@),
                None => !(self@.contains_key(agent_output_key_spec(agent_name@))
                    && self@[agent_output_key_spec(agent_name@)] is Message),
            },
    {
        let key = agent_output_key(agent_name);
        self.assistant_message(key.as_str())
    }

    /// Fills `{input}`, `{planner_plan}` and `{executor_feedback}` in `template`,
    /// in that order.
    pub fn render_template(&self, template: &str) -> (r: String)
        ensures
            r@ == render_template_spec(self@, template@),
    {
        let input = self.text_or_empty("input");
        let plan = match self.text("planner_plan") {
            Some(t) => t,
            None => NOT_YET,
        };
        let feedback = match self.text("executor_feedback") {
            Some(t) => t,
            None => NOT_YET,
        };
        let placeholder_input = "{input}";
        let placeholder_plan = "{planner_plan}";
        let placeholder_feedback = "{executor_feedback}";
        proof {
            reveal_strlit("{input}");
            reveal_strlit("{planner_plan}");
            reveal_strlit("{executor_feedback}");
        }
        let a = str_replace(template, placeholder_input, input);
        let b = str_replace(a.as_str(), placeholder_plan, plan);
        str_replace(b.as_str(), placeholder_feedback, feedback)
    }
}

impl Default for OverAllState {
    fn default() -> (r: Self)
        ensures
            r@ == Map::<Seq<char>, StateValueModel>::empty(),
    {
        OverAllState::new()
    }
}

/// Text shown in a template where the state holds no value yet.
pub const NOT_YET: &'static str = "（暂无）";

/// The text stored under `key`, or `default`.
pub open spec fn text_or(
    m: Map<Seq<char>, StateValueModel>,
    key: Seq<char>,
    default: Seq<char>,
) -> Seq<char> {
    if m.contains_key(key) {
        m[key].text()
    } else {
        default
    }
}

/// The template with its three placeholders filled from the state.
pub open spec fn render_template_spec(
    m: Map<Seq<char>, StateValueModel>,
    template: Seq<char>,
) -> Seq<char> {
    let a = replace(template, "{input}"@, text_or(m, "input"@, Seq::empty()));
    let b = replace(a, "{planner_plan}"@, text_or(m, "planner_plan"@, NOT_YET@));
    replace(b, "{executor_feedback}"@, text_or(m, "executor_feedback"@, NOT_YET@))
}

/// The state key under which an agent's output is recorded.
pub open spec fn agent_output_key_spec(agent_name: Seq<char>) -> Seq<char> {
    "agent_output:"@ + agent_name
}

pub fn agent_output_key(agent_name: &str) -> (r: String)
    ensures
        r@ == agent_output_key_spec(agent_name@),
{
    let mut r = to_string("agent_output:");
    r.append(agent_name);
    r
}

// ---------------------------------------------------------------------------
// ReAct agents
// ---------------------------------------------------------------------------

/// What a ReAct agent is configured with.
pub struct ReactAgentModel {
    pub name: Seq<char>,
    pub description: Seq<char>,
    pub model: Seq<char>,
    pub system_prompt: Seq<char>,
    pub output_key: Option<Seq<char>>,
    pub method_tools: Seq<Seq<char>>,
    pub tool_callbacks: Seq<Seq<char>>,
    pub allowed_tools: Option<Seq<Seq<char>>>,
    pub max_turns: nat,
}

impl ReactAgentModel {
    /// Whether the agent may call the tool named `tool`: any tool when no
    /// allow-list is set, else the tools on it.
    pub open spec fn allows(self, tool: Seq<char>) -> bool {
        match self.allowed_tools {
            None => true,
            Some(list) => list.contains(tool),
        }
    }
}

#[derive(Debug, PartialEq, Eq)]
pub struct ReactAgent {
    name: String,
    description: String,
    model: String,
    system_prompt: String,
    output_key: Option<String>,
    method_tools: Vec<String>,
    tool_callbacks: Vec<String>,
    allowed_tools: Option<Vec<String>>,
    max_turns: usize,
}

pub open spec fn opt_view(o: Option<String>) -> Option<Seq<char>> {
    match o {
        Some(s) => Some(s@),
        None => None,
    }
}

pub open spec fn opt_views(o: Option<Vec<String>>) -> Option<Seq<Seq<char>>> {
    match o {
        Some(v) => Some(views(v@)),
        None => None,
    }
}

impl View for ReactAgent {
    type V = ReactAgentModel;

    closed spec fn view(&self) -> ReactAgentModel {
        ReactAgentModel {
            name: self.name@,
            description: self.description@,
            model: self.model@,
            system_prompt: self.system_prompt@,
            output_key: opt_view(self.output_key),
            method_tools: views(self.method_tools@),
            tool_callbacks: views(self.tool_callbacks@),
            allowed_tools: opt_views(self.allowed_tools),
            max_turns: self.max_turns as nat,
        }
    }
}

/// A copy of a vector of strings.
pub fn clone_strings(v: &Vec<String>) -> (r: Vec<String>)
    ensures
        r@ == v@,
{
    let mut r: Vec<String> = Vec::new();
    let mut i: usize = 0;
    while i < v.len()
        invariant
            i <= v.len(),
            r@ == v@.take(i as int),
        decreases v.len() - i,
    {
        r.push(v[i].clone());
        assert(v@.take(i + 1) =~= v@.take(i as int).push(v@[i as int]));
        i = i + 1;
    }
    assert(v@.take(v.len() as int) =~= v@);
    r
}

impl Clone for ReactAgent {
    fn clone(&self) -> (r: Self)
        ensures
            r@ == self@,
    {
        ReactAgent {
            name: self.name.clone(),
            description: self.description.clone(),
            model: self.model.clone(),
            system_prompt: self.system_prompt.clone(),
            output_key: match &self.output_key {
                Some(k) => Some(k.clone()),
                None => None,
            },
            method_tools: clone_strings(&self.method_tools),
            tool_callbacks: clone_strings(&self.tool_callbacks),
            allowed_tools: match &self.allowed_tools {
                Some(v) => Some(clone_strings(v)),
                None => None,
            },
            max_turns: self.max_turns,
        }
    }
}

impl ReactAgent {
    pub fn new(name: &str, model: &str, system_prompt: &str, max_turns: usize) -> (r: Self)
        ensures
            r@ == (ReactAgentModel {
                name: name@,
                description: Seq::empty(),
                model: model@,
                system_prompt: system_prompt@,
                output_key: None,
                method_tools: Seq::empty(),
                tool_callbacks: Seq::empty(),
                allowed_tools: None,
                max_turns: max_turns as nat,
            }),
    {
        let r = ReactAgent {
            name: to_string(name),
            description: String::new(),
            model: to_string(model),
            system_prompt: to_string(system_prompt),
            output_key: None,
            method_tools: Vec::new(),
            tool_callbacks: Vec::new(),
            allowed_tools: None,
            max_turns,
        };
        assert(views(r.method_tools@) =~= Seq::empty());
        assert(views(r.tool_callbacks@) =~= Seq::empty());
        r
    }

    pub fn with_description(self, description: &str) -> (r: Self)
        ensures
            r@ == (ReactAgentModel { description: description@, ..self@ }),
    {
        ReactAgent { description: to_string(description), ..self }
    }

    pub fn with_output_key(self, output_key: &str) -> (r: Self)
        ensures
            r@ == (ReactAgentModel { output_key: Some(output_key@), ..self@ }),
    {
        ReactAgent { output_key: Some(to_string(output_key)), ..self }
    }

    pub fn with_tool_metadata(self, method_tools: Vec<String>, tool_callbacks: Vec<String>) -> (r:
        Self)
        ensures
            r@ == (ReactAgentModel {
                method_tools: views(method_tools@),
                tool_callbacks: views(tool_callbacks@),
                ..self@
            }),
    {
        ReactAgent { method_tools, tool_callbacks, ..self }
    }

    pub fn with_allowed_tools(self, allowed_tools: Vec<String>) -> (r: Self)
        ensures
            r@ == (ReactAgentModel { allowed_tools: Some(views(allowed_tools@)), ..self@ }),
    {
        ReactAgent { allowed_tools: Some(allowed_tools), ..self }
    }

    pub fn name(&self) -> (r: &str)
        ensures
            r@ == self@.name,
    {
        self.name.as_str()
    }

    pub fn description(&self) -> (r: &str)
        ensures
            r@ == self@.description,
    {
        self.description.as_str()
    }

    pub fn model(&self) -> (r: &str)
        ensures
            r@ == self@.model,
    {
        self.model.as_str()
    }

    pub fn system_prompt(&self) -> (r: &str)
        ensures
            r@ == self@.system_prompt,
    {
        self.system_prompt.as_str()
    }

    /// The preamble handed to the model: the system prompt.
    pub fn preamble(&self) -> (r: &str)
        ensures
            r@ == self@.system_prompt,
    {
        self.system_prompt()
    }

    /// The system prompt with its placeholders filled from `state`.
    pub fn render_system_prompt(&self, state: &OverAllState) -> (r: String)
        ensures
            r@ == render_template_spec(state@, self@.system_prompt),
    {
        state.render_template(self.system_prompt())
    }

    pub fn output_key(&self) -> (r: Option<&str>)
        ensures
            match r {
                Some(k) => self@.output_key == Some(k@),
                None => self@.output_key is None,
            },
    {
        match &self.output_key {
            Some(k) => Some(k.as_str()),
            None => None,
        }
    }

    pub fn max_turns(&self) -> (r: usize)
        ensures
            r == self@.max_turns,
    {
        self.max_turns
    }

    pub fn method_tools(&self) -> (r: &[String])
        ensures
            views(r@) == self@.method_tools,
    {
        self.method_tools.as_slice()
    }

    pub fn tool_callbacks(&self) -> (r: &[String])
        ensures
            views(r@) == self@.tool_callbacks,
    {
        self.tool_callbacks.as_slice()
    }

    pub fn allowed_tools(&self) -> (r: Option<&[String]>)
        ensures
            match r {
                Some(list) => self@.allowed_tools == Some(views(list@)),
                None => self@.allowed_tools is None,
            },
    {
        match &self.allowed_tools {
            Some(v) => Some(v.as_slice()),
            None => None,
        }
    }

    /// Whether the agent may call `tool_name`.
    pub fn allows_tool(&self, tool_name: &str) -> (r: bool)
        ensures
            r == self@.allows(tool_name@),
    {
        match &self.allowed_tools {
            None => true,
            Some(list) => {
                let target = chars_of(tool_name);
                let mut i: usize = 0;
                assert(self@.allowed_tools == Some(views(list@)));
                while i < list.len()
                    invariant
                        self@.allowed_tools == Some(views(list@)),
                        i <= list.len(),
                        target@ == tool_name@,
                        forall|j: int| 0 <= j < i ==> list@[j]@ != tool_name@,
                    decreases list.len() - i,
                {
                    let c = chars_of(list[i].as_str());
                    if chars_eq(&c, &target) {
                        assert(views(list@)[i as int] == tool_name@);
                        assert(views(list@).len() == list@.len());
                        assert(views(list@).contains(tool_name@));
                        return true;
                    }
                    i = i + 1;
                }
                assert(!views(list@).contains(tool_name@)) by {
                    if views(list@).contains(tool_name@) {
                        let j = choose|j: int|
                            0 <= j < views(list@).len() && views(list@)[j] == tool_name@;
                        assert(list@[j]@ == tool_name@);
                    }
                }
                false
            },
        }
    }
}

// ---------------------------------------------------------------------------
// Supervisor agents
// ---------------------------------------------------------------------------

/// What a supervisor agent is configured with.
pub struct SupervisorAgentModel {
    pub name: Seq<char>,
    pub description: Seq<char>,
    pub model: Seq<char>,
    pub system_prompt: Seq<char>,
    pub sub_agents: Seq<ReactAgentModel>,
    pub max_turns: nat,
}

pub open spec fn agent_views(v: Seq<ReactAgent>) -> Seq<ReactAgentModel> {
    v.map_values(|a: ReactAgent| a@)
}

#[derive(Debug)]
pub struct SupervisorAgent {
    name: String,
    description: String,
    model: String,
    system_prompt: String,
    sub_agents: Vec<ReactAgent>,
    max_turns: usize,
}

impl View for SupervisorAgent {
    type V = SupervisorAgentModel;

    closed spec fn view(&self) -> SupervisorAgentModel {
        SupervisorAgentModel {
            name: self.name@,
            description: self.description@,
            model: self.model@,
            system_prompt: self.system_prompt@,
            sub_agents: agent_views(self.sub_agents@),
            max_turns: self.max_turns as nat,
        }
    }
}

/// The prompt a supervisor starts from unless told otherwise.
pub const SUPERVISOR_PROMPT: &'static str = "你是 AI Ops Supervisor，负责把告警排查任务拆给专业子 Agent，并基于子 Agent 返回的证据和分析自行综合最终结论。\n你必须遵守：\n1. 只通过 handoff 工具委派子任务，不直接调用 Prometheus、日志、文档等诊断工具。\n2. 子 Agent 的返回内容只是材料；最终《告警分析报告》必须由你输出。\n3. 严禁编造数据；证据不足时必须明确说明缺失证据。\n4. 工具或子 Agent 返回中若包含 _diagnosisEvidenceId 或 [evidence: ev-xxxx]，报告引用对应结论时必须标注该 evidence id。\n5. 若连续委派仍无法获得有效证据，必须在报告中说明无法完成的原因。\n";

pub const SUPERVISOR_NAME: &'static str = "ai_ops_supervisor";

pub const SUPERVISOR_DESCRIPTION: &'static str = "负责调度专业子 Agent 的多 Agent 控制器";

pub const HANDOFF_AGENTS_HEADING: &'static str = "\n\n## 可委派子 Agent\n";

pub const HANDOFF_RULES: &'static str = "\n\n## Handoff 工具规则\n- 你可以通过 transfer_to_<agent_name> 工具把明确子任务交给对应子 Agent。\n- 每次委派必须给出清晰 task；context 可包含当前已知事实、已获得证据和你希望子 Agent 聚焦的问题。\n- 子 Agent 返回的是证据或分析材料，你需要自行综合判断。\n- 最终答案必须由你输出，不要要求子 Agent 输出最终用户报告。";

pub const NO_SUB_AGENTS: &'static str = "（暂无可委派子 Agent）";

pub const NO_DESCRIPTION: &'static str = "无描述";

/// One line of the sub-agent list: `- name: description`.
pub open spec fn sub_agent_line(a: ReactAgentModel) -> Seq<char> {
    "- "@ + a.name + ": "@ + (if is_blank(a.description) {
        NO_DESCRIPTION@
    } else {
        a.description
    })
}

/// The sub-agent list of the handoff preamble.
pub open spec fn sub_agent_list(agents: Seq<ReactAgentModel>) -> Seq<char> {
    if agents.len() == 0 {
        NO_SUB_AGENTS@
    } else {
        join(agents.map_values(|a: ReactAgentModel| sub_agent_line(a)), "\n"@)
    }
}

/// The preamble a supervisor runs with: its prompt, the agents it may hand
/// work to, and the handoff rules.
pub open spec fn handoff_preamble(s: SupervisorAgentModel) -> Seq<char> {
    trim(s.system_prompt) + HANDOFF_AGENTS_HEADING@ + sub_agent_list(s.sub_agents) + HANDOFF_RULES@
}

impl SupervisorAgent {
    pub fn builder() -> (r: SupervisorAgentBuilder)
        ensures
            r@ == default_builder_model(),
    {
        SupervisorAgentBuilder::default()
    }

    /// The standard AI Ops supervisor for `model`.
    pub fn new(model: &str, max_turns: usize) -> (r: Self)
        ensures
            r@ == (SupervisorAgentModel {
                name: SUPERVISOR_NAME@,
                description: SUPERVISOR_DESCRIPTION@,
                model: model@,
                system_prompt: SUPERVISOR_PROMPT@,
                sub_agents: Seq::empty(),
                max_turns: max_turns as nat,
            }),
    {
        let prompt = Self::default_system_prompt();
        Self::builder().name(SUPERVISOR_NAME).description(SUPERVISOR_DESCRIPTION).model(
            model,
        ).system_prompt(prompt.as_str()).max_turns(max_turns).build()
    }

    pub fn default_system_prompt() -> (r: String)
        ensures
            r@ == SUPERVISOR_PROMPT@,
    {
        to_string(SUPERVISOR_PROMPT)
    }

    pub fn name(&self) -> (r: &str)
        ensures
            r@ == self@.name,
    {
        self.name.as_str()
    }

    pub fn description(&self) -> (r: &str)
        ensures
            r@ == self@.description,
    {
        self.description.as_str()
    }

    pub fn model(&self) -> (r: &str)
        ensures
            r@ == self@.model,
    {
        self.model.as_str()
    }

    pub fn system_prompt(&self) -> (r: &str)
        ensures
            r@ == self@.system_prompt,
    {
        self.system_prompt.as_str()
    }

    pub fn preamble(&self) -> (r: &str)
        ensures
            r@ == self@.system_prompt,
    {
        self.system_prompt()
    }

    pub fn sub_agents(&self) -> (r: &[ReactAgent])
        ensures
            agent_views(r@) == self@.sub_agents,
    {
        self.sub_agents.as_slice()
    }

    /// The first sub-agent named `name`.
    pub fn sub_agent(&self, name: &str) -> (r: Option<&ReactAgent>)
        ensures
            match r {
                Some(a) => exists|i: int|
                    0 <= i < self@.sub_agents.len() && self@.sub_agents[i] == a@ && a@.name
                        == name@ && forall|j: int| 0 <= j < i ==> self@.sub_agents[j].name != name@,
                None => forall|j: int|
                    0 <= j < self@.sub_agents.len() ==> self@.sub_agents[j].name != name@,
            },
    {
        let target = chars_of(name);
        let mut i: usize = 0;
        while i < self.sub_agents.len()
            invariant
                i <= self.sub_agents.len(),
                target@ == name@,
                forall|j: int| 0 <= j < i ==> self@.sub_agents[j].name != name@,
            decreases self.sub_agents.len() - i,
        {
            let c = chars_of(self.sub_agents[i].name());
            if chars_eq(&c, &target) {
                assert(self@.sub_agents[i as int] == self.sub_agents@[i as int]@);
                return Some(&self.sub_agents[i]);
            }
            i = i + 1;
        }
        None
    }

    pub fn max_turns(&self) -> (r: usize)
        ensures
            r == self@.max_turns,
    {
        self.max_turns
    }

    /// The prompt with the list of sub-agents and the handoff rules.
    pub fn build_handoff_preamble(&self) -> (r: String)
        ensures
            r@ == handoff_preamble(self@),
    {
        let mut r = trim_str(self.system_prompt.as_str());
        r.append(HANDOFF_AGENTS_HEADING);
        if self.sub_agents.len() == 0 {
            r.append(NO_SUB_AGENTS);
        } else {
            let mut lines: Vec<String> = Vec::new();
            let mut i: usize = 0;
            while i < self.sub_agents.len()
                invariant
                    i <= self.sub_agents.len(),
                    views(lines@) == agent_views(self.sub_agents@).take(i as int).map_values(
                        |a: ReactAgentModel| sub_agent_line(a),
                    ),
                decreases self.sub_agents.len() - i,
            {
                let agent = &self.sub_agents[i];
                let mut line = to_string("- ");
                line.append(agent.name());
                line.append(": ");
                if is_blank_str(agent.description()) {
                    line.append(NO_DESCRIPTION);
                } else {
                    line.append(agent.description());
                }
                let ghost before = lines@;
                lines.push(line);
                proof {
                    assert(views(lines@) =~= views(before).push(line@));
                    assert(agent_views(self.sub_agents@).take(i + 1) =~= agent_views(
                        self.sub_agents@,
                    ).take(i as int).push(agent@));
                    assert(agent_views(self.sub_agents@).take(i + 1).map_values(
                        |a: ReactAgentModel| sub_agent_line(a),
                    ) =~= agent_views(self.sub_agents@).take(i as int).map_values(
                        |a: ReactAgentModel| sub_agent_line(a),
                    ).push(sub_agent_line(agent@)));
                }
                i = i + 1;
            }
            assert(agent_views(self.sub_agents@).take(self.sub_agents.len() as int)
                =~= agent_views(self.sub_agents@));
            let list = join_strings(&lines, "\n");
            r.append(list.as_str());
        }
        r.append(HANDOFF_RULES);
        r
    }
}

/// What a supervisor builder holds.
pub open spec fn default_builder_model() -> SupervisorAgentModel {
    SupervisorAgentModel {
        name: Seq::empty(),
        description: Seq::empty(),
        model: Seq::empty(),
        system_prompt: SUPERVISOR_PROMPT@,
        sub_agents: Seq::empty(),
        max_turns: 1,
    }
}

#[derive(Debug)]
pub struct SupervisorAgentBuilder {
    name: String,
    description: String,
    model: String,
    system_prompt: String,
    sub_agents: Vec<ReactAgent>,
    max_turns: usize,
}

impl View for SupervisorAgentBuilder {
    type V = SupervisorAgentModel;

    closed spec fn view(&self) -> SupervisorAgentModel {
        SupervisorAgentModel {
            name: self.name@,
            description: self.description@,
            model: self.model@,
            system_prompt: self.system_prompt@,
            sub_agents: agent_views(self.sub_agents@),
            max_turns: self.max_turns as nat,
        }
    }
}

impl Default for SupervisorAgentBuilder {
    fn default() -> (r: Self)
        ensures
            r@ == default_builder_model(),
    {
        let r = SupervisorAgentBuilder {
            name: String::new(),
            description: String::new(),
            model: String::new(),
            system_prompt: SupervisorAgent::default_system_prompt(),
            sub_agents: Vec::new(),
            max_turns: 1,
        };
        assert(agent_views(r.sub_agents@) =~= Seq::empty());
        r
    }
}

impl SupervisorAgentBuilder {
    pub fn name(self, name: &str) -> (r: Self)
        ensures
            r@ == (SupervisorAgentModel { name: name@, ..self@ }),
    {
        SupervisorAgentBuilder { name: to_string(name), ..self }
    }

    pub fn description(self, description: &str) -> (r: Self)
        ensures
            r@ == (SupervisorAgentModel { description: description@, ..self@ }),
    {
        SupervisorAgentBuilder { description: to_string(description), ..self }
    }

    pub fn model(self, model: &str) -> (r: Self)
        ensures
            r@ == (SupervisorAgentModel { model: model@, ..self@ }),
    {
        SupervisorAgentBuilder { model: to_string(model), ..self }
    }

    pub fn system_prompt(self, system_prompt: &str) -> (r: Self)
        ensures
            r@ == (SupervisorAgentModel { system_prompt: system_prompt@, ..self@ }),
    {
        SupervisorAgentBuilder { system_prompt: to_string(system_prompt), ..self }
    }

    pub fn sub_agents(self, sub_agents: Vec<ReactAgent>) -> (r: Self)
        ensures
            r@ == (SupervisorAgentModel { sub_agents: agent_views(sub_agents@), ..self@ }),
    {
        SupervisorAgentBuilder { sub_agents, ..self }
    }

    pub fn max_turns(self, max_turns: usize) -> (r: Self)
        ensures
            r@ == (SupervisorAgentModel { max_turns: max_turns as nat, ..self@ }),
    {
        SupervisorAgentBuilder { max_turns, ..self }
    }

    pub fn build(self) -> (r: SupervisorAgent)
        ensures
            r@ == self@,
    {
        SupervisorAgent {
            name: self.name,
            description: self.description,
            model: self.model,
            system_prompt: self.system_prompt,
            sub_agents: self.sub_agents,
            max_turns: self.max_turns,
        }
    }
}

} // verus!
