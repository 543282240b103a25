//! The agent's settings and the request it sends for each turn.

use crate::message::{
    definition_views, CacheControl, CreateMessageRequest, Message, SystemContent, ThinkingConfig,
    ToolDefinition, ToolDefinitionView,
};
use crate::permissions::engine::PermissionEngine;
use crate::registry::{definitions_of, ToolEntryView, ToolRegistry};
use vstd::prelude::*;
use vstd::string::*;

verus! {

/// The agent: the tools it may call, the engine that admits the calls, and
/// the settings of its requests.
#[derive(Debug)]
pub struct Agent {
    pub registry: ToolRegistry,
    pub permissions: PermissionEngine,
    pub model: String,
    pub max_tokens: u32,
    pub system_prompt: Option<String>,
    pub thinking_budget: Option<u32>,
    pub cwd: String,
    pub read_only_mode: bool,
}

/// The tool definitions of a request: those of the registry, or of its
/// read-only tools in plan mode, the last one marked for caching; none
/// where there is no tool to announce.
pub open spec fn request_tools(entries: Seq<ToolEntryView>, only_readers: bool) -> Option<
    Seq<ToolDefinitionView>,
> {
    let defs = definitions_of(entries, only_readers, entries.len() as int);
    if defs.len() == 0 {
        None
    } else {
        Some(
            defs.update(
                defs.len() - 1,
                ToolDefinitionView { cache_control: Some("ephemeral"@), ..defs.last() },
            ),
        )
    }
}

/// The view of the optional tool list of a request.
pub open spec fn opt_definitions(o: Option<Vec<ToolDefinition>>) -> Option<Seq<ToolDefinitionView>> {
    match o {
        Some(defs) => Some(definition_views(defs@)),
        None => None,
    }
}

/// True when `system` is the system prompt `prompt` wrapped as one cached
/// text block, or nothing where there is no prompt.
pub open spec fn wraps_system_prompt(system: Option<Vec<SystemContent>>, prompt: Option<String>) -> bool {
    match (system, prompt) {
        (Some(blocks), Some(text)) => blocks@.len() == 1 && blocks@[0].content_type@ == "text"@
            && blocks@[0].text@ == text@ && (blocks@[0].cache_control matches Some(c)
            && c.cache_type@ == "ephemeral"@),
        (None, None) => true,
        _ => false,
    }
}

/// True when `thinking` enables extended thinking with the budget
/// `budget`, or is nothing where there is no budget.
pub open spec fn sets_thinking(thinking: Option<ThinkingConfig>, budget: Option<u32>) -> bool {
    match (thinking, budget) {
        (Some(config), Some(b)) => config.thinking_type@ == "enabled"@ && config.budget_tokens
            == Some(b),
        (None, None) => true,
        _ => false,
    }
}

impl Agent {
    /// An agent without system prompt or thinking budget, outside plan mode.
    pub fn new(
        registry: ToolRegistry,
        permissions: PermissionEngine,
        model: String,
        max_tokens: u32,
        cwd: String,
    ) -> (a: Self)
        ensures
            a.registry == registry,
            a.permissions == permissions,
            a.model == model,
            a.max_tokens == max_tokens,
            a.cwd == cwd,
            a.system_prompt is None,
            a.thinking_budget is None,
            !a.read_only_mode,
    {
        Agent {
            registry,
            permissions,
            model,
            max_tokens,
            system_prompt: None,
            thinking_budget: None,
            cwd,
            read_only_mode: false,
        }
    }

    /// Sets the system prompt.
    pub fn set_system_prompt(&mut self, prompt: String)
        ensures
            final(self).system_prompt == Some(prompt),
            final(self).registry == old(self).registry,
            final(self).permissions == old(self).permissions,
            final(self).model == old(self).model,
            final(self).max_tokens == old(self).max_tokens,
            final(self).thinking_budget == old(self).thinking_budget,
            final(self).cwd == old(self).cwd,
            final(self).read_only_mode == old(self).read_only_mode,
    {
        self.system_prompt = Some(prompt);
    }

    /// Sets the token budget of extended thinking.
    pub fn set_thinking_budget(&mut self, budget: u32)
        ensures
            final(self).thinking_budget == Some(budget),
            final(self).registry == old(self).registry,
            final(self).permissions == old(self).permissions,
            final(self).model == old(self).model,
            final(self).max_tokens == old(self).max_tokens,
            final(self).system_prompt == old(self).system_prompt,
            final(self).cwd == old(self).cwd,
            final(self).read_only_mode == old(self).read_only_mode,
    {
        self.thinking_budget = Some(budget);
    }

    /// Turns plan mode on or off. In plan mode only read-only tools are
    /// announced to the model and admitted to run.
    pub fn set_read_only_mode(&mut self, enabled: bool)
        ensures
            final(self).read_only_mode == enabled,
            final(self).registry == old(self).registry,
            final(self).permissions == old(self).permissions,
            final(self).model == old(self).model,
            final(self).max_tokens == old(self).max_tokens,
            final(self).system_prompt == old(self).system_prompt,
            final(self).thinking_budget == old(self).thinking_budget,
            final(self).cwd == old(self).cwd,
    {
        self.read_only_mode = enabled;
    }

    /// True when `r` is a request as this agent sends it: a streamed
    /// response from the agent's model, within its token limit; the system
    /// prompt as one cached text block; the tools of the registry, or its
    /// read-only tools in plan mode; and, where a thinking budget is set,
    /// extended thinking with that budget at temperature 1.0.
    pub open spec fn shapes(self, r: CreateMessageRequest) -> bool {
        &&& r.model@ == self.model@
        &&& r.max_tokens == self.max_tokens
        &&& r.stream
        &&& r.stop_sequences is None
        &&& wraps_system_prompt(r.system, self.system_prompt)
        &&& opt_definitions(r.tools) == request_tools(self.registry@, self.read_only_mode)
        &&& sets_thinking(r.thinking, self.thinking_budget)
        &&& r.temperature_tenths == if self.thinking_budget is Some {
            Some(10u32)
        } else {
            None
        }
    }

    /// Tells whether the agent is in plan mode.
    pub fn is_read_only_mode(&self) -> (r: bool)
        ensures
            r == self.read_only_mode,
    {
        self.read_only_mode
    }

    /// The tool definitions to announce with a request.
    pub fn announced_tools(&self) -> (r: Option<Vec<ToolDefinition>>)
        ensures
            opt_definitions(r) == request_tools(self.registry@, self.read_only_mode),
    {
        let mut defs = if self.read_only_mode {
            self.registry.read_only_definitions()
        } else {
            self.registry.definitions()
        };
        let n: usize = defs.len();
        if n == 0 {
            return None;
        }
        let ghost before = definition_views(defs@);
        let last = defs.pop().unwrap();
        let marked = ToolDefinition {
            name: last.name,
            description: last.description,
            input_schema: last.input_schema,
            cache_control: Some(CacheControl::ephemeral()),
        };
        defs.push(marked);
        assert(definition_views(defs@) =~= before.update(
            before.len() - 1,
            ToolDefinitionView { cache_control: Some("ephemeral"@), ..before.last() },
        ));
        Some(defs)
    }

    /// Builds the request for the next turn around the conversation
    /// `messages`, which the request takes over.
    pub fn build_request(&self, messages: Vec<Message>) -> (r: CreateMessageRequest)
        ensures
            r.messages == messages,
            self.shapes(r),
    {
        let system = match &self.system_prompt {
            Some(text) => {
                let mut blocks: Vec<SystemContent> = Vec::new();
                blocks.push(
                    SystemContent {
                        content_type: "text".to_owned(),
                        text: text.clone(),
                        cache_control: Some(CacheControl::ephemeral()),
                    },
                );
                Some(blocks)
            },
            None => None,
        };
        let tools = self.announced_tools();
        let (thinking, temperature_tenths) = match self.thinking_budget {
            Some(budget) => (
                Some(
                    ThinkingConfig {
                        thinking_type: "enabled".to_owned(),
                        budget_tokens: Some(budget),
                    },
                ),
                Some(10u32),
            ),
            None => (None, None),
        };
        CreateMessageRequest {
            model: self.model.clone(),
            max_tokens: self.max_tokens,
            messages,
            system,
            tools,
            stop_sequences: None,
            temperature_tenths,
            thinking,
            stream: true,
        }
    }
}

} // verus!
