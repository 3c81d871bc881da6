use crate::modals::config::{default_config, AgentConfig};
use vstd::prelude::*;

verus! {

/// What a tool sees of the call it serves.
#[derive(Debug)]
pub struct ToolView {
    pub tool_call_id: String,
    pub name: String,
    pub arguments: String,
    pub model: String,
    pub config: AgentConfig,
}

/// The mathematical value of a [`ToolView`].
pub struct ToolViewModel {
    pub tool_call_id: Seq<char>,
    pub name: Seq<char>,
    pub arguments: Seq<char>,
    pub model: Seq<char>,
    pub config: AgentConfig,
}

impl View for ToolView {
    type V = ToolViewModel;

    open spec fn view(&self) -> ToolViewModel {
        ToolViewModel {
            tool_call_id: self.tool_call_id@,
            name: self.name@,
            arguments: self.arguments@,
            model: self.model@,
            config: self.config,
        }
    }
}

impl Clone for ToolView {
    fn clone(&self) -> (r: Self)
        ensures
            r@ == self@,
    {
        ToolView {
            tool_call_id: self.tool_call_id.clone(),
            name: self.name.clone(),
            arguments: self.arguments.clone(),
            model: self.model.clone(),
            config: self.config,
        }
    }
}

impl Default for ToolView {
    fn default() -> (r: Self)
        ensures
            r@ == (ToolViewModel {
                tool_call_id: Seq::empty(),
                name: Seq::empty(),
                arguments: Seq::empty(),
                model: Seq::empty(),
                config: default_config(),
            }),
    {
        ToolView {
            tool_call_id: String::new(),
            name: String::new(),
            arguments: String::new(),
            model: String::new(),
            config: AgentConfig::default(),
        }
    }
}

} // verus!
