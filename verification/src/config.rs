//! The configuration values that the settings page shows and edits.
use vstd::prelude::*;

use crate::chat::wrap::copy_string;

verus! {

broadcast use vstd::string::group_string_axioms;

/// Display settings.
#[derive(Debug)]
pub struct UiConfig {
    pub theme: String,
    pub default_mode: String,
    pub mouse: bool,
    pub animations: bool,
    pub frame_rate: u64,
}

/// Agent settings.
#[derive(Debug)]
pub struct AgentConfig {
    pub default_provider: String,
    pub auto_tool_call: bool,
    pub max_steps: u64,
}

/// Workflow settings.
#[derive(Debug)]
pub struct WorkflowConfig {
    pub max_parallel_nodes: u64,
    pub default_timeout_secs: u64,
    pub checkpoint: bool,
}

/// Tool settings.
#[derive(Debug)]
pub struct ToolsConfig {
    pub prefer_docker: bool,
    pub extra_path: Vec<String>,
}

/// Storage settings.
#[derive(Debug)]
pub struct StorageConfig {
    pub history_retention_days: u64,
    pub log_level: String,
}

/// The application configuration.
#[derive(Debug)]
pub struct Config {
    pub ui: UiConfig,
    pub agent: AgentConfig,
    pub workflow: WorkflowConfig,
    pub tools: ToolsConfig,
    pub storage: StorageConfig,
}

/// The abstract value of a `Config`: every setting as a plain value.
pub struct ConfigV {
    pub theme: Seq<char>,
    pub default_mode: Seq<char>,
    pub mouse: bool,
    pub animations: bool,
    pub frame_rate: u64,
    pub default_provider: Seq<char>,
    pub auto_tool_call: bool,
    pub max_steps: u64,
    pub max_parallel_nodes: u64,
    pub default_timeout_secs: u64,
    pub checkpoint: bool,
    pub prefer_docker: bool,
    pub extra_path: Seq<Seq<char>>,
    pub history_retention_days: u64,
    pub log_level: Seq<char>,
}

impl View for Config {
    type V = ConfigV;

    open spec fn view(&self) -> ConfigV {
        ConfigV {
            theme: self.ui.theme@,
            default_mode: self.ui.default_mode@,
            mouse: self.ui.mouse,
            animations: self.ui.animations,
            frame_rate: self.ui.frame_rate,
            default_provider: self.agent.default_provider@,
            auto_tool_call: self.agent.auto_tool_call,
            max_steps: self.agent.max_steps,
            max_parallel_nodes: self.workflow.max_parallel_nodes,
            default_timeout_secs: self.workflow.default_timeout_secs,
            checkpoint: self.workflow.checkpoint,
            prefer_docker: self.tools.prefer_docker,
            extra_path: self.tools.extra_path@.map_values(|p: String| p@),
            history_retention_days: self.storage.history_retention_days,
            log_level: self.storage.log_level@,
        }
    }
}

fn copy_strings(v: &Vec<String>) -> (r: Vec<String>)
    ensures
        r@.map_values(|p: String| p@) == v@.map_values(|p: String| p@),
{
    let mut out: Vec<String> = Vec::new();
    let mut i: usize = 0;
    while i < v.len()
        invariant
            i <= v@.len(),
            out@.map_values(|p: String| p@) == v@.take(i as int).map_values(|p: String| p@),
        decreases v@.len() - i,
    {
        out.push(copy_string(&v[i]));
        assert(v@.take(i + 1).map_values(|p: String| p@) =~= v@.take(i as int).map_values(
            |p: String| p@,
        ).push(v@[i as int]@));
        assert(out@.map_values(|p: String| p@) =~= v@.take(i + 1).map_values(|p: String| p@));
        i = i + 1;
    }
    assert(v@.take(v@.len() as int) =~= v@);
    out
}

impl Config {
    /// A copy with the same settings.
    pub fn duplicate(&self) -> (r: Config)
        ensures
            r@ == self@,
    {
        Config {
            ui: UiConfig {
                theme: copy_string(&self.ui.theme),
                default_mode: copy_string(&self.ui.default_mode),
                mouse: self.ui.mouse,
                animations: self.ui.animations,
                frame_rate: self.ui.frame_rate,
            },
            agent: AgentConfig {
                default_provider: copy_string(&self.agent.default_provider),
                auto_tool_call: self.agent.auto_tool_call,
                max_steps: self.agent.max_steps,
            },
            workflow: WorkflowConfig {
                max_parallel_nodes: self.workflow.max_parallel_nodes,
                default_timeout_secs: self.workflow.default_timeout_secs,
                checkpoint: self.workflow.checkpoint,
            },
            tools: ToolsConfig {
                prefer_docker: self.tools.prefer_docker,
                extra_path: copy_strings(&self.tools.extra_path),
            },
            storage: StorageConfig {
                history_retention_days: self.storage.history_retention_days,
                log_level: copy_string(&self.storage.log_level),
            },
        }
    }
}

} // verus!
