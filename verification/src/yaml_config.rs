//! The configuration model: ecosystems of tools, each tool carrying the
//! executable to probe for, environment variables to inject and commands to
//! run.  Pure data; the engine in `runner` never mutates it.
//!
//! Application order of a tool's variables and commands is the declared
//! sequence order, so both are held as vectors, and the ecosystems
//! themselves as a vector of named entries in declared order.

use vstd::prelude::*;

verus! {

/// One environment-variable assignment of a tool: `key` is set to `value`
/// while the tool's commands run.
pub struct EnvVar {
    pub key: String,
    pub value: String,
}

/// Mathematical image of an [`EnvVar`].
pub struct EnvVarV {
    pub key: Seq<char>,
    pub value: Seq<char>,
}

impl View for EnvVar {
    type V = EnvVarV;

    open spec fn view(&self) -> EnvVarV {
        EnvVarV { key: self.key@, value: self.value@ }
    }
}

impl DeepView for EnvVar {
    type V = EnvVarV;

    open spec fn deep_view(&self) -> EnvVarV {
        self@
    }
}

/// A single external program whose nags are to be suppressed.
pub struct ToolEntry {
    /// Identifier used for matching against the ignore list and for log
    /// messages; matching is case-insensitive and global across ecosystems.
    pub name: String,
    /// The binary whose presence on the search path gates this tool.
    pub executable: String,
    /// Variables to assign while this tool's commands run, in declared order.
    pub env: Vec<EnvVar>,
    /// Shell commands to execute in declared order.
    pub commands: Vec<String>,
    /// If true, the tool is always excluded, regardless of selection filters.
    pub skip: bool,
    /// Command that can make the executable available; a bootstrap concern
    /// for test setups only, never read by the engine.
    pub install_for_testing: Option<String>,
}

/// Mathematical image of a [`ToolEntry`].
pub struct ToolEntryV {
    pub name: Seq<char>,
    pub executable: Seq<char>,
    pub env: Seq<EnvVarV>,
    pub commands: Seq<Seq<char>>,
    pub skip: bool,
    pub install_for_testing: Option<Seq<char>>,
}

impl View for ToolEntry {
    type V = ToolEntryV;

    open spec fn view(&self) -> ToolEntryV {
        ToolEntryV {
            name: self.name@,
            executable: self.executable@,
            env: self.env.deep_view(),
            commands: self.commands.deep_view(),
            skip: self.skip,
            install_for_testing: self.install_for_testing.deep_view(),
        }
    }
}

impl DeepView for ToolEntry {
    type V = ToolEntryV;

    open spec fn deep_view(&self) -> ToolEntryV {
        self@
    }
}

/// A named grouping of related tools sharing an optional availability
/// precondition.
pub struct EcosystemConfig {
    /// Optional shell command; if present and it exits non-zero, the whole
    /// ecosystem is skipped.
    pub check_ecosystem: Option<String>,
    /// The ecosystem's tools, in declared order, which is execution order.
    pub tools: Vec<ToolEntry>,
}

/// Mathematical image of an [`EcosystemConfig`].
pub struct EcosystemConfigV {
    pub check_ecosystem: Option<Seq<char>>,
    pub tools: Seq<ToolEntryV>,
}

impl View for EcosystemConfig {
    type V = EcosystemConfigV;

    open spec fn view(&self) -> EcosystemConfigV {
        EcosystemConfigV {
            check_ecosystem: self.check_ecosystem.deep_view(),
            tools: self.tools.deep_view(),
        }
    }
}

impl DeepView for EcosystemConfig {
    type V = EcosystemConfigV;

    open spec fn deep_view(&self) -> EcosystemConfigV {
        self@
    }
}

/// One ecosystem of the configuration together with its name.
pub struct EcosystemEntry {
    pub name: String,
    pub config: EcosystemConfig,
}

/// Mathematical image of an [`EcosystemEntry`].
pub struct EcosystemEntryV {
    pub name: Seq<char>,
    pub config: EcosystemConfigV,
}

impl View for EcosystemEntry {
    type V = EcosystemEntryV;

    open spec fn view(&self) -> EcosystemEntryV {
        EcosystemEntryV { name: self.name@, config: self.config@ }
    }
}

impl DeepView for EcosystemEntry {
    type V = EcosystemEntryV;

    open spec fn deep_view(&self) -> EcosystemEntryV {
        self@
    }
}

/// The root of the configuration: ecosystems in declared order.  The walk
/// of the engine visits them in exactly this order.
pub struct YamlToolsConfig {
    pub ecosystems: Vec<EcosystemEntry>,
}

impl View for YamlToolsConfig {
    type V = Seq<EcosystemEntryV>;

    open spec fn view(&self) -> Seq<EcosystemEntryV> {
        self.ecosystems.deep_view()
    }
}

} // verus!
