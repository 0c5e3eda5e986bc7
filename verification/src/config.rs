//! The descriptor model: a worker type's declared contract.
//!
//! Every worker directory carries one declarative descriptor file. Parsed,
//! it becomes a [`NodeConfig`]: the worker's identity, its input/output
//! slot sections and its internal setting fields. The descriptor is pure
//! data; the engine validates it once at load time and never mutates it.

use vstd::prelude::*;
use vstd::string::StringExecFns;

use crate::error::AppError;

verus! {

/// Root configuration of a node: identity, slot sections, settings.
#[derive(Debug, Clone)]
pub struct NodeConfig {
    /// Unique, stable identifier for this node type.
    pub node_id_hash: String,
    /// Human-readable label shown in a UI.
    pub label: String,
    /// Functional category of the node.
    pub node_type: String,
    /// Ordered input/output sections, each with its own behavior.
    pub sections: Vec<Section>,
    /// Internal setting fields, not data-flow slots.
    pub input_fields: Vec<InputFieldConfig>,
}

/// A named group of paired input/output slots with one behavior.
#[derive(Debug, Clone)]
pub struct Section {
    /// Internal identifier for this section.
    pub section_name: String,
    /// Optional human-readable label.
    pub section_label: Option<String>,
    /// How slot pairs of this section come into being.
    pub behavior: SectionBehavior,
    /// Template for the paired input/output slots.
    pub slot_template: SlotTemplate,
}

/// How the slots of a section are created.
#[derive(Debug, Clone, PartialEq, Eq)]
pub enum SectionBehavior {
    /// The caller extends the slot count as connections are made.
    AutoIncrement,
    /// One slot pair is generated per discovered file.
    DynamicPerFile,
    /// A fixed number of slots.
    Static,
}

/// A paired input/output slot template.
#[derive(Debug, Clone)]
pub struct SlotTemplate {
    /// The input slot of the pair.
    pub input: InputSlotConfig,
    /// The output slot of the pair.
    pub output: OutputSlotConfig,
}

/// Declared shape of an input slot.
#[derive(Debug, Clone)]
pub struct InputSlotConfig {
    /// Base name for the generated input handles.
    pub name: String,
    /// Display label; may contain placeholders.
    pub label: String,
    /// Kind of data this input expects.
    pub slot_type: SlotType,
    /// How many connections may reach each handle.
    pub connections: ConnectionCount,
}

/// Declared shape of an output slot.
#[derive(Debug, Clone)]
pub struct OutputSlotConfig {
    /// Base name for the generated output handles.
    pub name: String,
    /// Display label; may contain placeholders.
    pub label: String,
    /// Kind of data this output provides.
    pub slot_type: SlotType,
    /// How many connections may leave each handle.
    pub connections: ConnectionCount,
}

/// Kind of data flowing through a slot.
#[derive(Debug, Clone, PartialEq, Eq)]
pub enum SlotType {
    /// Binary file content.
    FileContent,
    /// A text string.
    String,
    /// A numeric value.
    Number,
    /// A boolean value.
    Boolean,
    /// Arbitrary structured data.
    Json,
    /// A list of values.
    Array,
    /// Large binary data.
    Blob,
}

/// Connection-count constraint of a slot: an exact bound or unlimited.
#[derive(Debug, Clone, PartialEq, Eq)]
pub enum ConnectionCount {
    /// Exactly this many connections.
    Exact(u32),
    /// Unlimited connections; carries the sentinel token it was written as.
    Unlimited(String),
}

impl ConnectionCount {
    /// Whether this count allows unlimited connections.
    pub fn is_unlimited(&self) -> (r: bool)
        ensures
            r == (self is Unlimited),
    {
        match self {
            ConnectionCount::Unlimited(_) => true,
            ConnectionCount::Exact(_) => false,
        }
    }

    /// The numeric bound, or `None` when unlimited.
    pub fn max_connections(&self) -> (r: Option<u32>)
        ensures
            match self {
                ConnectionCount::Exact(n) => r == Some(*n),
                ConnectionCount::Unlimited(_) => r is None,
            },
    {
        match self {
            ConnectionCount::Exact(n) => Some(*n),
            ConnectionCount::Unlimited(_) => None,
        }
    }
}

/// An internal setting control of a node, not a data-flow slot.
#[derive(Debug, Clone)]
pub struct InputFieldConfig {
    /// Internal identifier of the field.
    pub name: String,
    /// Display label.
    pub label: String,
    /// Kind of control to render.
    pub field_type: InputFieldType,
    /// Optional default value.
    pub default: Option<String>,
}

/// Kind of an internal setting control.
#[derive(Debug, Clone, PartialEq, Eq)]
pub enum InputFieldType {
    /// A text input.
    Text,
    /// A numeric input.
    Number,
    /// A checkbox.
    Checkbox,
    /// A button.
    Button,
    /// A dropdown.
    Select,
    /// A file path selector.
    FilePath,
    /// A directory path selector.
    DirectoryPath,
}

/// Whether a parsed descriptor carries all required identity fields.
pub open spec fn config_valid(config: &NodeConfig) -> bool {
    &&& config.node_id_hash@.len() > 0
    &&& config.label@.len() > 0
    &&& config.node_type@.len() > 0
}

/// Check the identity fields of a parsed descriptor: `node_id_hash`,
/// `label` and `node_type` must all be non-empty.
pub fn validate_config(config: &NodeConfig) -> (r: Result<(), AppError>)
    ensures
        r is Ok <==> config_valid(config),
        config.node_id_hash@.len() == 0 ==> (r matches Err(e) && e matches AppError::ConfigError(m)
            && m@ == "node_id_hash cannot be empty"@),
        config.node_id_hash@.len() > 0 && config.label@.len() == 0 ==> (r matches Err(e)
            && e matches AppError::ConfigError(m) && m@ == "label cannot be empty"@),
        config.node_id_hash@.len() > 0 && config.label@.len() > 0 && config.node_type@.len() == 0
            ==> (r matches Err(e) && e matches AppError::ConfigError(m) && m@
            == "node_type cannot be empty"@),
{
    if config.node_id_hash.as_str().is_empty() {
        return Err(AppError::ConfigError(String::from_str("node_id_hash cannot be empty")));
    }
    if config.label.as_str().is_empty() {
        return Err(AppError::ConfigError(String::from_str("label cannot be empty")));
    }
    if config.node_type.as_str().is_empty() {
        return Err(AppError::ConfigError(String::from_str("node_type cannot be empty")));
    }
    Ok(())
}

} // verus!
