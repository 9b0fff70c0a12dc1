//! Verified core of the AssetIWeave backend: catalog validation, package
//! status resolution, export path handling, memory context assembly and the
//! small decision rules that the application service builds on.

pub mod text;
pub mod error;
pub mod models;
pub mod versions;
pub mod script_catalog;
pub mod adapter_installer;
pub mod artifact_scan;
pub mod order;
pub mod paths;
pub mod clock;
pub mod hashing;
pub mod ids;
pub mod catalog_v2;
pub mod adapters;
pub mod maintenance;
pub mod records;
pub mod export_markdown;
pub mod export_plan;
pub mod package_delete;
pub mod package_change;
pub mod package_updates;
pub mod workspace_promotion;
pub mod memory_context;
pub mod global_memory;
pub mod generation_skill;
pub mod consolidation;
pub mod l3_candidates;
pub mod l3_view;
pub mod search_plan;
pub mod sync_plan;
pub mod usage_scan;
pub mod agent_market;
pub mod assets;
pub mod source_invalidation;
pub mod agent_errors;
pub mod agent_install;
pub mod memory_redaction;
pub mod audit;
