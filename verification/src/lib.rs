//! Verified core logic of the Ember coding agent.

pub mod text;
pub mod bootstrap;
pub mod analyzer;
pub mod pattern;
pub mod refactor;
pub mod testgen;
pub mod tui;
pub mod ids;
pub mod agent;
pub mod orchestrator;
pub mod clock;
pub mod conversation;
pub mod compaction;
pub mod oauth;
pub mod tui_app;
pub mod memory_optimization;
pub mod context_manager;
pub mod error;
pub mod json;
pub mod collaboration;
pub mod context;
pub mod checkpoint;
pub mod config_merge;
pub mod memory;
pub mod renderer;
pub mod config;
pub mod cache;
pub mod knowledge_graph;
pub mod transcript;
pub mod chat_view;
pub mod cache_table;
pub mod graph_store;
