//! Automation core: session lifecycle, scheduling, queues, conditions,
//! consent decisions and intent handling, each stated and proved with Verus.

pub mod agent_runtime;
pub mod text;
pub mod condition;
pub mod action;
pub mod consent_gate;
pub mod history;
pub mod execution_manager;
pub mod planner;
pub mod keyed;
pub mod clock;
pub mod monitoring;
pub mod feedback_generator;
pub mod intention_parser;
pub mod intent_rules;
pub mod goal_registry;
pub mod execution_plan_adapter;
pub mod config;
pub mod error;
pub mod events;
pub mod ai_bridge;
pub mod execution;
pub mod controller;
pub mod goal_orchestrator;
