pub mod text;
pub mod agent_runtime;
pub mod model;
pub mod diagnosis_report;
pub mod report_idempotence;
pub mod dto;
pub mod vector_search;
pub mod ordering;
pub mod config;
pub mod upload;
pub mod session;
pub mod chat_history;
pub mod json;
pub mod rectifier;
pub mod evidence;
pub mod alerts;
pub mod index_tasks;
pub mod metrics;
pub mod document_chunk;
pub mod chat;
pub mod ai_ops;
pub mod incident;
pub mod sparse;
pub mod indexing;
pub mod logs;
pub mod prometheus;
pub mod memory;
