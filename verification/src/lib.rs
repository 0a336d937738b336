//! Decision logic of an editor workspace: what to undo, what to send next, which
//! links to resolve, how to archive a worktree.

pub mod chatgpt_model;
pub mod cleanup_plan;
pub mod cleanup_run;
pub mod completion;
pub mod data_table;
pub mod document_links;
pub mod form;
pub mod jwt;
pub mod lists;
pub mod lsp_store;
pub mod message_queue;
pub mod oauth;
pub mod percent;
pub mod responses;
pub mod search_panel;
pub mod staged_diff;
pub mod subscription;
pub mod table_preview;
pub mod table_render;
pub mod terminal_agent;
pub mod text;
pub mod undo;
pub mod workflows;
pub mod worktree_archive;
pub mod worktree_persist;
pub mod worktree_removal;
pub mod worktree_restore;
