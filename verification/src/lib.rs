//! The decisions of a helper that fills credential prompts of Microsoft's Windows App:
//! which processes and prompts are the right ones, what is typed and submitted and when,
//! what a diagnostic report may say, and how the worker behind it is supervised.

pub mod applescript;
pub mod ax_tree;
pub mod check_laws;
pub mod child_exit;
pub mod collector;
pub mod control;
pub mod diagnose;
pub mod element_laws;
pub mod fill;
pub mod identity;
pub mod identity_laws;
pub mod inspection;
pub mod json_output;
pub mod live;
pub mod login_laws;
pub mod models;
pub mod monitor;
pub mod native_path;
pub mod post_submit;
pub mod private_permissions;
pub mod processes;
pub mod prompt;
pub mod prompt_scan;
pub mod prompt_text;
pub mod prompt_text_laws;
pub mod protocol;
pub mod reconnect;
pub mod reloading;
pub mod report_laws;
pub mod revalidate;
pub mod scan_laws;
pub mod secret_text;
pub mod selection;
pub mod sheet_episode;
pub mod startup;
pub mod submit;
pub mod summary;
pub mod supervision;
pub mod supervision_effects;
pub mod supervision_laws;
pub mod supervisor;
pub mod text;
pub mod text_laws;
pub mod waiting;
