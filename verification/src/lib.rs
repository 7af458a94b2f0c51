pub mod datetime;
pub mod editor;
pub mod errors;
pub mod gitconfig;
pub mod history;
pub mod range;
pub mod remote;
pub mod rewrite;
pub mod simulation;
pub mod strutil;
pub mod timestamps;
pub mod types;
pub mod validator;

pub use datetime::format_datetime;
pub use datetime::is_valid_datetime_format;
pub use datetime::parse_datetime;
pub use editor::CommitEdit;
pub use editor::EditorStep;
pub use editor::InteractiveTable;
pub use editor::ModificationFlags;
pub use editor::TableColumn;
pub use errors::Error;
pub use errors::Result;
pub use gitconfig::get_gitconfig_paths;
pub use gitconfig::get_system_gitconfig_path;
pub use gitconfig::get_user_gitconfig_path;
pub use gitconfig::parse_gitconfig;
pub use history::HistoryStats;
pub use history::distinct_authors;
pub use history::history_stats;
pub use range::parse_option_selections;
pub use range::parse_range_input;
pub use range::select_commit_index;
pub use range::select_range_bounds;
pub use remote::get_repo_name_from_url;
pub use remote::normalize_git_url;
pub use rewrite::NewCommit;
pub use rewrite::RewritePass;
pub use rewrite::SourceCommit;
pub use rewrite::plan_commit;
pub use simulation::SimulationChange;
pub use simulation::create_full_rewrite_simulation;
pub use simulation::create_range_simulation;
pub use simulation::create_specific_commit_simulation;
pub use simulation::SimulationMode;
pub use simulation::SimulationResult;
pub use simulation::SimulationStats;
pub use strutil::chars_of;
pub use strutil::chars_to_string;
pub use strutil::parse_usize;
pub use strutil::split_char;
pub use strutil::trim_chars;
pub use timestamps::generate_range_timestamps;
pub use timestamps::generate_timestamps;
pub use timestamps::schedule_timestamps;
pub use types::Args;
pub use types::CommitInfo;
pub use types::EditOptions;
pub use types::OperationMode;
pub use types::determine_operation_mode;
pub use strutil::truncate_text;
pub use timestamps::MIN_GAP_SECONDS;
pub use validator::RepoPathStatus;
pub use validator::is_valid_email;
pub use validator::validate_inputs;
