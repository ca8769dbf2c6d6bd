use vstd::prelude::*;

pub mod text;
pub mod cli;
pub mod cli_run;
pub mod json;
pub mod domain;
pub mod gui;
pub mod asset_groups;
pub mod ui_db;
pub mod shared;
pub mod server;
pub mod search;
pub mod search_filter;
pub mod search_order;
pub mod search_page;
pub mod search_determinism;
pub mod category_ancestry;
pub mod elm;
pub mod remote;
pub mod iced_assets;
pub mod iced_categories;
pub mod ham_app;
pub mod ham_pages;
pub mod ham_server;
pub mod server_db;
pub mod server_replies;
pub mod category_hints;

verus! {

/// Reports that the domain layer is linked in and ready.
pub fn domain_ready() -> (ready: bool)
    ensures
        ready,
{
    true
}

} // verus!
