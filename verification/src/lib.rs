//! Verified core of the Slovowiki static-site renderer.
pub mod aspects;
pub mod assets;
pub mod blocks;
pub mod categories;
pub mod category_tree;
pub mod cognates;
pub mod connections;
pub mod coverage;
pub mod derivatives;
pub mod english_api;
pub mod english_index;
pub mod entry_page;
pub mod entry_pages;
pub mod etymology;
pub mod family;
pub mod graph;
pub mod home;
pub mod inflect_eval;
pub mod inflection;
pub mod laws;
pub mod layout;
pub mod model;
pub mod official;
pub mod page_laws;
pub mod pages;
pub mod review_pages;
pub mod raw_page;
pub mod raw_plan;
pub mod render_index;
pub mod search;
pub mod site_meta;
pub mod special_pages;
pub mod split;
pub mod stats;
pub mod strs;
pub mod wiki_index;
pub mod xref;
