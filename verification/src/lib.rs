pub mod text;
pub mod note;
pub mod abbrev;
pub mod sitemap;
pub mod escape;
pub mod urls;
pub mod nip19;
pub mod error;
pub mod render;
pub mod debounce;
pub mod relays;
pub mod metadata;
pub mod profile;
pub mod blocks;
pub mod quotes;
pub mod format;
pub mod embed;
pub mod stats;
pub mod notecard;
pub mod article;
pub mod pages;
pub mod profile_page;
pub mod route;
pub mod unknowns;
pub mod card;
