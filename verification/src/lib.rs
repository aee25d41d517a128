pub mod curseforge;
pub mod fx_set;
pub mod import_page;
pub mod launcher_dirs;
pub mod launcher_search;
pub mod loader;
pub mod manual_download;
pub mod modification;
pub mod modrinth;
pub mod mrpack;
pub mod ordering;
pub mod paths;
pub mod player_model;
pub mod servers;
pub mod settings;
pub mod text;
