use vexora::curseforge::{CurseforgeFile, CurseforgeLinks, CurseforgeModLoaderType, CurseforgeProject};
use vexora::loader::Loader;
use vexora::manual_download::{push_decimal, ManualCurseforgeDownload};
use vexora::modification::default_required_side;
use vexora::modrinth::{ModrinthLoader, ModrinthSideRequirement};
use vexora::mrpack::{default_format_version, default_game};

const ALL: [Loader; 4] = [Loader::Fabric, Loader::Forge, Loader::NeoForge, Loader::Vanilla];

#[test]
fn pretty_names() {
    assert_eq!(Loader::Vanilla.pretty_name(), "Vanilla");
    assert_eq!(Loader::Fabric.pretty_name(), "Fabric");
    assert_eq!(Loader::Forge.pretty_name(), "Forge");
    assert_eq!(Loader::NeoForge.pretty_name(), "NeoForge");
}

#[test]
fn from_name_accepts_pretty_and_lower_case_names_only() {
    assert_eq!(Loader::from_name("Vanilla"), Some(Loader::Vanilla));
    assert_eq!(Loader::from_name("vanilla"), Some(Loader::Vanilla));
    assert_eq!(Loader::from_name("fabric"), Some(Loader::Fabric));
    assert_eq!(Loader::from_name("Forge"), Some(Loader::Forge));
    assert_eq!(Loader::from_name("neoforge"), Some(Loader::NeoForge));
    assert_eq!(Loader::from_name("NEOFORGE"), None);
    assert_eq!(Loader::from_name("Quilt"), None);
    assert_eq!(Loader::from_name(""), None);
}

#[test]
fn names_round_trip() {
    for l in ALL {
        assert_eq!(Loader::from_name(l.pretty_name()), Some(l));
        assert_eq!(Loader::from_name(l.serde_name()), Some(l));
        assert_eq!(Loader::from_serde_name(l.serde_name()), l);
    }
}

#[test]
fn unknown_stored_names_read_as_vanilla() {
    assert_eq!(Loader::from_serde_name("quilt"), Loader::Vanilla);
    assert_eq!(Loader::from_serde_name("NeoForge"), Loader::NeoForge);
    assert_eq!(Loader::NeoForge.serde_name(), "neoforge");
}

#[test]
fn loader_mappings() {
    assert_eq!(Loader::Vanilla.as_modrinth_loader(), ModrinthLoader::Unknown);
    assert_eq!(Loader::Fabric.as_modrinth_loader(), ModrinthLoader::Fabric);
    assert_eq!(Loader::Forge.as_modrinth_loader(), ModrinthLoader::Forge);
    assert_eq!(Loader::NeoForge.as_modrinth_loader(), ModrinthLoader::NeoForge);
    assert_eq!(Loader::Vanilla.as_curseforge_loader(), CurseforgeModLoaderType::Any);
    assert_eq!(Loader::Fabric.as_curseforge_loader(), CurseforgeModLoaderType::Fabric);
    assert_eq!(Loader::Forge.as_curseforge_loader(), CurseforgeModLoaderType::Forge);
    assert_eq!(Loader::NeoForge.as_curseforge_loader(), CurseforgeModLoaderType::NeoForge);
}

#[test]
fn pack_defaults() {
    assert_eq!(default_required_side(), ModrinthSideRequirement::Required);
    assert_eq!(default_format_version(), 1);
    assert_eq!(default_game(), "minecraft");
}

fn file(id: u32) -> CurseforgeFile {
    CurseforgeFile { id, mod_id: 238222, file_name: "jei-1.20.1.jar".to_string(), file_length: 1234 }
}

fn project(url: &str) -> CurseforgeProject {
    CurseforgeProject {
        name: "Just Enough Items".to_string(),
        links: CurseforgeLinks { website_url: url.to_string() },
    }
}

#[test]
fn manual_download_page_url_adds_missing_slash() {
    let d = ManualCurseforgeDownload::new(&file(4712866), &project("https://www.curseforge.com/minecraft/mc-mods/jei"), [7; 20]);
    assert_eq!(d.page_url, "https://www.curseforge.com/minecraft/mc-mods/jei/download/4712866");
    assert_eq!(d.project_id, 238222);
    assert_eq!(d.file_id, 4712866);
    assert_eq!(d.name, "Just Enough Items");
    assert_eq!(d.filename, "jei-1.20.1.jar");
    assert_eq!(d.sha1, [7; 20]);
    assert_eq!(d.size, 1234);
}

#[test]
fn manual_download_page_url_keeps_existing_slash() {
    let d = ManualCurseforgeDownload::new(&file(0), &project("https://example.org/p/"), [0; 20]);
    assert_eq!(d.page_url, "https://example.org/p/download/0");
    let d = ManualCurseforgeDownload::new(&file(u32::MAX), &project(""), [0; 20]);
    assert_eq!(d.page_url, "/download/4294967295");
}

#[test]
fn decimal_digits() {
    let mut s = String::from("x");
    push_decimal(&mut s, 10);
    assert_eq!(s, "x10");
    let mut s = String::new();
    push_decimal(&mut s, 907);
    assert_eq!(s, "907");
}

