use vexora::launcher_dirs::{candidate_launcher_dirs, dedup_case_insensitive, raw_candidate_dirs, OtherLauncher};
use vexora::launcher_search::{choose_import_dir, import_dir_choice, launcher_dir_verdict, launcher_markers, LauncherDirSearch, SearchStep};

const LAUNCHERS: [OtherLauncher; 5] = [
    OtherLauncher::Prism,
    OtherLauncher::MultiMC,
    OtherLauncher::CurseForge,
    OtherLauncher::Modrinth,
    OtherLauncher::ATLauncher,
];

/// Runs a search to its end, answering each probe with `valid`.
fn run(mut search: LauncherDirSearch, valid: impl Fn(&str) -> bool) -> (Option<String>, Vec<String>) {
    let mut probed = Vec::new();
    let mut step = search.current();
    loop {
        match step {
            SearchStep::Probe(p) => {
                probed.push(p.clone());
                step = search.answer(valid(&p));
            }
            SearchStep::Found(p) => return (Some(p), probed),
            SearchStep::NotFound => return (None, probed),
        }
    }
}

fn is_marked(launcher: OtherLauncher, dir_is_dir: bool, present: &[&str]) -> bool {
    let markers = launcher_markers(launcher);
    let found: Vec<bool> = markers
        .iter()
        .map(|m| present.contains(&m.components.join("/").as_str()))
        .collect();
    launcher_dir_verdict(dir_is_dir, &found)
}

#[test]
fn marker_validation_accepts_real_layouts_and_rejects_random_folders() {
    // Prism layout with its marker file.
    assert!(is_marked(OtherLauncher::Prism, true, &["instances", "prismlauncher.cfg"]));
    // Same shape without markers is rejected (no false positives).
    assert!(!is_marked(OtherLauncher::Prism, true, &["instances"]));
    // CurseForge wants an Instances directory...
    assert!(is_marked(OtherLauncher::CurseForge, true, &["Instances"]));
    assert!(!is_marked(OtherLauncher::CurseForge, true, &["minecraft"]));
    // ...Modrinth wants app.db, ATLauncher its config.
    assert!(!is_marked(OtherLauncher::Modrinth, true, &[]));
    assert!(is_marked(OtherLauncher::Modrinth, true, &["app.db"]));
    assert!(!is_marked(OtherLauncher::ATLauncher, true, &["configs"]));
    assert!(is_marked(OtherLauncher::ATLauncher, true, &["configs/ATLauncher.json"]));
    // Missing and file paths never qualify.
    assert!(!is_marked(OtherLauncher::Prism, false, &[]));
    assert!(!is_marked(OtherLauncher::Prism, false, &["prismlauncher.cfg"]));
}

#[test]
fn marker_files_per_launcher() {
    let prism = launcher_markers(OtherLauncher::Prism);
    let names: Vec<&str> = prism.iter().map(|m| m.components[0]).collect();
    assert_eq!(names, vec!["prismlauncher.cfg", "multimc.cfg", "fjordlauncher.cfg"]);
    assert!(prism.iter().all(|m| !m.is_dir));
    assert_eq!(launcher_markers(OtherLauncher::MultiMC).len(), 3);
    let cf = launcher_markers(OtherLauncher::CurseForge);
    assert_eq!(cf.len(), 1);
    assert_eq!(cf[0].components, vec!["Instances"]);
    assert!(cf[0].is_dir);
    let atl = launcher_markers(OtherLauncher::ATLauncher);
    assert_eq!(atl[0].components, vec!["configs", "ATLauncher.json"]);
}

#[test]
fn remembered_valid_location_wins_without_search() {
    let remembered = "/root/MyPrism".to_string();
    let missing = "/root/Nowhere".to_string();
    let search = LauncherDirSearch::new(Some(remembered.clone()), missing.clone(), Vec::new());
    let (resolved, probed) = run(search, |p| p == "/root/MyPrism");
    assert_eq!(resolved, Some(remembered.clone()));
    assert_eq!(probed, vec![remembered.clone()]);

    // A stale remembered path (markers gone) is ignored, never trusted.
    let search = LauncherDirSearch::new(Some(remembered.clone()), missing.clone(), Vec::new());
    let (resolved, probed) = run(search, |_| false);
    assert!(resolved != Some(remembered.clone()));
    assert_eq!(resolved, None);
    assert_eq!(probed, vec![remembered, missing]);
}

#[test]
fn search_order_default_first_then_candidates() {
    let fake_default = "/root/DefaultData/PrismLauncher".to_string();
    let candidates = candidate_launcher_dirs(OtherLauncher::Prism, "/root/Home", None);
    let home_prism = "/root/Home/PrismLauncher";
    let search = LauncherDirSearch::new(None, fake_default.clone(), candidates.clone());
    let (resolved, probed) = run(search, |p| p == home_prism);
    assert_eq!(resolved, Some(home_prism.to_string()));
    assert_eq!(probed, vec![fake_default.clone(), home_prism.to_string()]);

    // Nothing valid anywhere -> None.
    let search = LauncherDirSearch::new(None, fake_default.clone(), candidates.clone());
    let (resolved, probed) = run(search, |_| false);
    assert_eq!(resolved, None);
    assert_eq!(probed.len(), 1 + candidates.len());
}

#[test]
fn default_wins_over_candidates() {
    let search = LauncherDirSearch::new(None, "/d".to_string(), vec!["/a".to_string(), "/b".to_string()]);
    let (resolved, probed) = run(search, |_| true);
    assert_eq!(resolved, Some("/d".to_string()));
    assert_eq!(probed, vec!["/d".to_string()]);
    let search = LauncherDirSearch::new(None, "/d".to_string(), vec!["/a".to_string(), "/b".to_string()]);
    let (resolved, _) = run(search, |p| p == "/b");
    assert_eq!(resolved, Some("/b".to_string()));
}

#[test]
fn candidates_are_deduplicated() {
    let home = "/tmp";
    for launcher in LAUNCHERS {
        for drive in [None, Some("C:")] {
            let candidates = candidate_launcher_dirs(launcher, home, drive);
            assert!(!candidates.is_empty());
            let mut seen = std::collections::HashSet::new();
            for candidate in &candidates {
                assert!(seen.insert(candidate.to_lowercase()), "duplicate candidate");
            }
        }
    }
}

#[test]
fn prism_candidates_below_home() {
    let c = candidate_launcher_dirs(OtherLauncher::Prism, "/home/u", None);
    assert_eq!(
        c,
        vec![
            "/home/u/PrismLauncher".to_string(),
            "/home/u/.local/share/PrismLauncher".to_string(),
            "/home/u/.var/app/org.prismlauncher.PrismLauncher/data/PrismLauncher".to_string(),
        ]
    );
}

#[test]
fn case_variants_collapse() {
    // `multimc` and `MultiMC` below the same home are one directory to a Windows eye.
    let raw = raw_candidate_dirs(OtherLauncher::MultiMC, "/h", None);
    assert_eq!(raw.len(), 3);
    let c = candidate_launcher_dirs(OtherLauncher::MultiMC, "/h", None);
    assert_eq!(c, vec!["/h/multimc".to_string(), "/h/.local/share/multimc".to_string()]);
    let d = dedup_case_insensitive(vec!["A".into(), "b".into(), "a".into(), "B".into(), "c".into()]);
    assert_eq!(d, vec!["A".to_string(), "b".to_string(), "c".to_string()]);
}

#[test]
fn drive_candidates_come_last() {
    let c = raw_candidate_dirs(OtherLauncher::CurseForge, "/h", Some("C:"));
    assert_eq!(c.len(), 3);
    assert_eq!(c[0], "/h/curseforge/minecraft");
    assert!(c[1].starts_with("C:\\") && c[1].ends_with("curseforge"));
    assert!(c[2].starts_with("C:\\") && c[2].ends_with("minecraft"));
    let c = raw_candidate_dirs(OtherLauncher::Modrinth, "/h", Some("D:"));
    assert_eq!(c.len(), 4);
    assert!(c[3].ends_with("ModrinthApp"));
}

#[test]
fn import_dir_is_remembered_only_when_not_default() {
    assert_eq!(choose_import_dir(None, "/d".to_string()), ("/d".to_string(), false));
    assert_eq!(choose_import_dir(Some("/d".to_string()), "/d".to_string()), ("/d".to_string(), false));
    assert_eq!(choose_import_dir(Some("/x".to_string()), "/d".to_string()), ("/x".to_string(), true));
}

#[test]
fn found_directory_is_remembered_unless_it_is_the_default() {
    assert_eq!(import_dir_choice(Some("/x".to_string()), "/d".to_string(), false), ("/x".to_string(), true));
    assert_eq!(import_dir_choice(Some("/d".to_string()), "/d".to_string(), true), ("/d".to_string(), false));
    assert_eq!(import_dir_choice(None, "/d".to_string(), false), ("/d".to_string(), false));
    assert_eq!(import_dir_choice(None, "/d".to_string(), true), ("/d".to_string(), false));
}

#[test]
fn candidates_are_joined_with_a_separator() {
    let c = raw_candidate_dirs(OtherLauncher::ATLauncher, "/home/u/", None);
    assert_eq!(c[0], "/home/u/ATLauncher");
    assert_eq!(c[2], "/home/u/.local/share/atlauncher");
    let c = raw_candidate_dirs(OtherLauncher::MultiMC, "", None);
    assert_eq!(c[0], "multimc");
    for candidate in raw_candidate_dirs(OtherLauncher::Modrinth, "/h", None) {
        assert!(candidate.starts_with("/h/"));
        assert!(!candidate.contains("//"));
    }
}

#[test]
fn drive_roots_take_each_component() {
    let c = raw_candidate_dirs(OtherLauncher::Prism, "/h", Some("1:"));
    assert_eq!(c.len(), 4);
    assert!(c[3].starts_with("1:\\") && c[3].ends_with("PrismLauncher"));
}

#[test]
fn plain_found_directories_are_compared_as_strings() {
    assert_eq!(
        choose_import_dir(Some("/home/u/PrismLauncher".to_string()), "/home/u/.local/share/PrismLauncher".to_string()),
        ("/home/u/PrismLauncher".to_string(), true)
    );
    assert_eq!(
        choose_import_dir(Some("/home/u/x".to_string()), "/home/u/x".to_string()),
        ("/home/u/x".to_string(), false)
    );
}
