use vexora::import_page::{name_conflicts, ImportFromOtherLauncherJob, ImportPage, ImportStatus, PathRow};
use vexora::launcher_dirs::OtherLauncher;

fn job(accounts: bool, paths: &[&str]) -> ImportFromOtherLauncherJob {
    ImportFromOtherLauncherJob {
        import_accounts: accounts,
        root: "/prism".to_string(),
        paths: paths.iter().map(|p| p.to_string()).collect(),
    }
}

#[test]
fn new_page_imports_everything() {
    let page = ImportPage::new();
    assert!(page.import_from.is_none());
    assert!(page.import_job.is_none());
    assert!(page.import_accounts && page.import_instances);
    assert!(page.import_request().is_none());
}

#[test]
fn conflicts_are_found_by_last_component() {
    let paths = vec!["/p/instances/A".to_string(), "/p/instances/B".to_string()];
    let names = vec![Some("A".to_string()), Some("B".to_string())];
    let instances = vec![Some("B".to_string()), None];
    let c = name_conflicts(&paths, &names, &instances);
    assert_eq!(c.len(), 1);
    assert!(c.contains("/p/instances/B"));
}

#[test]
fn receiving_a_job_marks_conflicts_and_clears_choices() {
    let mut page = ImportPage::new();
    page.select_launcher(OtherLauncher::Prism, Some("/p".to_string()));
    page.set_path_enabled("/p/instances/A", false);
    page.receive_import_job(
        Some(job(true, &["/p/instances/A", "/p/instances/B"])),
        &vec!["/home/u/.vexora/instances/B".to_string()],
    );
    assert!(page.disabled_manually.is_empty());
    assert!(page.disabled_due_to_name_conflict.contains("/p/instances/B"));
    assert_eq!(page.disabled_due_to_name_conflict.len(), 1);
    assert_eq!(page.selected_paths(), vec!["/p/instances/A".to_string()]);
}

#[test]
fn import_button_rules() {
    let mut page = ImportPage::new();
    page.set_import_job(Some(job(false, &["/a", "/b"])), &vec![Some("a".into()), Some("b".into())], &vec![]);
    assert!(page.can_import());
    page.set_path_enabled("/a", false);
    assert!(page.can_import());
    page.set_path_enabled("/b", false);
    assert!(!page.can_import());
    assert!(page.selected_paths().is_empty());
    page.set_path_enabled("/b", true);
    assert!(page.can_import());
    assert_eq!(page.selected_paths(), vec!["/b".to_string()]);
    page.import_instances = false;
    assert!(!page.can_import());

    page.set_import_job(Some(job(true, &["/a"])), &vec![Some("a".into())], &vec![Some("a".into())]);
    assert!(page.can_import());
    assert!(page.effective_import_accounts());
    page.import_accounts = false;
    assert!(!page.effective_import_accounts());
    assert!(!page.can_import());
}

#[test]
fn import_request_takes_selected_paths() {
    let mut page = ImportPage::new();
    page.set_import_job(
        Some(job(true, &["/x", "/y", "/z"])),
        &vec![Some("x".into()), Some("y".into()), Some("z".into())],
        &vec![Some("y".into())],
    );
    page.set_path_enabled("/z", false);
    page.import_accounts = false;
    let r = page.import_request().unwrap();
    assert!(!r.import_accounts);
    assert_eq!(r.root, "/prism");
    assert_eq!(r.paths, vec!["/x".to_string()]);
}

#[test]
fn no_instances_means_no_conflicts() {
    let mut page = ImportPage::new();
    page.receive_import_job(Some(job(false, &["/p/instances/A", "/p/instances/B"])), &vec![]);
    assert!(page.disabled_due_to_name_conflict.is_empty());
    assert_eq!(
        page.selected_paths(),
        vec!["/p/instances/A".to_string(), "/p/instances/B".to_string()]
    );
}

#[test]
fn conflicts_compare_only_the_last_component() {
    let mut page = ImportPage::new();
    page.receive_import_job(
        Some(job(false, &["/p/instances/Foo", "/p/Foo/Bar", "Baz"])),
        &vec!["/i/Bar".to_string(), "/i/Foo/Qux".to_string(), "Baz".to_string()],
    );
    assert_eq!(page.disabled_due_to_name_conflict.len(), 2);
    assert!(page.disabled_due_to_name_conflict.contains("/p/Foo/Bar"));
    assert!(page.disabled_due_to_name_conflict.contains("Baz"));
}

#[test]
fn path_rows_show_conflicts_and_switched_off_paths() {
    let mut page = ImportPage::new();
    page.receive_import_job(
        Some(job(false, &["/p/instances/A", "/p/instances/B", "/p/instances/C"])),
        &vec!["/i/B".to_string()],
    );
    page.set_path_enabled("/p/instances/C", false);
    page.set_path_enabled("/p/instances/B", false);
    assert_eq!(page.path_row("/p/instances/A"), PathRow::Checked);
    assert_eq!(page.path_row("/p/instances/B"), PathRow::Conflict);
    assert_eq!(page.path_row("/p/instances/C"), PathRow::Unchecked);
    page.set_path_enabled("/p/instances/C", true);
    assert_eq!(page.path_row("/p/instances/C"), PathRow::Checked);
}

#[test]
fn status_line_follows_the_search() {
    let mut page = ImportPage::new();
    assert_eq!(page.import_status(false), ImportStatus::Loading);
    assert_eq!(page.import_status(true), ImportStatus::NoneDetected);
    page.receive_import_job(Some(job(true, &[])), &vec![]);
    assert_eq!(page.import_status(false), ImportStatus::Detected);
    assert_eq!(page.import_status(true), ImportStatus::Detected);
}
