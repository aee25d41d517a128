use vstd::prelude::*;

use rustc_hash::FxHashSet;

use crate::fx_set::{fx_set_contains, fx_set_insert, fx_set_keys, fx_set_len, fx_set_new, fx_set_remove};
use crate::launcher_dirs::OtherLauncher;
use crate::paths::{after_last_slash, file_name, has_plain_file_name};
use crate::text::{opt_view, views};

verus! {

/// What can be imported from another launcher's data directory.
#[derive(Clone, Debug)]
pub struct ImportFromOtherLauncherJob {
    pub import_accounts: bool,
    pub root: String,
    pub paths: Vec<String>,
}

/// The optional names, each taken by its characters.
pub open spec fn opt_views(v: Seq<Option<String>>) -> Seq<Option<Seq<char>>> {
    v.map_values(|o: Option<String>| opt_view(o))
}

/// The last component of each path, as `Path::file_name` gives it for paths whose last
/// component every platform reads alike: what follows the last `/`.
pub open spec fn plain_names(paths: Seq<Seq<char>>) -> Seq<Option<Seq<char>>> {
    paths.map_values(|p: Seq<char>| Some(after_last_slash(p)))
}

/// The paths of an import job whose last component is also the last component of an
/// existing instance's root directory.
pub open spec fn spec_name_conflicts(
    paths: Seq<Seq<char>>,
    path_names: Seq<Option<Seq<char>>>,
    instance_names: Seq<Option<Seq<char>>>,
) -> Set<Seq<char>> {
    Set::new(
        |p: Seq<char>|
            exists|i: int|
                0 <= i < paths.len() && #[trigger] paths[i] == p && path_names[i] is Some
                    && instance_names.contains(path_names[i]),
    )
}

/// Which paths clash depends only on which names the instances have, not on their
/// order: a path is in conflict when its last component is the last component of any
/// instance, wherever that instance stands; and every path in conflict is one of the
/// job's paths whose last component some instance has.
pub proof fn lemma_conflicts_by_name(
    paths: Seq<Seq<char>>,
    path_names: Seq<Option<Seq<char>>>,
    instance_names: Seq<Option<Seq<char>>>,
)
    ensures
        forall|i: int, k: int|
            0 <= i < paths.len() && 0 <= k < instance_names.len() && #[trigger] path_names[i] is Some
                && #[trigger] instance_names[k] == path_names[i] ==> spec_name_conflicts(
                paths,
                path_names,
                instance_names,
            ).contains(paths[i]),
        forall|p: Seq<char>| #[trigger]
            spec_name_conflicts(paths, path_names, instance_names).contains(p) ==> exists|i: int, k: int|
                0 <= i < paths.len() && 0 <= k < instance_names.len() && paths[i] == p && path_names[i] is Some
                    && #[trigger] instance_names[k] == #[trigger] path_names[i],
{
    assert forall|i: int, k: int|
        0 <= i < paths.len() && 0 <= k < instance_names.len() && #[trigger] path_names[i] is Some
            && #[trigger] instance_names[k] == path_names[i] implies spec_name_conflicts(
        paths,
        path_names,
        instance_names,
    ).contains(paths[i]) by {
        assert(instance_names.contains(path_names[i]));
    }
    assert forall|p: Seq<char>| #[trigger]
        spec_name_conflicts(paths, path_names, instance_names).contains(p) implies exists|i: int, k: int|
            0 <= i < paths.len() && 0 <= k < instance_names.len() && paths[i] == p && path_names[i] is Some
                && #[trigger] instance_names[k] == #[trigger] path_names[i] by {
        let i = choose|i: int|
            0 <= i < paths.len() && #[trigger] paths[i] == p && path_names[i] is Some && instance_names.contains(
                path_names[i],
            );
        let k = choose|k: int| 0 <= k < instance_names.len() && instance_names[k] == path_names[i];
        assert(instance_names[k] == path_names[i]);
    }
}

/// The paths that clash with an existing instance: those whose last component
/// (`path_names[i]` for `paths[i]`) is the last component of an instance's root.
pub fn name_conflicts(
    paths: &Vec<String>,
    path_names: &Vec<Option<String>>,
    instance_names: &Vec<Option<String>>,
) -> (res: FxHashSet<String>)
    requires
        path_names@.len() == paths@.len(),
    ensures
        fx_set_keys(res) == spec_name_conflicts(views(paths@), opt_views(path_names@), opt_views(instance_names@)),
{
    let mut instance_file_names: FxHashSet<String> = fx_set_new();
    let mut j: usize = 0;
    while j < instance_names.len()
        invariant
            j <= instance_names@.len(),
            fx_set_keys(instance_file_names) == Set::new(
                |n: Seq<char>| exists|k: int| 0 <= k < j && #[trigger] opt_views(instance_names@)[k] == Some(n),
            ),
        decreases instance_names@.len() - j,
    {
        let ghost before = fx_set_keys(instance_file_names);
        if let Some(name) = &instance_names[j] {
            fx_set_insert(&mut instance_file_names, name.clone());
        }
        assert(fx_set_keys(instance_file_names) =~= Set::new(
            |n: Seq<char>| exists|k: int| 0 <= k < j + 1 && #[trigger] opt_views(instance_names@)[k] == Some(n),
        )) by {
            assert forall|n: Seq<char>| #[trigger] fx_set_keys(instance_file_names).contains(n) implies exists|k: int|
                0 <= k < j + 1 && #[trigger] opt_views(instance_names@)[k] == Some(n) by {
                if !before.contains(n) {
                    assert(opt_views(instance_names@)[j as int] == Some(n));
                }
            }
        }
        j = j + 1;
    }
    let ghost names = opt_views(instance_names@);
    let ghost pv = views(paths@);
    let ghost pn = opt_views(path_names@);
    let mut conflicts: FxHashSet<String> = fx_set_new();
    let mut i: usize = 0;
    while i < paths.len()
        invariant
            i <= paths@.len(),
            path_names@.len() == paths@.len(),
            names == opt_views(instance_names@),
            pv == views(paths@),
            pn == opt_views(path_names@),
            fx_set_keys(instance_file_names) == Set::new(
                |n: Seq<char>| exists|k: int| 0 <= k < names.len() && #[trigger] names[k] == Some(n),
            ),
            fx_set_keys(conflicts) == spec_name_conflicts(pv.take(i as int), pn, names),
        decreases paths@.len() - i,
    {
        let ghost before = fx_set_keys(conflicts);
        let mut hit = false;
        if let Some(name) = &path_names[i] {
            if fx_set_contains(&instance_file_names, name.as_str()) {
                hit = true;
                proof {
                    let k = choose|k: int| 0 <= k < names.len() && #[trigger] names[k] == Some(name@);
                    assert(names.contains(pn[i as int]));
                }
                fx_set_insert(&mut conflicts, paths[i].clone());
            }
        }
        proof {
            if !hit && pn[i as int] is Some && names.contains(pn[i as int]) {
                let k = choose|k: int| 0 <= k < names.len() && names[k] == pn[i as int];
                assert(fx_set_keys(instance_file_names).contains(pn[i as int].unwrap()));
            }
            let t = pv.take(i + 1);
            assert forall|p: Seq<char>| #[trigger] fx_set_keys(conflicts).contains(p) == spec_name_conflicts(t, pn, names).contains(p) by {
                if spec_name_conflicts(t, pn, names).contains(p) {
                    let k = choose|k: int| 0 <= k < t.len() && #[trigger] t[k] == p && pn[k] is Some && names.contains(pn[k]);
                    if k < i {
                        assert(pv.take(i as int)[k] == p);
                        assert(spec_name_conflicts(pv.take(i as int), pn, names).contains(p));
                    }
                }
                if before.contains(p) {
                    let k = choose|k: int| 0 <= k < i && #[trigger] pv.take(i as int)[k] == p && pn[k] is Some && names.contains(pn[k]);
                    assert(t[k] == p);
                }
                if hit && p == pv[i as int] {
                    assert(t[i as int] == p);
                }
            }
            assert(fx_set_keys(conflicts) =~= spec_name_conflicts(t, pn, names));
        }
        i = i + 1;
    }
    assert(pv.take(paths@.len() as int) =~= pv);
    conflicts
}

/// How a path of an import job is shown.
#[derive(Clone, Copy, Debug, PartialEq, Eq, Structural)]
pub enum PathRow {
    /// Switched off and locked: an instance has the same name.
    Conflict,
    Checked,
    Unchecked,
}

/// The status of the search for what can be imported.
#[derive(Clone, Copy, Debug, PartialEq, Eq, Structural)]
pub enum ImportStatus {
    Detected,
    NoneDetected,
    Loading,
}

/// The state of the page that imports from another launcher.
///
/// The two sets of switched-off paths hold the paths as the job lists them, compared
/// as strings.
pub struct ImportPage {
    pub import_from: Option<OtherLauncher>,
    pub import_from_path: Option<String>,
    pub import_job: Option<ImportFromOtherLauncherJob>,
    pub disabled_due_to_name_conflict: FxHashSet<String>,
    pub disabled_manually: FxHashSet<String>,
    pub import_accounts: bool,
    pub import_instances: bool,
}

/// The paths of a job that are neither in conflict with an instance nor switched off.
pub open spec fn spec_selected_paths(
    paths: Seq<Seq<char>>,
    conflicts: Set<Seq<char>>,
    manual: Set<Seq<char>>,
) -> Seq<Seq<char>> {
    paths.filter(|p: Seq<char>| !conflicts.contains(p) && !manual.contains(p))
}

impl ImportPage {
    /// A page with nothing chosen yet, importing both accounts and instances.
    pub fn new() -> (res: Self)
        ensures
            res.import_from is None,
            res.import_from_path is None,
            res.import_job is None,
            fx_set_keys(res.disabled_due_to_name_conflict) == Set::<Seq<char>>::empty(),
            fx_set_keys(res.disabled_manually) == Set::<Seq<char>>::empty(),
            res.import_accounts,
            res.import_instances,
    {
        ImportPage {
            import_from: None,
            import_from_path: None,
            import_job: None,
            disabled_due_to_name_conflict: fx_set_new(),
            disabled_manually: fx_set_new(),
            import_accounts: true,
            import_instances: true,
        }
    }

    /// A launcher was picked: its directory (if one could be determined) is shown, and
    /// the job found for a previous choice is dropped until the new one arrives.
    pub fn select_launcher(&mut self, launcher: OtherLauncher, dir: Option<String>)
        ensures
            final(self).import_from == Some(launcher),
            opt_view(final(self).import_from_path) == opt_view(dir),
            final(self).import_job is None,
            fx_set_keys(final(self).disabled_due_to_name_conflict) == fx_set_keys(old(self).disabled_due_to_name_conflict),
            fx_set_keys(final(self).disabled_manually) == fx_set_keys(old(self).disabled_manually),
            final(self).import_accounts == old(self).import_accounts,
            final(self).import_instances == old(self).import_instances,
    {
        self.import_from = Some(launcher);
        self.import_from_path = dir;
        self.import_job = None;
    }

    /// The job found in the chosen directory arrives: every earlier choice is cleared,
    /// and the paths whose name an existing instance already has are switched off
    /// (`path_names[i]` and `instance_names` are the last components of the job's
    /// paths and of the instances' root directories).
    pub fn set_import_job(
        &mut self,
        job: Option<ImportFromOtherLauncherJob>,
        path_names: &Vec<Option<String>>,
        instance_names: &Vec<Option<String>>,
    )
        requires
            job matches Some(j) ==> path_names@.len() == j.paths@.len(),
        ensures
            final(self).import_job == job,
            fx_set_keys(final(self).disabled_manually) == Set::<Seq<char>>::empty(),
            fx_set_keys(final(self).disabled_due_to_name_conflict) == match job {
                Some(j) => spec_name_conflicts(views(j.paths@), opt_views(path_names@), opt_views(instance_names@)),
                None => Set::<Seq<char>>::empty(),
            },
            final(self).import_from == old(self).import_from,
            final(self).import_from_path == old(self).import_from_path,
            final(self).import_accounts == old(self).import_accounts,
            final(self).import_instances == old(self).import_instances,
    {
        self.disabled_manually = fx_set_new();
        match &job {
            Some(j) => {
                self.disabled_due_to_name_conflict = name_conflicts(&j.paths, path_names, instance_names);
            },
            None => {
                self.disabled_due_to_name_conflict = fx_set_new();
            },
        }
        self.import_job = job;
    }

    /// Like `set_import_job`, with the last components taken from the paths of the job
    /// and of the existing instances' root directories.
    pub fn receive_import_job(&mut self, job: Option<ImportFromOtherLauncherJob>, instance_roots: &Vec<String>)
        ensures
            final(self).import_job == job,
            fx_set_keys(final(self).disabled_manually) == Set::<Seq<char>>::empty(),
            forall|p: Seq<char>| #[trigger] fx_set_keys(final(self).disabled_due_to_name_conflict).contains(p)
                ==> job is Some && views(job.unwrap().paths@).contains(p),
            instance_roots@.len() == 0 ==> fx_set_keys(final(self).disabled_due_to_name_conflict) == Set::<
                Seq<char>,
            >::empty(),
            job matches Some(j) ==> (forall|i: int| 0 <= i < j.paths@.len() ==> has_plain_file_name(
                #[trigger] j.paths@[i]@,
            )) && (forall|k: int| 0 <= k < instance_roots@.len() ==> has_plain_file_name(
                #[trigger] instance_roots@[k]@,
            )) ==> fx_set_keys(final(self).disabled_due_to_name_conflict) == spec_name_conflicts(
                views(j.paths@),
                plain_names(views(j.paths@)),
                plain_names(views(instance_roots@)),
            ),
            final(self).import_from == old(self).import_from,
            final(self).import_from_path == old(self).import_from_path,
            final(self).import_accounts == old(self).import_accounts,
            final(self).import_instances == old(self).import_instances,
    {
        let mut instance_names: Vec<Option<String>> = Vec::new();
        let mut k: usize = 0;
        while k < instance_roots.len()
            invariant
                k <= instance_roots@.len(),
                instance_names@.len() == k,
                forall|k2: int| 0 <= k2 < k && has_plain_file_name(#[trigger] instance_roots@[k2]@)
                    ==> opt_view(instance_names@[k2]) == Some(after_last_slash(instance_roots@[k2]@)),
            decreases instance_roots@.len() - k,
        {
            instance_names.push(file_name(instance_roots[k].as_str()));
            k = k + 1;
        }
        let mut path_names: Vec<Option<String>> = Vec::new();
        if let Some(j) = &job {
            let mut i: usize = 0;
            while i < j.paths.len()
                invariant
                    i <= j.paths@.len(),
                    path_names@.len() == i,
                    forall|i2: int| 0 <= i2 < i && has_plain_file_name(#[trigger] j.paths@[i2]@)
                        ==> opt_view(path_names@[i2]) == Some(after_last_slash(j.paths@[i2]@)),
                decreases j.paths@.len() - i,
            {
                path_names.push(file_name(j.paths[i].as_str()));
                i = i + 1;
            }
        }
        let ghost names = opt_views(instance_names@);
        let ghost pn = opt_views(path_names@);
        let ghost job_view = job;
        self.set_import_job(job, &path_names, &instance_names);
        proof {
            if job_view is Some {
                let j = job_view.unwrap();
                assert forall|p: Seq<char>| #[trigger] fx_set_keys(self.disabled_due_to_name_conflict).contains(p)
                    implies views(j.paths@).contains(p) by {
                    let i = choose|i: int| 0 <= i < views(j.paths@).len() && #[trigger] views(j.paths@)[i] == p
                        && pn[i] is Some && names.contains(pn[i]);
                }
                if instance_roots@.len() == 0 {
                    assert(fx_set_keys(self.disabled_due_to_name_conflict) =~= Set::<Seq<char>>::empty()) by {
                        assert forall|p: Seq<char>| !#[trigger] fx_set_keys(self.disabled_due_to_name_conflict).contains(p) by {
                            if fx_set_keys(self.disabled_due_to_name_conflict).contains(p) {
                                let i = choose|i: int| 0 <= i < views(j.paths@).len() && #[trigger] views(j.paths@)[i] == p
                                    && pn[i] is Some && names.contains(pn[i]);
                                let k2 = choose|k2: int| 0 <= k2 < names.len() && names[k2] == pn[i];
                            }
                        }
                    }
                }
                if (forall|i: int| 0 <= i < j.paths@.len() ==> has_plain_file_name(#[trigger] j.paths@[i]@))
                    && (forall|k: int| 0 <= k < instance_roots@.len() ==> has_plain_file_name(
                    #[trigger] instance_roots@[k]@,
                )) {
                    assert(names =~= plain_names(views(instance_roots@))) by {
                        assert forall|k2: int| 0 <= k2 < names.len() implies #[trigger] names[k2] == plain_names(
                            views(instance_roots@),
                        )[k2] by {
                            assert(has_plain_file_name(instance_roots@[k2]@));
                        }
                    }
                    assert(pn =~= plain_names(views(j.paths@))) by {
                        assert forall|i2: int| 0 <= i2 < pn.len() implies #[trigger] pn[i2] == plain_names(
                            views(j.paths@),
                        )[i2] by {
                            assert(has_plain_file_name(j.paths@[i2]@));
                        }
                    }
                }
            }
        }
    }

    /// A path's check box was set (`enabled`) or cleared.
    pub fn set_path_enabled(&mut self, path: &str, enabled: bool)
        ensures
            fx_set_keys(final(self).disabled_manually) == if enabled {
                fx_set_keys(old(self).disabled_manually).remove(path@)
            } else {
                fx_set_keys(old(self).disabled_manually).insert(path@)
            },
            fx_set_keys(final(self).disabled_due_to_name_conflict) == fx_set_keys(old(self).disabled_due_to_name_conflict),
            final(self).import_job == old(self).import_job,
            final(self).import_from == old(self).import_from,
            final(self).import_from_path == old(self).import_from_path,
            final(self).import_accounts == old(self).import_accounts,
            final(self).import_instances == old(self).import_instances,
    {
        if enabled {
            fx_set_remove(&mut self.disabled_manually, path);
        } else {
            fx_set_insert(&mut self.disabled_manually, path.to_owned());
        }
    }

    /// Whether accounts are imported: the job offers them and they are wanted.
    pub fn effective_import_accounts(&self) -> (res: bool)
        requires
            self.import_job is Some,
        ensures
            res == (self.import_job.unwrap().import_accounts && self.import_accounts),
    {
        match &self.import_job {
            Some(j) => j.import_accounts && self.import_accounts,
            None => false,
        }
    }

    /// How the check box of `path` is shown: switched off and locked when the path
    /// clashes with an instance, otherwise checked unless it was switched off.
    pub fn path_row(&self, path: &str) -> (res: PathRow)
        ensures
            res == if fx_set_keys(self.disabled_due_to_name_conflict).contains(path@) {
                PathRow::Conflict
            } else if fx_set_keys(self.disabled_manually).contains(path@) {
                PathRow::Unchecked
            } else {
                PathRow::Checked
            },
    {
        if fx_set_contains(&self.disabled_due_to_name_conflict, path) {
            PathRow::Conflict
        } else if fx_set_contains(&self.disabled_manually, path) {
            PathRow::Unchecked
        } else {
            PathRow::Checked
        }
    }

    /// The status line below the launcher's directory: files were detected when a job
    /// is there; otherwise none were once the search for one has finished
    /// (`search_finished`), and they are still loading before that.
    pub fn import_status(&self, search_finished: bool) -> (res: ImportStatus)
        ensures
            res == if self.import_job is Some {
                ImportStatus::Detected
            } else if search_finished {
                ImportStatus::NoneDetected
            } else {
                ImportStatus::Loading
            },
    {
        if self.import_job.is_some() {
            ImportStatus::Detected
        } else if search_finished {
            ImportStatus::NoneDetected
        } else {
            ImportStatus::Loading
        }
    }

    /// Whether the import button is enabled: accounts are imported, or instances are
    /// and not every path of the job is switched off (counting each switched-off path
    /// once per reason).
    pub fn can_import(&self) -> (res: bool)
        requires
            self.import_job is Some,
        ensures
            res == ((self.import_job.unwrap().import_accounts && self.import_accounts) || (self.import_instances
                && fx_set_keys(self.disabled_due_to_name_conflict).len() + fx_set_keys(self.disabled_manually).len()
                != self.import_job.unwrap().paths@.len())),
    {
        let import_accounts = self.effective_import_accounts();
        if import_accounts {
            return true;
        }
        if !self.import_instances {
            return false;
        }
        let n_paths: usize = match &self.import_job {
            Some(j) => j.paths.len(),
            None => 0,
        };
        let n_conflict: usize = fx_set_len(&self.disabled_due_to_name_conflict);
        let n_manual: usize = fx_set_len(&self.disabled_manually);
        if n_conflict > n_paths {
            true
        } else {
            n_manual != n_paths - n_conflict
        }
    }

    /// The paths that an import takes: those of the job that are neither in conflict
    /// nor switched off, in the job's order.
    pub fn selected_paths(&self) -> (res: Vec<String>)
        requires
            self.import_job is Some,
        ensures
            views(res@) == spec_selected_paths(
                views(self.import_job.unwrap().paths@),
                fx_set_keys(self.disabled_due_to_name_conflict),
                fx_set_keys(self.disabled_manually),
            ),
    {
        let mut res: Vec<String> = Vec::new();
        match &self.import_job {
            Some(j) => {
                let ghost pv = views(j.paths@);
                let ghost c = fx_set_keys(self.disabled_due_to_name_conflict);
                let ghost m = fx_set_keys(self.disabled_manually);
                let mut i: usize = 0;
                while i < j.paths.len()
                    invariant
                        i <= j.paths@.len(),
                        pv == views(j.paths@),
                        c == fx_set_keys(self.disabled_due_to_name_conflict),
                        m == fx_set_keys(self.disabled_manually),
                        views(res@) == spec_selected_paths(pv.take(i as int), c, m),
                    decreases j.paths@.len() - i,
                {
                    let p = &j.paths[i];
                    let keep = !fx_set_contains(&self.disabled_due_to_name_conflict, p.as_str())
                        && !fx_set_contains(&self.disabled_manually, p.as_str());
                    proof {
                        let t = pv.take(i + 1);
                        assert(t.drop_last() =~= pv.take(i as int));
                        reveal_with_fuel(Seq::filter, 1);
                    }
                    if keep {
                        res.push(p.clone());
                        assert(views(res@) =~= spec_selected_paths(pv.take(i as int), c, m).push(pv[i as int]));
                    }
                    i = i + 1;
                }
                assert(pv.take(j.paths@.len() as int) =~= pv);
            },
            None => {},
        }
        res
    }

    /// The job handed to the backend when the import button is pressed: accounts if
    /// they are imported, the job's root, and the selected paths.
    pub fn import_request(&self) -> (res: Option<ImportFromOtherLauncherJob>)
        ensures
            self.import_job is None ==> res is None,
            self.import_job matches Some(j) ==> res matches Some(r) && r.import_accounts == (j.import_accounts
                && self.import_accounts) && r.root@ == j.root@ && views(r.paths@) == spec_selected_paths(
                views(j.paths@),
                fx_set_keys(self.disabled_due_to_name_conflict),
                fx_set_keys(self.disabled_manually),
            ),
    {
        match &self.import_job {
            Some(j) => Some(
                ImportFromOtherLauncherJob {
                    import_accounts: self.effective_import_accounts(),
                    root: j.root.clone(),
                    paths: self.selected_paths(),
                },
            ),
            None => None,
        }
    }
}

/// Switching a path off and on again undoes the first change, for a path that was on.
pub proof fn lemma_disable_then_enable(disabled: Set<Seq<char>>, path: Seq<char>)
    requires
        !disabled.contains(path),
    ensures
        disabled.insert(path).remove(path) == disabled,
{
    assert(disabled.insert(path).remove(path) =~= disabled);
}

/// Only paths of the job can be in conflict, and a path in conflict is never imported.
pub proof fn lemma_conflicts_are_not_imported(
    paths: Seq<Seq<char>>,
    path_names: Seq<Option<Seq<char>>>,
    instance_names: Seq<Option<Seq<char>>>,
    manual: Set<Seq<char>>,
)
    ensures
        forall|p: Seq<char>| #[trigger] spec_name_conflicts(paths, path_names, instance_names).contains(p) ==> paths.contains(p),
        forall|p: Seq<char>|
            spec_name_conflicts(paths, path_names, instance_names).contains(p) ==> !#[trigger] spec_selected_paths(
                paths,
                spec_name_conflicts(paths, path_names, instance_names),
                manual,
            ).contains(p),
{
    let c = spec_name_conflicts(paths, path_names, instance_names);
    let sel = spec_selected_paths(paths, c, manual);
    assert forall|p: Seq<char>| #[trigger] c.contains(p) implies paths.contains(p) by {
        let i = choose|i: int| 0 <= i < paths.len() && #[trigger] paths[i] == p && path_names[i] is Some
            && instance_names.contains(path_names[i]);
    }
    assert forall|p: Seq<char>| c.contains(p) implies !#[trigger] sel.contains(p) by {
        if sel.contains(p) {
            let f = |q: Seq<char>| !c.contains(q) && !manual.contains(q);
            let k = choose|k: int| 0 <= k < sel.len() && sel[k] == p;
            paths.filter_lemma(f);
            assert(f(sel[k]));
        }
    }
}

} // verus!
