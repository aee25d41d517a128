use vstd::prelude::*;

use crate::launcher_dirs::OtherLauncher;
use crate::paths::{is_plain_slash_path, same_path, str_views};
use crate::text::{opt_view, views};

verus! {

/// A file or directory whose presence marks a launcher's data directory, given as
/// the components to join onto that directory.
#[derive(Clone, Debug)]
pub struct LauncherMarker {
    pub components: Vec<&'static str>,
    pub is_dir: bool,
}

/// The markers of each launcher, as components and whether the marker is a directory.
pub open spec fn spec_markers(l: OtherLauncher) -> Seq<(Seq<Seq<char>>, bool)> {
    match l {
        OtherLauncher::Prism | OtherLauncher::MultiMC => seq![
            (seq!["prismlauncher.cfg"@], false),
            (seq!["multimc.cfg"@], false),
            (seq!["fjordlauncher.cfg"@], false),
        ],
        OtherLauncher::CurseForge => seq![(seq!["Instances"@], true)],
        OtherLauncher::Modrinth => seq![(seq!["app.db"@], false)],
        OtherLauncher::ATLauncher => seq![(seq!["configs"@, "ATLauncher.json"@], false)],
    }
}

pub open spec fn marker_view(m: LauncherMarker) -> (Seq<Seq<char>>, bool) {
    (str_views(m.components@), m.is_dir)
}

/// The files (or, for CurseForge, the directory) that the backend importer needs
/// in a launcher's data directory; any one of them marks the directory.
pub fn launcher_markers(launcher: OtherLauncher) -> (res: Vec<LauncherMarker>)
    ensures
        res@.map_values(|m: LauncherMarker| marker_view(m)) == spec_markers(launcher),
{
    let res = match launcher {
        OtherLauncher::Prism | OtherLauncher::MultiMC => vec![
            LauncherMarker { components: vec!["prismlauncher.cfg"], is_dir: false },
            LauncherMarker { components: vec!["multimc.cfg"], is_dir: false },
            LauncherMarker { components: vec!["fjordlauncher.cfg"], is_dir: false },
        ],
        OtherLauncher::CurseForge => vec![LauncherMarker { components: vec!["Instances"], is_dir: true }],
        OtherLauncher::Modrinth => vec![LauncherMarker { components: vec!["app.db"], is_dir: false }],
        OtherLauncher::ATLauncher => vec![
            LauncherMarker { components: vec!["configs", "ATLauncher.json"], is_dir: false },
        ],
    };
    proof {
        let v = res@.map_values(|m: LauncherMarker| marker_view(m));
        assert forall|i: int| 0 <= i < res@.len() implies #[trigger] marker_view(res@[i])
            == spec_markers(launcher)[i] by {
            assert(str_views(res@[i].components@) =~= spec_markers(launcher)[i].0);
        }
        assert(v =~= spec_markers(launcher));
    }
    res
}

/// A directory is a launcher's data directory when it is a directory and one of the
/// launcher's markers is present in it (`present[i]` for the `i`-th marker).
pub open spec fn spec_dir_verdict(is_dir: bool, present: Seq<bool>) -> bool {
    is_dir && exists|i: int| 0 <= i < present.len() && #[trigger] present[i]
}

/// Whether a marker is present, given which paths below the directory are files and
/// which are directories.
pub open spec fn marker_present(
    m: (Seq<Seq<char>>, bool),
    is_file: spec_fn(Seq<Seq<char>>) -> bool,
    is_dir: spec_fn(Seq<Seq<char>>) -> bool,
) -> bool {
    if m.1 {
        is_dir(m.0)
    } else {
        is_file(m.0)
    }
}

/// The launcher directory check, launcher by launcher: with the markers' answers taken
/// from which paths below a directory are files and which are directories, the verdict
/// is that the directory is one and holds `prismlauncher.cfg`, `multimc.cfg` or
/// `fjordlauncher.cfg` (Prism, MultiMC), an `Instances` directory (CurseForge), `app.db`
/// (Modrinth), or `configs/ATLauncher.json` (ATLauncher).
pub proof fn lemma_launcher_dir_check(
    l: OtherLauncher,
    dir_is_dir: bool,
    is_file: spec_fn(Seq<Seq<char>>) -> bool,
    is_dir: spec_fn(Seq<Seq<char>>) -> bool,
    present: Seq<bool>,
)
    requires
        present.len() == spec_markers(l).len(),
        forall|i: int| 0 <= i < present.len() ==> #[trigger] present[i] == marker_present(spec_markers(l)[i], is_file, is_dir),
    ensures
        spec_dir_verdict(dir_is_dir, present) == (dir_is_dir && match l {
            OtherLauncher::Prism | OtherLauncher::MultiMC => is_file(seq!["prismlauncher.cfg"@]) || is_file(
                seq!["multimc.cfg"@],
            ) || is_file(seq!["fjordlauncher.cfg"@]),
            OtherLauncher::CurseForge => is_dir(seq!["Instances"@]),
            OtherLauncher::Modrinth => is_file(seq!["app.db"@]),
            OtherLauncher::ATLauncher => is_file(seq!["configs"@, "ATLauncher.json"@]),
        }),
{
    let m = spec_markers(l);
    if l == OtherLauncher::Prism || l == OtherLauncher::MultiMC {
        assert(present[0] == is_file(seq!["prismlauncher.cfg"@]));
        assert(present[1] == is_file(seq!["multimc.cfg"@]));
        assert(present[2] == is_file(seq!["fjordlauncher.cfg"@]));
    } else {
        assert(present[0] == marker_present(m[0], is_file, is_dir));
    }
}

/// A directory is a launcher's data directory when it is a directory and one of the
/// launcher's markers is present in it.
pub fn launcher_dir_verdict(is_dir: bool, marker_present: &[bool]) -> (res: bool)
    ensures
        res == spec_dir_verdict(is_dir, marker_present@),
{
    if !is_dir {
        return false;
    }
    let mut i: usize = 0;
    while i < marker_present.len()
        invariant
            is_dir,
            i <= marker_present@.len(),
            forall|k: int| 0 <= k < i ==> !#[trigger] marker_present@[k],
        decreases marker_present@.len() - i,
    {
        if marker_present[i] {
            assert(marker_present@[i as int]);
            return true;
        }
        i = i + 1;
    }
    false
}

/// The directories a launcher search checks, in order: the remembered location
/// (if there is one), the default location, then the candidate directories.
pub open spec fn spec_probe_order(
    remembered: Option<Seq<char>>,
    default_dir: Seq<char>,
    candidates: Seq<Seq<char>>,
) -> Seq<Seq<char>> {
    match remembered {
        Some(r) => seq![r, default_dir] + candidates,
        None => seq![default_dir] + candidates,
    }
}

/// The first directory of `order`, from position `i` on, that the answers `valid`
/// mark as a launcher directory.
pub open spec fn spec_first_valid(order: Seq<Seq<char>>, valid: Seq<bool>, i: int) -> Option<Seq<char>>
    decreases order.len() - i,
{
    if i < 0 || i >= order.len() {
        None
    } else if valid[i] {
        Some(order[i])
    } else {
        spec_first_valid(order, valid, i + 1)
    }
}

/// What a launcher search asks for, or what it found.
#[derive(Clone, Debug)]
pub enum SearchStep {
    /// Check whether this directory is the launcher's data directory.
    Probe(String),
    /// The search is over: this is the directory.
    Found(String),
    /// The search is over: no directory qualified.
    NotFound,
}

/// What a step of a launcher search is, over the characters of its directories.
pub enum StepView {
    Probe(Seq<char>),
    Found(Seq<char>),
    NotFound,
}

pub open spec fn step_view(s: SearchStep) -> StepView {
    match s {
        SearchStep::Probe(p) => StepView::Probe(p@),
        SearchStep::Found(p) => StepView::Found(p@),
        SearchStep::NotFound => StepView::NotFound,
    }
}

/// The step at position `i` of `order`, before it has been answered.
pub open spec fn spec_pending(order: Seq<Seq<char>>, i: int) -> StepView {
    if 0 <= i < order.len() {
        StepView::Probe(order[i])
    } else {
        StepView::NotFound
    }
}

/// The step that follows the answer `valid` for the directory at position `i`.
pub open spec fn spec_after_answer(order: Seq<Seq<char>>, i: int, valid: bool) -> StepView {
    if valid {
        StepView::Found(order[i])
    } else {
        spec_pending(order, i + 1)
    }
}

/// What a search outcome says, as an `Option`: `Found` gives the directory.
pub open spec fn spec_outcome(order: Seq<Seq<char>>, valid: Seq<bool>, i: int) -> Option<Seq<char>>
    decreases order.len() - i,
{
    if i < 0 || i >= order.len() {
        None
    } else {
        match spec_after_answer(order, i, valid[i]) {
            StepView::Found(p) => Some(p),
            StepView::NotFound => None,
            StepView::Probe(_) => spec_outcome(order, valid, i + 1),
        }
    }
}

/// The search for a launcher's data directory: the remembered location first (if it
/// is still valid), then the default location, then the candidate directories. Each
/// directory is checked by the caller, which reports whether it qualifies.
pub struct LauncherDirSearch {
    order: Vec<String>,
    next: usize,
}

impl LauncherDirSearch {
    /// The directories in the order they are checked.
    pub closed spec fn order(&self) -> Seq<Seq<char>> {
        views(self.order@)
    }

    /// The position of the directory that is checked next.
    pub closed spec fn position(&self) -> int {
        self.next as int
    }

    pub closed spec fn well_formed(&self) -> bool {
        self.next <= self.order@.len()
    }

    pub fn new(remembered: Option<String>, default_dir: String, candidates: Vec<String>) -> (res: Self)
        ensures
            res.well_formed(),
            res.order() == spec_probe_order(opt_view(remembered), default_dir@, views(candidates@)),
            res.position() == 0,
    {
        let ghost rem = opt_view(remembered);
        let ghost d = default_dir@;
        let ghost c = views(candidates@);
        let mut order: Vec<String> = Vec::new();
        if let Some(r) = remembered {
            order.push(r);
        }
        order.push(default_dir);
        let mut candidates = candidates;
        order.append(&mut candidates);
        assert(views(order@) =~= spec_probe_order(rem, d, c));
        LauncherDirSearch { order, next: 0 }
    }

    /// The step the search is at: the directory to check next, or `NotFound` when
    /// every directory has been checked.
    pub fn current(&self) -> (res: SearchStep)
        requires
            self.well_formed(),
        ensures
            step_view(res) == spec_pending(self.order(), self.position()),
    {
        if self.next < self.order.len() {
            SearchStep::Probe(self.order[self.next].clone())
        } else {
            SearchStep::NotFound
        }
    }

    /// Reports whether the directory of the current step qualifies: if it does, it is
    /// found; otherwise the search moves on to the next directory.
    pub fn answer(&mut self, is_launcher_dir: bool) -> (res: SearchStep)
        requires
            old(self).well_formed(),
            old(self).position() < old(self).order().len(),
        ensures
            final(self).well_formed(),
            final(self).order() == old(self).order(),
            final(self).position() == if is_launcher_dir {
                old(self).position()
            } else {
                old(self).position() + 1
            },
            step_view(res) == spec_after_answer(old(self).order(), old(self).position(), is_launcher_dir),
    {
        let n: usize = self.order.len();
        assert(n == self.order().len());
        if is_launcher_dir {
            SearchStep::Found(self.order[self.next].clone())
        } else {
            self.next = self.next + 1;
            self.current()
        }
    }
}

/// Answering a search step by step finds the first directory, in the order remembered,
/// default, candidates, that qualifies; it finds nothing exactly when none qualifies.
pub proof fn lemma_search_finds_first_valid(order: Seq<Seq<char>>, valid: Seq<bool>, i: int)
    requires
        valid.len() == order.len(),
        0 <= i,
    ensures
        spec_outcome(order, valid, i) == spec_first_valid(order, valid, i),
        spec_first_valid(order, valid, i) is None <==> (forall|k: int| i <= k < order.len() ==> !#[trigger] valid[k]),
        spec_first_valid(order, valid, i) matches Some(p) ==> exists|k: int|
            i <= k < order.len() && #[trigger] valid[k] && order[k] == p && (forall|j: int| i <= j < k ==> !valid[j]),
    decreases order.len() - i,
{
    if i < order.len() {
        lemma_search_finds_first_valid(order, valid, i + 1);
        if !valid[i] {
            if spec_first_valid(order, valid, i + 1) is None {
                assert forall|k: int| i <= k < order.len() implies !#[trigger] valid[k] by {
                    if k > i {
                    }
                }
            }
            if let Some(p) = spec_first_valid(order, valid, i + 1) {
                let k = choose|k: int|
                    i + 1 <= k < order.len() && #[trigger] valid[k] && order[k] == p && (forall|j: int| i + 1 <= j < k ==> !valid[j]);
                assert(forall|j: int| i <= j < k ==> !valid[j]);
            }
        }
    }
}

/// The position of the first candidate in the probe order: after the default location,
/// and after the remembered location when there is one.
pub open spec fn first_candidate_slot(remembered: Option<Seq<char>>) -> int {
    if remembered is Some {
        2
    } else {
        1
    }
}

/// The probe order: the remembered location first when there is one, then the default
/// location, then every candidate in its order.
pub proof fn lemma_probe_order_layout(
    remembered: Option<Seq<char>>,
    default_dir: Seq<char>,
    candidates: Seq<Seq<char>>,
)
    ensures
        ({
            let order = spec_probe_order(remembered, default_dir, candidates);
            let s: int = if remembered is Some { 1 } else { 0 };
            &&& order.len() == s + 1 + candidates.len()
            &&& remembered matches Some(r) ==> order[0] == r
            &&& order[s] == default_dir
            &&& forall|k: int| 0 <= k < candidates.len() ==> #[trigger] order[s + 1 + k] == candidates[k]
        }),
{
}

/// A remembered location and a default location that do not qualify never hide a
/// candidate: the search then finds the first candidate that qualifies.
pub proof fn lemma_search_reaches_candidates(
    remembered: Option<Seq<char>>,
    default_dir: Seq<char>,
    candidates: Seq<Seq<char>>,
    valid: Seq<bool>,
    k: int,
)
    requires
        valid.len() == spec_probe_order(remembered, default_dir, candidates).len(),
        0 <= k < candidates.len(),
        forall|j: int| 0 <= j < first_candidate_slot(remembered) ==> !#[trigger] valid[j],
        valid[first_candidate_slot(remembered) + k],
        forall|j: int| 0 <= j < k ==> !#[trigger] valid[first_candidate_slot(remembered) + j],
    ensures
        spec_outcome(spec_probe_order(remembered, default_dir, candidates), valid, 0) == Some(candidates[k]),
{
    let order = spec_probe_order(remembered, default_dir, candidates);
    let s: int = if remembered is Some { 1 } else { 0 };
    lemma_probe_order_layout(remembered, default_dir, candidates);
    lemma_search_finds_first_valid(order, valid, 0);
    assert(valid[s + 1 + k]);
    assert(order[s + 1 + k] == candidates[k]);
    let p = spec_first_valid(order, valid, 0);
    assert(p is Some);
    let m = choose|m: int| 0 <= m < order.len() && #[trigger] valid[m] && order[m] == p.unwrap() && (forall|j: int|
        0 <= j < m ==> !valid[j]);
    if m < s + 1 + k {
        if m > s {
            assert(!valid[s + 1 + (m - s - 1)]);
        }
        assert(false);
    }
    if m > s + 1 + k {
        assert(!valid[s + 1 + k]);
    }
}

/// A remembered location that still qualifies wins without any other directory being
/// checked; otherwise the default location wins over every candidate.
pub proof fn lemma_search_order(
    remembered: Option<Seq<char>>,
    default_dir: Seq<char>,
    candidates: Seq<Seq<char>>,
    valid: Seq<bool>,
)
    requires
        valid.len() == spec_probe_order(remembered, default_dir, candidates).len(),
    ensures
        remembered is Some && valid[0] ==> spec_outcome(
            spec_probe_order(remembered, default_dir, candidates),
            valid,
            0,
        ) == Some(remembered.unwrap()),
        remembered is None && valid[0] ==> spec_outcome(
            spec_probe_order(remembered, default_dir, candidates),
            valid,
            0,
        ) == Some(default_dir),
        remembered is Some && !valid[0] && valid[1] ==> spec_outcome(
            spec_probe_order(remembered, default_dir, candidates),
            valid,
            0,
        ) == Some(default_dir),
{
    let order = spec_probe_order(remembered, default_dir, candidates);
    lemma_search_finds_first_valid(order, valid, 0);
    if remembered is Some && !valid[0] {
        lemma_search_finds_first_valid(order, valid, 1);
    }
}

/// The directory to import from, given whether the found directory is the same path
/// as the default location (`same`): the one the search found, or else the default
/// location; it is remembered exactly when a directory was found and it is not the
/// default location.
pub fn import_dir_choice(found: Option<String>, default_dir: String, same: bool) -> (res: (String, bool))
    ensures
        res.0@ == match found {
            Some(p) => p@,
            None => default_dir@,
        },
        res.1 == (found is Some && !same),
{
    match found {
        Some(p) => (p, !same),
        None => (default_dir, false),
    }
}

/// The directory to import from: the one the search found, or else the default
/// location; it is remembered only when it is not the default location. Whether a
/// found directory names the same path as the default one is asked of `Path::eq`; for
/// paths of plain components separated by single `/`, that is string equality.
pub fn choose_import_dir(found: Option<String>, default_dir: String) -> (res: (String, bool))
    ensures
        res.0@ == match found {
            Some(p) => p@,
            None => default_dir@,
        },
        res.1 ==> res.0@ != default_dir@,
        found is None ==> !res.1,
        found matches Some(p) ==> (is_plain_slash_path(p@) && is_plain_slash_path(default_dir@) ==> res.1
            == (p@ != default_dir@)),
{
    let same = match &found {
        Some(p) => same_path(p.as_str(), default_dir.as_str()),
        None => true,
    };
    import_dir_choice(found, default_dir, same)
}

} // verus!
