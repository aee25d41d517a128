use vstd::prelude::*;

use rustc_hash::FxHashSet;

use crate::fx_set::{fx_set_insert, fx_set_keys, fx_set_new};
use crate::paths::{
    is_plain_char, is_plain_component, join_all, joined_all, keeps_plain_start, plain_chars_from, str_views,
};
use crate::text::{lowercase, opt_str_view, to_lowercase, views};

verus! {

/// The other launchers that instances and accounts can be imported from.
#[derive(Clone, Copy, Debug, PartialEq, Eq, Structural, Hash)]
pub enum OtherLauncher {
    Prism,
    MultiMC,
    CurseForge,
    Modrinth,
    ATLauncher,
}

/// The directories below the home directory where each launcher may keep its data,
/// each as the components to join onto the home directory, in search order.
pub open spec fn spec_home_candidates(l: OtherLauncher) -> Seq<Seq<Seq<char>>> {
    match l {
        OtherLauncher::Prism => seq![
            seq!["PrismLauncher"@],
            seq![".local"@, "share"@, "PrismLauncher"@],
            seq![".var"@, "app"@, "org.prismlauncher.PrismLauncher"@, "data"@, "PrismLauncher"@],
        ],
        OtherLauncher::MultiMC => seq![
            seq!["multimc"@],
            seq!["MultiMC"@],
            seq![".local"@, "share"@, "multimc"@],
        ],
        OtherLauncher::CurseForge => seq![seq!["curseforge"@, "minecraft"@]],
        OtherLauncher::Modrinth => seq![
            seq!["ModrinthApp"@],
            seq![".local"@, "share"@, "ModrinthApp"@],
            seq![".var"@, "app"@, "com.modrinth.ModrinthApp"@, "data"@, "ModrinthApp"@],
        ],
        OtherLauncher::ATLauncher => seq![
            seq!["ATLauncher"@],
            seq!["atlauncher"@],
            seq![".local"@, "share"@, "atlauncher"@],
        ],
    }
}

/// The directory at the root of the system drive where a portable install of each
/// launcher may live.
pub open spec fn spec_drive_top_level(l: OtherLauncher) -> Seq<char> {
    match l {
        OtherLauncher::Prism => "PrismLauncher"@,
        OtherLauncher::MultiMC => "multimc"@,
        OtherLauncher::CurseForge => "curseforge"@,
        OtherLauncher::Modrinth => "ModrinthApp"@,
        OtherLauncher::ATLauncher => "ATLauncher"@,
    }
}

/// The directories below the root of the system drive that are searched, in order.
pub open spec fn spec_drive_candidates(l: OtherLauncher) -> Seq<Seq<Seq<char>>> {
    if l == OtherLauncher::CurseForge {
        seq![seq![spec_drive_top_level(l)], seq!["curseforge"@, "minecraft"@]]
    } else {
        seq![seq![spec_drive_top_level(l)]]
    }
}

/// The root directory of a drive such as `C:`.
pub open spec fn spec_drive_root(drive: Seq<char>) -> Seq<char> {
    drive + seq!['\\']
}

/// The directories searched for each launcher, each as its components in search order:
/// below the home directory, ModrinthApp, .local/share/ModrinthApp and
/// .var/app/com.modrinth.ModrinthApp/data/ModrinthApp for Modrinth, and likewise for
/// the others; and at the root of the system drive, the launcher's portable directory
/// (for CurseForge also curseforge/minecraft).
pub proof fn lemma_candidate_lists()
    ensures
        spec_home_candidates(OtherLauncher::Prism) == seq![
            seq!["PrismLauncher"@],
            seq![".local"@, "share"@, "PrismLauncher"@],
            seq![".var"@, "app"@, "org.prismlauncher.PrismLauncher"@, "data"@, "PrismLauncher"@],
        ],
        spec_home_candidates(OtherLauncher::MultiMC) == seq![
            seq!["multimc"@],
            seq!["MultiMC"@],
            seq![".local"@, "share"@, "multimc"@],
        ],
        spec_home_candidates(OtherLauncher::CurseForge) == seq![seq!["curseforge"@, "minecraft"@]],
        spec_home_candidates(OtherLauncher::Modrinth) == seq![
            seq!["ModrinthApp"@],
            seq![".local"@, "share"@, "ModrinthApp"@],
            seq![".var"@, "app"@, "com.modrinth.ModrinthApp"@, "data"@, "ModrinthApp"@],
        ],
        spec_home_candidates(OtherLauncher::ATLauncher) == seq![
            seq!["ATLauncher"@],
            seq!["atlauncher"@],
            seq![".local"@, "share"@, "atlauncher"@],
        ],
        spec_drive_candidates(OtherLauncher::Prism) == seq![seq!["PrismLauncher"@]],
        spec_drive_candidates(OtherLauncher::MultiMC) == seq![seq!["multimc"@]],
        spec_drive_candidates(OtherLauncher::CurseForge) == seq![seq!["curseforge"@], seq!["curseforge"@, "minecraft"@]],
        spec_drive_candidates(OtherLauncher::Modrinth) == seq![seq!["ModrinthApp"@]],
        spec_drive_candidates(OtherLauncher::ATLauncher) == seq![seq!["ATLauncher"@]],
{
}

/// `raw` holds, in order, the home candidates of `l` joined onto `home` and, where a
/// system drive is known, the drive candidates joined onto its root.
pub open spec fn raw_candidates_fit(
    l: OtherLauncher,
    home: Seq<char>,
    drive: Option<Seq<char>>,
    raw: Seq<Seq<char>>,
) -> bool {
    let h = spec_home_candidates(l);
    let d = match drive {
        Some(_) => spec_drive_candidates(l),
        None => Seq::<Seq<Seq<char>>>::empty(),
    };
    &&& raw.len() == h.len() + d.len()
    &&& forall|i: int|
        0 <= i < h.len() ==> (keeps_plain_start(home) ==> joined_all(#[trigger] raw[i], home, h[i]))
    &&& forall|j: int|
        0 <= j < d.len() ==> (keeps_plain_start(spec_drive_root(drive.unwrap())) ==> joined_all(
            #[trigger] raw[h.len() + j],
            spec_drive_root(drive.unwrap()),
            d[j],
        ))
}
proof fn lemma_plain_chars_from_all(p: Seq<char>, i: int)
    requires
        0 <= i,
        forall|k: int| 0 <= k < p.len() ==> is_plain_char(#[trigger] p[k]),
    ensures
        plain_chars_from(p, i),
    decreases p.len() - i,
{
    if i < p.len() {
        assert(is_plain_char(p[i]));
        lemma_plain_chars_from_all(p, i + 1);
    }
}

/// A name of plain characters that is neither `.` nor `..` is a plain component.
proof fn lemma_plain_name(p: Seq<char>)
    requires
        p.len() >= 3 || (p.len() > 0 && p[0] != '.'),
        forall|k: int| 0 <= k < p.len() ==> is_plain_char(#[trigger] p[k]),
    ensures
        is_plain_component(p),
{
    lemma_plain_chars_from_all(p, 0);
    if p == seq!['.'] || p == seq!['.', '.'] {
        assert(p[0] == '.');
    }
}

/// Every directory name that the candidate paths are built from is a plain component.
proof fn lemma_candidate_names_plain()
    ensures
        is_plain_component(".local"@),
        is_plain_component(".var"@),
        is_plain_component("ATLauncher"@),
        is_plain_component("ModrinthApp"@),
        is_plain_component("MultiMC"@),
        is_plain_component("PrismLauncher"@),
        is_plain_component("app"@),
        is_plain_component("atlauncher"@),
        is_plain_component("com.modrinth.ModrinthApp"@),
        is_plain_component("curseforge"@),
        is_plain_component("data"@),
        is_plain_component("minecraft"@),
        is_plain_component("multimc"@),
        is_plain_component("org.prismlauncher.PrismLauncher"@),
        is_plain_component("share"@),
{
    reveal_strlit(".local");
    lemma_plain_name(".local"@);
    reveal_strlit(".var");
    lemma_plain_name(".var"@);
    reveal_strlit("ATLauncher");
    lemma_plain_name("ATLauncher"@);
    reveal_strlit("ModrinthApp");
    lemma_plain_name("ModrinthApp"@);
    reveal_strlit("MultiMC");
    lemma_plain_name("MultiMC"@);
    reveal_strlit("PrismLauncher");
    lemma_plain_name("PrismLauncher"@);
    reveal_strlit("app");
    lemma_plain_name("app"@);
    reveal_strlit("atlauncher");
    lemma_plain_name("atlauncher"@);
    reveal_strlit("com.modrinth.ModrinthApp");
    lemma_plain_name("com.modrinth.ModrinthApp"@);
    reveal_strlit("curseforge");
    lemma_plain_name("curseforge"@);
    reveal_strlit("data");
    lemma_plain_name("data"@);
    reveal_strlit("minecraft");
    lemma_plain_name("minecraft"@);
    reveal_strlit("multimc");
    lemma_plain_name("multimc"@);
    reveal_strlit("org.prismlauncher.PrismLauncher");
    lemma_plain_name("org.prismlauncher.PrismLauncher"@);
    reveal_strlit("share");
    lemma_plain_name("share"@);
}

} // verus!

verus! {

/// Appends `parts` joined onto `base` to `out`.
fn push_joined(out: &mut Vec<String>, base: &str, parts: &[&str])
    requires
        forall|i: int| 0 <= i < parts@.len() ==> is_plain_component(#[trigger] parts@[i]@),
    ensures
        final(out)@.len() == old(out)@.len() + 1,
        forall|i: int| 0 <= i < old(out)@.len() ==> final(out)@[i] == old(out)@[i],
        keeps_plain_start(base@) ==> joined_all(
            final(out)@[old(out)@.len() as int]@,
            base@,
            str_views(parts@),
        ),
{
    let joined_path = join_all(base, parts);
    out.push(joined_path);
}

/// The candidate directories of `launcher` before duplicates are removed: the
/// home candidates joined onto `home`, then, where the system drive is known
/// (such as `C:`), the drive candidates joined onto its root.
pub fn raw_candidate_dirs(launcher: OtherLauncher, home: &str, system_drive: Option<&str>) -> (res: Vec<String>)
    ensures
        raw_candidates_fit(
            launcher,
            home@,
            opt_str_view(system_drive),
            views(res@),
        ),
{
    proof {
        lemma_candidate_names_plain();
    }
    let ghost h = spec_home_candidates(launcher);
    let mut candidates: Vec<String> = Vec::new();
    match launcher {
        OtherLauncher::Prism => {
            let parts: [&str; 1] = ["PrismLauncher"];
            assert(str_views(parts@) =~= h[0]);
            push_joined(&mut candidates, home, &parts);
            let parts: [&str; 3] = [".local", "share", "PrismLauncher"];
            assert(str_views(parts@) =~= h[1]);
            push_joined(&mut candidates, home, &parts);
            let parts: [&str; 5] = [".var", "app", "org.prismlauncher.PrismLauncher", "data", "PrismLauncher"];
            assert(str_views(parts@) =~= h[2]);
            push_joined(&mut candidates, home, &parts);
        },
        OtherLauncher::MultiMC => {
            let parts: [&str; 1] = ["multimc"];
            assert(str_views(parts@) =~= h[0]);
            push_joined(&mut candidates, home, &parts);
            let parts: [&str; 1] = ["MultiMC"];
            assert(str_views(parts@) =~= h[1]);
            push_joined(&mut candidates, home, &parts);
            let parts: [&str; 3] = [".local", "share", "multimc"];
            assert(str_views(parts@) =~= h[2]);
            push_joined(&mut candidates, home, &parts);
        },
        OtherLauncher::CurseForge => {
            let parts: [&str; 2] = ["curseforge", "minecraft"];
            assert(str_views(parts@) =~= h[0]);
            push_joined(&mut candidates, home, &parts);
        },
        OtherLauncher::Modrinth => {
            let parts: [&str; 1] = ["ModrinthApp"];
            assert(str_views(parts@) =~= h[0]);
            push_joined(&mut candidates, home, &parts);
            let parts: [&str; 3] = [".local", "share", "ModrinthApp"];
            assert(str_views(parts@) =~= h[1]);
            push_joined(&mut candidates, home, &parts);
            let parts: [&str; 5] = [".var", "app", "com.modrinth.ModrinthApp", "data", "ModrinthApp"];
            assert(str_views(parts@) =~= h[2]);
            push_joined(&mut candidates, home, &parts);
        },
        OtherLauncher::ATLauncher => {
            let parts: [&str; 1] = ["ATLauncher"];
            assert(str_views(parts@) =~= h[0]);
            push_joined(&mut candidates, home, &parts);
            let parts: [&str; 1] = ["atlauncher"];
            assert(str_views(parts@) =~= h[1]);
            push_joined(&mut candidates, home, &parts);
            let parts: [&str; 3] = [".local", "share", "atlauncher"];
            assert(str_views(parts@) =~= h[2]);
            push_joined(&mut candidates, home, &parts);
        },
    }
    let ghost home_part = views(candidates@);
    assert(home_part.len() == h.len());
    if let Some(drive) = system_drive {
        let mut root: String = drive.to_owned();
        proof {
            reveal_strlit("\\");
        }
        root.append("\\");
        assert(root@ =~= spec_drive_root(drive@));
        let top: [&str; 1] = [drive_top_level(launcher)];
        assert(str_views(top@) =~= spec_drive_candidates(launcher)[0]);
        push_joined(&mut candidates, root.as_str(), &top);
        if let OtherLauncher::CurseForge = launcher {
            let parts: [&str; 2] = ["curseforge", "minecraft"];
            assert(str_views(parts@) =~= spec_drive_candidates(launcher)[1]);
            push_joined(&mut candidates, root.as_str(), &parts);
        }
    }
    candidates
}

/// The directory name that a portable install of `launcher` has at the root of a drive.
pub fn drive_top_level(launcher: OtherLauncher) -> (res: &'static str)
    ensures
        res@ == spec_drive_top_level(launcher),
        is_plain_component(res@),
{
    proof {
        lemma_candidate_names_plain();
    }
    match launcher {
        OtherLauncher::Prism => "PrismLauncher",
        OtherLauncher::MultiMC => "multimc",
        OtherLauncher::CurseForge => "curseforge",
        OtherLauncher::Modrinth => "ModrinthApp",
        OtherLauncher::ATLauncher => "ATLauncher",
    }
}

} // verus!

verus! {

/// Whether `s[j]` has the same lower-case form as some earlier entry.
pub open spec fn has_earlier_same_key(s: Seq<Seq<char>>, j: int) -> bool {
    exists|k: int| 0 <= k < j && #[trigger] lowercase(s[k]) == lowercase(s[j])
}

/// `s` without the entries whose lower-case form equals that of an earlier entry,
/// the first of each kept in its place.
pub open spec fn spec_dedup_case_insensitive(s: Seq<Seq<char>>) -> Seq<Seq<char>>
    decreases s.len(),
{
    if s.len() == 0 {
        Seq::empty()
    } else {
        let prev = spec_dedup_case_insensitive(s.drop_last());
        if has_earlier_same_key(s, s.len() - 1) {
            prev
        } else {
            prev.push(s.last())
        }
    }
}

/// Removes every path whose lower-case form equals that of an earlier path,
/// keeping the first of each in its place (Windows paths do not tell case apart).
pub fn dedup_case_insensitive(paths: Vec<String>) -> (res: Vec<String>)
    ensures
        views(res@) == spec_dedup_case_insensitive(views(paths@)),
{
    let ghost s = views(paths@);
    let mut seen: FxHashSet<String> = fx_set_new();
    let mut kept: Vec<String> = Vec::new();
    let mut i: usize = 0;
    while i < paths.len()
        invariant
            i <= paths@.len(),
            s == views(paths@),
            fx_set_keys(seen) == Set::new(|key: Seq<char>| exists|k: int| 0 <= k < i && #[trigger] lowercase(s[k]) == key),
            views(kept@) == spec_dedup_case_insensitive(s.take(i as int)),
        decreases paths@.len() - i,
    {
        let key = to_lowercase(paths[i].as_str());
        let ghost before = fx_set_keys(seen);
        let fresh = fx_set_insert(&mut seen, key);
        let ghost t = s.take(i + 1);
        assert(t.drop_last() =~= s.take(i as int));
        assert(t.last() == s[i as int]);
        assert(fresh == !has_earlier_same_key(t, i as int)) by {
            if has_earlier_same_key(t, i as int) {
                let k = choose|k: int| 0 <= k < i && #[trigger] lowercase(t[k]) == lowercase(t[i as int]);
                assert(t[k] == s[k]);
                assert(before.contains(lowercase(s[k])));
            }
            if !fresh {
                assert(before.contains(lowercase(s[i as int])));
                let k = choose|k: int| 0 <= k < i && #[trigger] lowercase(s[k]) == lowercase(s[i as int]);
                assert(t[k] == s[k]);
                assert(lowercase(t[k]) == lowercase(t[i as int]));
            }
        }
        if fresh {
            kept.push(paths[i].clone());
            assert(views(kept@) =~= spec_dedup_case_insensitive(s.take(i as int)).push(s[i as int]));
        }
        assert(fx_set_keys(seen) =~= Set::new(|key: Seq<char>| exists|k: int| 0 <= k < i + 1 && #[trigger] lowercase(s[k]) == key)) by {
            assert forall|key: Seq<char>| fx_set_keys(seen).contains(key) implies exists|k: int| 0 <= k < i + 1 && #[trigger] lowercase(s[k]) == key by {
                if key == lowercase(s[i as int]) {
                    assert(lowercase(s[i as int]) == key);
                }
            }
        }
        i = i + 1;
    }
    assert(s.take(paths@.len() as int) =~= s);
    kept
}

proof fn lemma_dedup_from_input(s: Seq<Seq<char>>)
    ensures
        forall|i: int|
            0 <= i < spec_dedup_case_insensitive(s).len() ==> s.contains(
                #[trigger] spec_dedup_case_insensitive(s)[i],
            ),
    decreases s.len(),
{
    if s.len() > 0 {
        let p = s.drop_last();
        lemma_dedup_from_input(p);
        let prev = spec_dedup_case_insensitive(p);
        let r = spec_dedup_case_insensitive(s);
        assert forall|i: int| 0 <= i < r.len() implies s.contains(#[trigger] r[i]) by {
            if i < prev.len() {
                assert(p.contains(prev[i]));
                let k = choose|k: int| 0 <= k < p.len() && p[k] == prev[i];
                assert(s[k] == r[i]);
            } else {
                assert(s[s.len() - 1] == r[i]);
            }
        }
    }
}

proof fn lemma_dedup_covers(s: Seq<Seq<char>>)
    ensures
        forall|k: int|
            0 <= k < s.len() ==> exists|i: int|
                0 <= i < spec_dedup_case_insensitive(s).len() && lowercase(
                    #[trigger] spec_dedup_case_insensitive(s)[i],
                ) == lowercase(#[trigger] s[k]),
    decreases s.len(),
{
    if s.len() > 0 {
        let p = s.drop_last();
        lemma_dedup_covers(p);
        let prev = spec_dedup_case_insensitive(p);
        let r = spec_dedup_case_insensitive(s);
        let last = s.len() - 1;
        assert forall|k: int| 0 <= k < s.len() implies exists|i: int|
            0 <= i < r.len() && lowercase(#[trigger] r[i]) == lowercase(#[trigger] s[k]) by {
            if k < last {
                assert(p[k] == s[k]);
                let i = choose|i: int| 0 <= i < prev.len() && lowercase(#[trigger] prev[i]) == lowercase(p[k]);
                assert(r[i] == prev[i]);
            } else if has_earlier_same_key(s, last) {
                let k2 = choose|k2: int| 0 <= k2 < last && #[trigger] lowercase(s[k2]) == lowercase(s[last]);
                assert(p[k2] == s[k2]);
                let i = choose|i: int| 0 <= i < prev.len() && lowercase(#[trigger] prev[i]) == lowercase(p[k2]);
                assert(r[i] == prev[i]);
            } else {
                assert(r[prev.len() as int] == s[k]);
            }
        }
    }
}

proof fn lemma_dedup_distinct(s: Seq<Seq<char>>)
    ensures
        forall|i: int, j: int|
            0 <= i < j < spec_dedup_case_insensitive(s).len() ==> lowercase(
                #[trigger] spec_dedup_case_insensitive(s)[i],
            ) != lowercase(#[trigger] spec_dedup_case_insensitive(s)[j]),
    decreases s.len(),
{
    if s.len() > 0 {
        let p = s.drop_last();
        lemma_dedup_distinct(p);
        lemma_dedup_from_input(p);
        let prev = spec_dedup_case_insensitive(p);
        let r = spec_dedup_case_insensitive(s);
        let last = s.len() - 1;
        if !has_earlier_same_key(s, last) {
            assert forall|i: int, j: int| 0 <= i < j < r.len() implies lowercase(#[trigger] r[i])
                != lowercase(#[trigger] r[j]) by {
                if j == prev.len() {
                    assert(p.contains(prev[i]));
                    let k = choose|k: int| 0 <= k < p.len() && p[k] == prev[i];
                    assert(s[k] == prev[i]);
                    if lowercase(r[i]) == lowercase(r[j]) {
                        assert(lowercase(s[k]) == lowercase(s[last]));
                        assert(has_earlier_same_key(s, last));
                    }
                } else {
                    assert(r[i] == prev[i] && r[j] == prev[j]);
                }
            }
        }
    }
}

proof fn lemma_dedup_first(s: Seq<Seq<char>>)
    ensures
        s.len() > 0 ==> spec_dedup_case_insensitive(s).len() > 0 && spec_dedup_case_insensitive(s)[0]
            == s[0],
    decreases s.len(),
{
    if s.len() > 0 {
        let p = s.drop_last();
        lemma_dedup_first(p);
        let r = spec_dedup_case_insensitive(s);
        let last = s.len() - 1;
        if p.len() == 0 {
            if !has_earlier_same_key(s, last) {
                assert(spec_dedup_case_insensitive(p).len() == 0);
                assert(r[0] == s[0]);
            } else {
                let k2 = choose|k2: int| 0 <= k2 < last && #[trigger] lowercase(s[k2]) == lowercase(s[last]);
                assert(false);
            }
        } else {
            assert(p[0] == s[0]);
        }
    }
}

/// What removing case-insensitive duplicates keeps: only entries of the input, no two
/// with the same lower-case form, one for each lower-case form of the input, and the
/// first entry of the input first.
pub proof fn lemma_dedup_case_insensitive(s: Seq<Seq<char>>)
    ensures
        forall|i: int|
            0 <= i < spec_dedup_case_insensitive(s).len() ==> s.contains(
                #[trigger] spec_dedup_case_insensitive(s)[i],
            ),
        forall|i: int, j: int|
            0 <= i < j < spec_dedup_case_insensitive(s).len() ==> lowercase(
                #[trigger] spec_dedup_case_insensitive(s)[i],
            ) != lowercase(#[trigger] spec_dedup_case_insensitive(s)[j]),
        forall|k: int|
            0 <= k < s.len() ==> exists|i: int|
                0 <= i < spec_dedup_case_insensitive(s).len() && lowercase(
                    #[trigger] spec_dedup_case_insensitive(s)[i],
                ) == lowercase(#[trigger] s[k]),
        s.len() > 0 ==> spec_dedup_case_insensitive(s).len() > 0 && spec_dedup_case_insensitive(s)[0]
            == s[0],
{
    lemma_dedup_from_input(s);
    lemma_dedup_distinct(s);
    lemma_dedup_covers(s);
    lemma_dedup_first(s);
}

/// The candidate directories of `launcher`: the home candidates joined onto `home`
/// and, where the system drive is known (such as `C:`), the drive candidates joined
/// onto its root, with case-insensitive duplicates removed (the first kept). The
/// default location of the launcher is not among them: it is always checked on its own.
pub fn candidate_launcher_dirs(launcher: OtherLauncher, home: &str, system_drive: Option<&str>) -> (res: Vec<String>)
    ensures
        exists|raw: Seq<Seq<char>>|
            raw_candidates_fit(
                launcher,
                home@,
                opt_str_view(system_drive),
                raw,
            ) && #[trigger] spec_dedup_case_insensitive(raw) == views(res@),
        res@.len() > 0,
        forall|i: int, j: int|
            0 <= i < j < res@.len() ==> lowercase(#[trigger] res@[i]@) != lowercase(#[trigger] res@[j]@),
{
    let raw = raw_candidate_dirs(launcher, home, system_drive);
    let ghost raw_views = views(raw@);
    let res = dedup_case_insensitive(raw);
    proof {
        lemma_dedup_case_insensitive(raw_views);
        assert(raw_views.len() > 0);
        assert forall|i: int, j: int| 0 <= i < j < res@.len() implies lowercase(#[trigger] res@[i]@)
            != lowercase(#[trigger] res@[j]@) by {
            assert(views(res@)[i] == res@[i]@);
            assert(views(res@)[j] == res@[j]@);
        }
    }
    res
}

} // verus!
