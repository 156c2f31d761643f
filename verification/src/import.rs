use crate::catalog::{
    contains_string, embedded_config_presets, lemma_next_available_is_least_free,
    lemma_same_multiset_distinct, next_available_config_path, path_file_name,
    path_join, spec_embedded_presets, spec_next_available_config_path, spec_path_file_name,
    spec_path_join,
};
use crate::order::{lemma_sort_by_key_permutes, sort_by_key, spec_sort_by_key, views, SortKey};
use vstd::prelude::*;

verus! {

/// A TOML file offered for import: its file name, the storage path it
/// would take, and its text.
pub struct ImportCandidate {
    pub source_name: String,
    pub destination_path: String,
    pub contents: String,
}

impl View for ImportCandidate {
    type V = (Seq<char>, Seq<char>, Seq<char>);

    open spec fn view(&self) -> Self::V {
        (self.source_name@, self.destination_path@, self.contents@)
    }
}

impl SortKey for ImportCandidate {
    open spec fn sort_key(&self) -> Seq<char> {
        self.source_name@
    }

    fn key(&self) -> (r: &str) {
        self.source_name.as_str()
    }
}

/// The storage path of a config file: `configs/<file name>`.
pub open spec fn spec_storage_path(file_name: Seq<char>) -> Seq<char> {
    "configs/"@ + file_name
}

/// `configs/<file name>`.
pub fn storage_path(file_name: &str) -> (r: String)
    ensures
        r@ == spec_storage_path(file_name@),
{
    let mut path = "configs/".to_owned();
    path.append(file_name);
    path
}

/// A candidate for the file `source_name` with the given text, bound for
/// `configs/<source_name>`.
pub fn import_candidate(source_name: String, contents: String) -> (r: ImportCandidate)
    ensures
        r@ == (source_name@, spec_storage_path(source_name@), contents@),
{
    let destination_path = storage_path(source_name.as_str());
    ImportCandidate { source_name, destination_path, contents }
}

/// The stored configs read from disk, as (file name, text) pairs in the
/// order read, keyed by storage path; a later file of the same name
/// replaces an earlier one.
pub open spec fn disk_catalog(entries: Seq<(Seq<char>, Seq<char>)>) -> Map<Seq<char>, Seq<char>>
    decreases entries.len(),
{
    if entries.len() == 0 {
        Map::empty()
    } else {
        disk_catalog(entries.drop_last()).insert(
            spec_storage_path(entries.last().0),
            entries.last().1,
        )
    }
}

/// `m` with each (path, text) preset added where its path is absent.
pub open spec fn fill_presets(
    m: Map<Seq<char>, Seq<char>>,
    presets: Seq<(Seq<char>, Seq<char>)>,
) -> Map<Seq<char>, Seq<char>>
    decreases presets.len(),
{
    if presets.len() == 0 {
        m
    } else {
        let before = fill_presets(m, presets.drop_last());
        let p = presets.last();
        if before.contains_key(p.0) {
            before
        } else {
            before.insert(p.0, p.1)
        }
    }
}

/// The catalog of configs known to the application: the stored files,
/// then every compiled-in preset whose path no stored file takes.
pub open spec fn spec_config_catalog(entries: Seq<(Seq<char>, Seq<char>)>) -> Map<
    Seq<char>,
    Seq<char>,
> {
    fill_presets(disk_catalog(entries), spec_embedded_presets())
}

/// `paths` and `contents` list the map `m`, each path once, with its text
/// at the same position.
pub open spec fn lists_map(
    paths: Seq<Seq<char>>,
    contents: Seq<Seq<char>>,
    m: Map<Seq<char>, Seq<char>>,
) -> bool {
    &&& paths.len() == contents.len()
    &&& paths.no_duplicates()
    &&& forall|k: Seq<char>| m.contains_key(k) <==> paths.contains(k)
    &&& forall|i: int| 0 <= i < paths.len() ==> m[#[trigger] paths[i]] == contents[i]
}

/// The configs already stored, by storage path, with their texts at the
/// same positions.
pub struct ConfigCatalog {
    pub paths: Vec<String>,
    pub contents: Vec<String>,
}

impl ConfigCatalog {
    /// The storage paths, as text.
    pub open spec fn path_views(&self) -> Seq<Seq<char>> {
        views(self.paths@)
    }

    /// The texts, as text.
    pub open spec fn content_views(&self) -> Seq<Seq<char>> {
        views(self.contents@)
    }
}

fn position_of_string(haystack: &Vec<String>, needle: &String) -> (r: Option<usize>)
    ensures
        match r {
            Some(j) => j < haystack@.len() && haystack@[j as int]@ == needle@,
            None => !views(haystack@).contains(needle@),
        },
{
    let mut i: usize = 0;
    while i < haystack.len()
        invariant
            i <= haystack@.len(),
            forall|j: int| 0 <= j < i ==> haystack@[j]@ != needle@,
        decreases haystack@.len() - i,
    {
        if haystack[i] == *needle {
            return Some(i);
        }
        i = i + 1;
    }
    assert forall|j: int| 0 <= j < views(haystack@).len() implies views(haystack@)[j]
        != needle@ by {
        assert(views(haystack@)[j] == haystack@[j]@);
    }
    None
}

proof fn lemma_lists_map_insert(
    paths: Seq<Seq<char>>,
    contents: Seq<Seq<char>>,
    m: Map<Seq<char>, Seq<char>>,
    k: Seq<char>,
    v: Seq<char>,
)
    requires
        lists_map(paths, contents, m),
        !paths.contains(k),
    ensures
        lists_map(paths.push(k), contents.push(v), m.insert(k, v)),
{
    let p2 = paths.push(k);
    assert forall|i: int, j: int| 0 <= i < j < p2.len() implies p2[i] != p2[j] by {
        if j == paths.len() {
            assert(paths.contains(paths[i]));
        }
    }
    assert forall|x: Seq<char>| m.insert(k, v).contains_key(x) <==> p2.contains(x) by {
        if paths.contains(x) {
            let i = choose|i: int| 0 <= i < paths.len() && paths[i] == x;
            assert(p2[i] == x);
        }
        if p2.contains(x) && x != k {
            let i = choose|i: int| 0 <= i < p2.len() && p2[i] == x;
            assert(paths[i] == x);
        }
        if x == k {
            assert(p2[paths.len() as int] == k);
        }
    }
    assert forall|i: int| 0 <= i < p2.len() implies m.insert(k, v)[#[trigger] p2[i]]
        == contents.push(v)[i] by {
        if i < paths.len() {
            assert(paths.contains(paths[i]));
        }
    }
}

proof fn lemma_lists_map_replace(
    paths: Seq<Seq<char>>,
    contents: Seq<Seq<char>>,
    m: Map<Seq<char>, Seq<char>>,
    j: int,
    v: Seq<char>,
)
    requires
        lists_map(paths, contents, m),
        0 <= j < paths.len(),
    ensures
        lists_map(paths, contents.update(j, v), m.insert(paths[j], v)),
{
    let k = paths[j];
    assert(paths.contains(k));
    assert forall|i: int| 0 <= i < paths.len() implies m.insert(k, v)[#[trigger] paths[i]]
        == contents.update(j, v)[i] by {
        if i != j {
            assert(paths[i] != paths[j]);
        }
    }
}

/// The catalog of configs known to the application, from the stored TOML
/// files read from the storage directory as (file name, text) pairs: each
/// stored file under `configs/<file name>`, then each compiled-in preset
/// whose path no stored file takes.
pub fn existing_config_catalog(entries: &Vec<(String, String)>) -> (r: ConfigCatalog)
    ensures
        lists_map(r.path_views(), r.content_views(), spec_config_catalog(entries@.map_values(|e: (String, String)| e@))),
{
    let ghost es = entries@.map_values(|e: (String, String)| e@);
    let mut paths: Vec<String> = Vec::new();
    let mut contents: Vec<String> = Vec::new();
    assert(es.take(0) =~= Seq::<(Seq<char>, Seq<char>)>::empty());
    let mut i: usize = 0;
    while i < entries.len()
        invariant
            i <= entries@.len(),
            es == entries@.map_values(|e: (String, String)| e@),
            lists_map(views(paths@), views(contents@), disk_catalog(es.take(i as int))),
        decreases entries@.len() - i,
    {
        let key = storage_path(entries[i].0.as_str());
        let value = entries[i].1.clone();
        proof {
            assert(es.take(i + 1).drop_last() =~= es.take(i as int));
            assert(es.take(i + 1).last() == entries@[i as int]@);
        }
        match position_of_string(&paths, &key) {
            Some(j) => {
                proof {
                    assert(views(paths@)[j as int] == key@);
                    lemma_lists_map_replace(
                        views(paths@),
                        views(contents@),
                        disk_catalog(es.take(i as int)),
                        j as int,
                        value@,
                    );
                }
                let ghost before = contents@;
                contents.set(j, value);
                assert(views(contents@) =~= views(before).update(j as int, value@));
            },
            None => {
                proof {
                    lemma_lists_map_insert(
                        views(paths@),
                        views(contents@),
                        disk_catalog(es.take(i as int)),
                        key@,
                        value@,
                    );
                }
                let ghost before_p = paths@;
                let ghost before_c = contents@;
                paths.push(key);
                contents.push(value);
                assert(views(paths@) =~= views(before_p).push(key@));
                assert(views(contents@) =~= views(before_c).push(value@));
            },
        }
        i = i + 1;
    }
    assert(es.take(i as int) =~= es);
    let presets = embedded_config_presets();
    let ghost all = spec_embedded_presets();
    let ghost disk = disk_catalog(es);
    assert(all.take(0) =~= Seq::<(Seq<char>, Seq<char>)>::empty());
    let mut p: usize = 0;
    while p < presets.len()
        invariant
            p <= presets@.len(),
            presets@.len() == all.len(),
            all == spec_embedded_presets(),
            forall|q: int|
                0 <= q < presets@.len() ==> (#[trigger] presets@[q].path@, presets@[q].contents@)
                    == all[q],
            lists_map(views(paths@), views(contents@), fill_presets(disk, all.take(p as int))),
        decreases presets@.len() - p,
    {
        let key = presets[p].path.to_owned();
        let value = presets[p].contents.to_owned();
        proof {
            assert(all.take(p + 1).drop_last() =~= all.take(p as int));
            assert(all.take(p + 1).last() == all[p as int]);
            assert(all[p as int] == (key@, value@));
        }
        if !contains_string(paths.as_slice(), &key) {
            proof {
                lemma_lists_map_insert(
                    views(paths@),
                    views(contents@),
                    fill_presets(disk, all.take(p as int)),
                    key@,
                    value@,
                );
            }
            let ghost before_p = paths@;
            let ghost before_c = contents@;
            paths.push(key);
            contents.push(value);
            assert(views(paths@) =~= views(before_p).push(key@));
            assert(views(contents@) =~= views(before_c).push(value@));
        }
        p = p + 1;
    }
    assert(all.take(p as int) =~= all);
    ConfigCatalog { paths, contents }
}

/// A candidate whose storage path is taken: its file name, the path it
/// wanted, and the free path suggested instead.
pub struct ConfigImportConflict {
    pub source_name: String,
    pub existing_path: String,
    pub suggested_path: String,
}

impl View for ConfigImportConflict {
    type V = (Seq<char>, Seq<char>, Seq<char>);

    open spec fn view(&self) -> Self::V {
        (self.source_name@, self.existing_path@, self.suggested_path@)
    }
}

/// What importing a directory would do, candidate by candidate in file
/// name order.
pub struct ConfigImportPreview {
    pub source_dir: String,
    pub discovered_files: Vec<String>,
    pub skipped_duplicates: Vec<String>,
    pub conflicts: Vec<ConfigImportConflict>,
    pub importable_paths: Vec<String>,
}

impl View for ConfigImportPreview {
    type V = (
        Seq<char>,
        Seq<Seq<char>>,
        Seq<Seq<char>>,
        Seq<(Seq<char>, Seq<char>, Seq<char>)>,
        Seq<Seq<char>>,
    );

    open spec fn view(&self) -> Self::V {
        (
            self.source_dir@,
            views(self.discovered_files@),
            views(self.skipped_duplicates@),
            views(self.conflicts@),
            views(self.importable_paths@),
        )
    }
}

/// What an import did.
pub struct ConfigImportResult {
    pub imported_paths: Vec<String>,
    pub skipped_duplicates: Vec<String>,
    pub skipped_conflicts: Vec<String>,
    pub renamed_imports: Vec<(String, String)>,
}

impl View for ConfigImportResult {
    type V = (Seq<Seq<char>>, Seq<Seq<char>>, Seq<Seq<char>>, Seq<(Seq<char>, Seq<char>)>);

    open spec fn view(&self) -> Self::V {
        (
            views(self.imported_paths@),
            views(self.skipped_duplicates@),
            views(self.skipped_conflicts@),
            views(self.renamed_imports@),
        )
    }
}

/// An import to carry out: its result, and for each imported path, at
/// the same position, the text to store there.
pub struct ConfigImportPlan {
    pub result: ConfigImportResult,
    pub written_contents: Vec<String>,
}

/// A preview in progress: the paths and texts known so far, then the
/// discovered names, skipped names, conflicts and importable paths.
pub type PreviewState = (
    Seq<Seq<char>>,
    Seq<Seq<char>>,
    Seq<Seq<char>>,
    Seq<Seq<char>>,
    Seq<(Seq<char>, Seq<char>, Seq<char>)>,
    Seq<Seq<char>>,
);

/// One candidate taken into a preview. A candidate whose text is already
/// known is a duplicate; one whose path is taken is a conflict and
/// reserves the suggested free path; any other is importable and reserves
/// its own path.
pub open spec fn preview_step(st: PreviewState, c: (Seq<char>, Seq<char>, Seq<char>)) -> PreviewState {
    let (paths, texts, discovered, skipped, conflicts, importable) = st;
    let (name, destination, text) = c;
    if texts.contains(text) {
        (paths, texts, discovered.push(name), skipped.push(name), conflicts, importable)
    } else if paths.contains(destination) {
        let suggested = spec_next_available_config_path(destination, paths);
        (
            paths.push(suggested),
            texts.push(text),
            discovered.push(name),
            skipped,
            conflicts.push((name, destination, suggested)),
            importable,
        )
    } else {
        (
            paths.push(destination),
            texts.push(text),
            discovered.push(name),
            skipped,
            conflicts,
            importable.push(destination),
        )
    }
}

/// A preview of `cands`, in order, over the known paths and texts.
pub open spec fn preview_fold(
    paths: Seq<Seq<char>>,
    texts: Seq<Seq<char>>,
    cands: Seq<(Seq<char>, Seq<char>, Seq<char>)>,
) -> PreviewState
    decreases cands.len(),
{
    if cands.len() == 0 {
        (paths, texts, Seq::empty(), Seq::empty(), Seq::empty(), Seq::empty())
    } else {
        preview_step(preview_fold(paths, texts, cands.drop_last()), cands.last())
    }
}

/// The preview of importing `candidates` from `source_dir` into a catalog
/// with the given paths and texts: candidates in file name order.
pub open spec fn spec_import_preview(
    source_dir: Seq<char>,
    paths: Seq<Seq<char>>,
    texts: Seq<Seq<char>>,
    candidates: Seq<ImportCandidate>,
) -> (
    Seq<char>,
    Seq<Seq<char>>,
    Seq<Seq<char>>,
    Seq<(Seq<char>, Seq<char>, Seq<char>)>,
    Seq<Seq<char>>,
) {
    let st = preview_fold(paths, texts, views(spec_sort_by_key(candidates)));
    (source_dir, st.2, st.3, st.4, st.5)
}

/// The suggested paths of conflicts.
pub open spec fn suggested_paths(conflicts: Seq<(Seq<char>, Seq<char>, Seq<char>)>) -> Seq<
    Seq<char>,
> {
    conflicts.map_values(|c: (Seq<char>, Seq<char>, Seq<char>)| c.2)
}

/// Paths handed out on top of `base`: none twice, none already in `base`.
pub open spec fn all_new(base: Seq<Seq<char>>, handed_out: Seq<Seq<char>>) -> bool {
    &&& handed_out.no_duplicates()
    &&& forall|p: Seq<char>| handed_out.contains(p) ==> !base.contains(p)
}

proof fn lemma_all_new_push(base: Seq<Seq<char>>, handed_out: Seq<Seq<char>>, p: Seq<char>)
    requires
        all_new(base, handed_out),
        !handed_out.contains(p),
        !base.contains(p),
    ensures
        all_new(base, handed_out.push(p)),
{
    let h2 = handed_out.push(p);
    assert forall|i: int, j: int| 0 <= i < j < h2.len() implies h2[i] != h2[j] by {
        if j == handed_out.len() {
            assert(handed_out.contains(handed_out[i]));
        }
    }
    assert forall|x: Seq<char>| h2.contains(x) implies !base.contains(x) by {
        if x != p {
            let i = choose|i: int| 0 <= i < h2.len() && h2[i] == x;
            assert(handed_out[i] == x);
        }
    }
}

proof fn lemma_all_new_insert(
    base: Seq<Seq<char>>,
    a: Seq<Seq<char>>,
    b: Seq<Seq<char>>,
    p: Seq<char>,
)
    requires
        all_new(base, a + b),
        !(a + b).contains(p),
        !base.contains(p),
    ensures
        all_new(base, a.push(p) + b),
{
    let u = a + b;
    let t = a.push(p) + b;
    assert forall|i: int, j: int| 0 <= i < j < t.len() implies t[i] != t[j] by {
        if j < a.len() {
            assert(t[i] == u[i] && t[j] == u[j]);
        } else if i < a.len() && j == a.len() {
            assert(t[i] == u[i]);
            assert(u.contains(u[i]));
        } else if i < a.len() {
            assert(t[i] == u[i] && t[j] == u[j - 1]);
        } else if i == a.len() {
            assert(t[j] == u[j - 1]);
            assert(u.contains(u[j - 1]));
        } else {
            assert(t[i] == u[i - 1] && t[j] == u[j - 1]);
        }
    }
    assert forall|x: Seq<char>| t.contains(x) implies !base.contains(x) by {
        let k = choose|k: int| 0 <= k < t.len() && t[k] == x;
        if k < a.len() {
            assert(u[k] == x);
            assert(u.contains(x));
        } else if k > a.len() {
            assert(u[k - 1] == x);
            assert(u.contains(x));
        }
    }
}

proof fn lemma_push_contains<A>(s: Seq<A>, x: A, p: A)
    ensures
        s.push(x).contains(p) <==> (s.contains(p) || p == x),
{
    if s.contains(p) {
        let j = choose|j: int| 0 <= j < s.len() && s[j] == p;
        assert(s.push(x)[j] == p);
    }
    if s.push(x).contains(p) && p != x {
        let j = choose|j: int| 0 <= j < s.push(x).len() && s.push(x)[j] == p;
        assert(s[j] == p);
    }
    assert(s.push(x)[s.len() as int] == x);
}

/// Previews importing the TOML files `candidates` of `source_dir` into the
/// catalog: candidates are taken in file name order; one whose text the
/// catalog (or an earlier candidate) already holds is a skipped duplicate;
/// one whose storage path is taken is a conflict with a suggested free
/// path; any other is importable at its own path. Every path handed out is
/// new to the catalog and handed out once.
pub fn preview_import_config_directory(
    source_dir: String,
    catalog: &ConfigCatalog,
    candidates: Vec<ImportCandidate>,
) -> (r: ConfigImportPreview)
    ensures
        r@ == spec_import_preview(
            source_dir@,
            catalog.path_views(),
            catalog.content_views(),
            candidates@,
        ),
        r.discovered_files@.len() == candidates@.len(),
        r.skipped_duplicates@.len() + r.conflicts@.len() + r.importable_paths@.len()
            == candidates@.len(),
        all_new(catalog.path_views(), views(r.importable_paths@) + suggested_paths(views(r.conflicts@))),
{
    let ghost given = candidates@;
    let sorted = sort_by_key(candidates);
    let ghost cs = views(sorted@);
    proof {
        views(sorted@).to_multiset_ensures();
        views(given).to_multiset_ensures();
    }
    let ghost cp = catalog.path_views();
    let ghost cc = catalog.content_views();
    let mut known_paths: Vec<String> = catalog.paths.clone();
    let mut known_contents: Vec<String> = catalog.contents.clone();
    let mut discovered: Vec<String> = Vec::new();
    let mut skipped: Vec<String> = Vec::new();
    let mut conflicts: Vec<ConfigImportConflict> = Vec::new();
    let mut importable: Vec<String> = Vec::new();
    proof {
        assert(views(known_paths@) =~= cp);
        assert(views(known_contents@) =~= cc);
        assert(cs.take(0) =~= Seq::<(Seq<char>, Seq<char>, Seq<char>)>::empty());
        assert(views(discovered@) =~= Seq::<Seq<char>>::empty());
        assert(views(conflicts@) =~= Seq::<(Seq<char>, Seq<char>, Seq<char>)>::empty());
        assert(views(importable@) =~= Seq::<Seq<char>>::empty());
        assert(suggested_paths(views(conflicts@)) =~= Seq::<Seq<char>>::empty());
    }
    let mut i: usize = 0;
    while i < sorted.len()
        invariant
            i <= sorted@.len(),
            cs == views(sorted@),
            (
                views(known_paths@),
                views(known_contents@),
                views(discovered@),
                views(skipped@),
                views(conflicts@),
                views(importable@),
            ) == preview_fold(cp, cc, cs.take(i as int)),
            discovered@.len() == i,
            skipped@.len() + conflicts@.len() + importable@.len() == i,
            forall|p: Seq<char>|
                #[trigger] views(known_paths@).contains(p) <==> (cp.contains(p) || views(
                    importable@,
                ).contains(p) || suggested_paths(views(conflicts@)).contains(p)),
            all_new(cp, views(importable@) + suggested_paths(views(conflicts@))),
        decreases sorted@.len() - i,
    {
        let c = &sorted[i];
        let ghost cv = c@;
        let ghost kp = views(known_paths@);
        let ghost imp = views(importable@);
        let ghost sug = suggested_paths(views(conflicts@));
        proof {
            assert(cs.take(i + 1).drop_last() =~= cs.take(i as int));
            assert(cs.take(i + 1).last() == cv);
        }
        let ghost d0 = discovered@;
        discovered.push(c.source_name.clone());
        assert(views(discovered@) =~= views(d0).push(cv.0));
        if contains_string(known_contents.as_slice(), &c.contents) {
            let ghost s0 = skipped@;
            skipped.push(c.source_name.clone());
            assert(views(skipped@) =~= views(s0).push(cv.0));
        } else if contains_string(known_paths.as_slice(), &c.destination_path) {
            let suggested = next_available_config_path(
                c.destination_path.as_str(),
                known_paths.as_slice(),
            );
            let conflict = ConfigImportConflict {
                source_name: c.source_name.clone(),
                existing_path: c.destination_path.clone(),
                suggested_path: suggested.clone(),
            };
            let ghost f0 = conflicts@;
            let ghost p0 = known_paths@;
            let ghost t0 = known_contents@;
            conflicts.push(conflict);
            known_paths.push(suggested);
            known_contents.push(c.contents.clone());
            proof {
                assert(views(conflicts@) =~= views(f0).push((cv.0, cv.1, spec_next_available_config_path(cv.1, kp))));
                assert(views(known_paths@) =~= views(p0).push(spec_next_available_config_path(cv.1, kp)));
                assert(views(known_contents@) =~= views(t0).push(cv.2));
                let sp = spec_next_available_config_path(cv.1, kp);
                assert(suggested_paths(views(conflicts@)) =~= sug.push(sp));
                assert(!kp.contains(sp));
                assert(kp.contains(sp) <==> (cp.contains(sp) || imp.contains(sp) || sug.contains(
                    sp,
                )));
                assert(!imp.contains(sp) && !sug.contains(sp) && !cp.contains(sp));
                assert(!(imp + sug).contains(sp)) by {
                    if (imp + sug).contains(sp) {
                        let j = choose|j: int| 0 <= j < (imp + sug).len() && (imp + sug)[j] == sp;
                        if j < imp.len() {
                            assert(imp[j] == sp);
                        } else {
                            assert(sug[j - imp.len()] == sp);
                        }
                    }
                }
                lemma_all_new_push(cp, imp + sug, sp);
                assert((imp + sug).push(sp) =~= imp + sug.push(sp));
                assert forall|p: Seq<char>|
                    #[trigger] views(known_paths@).contains(p) <==> (cp.contains(p) || views(
                        importable@,
                    ).contains(p) || suggested_paths(views(conflicts@)).contains(p)) by {
                    lemma_push_contains(kp, sp, p);
                    lemma_push_contains(sug, sp, p);
                    assert(kp.contains(p) <==> (cp.contains(p) || imp.contains(p) || sug.contains(
                        p,
                    )));
                }
            }
        } else {
            let ghost m0 = importable@;
            let ghost p0 = known_paths@;
            let ghost t0 = known_contents@;
            importable.push(c.destination_path.clone());
            known_paths.push(c.destination_path.clone());
            known_contents.push(c.contents.clone());
            proof {
                assert(views(importable@) =~= views(m0).push(cv.1));
                assert(views(known_paths@) =~= views(p0).push(cv.1));
                assert(views(known_contents@) =~= views(t0).push(cv.2));
                let dp = cv.1;
                assert(!kp.contains(dp));
                assert(kp.contains(dp) <==> (cp.contains(dp) || imp.contains(dp) || sug.contains(
                    dp,
                )));
                assert(!imp.contains(dp) && !sug.contains(dp) && !cp.contains(dp));
                assert(!(imp + sug).contains(dp)) by {
                    if (imp + sug).contains(dp) {
                        let j = choose|j: int| 0 <= j < (imp + sug).len() && (imp + sug)[j] == dp;
                        if j < imp.len() {
                            assert(imp[j] == dp);
                        } else {
                            assert(sug[j - imp.len()] == dp);
                        }
                    }
                }
                lemma_all_new_insert(cp, imp, sug, dp);
                assert forall|p: Seq<char>|
                    #[trigger] views(known_paths@).contains(p) <==> (cp.contains(p) || views(
                        importable@,
                    ).contains(p) || suggested_paths(views(conflicts@)).contains(p)) by {
                    lemma_push_contains(kp, dp, p);
                    lemma_push_contains(imp, dp, p);
                    assert(kp.contains(p) <==> (cp.contains(p) || imp.contains(p) || sug.contains(
                        p,
                    )));
                }
            }
        }
        i = i + 1;
    }
    assert(cs.take(i as int) =~= cs);
    ConfigImportPreview {
        source_dir,
        discovered_files: discovered,
        skipped_duplicates: skipped,
        conflicts,
        importable_paths: importable,
    }
}

/// An import in progress: the paths and texts known so far, then the
/// imported paths, skipped duplicates, skipped conflicts, renames (from,
/// to), and the texts written at the imported paths.
pub type ImportState = (
    Seq<Seq<char>>,
    Seq<Seq<char>>,
    Seq<Seq<char>>,
    Seq<Seq<char>>,
    Seq<Seq<char>>,
    Seq<(Seq<char>, Seq<char>)>,
    Seq<Seq<char>>,
);

/// One candidate taken into an import. A candidate whose text is already
/// known is skipped as a duplicate; one whose path is taken is skipped as a
/// conflict, or, with `rename`, imported at the suggested free path; any
/// other is imported at its own path.
pub open spec fn import_step(
    st: ImportState,
    c: (Seq<char>, Seq<char>, Seq<char>),
    rename: bool,
) -> ImportState {
    let (paths, texts, imported, duplicates, conflicts, renamed, written) = st;
    let (name, destination, text) = c;
    if texts.contains(text) {
        (paths, texts, imported, duplicates.push(name), conflicts, renamed, written)
    } else if paths.contains(destination) {
        if !rename {
            (paths, texts, imported, duplicates, conflicts.push(name), renamed, written)
        } else {
            let target = spec_next_available_config_path(destination, paths);
            (
                paths.push(target),
                texts.push(text),
                imported.push(target),
                duplicates,
                conflicts,
                renamed.push((destination, target)),
                written.push(text),
            )
        }
    } else {
        (
            paths.push(destination),
            texts.push(text),
            imported.push(destination),
            duplicates,
            conflicts,
            renamed,
            written.push(text),
        )
    }
}

/// An import of `cands`, in order, over the known paths and texts.
pub open spec fn import_fold(
    paths: Seq<Seq<char>>,
    texts: Seq<Seq<char>>,
    cands: Seq<(Seq<char>, Seq<char>, Seq<char>)>,
    rename: bool,
) -> ImportState
    decreases cands.len(),
{
    if cands.len() == 0 {
        (paths, texts, Seq::empty(), Seq::empty(), Seq::empty(), Seq::empty(), Seq::empty())
    } else {
        import_step(import_fold(paths, texts, cands.drop_last(), rename), cands.last(), rename)
    }
}

/// The result of importing `candidates` into a catalog with the given
/// paths and texts (candidates in file name order), and the texts written
/// at the imported paths.
pub open spec fn spec_import_plan(
    paths: Seq<Seq<char>>,
    texts: Seq<Seq<char>>,
    candidates: Seq<ImportCandidate>,
    rename: bool,
) -> (
    (Seq<Seq<char>>, Seq<Seq<char>>, Seq<Seq<char>>, Seq<(Seq<char>, Seq<char>)>),
    Seq<Seq<char>>,
) {
    let st = import_fold(paths, texts, views(spec_sort_by_key(candidates)), rename);
    ((st.2, st.3, st.4, st.5), st.6)
}

/// Plans importing the TOML files `candidates` into the catalog:
/// candidates are taken in file name order; one whose text the catalog (or
/// an earlier import) already holds is skipped as a duplicate; one whose
/// storage path is taken is skipped as a conflict, or, when
/// `import_conflicts_with_rename`, imported at the next free path; any
/// other is imported at its own path. Every imported path is new to the
/// catalog and imported once; the text to write at each comes with it.
pub fn import_config_directory(
    catalog: &ConfigCatalog,
    candidates: Vec<ImportCandidate>,
    import_conflicts_with_rename: bool,
) -> (r: ConfigImportPlan)
    ensures
        (r.result@, views(r.written_contents@)) == spec_import_plan(
            catalog.path_views(),
            catalog.content_views(),
            candidates@,
            import_conflicts_with_rename,
        ),
        r.written_contents@.len() == r.result.imported_paths@.len(),
        r.result.imported_paths@.len() + r.result.skipped_duplicates@.len()
            + r.result.skipped_conflicts@.len() == candidates@.len(),
        all_new(catalog.path_views(), views(r.result.imported_paths@)),
{
    let ghost given = candidates@;
    let sorted = sort_by_key(candidates);
    let ghost cs = views(sorted@);
    proof {
        views(sorted@).to_multiset_ensures();
        views(given).to_multiset_ensures();
    }
    let ghost cp = catalog.path_views();
    let ghost cc = catalog.content_views();
    let mut known_paths: Vec<String> = catalog.paths.clone();
    let mut known_contents: Vec<String> = catalog.contents.clone();
    let mut imported: Vec<String> = Vec::new();
    let mut duplicates: Vec<String> = Vec::new();
    let mut conflicts: Vec<String> = Vec::new();
    let mut renamed: Vec<(String, String)> = Vec::new();
    let mut written: Vec<String> = Vec::new();
    proof {
        assert(views(known_paths@) =~= cp);
        assert(views(known_contents@) =~= cc);
        assert(cs.take(0) =~= Seq::<(Seq<char>, Seq<char>, Seq<char>)>::empty());
        assert(views(imported@) =~= Seq::<Seq<char>>::empty());
        assert(views(renamed@) =~= Seq::<(Seq<char>, Seq<char>)>::empty());
    }
    let mut i: usize = 0;
    while i < sorted.len()
        invariant
            i <= sorted@.len(),
            cs == views(sorted@),
            (
                views(known_paths@),
                views(known_contents@),
                views(imported@),
                views(duplicates@),
                views(conflicts@),
                views(renamed@),
                views(written@),
            ) == import_fold(cp, cc, cs.take(i as int), import_conflicts_with_rename),
            written@.len() == imported@.len(),
            imported@.len() + duplicates@.len() + conflicts@.len() == i,
            forall|p: Seq<char>|
                #[trigger] views(known_paths@).contains(p) <==> (cp.contains(p) || views(
                    imported@,
                ).contains(p)),
            all_new(cp, views(imported@)),
        decreases sorted@.len() - i,
    {
        let c = &sorted[i];
        let ghost cv = c@;
        let ghost kp = views(known_paths@);
        let ghost imp = views(imported@);
        proof {
            assert(cs.take(i + 1).drop_last() =~= cs.take(i as int));
            assert(cs.take(i + 1).last() == cv);
        }
        if contains_string(known_contents.as_slice(), &c.contents) {
            let ghost d0 = duplicates@;
            duplicates.push(c.source_name.clone());
            assert(views(duplicates@) =~= views(d0).push(cv.0));
        } else {
            let taken = contains_string(known_paths.as_slice(), &c.destination_path);
            if taken && !import_conflicts_with_rename {
                let ghost f0 = conflicts@;
                conflicts.push(c.source_name.clone());
                assert(views(conflicts@) =~= views(f0).push(cv.0));
            } else {
                let target = if taken {
                    let renamed_path = next_available_config_path(
                        c.destination_path.as_str(),
                        known_paths.as_slice(),
                    );
                    let ghost n0 = renamed@;
                    renamed.push((c.destination_path.clone(), renamed_path.clone()));
                    assert(views(renamed@) =~= views(n0).push((cv.1, renamed_path@)));
                    renamed_path
                } else {
                    c.destination_path.clone()
                };
                let ghost tp = target@;
                let ghost m0 = imported@;
                let ghost p0 = known_paths@;
                let ghost t0 = known_contents@;
                let ghost w0 = written@;
                known_paths.push(target.clone());
                known_contents.push(c.contents.clone());
                imported.push(target);
                written.push(c.contents.clone());
                proof {
                    assert(views(imported@) =~= views(m0).push(tp));
                    assert(views(known_paths@) =~= views(p0).push(tp));
                    assert(views(known_contents@) =~= views(t0).push(cv.2));
                    assert(views(written@) =~= views(w0).push(cv.2));
                    assert(!kp.contains(tp));
                    assert(kp.contains(tp) <==> (cp.contains(tp) || imp.contains(tp)));
                    lemma_all_new_push(cp, imp, tp);
                    assert forall|p: Seq<char>|
                        #[trigger] views(known_paths@).contains(p) <==> (cp.contains(p) || views(
                            imported@,
                        ).contains(p)) by {
                        lemma_push_contains(kp, tp, p);
                        lemma_push_contains(imp, tp, p);
                        assert(kp.contains(p) <==> (cp.contains(p) || imp.contains(p)));
                    }
                }
            }
        }
        i = i + 1;
    }
    assert(cs.take(i as int) =~= cs);
    ConfigImportPlan {
        result: ConfigImportResult {
            imported_paths: imported,
            skipped_duplicates: duplicates,
            skipped_conflicts: conflicts,
            renamed_imports: renamed,
        },
        written_contents: written,
    }
}

/// The (from, to) renames that a preview's conflicts announce.
pub open spec fn announced_renames(conflicts: Seq<(Seq<char>, Seq<char>, Seq<char>)>) -> Seq<
    (Seq<char>, Seq<char>),
> {
    conflicts.map_values(|c: (Seq<char>, Seq<char>, Seq<char>)| (c.1, c.2))
}

/// An import with renames does what the preview of the same candidates
/// announced: it skips the same duplicates, skips no conflict, renames
/// each conflict to the suggested path, imports one path per importable
/// or conflicting candidate, and leaves the same paths and texts known.
/// When the preview finds no conflict, an import without renames does the
/// same and imports exactly the importable paths.
pub proof fn lemma_import_follows_preview(
    paths: Seq<Seq<char>>,
    texts: Seq<Seq<char>>,
    cands: Seq<(Seq<char>, Seq<char>, Seq<char>)>,
)
    ensures
        ({
            let p = preview_fold(paths, texts, cands);
            let q = import_fold(paths, texts, cands, true);
            &&& q.0 == p.0
            &&& q.1 == p.1
            &&& q.3 == p.3
            &&& q.4.len() == 0
            &&& q.5 == announced_renames(p.4)
            &&& q.2.len() == p.4.len() + p.5.len()
            &&& q.2 == p.0.skip(paths.len() as int)
        }),
        preview_fold(paths, texts, cands).4.len() == 0 ==> import_fold(paths, texts, cands, false)
            == import_fold(paths, texts, cands, true) && import_fold(paths, texts, cands, false).2
            == preview_fold(paths, texts, cands).5,
    decreases cands.len(),
{
    lemma_import_extends_known(paths, texts, cands, true);
    let q = import_fold(paths, texts, cands, true);
    assert(q.2 =~= q.0.skip(paths.len() as int));
    if cands.len() > 0 {
        let rest = cands.drop_last();
        lemma_import_follows_preview(paths, texts, rest);
        let p0 = preview_fold(paths, texts, rest);
        let q0 = import_fold(paths, texts, rest, true);
        let f0 = import_fold(paths, texts, rest, false);
        let c = cands.last();
        assert(announced_renames(p0.4.push((c.0, c.1, spec_next_available_config_path(c.1, p0.0))))
            =~= announced_renames(p0.4).push((c.1, spec_next_available_config_path(c.1, p0.0))));
        let p = preview_fold(paths, texts, cands);
        if p.4.len() == 0 {
            assert(p0.4.len() == 0);
            assert(f0 == q0);
        }
    } else {
        assert(announced_renames(Seq::empty()) =~= Seq::<(Seq<char>, Seq<char>)>::empty());
    }
}

/// Each candidate of a preview lands in exactly one of its three lists.
/// For candidates bound for `configs/<their name>` (as `import_candidate`
/// makes them): the discovered names are the candidates' names in order,
/// and the storage paths of the skipped names, the wanted paths of the
/// conflicts and the importable paths are together, counted with
/// multiplicity, exactly the candidates' paths.
pub proof fn lemma_preview_partition(
    paths: Seq<Seq<char>>,
    texts: Seq<Seq<char>>,
    cands: Seq<(Seq<char>, Seq<char>, Seq<char>)>,
)
    requires
        forall|i: int| 0 <= i < cands.len() ==> (#[trigger] cands[i]).1 == spec_storage_path(cands[i].0),
    ensures
        preview_fold(paths, texts, cands).2 == cands.map_values(
            |c: (Seq<char>, Seq<char>, Seq<char>)| c.0,
        ),
        preview_fold(paths, texts, cands).3.map_values(|n: Seq<char>| spec_storage_path(n)).to_multiset().add(
            preview_fold(paths, texts, cands).4.map_values(
                |c: (Seq<char>, Seq<char>, Seq<char>)| c.1,
            ).to_multiset(),
        ).add(preview_fold(paths, texts, cands).5.to_multiset()) == cands.map_values(
            |c: (Seq<char>, Seq<char>, Seq<char>)| c.1,
        ).to_multiset(),
    decreases cands.len(),
{
    let names = |c: (Seq<char>, Seq<char>, Seq<char>)| c.0;
    let dests = |c: (Seq<char>, Seq<char>, Seq<char>)| c.1;
    let stor = |n: Seq<char>| spec_storage_path(n);
    if cands.len() == 0 {
        let p = preview_fold(paths, texts, cands);
        assert(p.2 =~= cands.map_values(names));
        assert(p.3.map_values(stor) =~= Seq::<Seq<char>>::empty());
        assert(p.4.map_values(dests) =~= Seq::<Seq<char>>::empty());
        assert(cands.map_values(dests) =~= Seq::<Seq<char>>::empty());
        p.3.map_values(stor).to_multiset_ensures();
        p.4.map_values(dests).to_multiset_ensures();
        p.5.to_multiset_ensures();
        cands.map_values(dests).to_multiset_ensures();
        vstd::multiset::lemma_multiset_empty_len(p.3.map_values(stor).to_multiset());
        vstd::multiset::lemma_multiset_empty_len(p.4.map_values(dests).to_multiset());
        vstd::multiset::lemma_multiset_empty_len(p.5.to_multiset());
        vstd::multiset::lemma_multiset_empty_len(cands.map_values(dests).to_multiset());
        assert(p.3.map_values(stor).to_multiset().add(p.4.map_values(dests).to_multiset()).add(
            p.5.to_multiset(),
        ) =~= cands.map_values(dests).to_multiset());
    } else {
        let rest = cands.drop_last();
        assert forall|i: int| 0 <= i < rest.len() implies (#[trigger] rest[i]).1
            == spec_storage_path(rest[i].0) by {
            assert(rest[i] == cands[i]);
        }
        lemma_preview_partition(paths, texts, rest);
        let c = cands.last();
        assert(c == cands[cands.len() - 1]);
        let p0 = preview_fold(paths, texts, rest);
        let p = preview_fold(paths, texts, cands);
        assert(cands.map_values(names) =~= rest.map_values(names).push(c.0));
        assert(cands.map_values(dests) =~= rest.map_values(dests).push(c.1));
        rest.map_values(dests).to_multiset_ensures();
        let a0 = p0.3.map_values(stor);
        let b0 = p0.4.map_values(dests);
        let m0 = a0.to_multiset().add(b0.to_multiset()).add(p0.5.to_multiset());
        a0.to_multiset_ensures();
        b0.to_multiset_ensures();
        p0.5.to_multiset_ensures();
        if p0.1.contains(c.2) {
            assert(p.3.map_values(stor) =~= a0.push(spec_storage_path(c.0)));
            assert(p.4.map_values(dests) =~= b0);
        } else if p0.0.contains(c.1) {
            assert(p.3.map_values(stor) =~= a0);
            assert(p.4.map_values(dests) =~= b0.push(c.1));
        } else {
            assert(p.3.map_values(stor) =~= a0);
            assert(p.4.map_values(dests) =~= b0);
        }
        assert(p.3.map_values(stor).to_multiset().add(p.4.map_values(dests).to_multiset()).add(
            p.5.to_multiset(),
        ) =~= m0.insert(c.1));
    }
}

/// An import only adds to the known paths, at the end and in order, the
/// paths it imports; nothing it imports replaces a known path. Without
/// renames it renames nothing: a candidate whose path is taken is only
/// skipped.
pub proof fn lemma_import_extends_known(
    paths: Seq<Seq<char>>,
    texts: Seq<Seq<char>>,
    cands: Seq<(Seq<char>, Seq<char>, Seq<char>)>,
    rename: bool,
)
    ensures
        import_fold(paths, texts, cands, rename).0 == paths + import_fold(
            paths,
            texts,
            cands,
            rename,
        ).2,
        !rename ==> import_fold(paths, texts, cands, rename).5.len() == 0,
        import_fold(paths, texts, cands, rename).2.len() + import_fold(
            paths,
            texts,
            cands,
            rename,
        ).3.len() + import_fold(paths, texts, cands, rename).4.len() == cands.len(),
    decreases cands.len(),
{
    if cands.len() > 0 {
        lemma_import_extends_known(paths, texts, cands.drop_last(), rename);
        let q0 = import_fold(paths, texts, cands.drop_last(), rename);
        let q = import_fold(paths, texts, cands, rename);
        if q.2.len() > q0.2.len() {
            assert(q.0 =~= paths + q.2);
        }
    } else {
        assert(paths + Seq::<Seq<char>>::empty() =~= paths);
    }
}

proof fn lemma_import_keeps_texts(
    paths: Seq<Seq<char>>,
    texts: Seq<Seq<char>>,
    cands: Seq<(Seq<char>, Seq<char>, Seq<char>)>,
)
    ensures
        forall|i: int|
            0 <= i < cands.len() ==> import_fold(paths, texts, cands, true).1.contains(
                #[trigger] cands[i].2,
            ),
    decreases cands.len(),
{
    if cands.len() > 0 {
        let rest = cands.drop_last();
        lemma_import_keeps_texts(paths, texts, rest);
        let t0 = import_fold(paths, texts, rest, true).1;
        let t = import_fold(paths, texts, cands, true).1;
        assert forall|i: int| 0 <= i < cands.len() implies t.contains(#[trigger] cands[i].2) by {
            if i < cands.len() - 1 {
                assert(rest[i] == cands[i]);
                assert(t0.contains(rest[i].2));
                let j = choose|j: int| 0 <= j < t0.len() && t0[j] == rest[i].2;
                if t.len() > t0.len() {
                    assert(t[j] == t0[j]);
                } else {
                    assert(t == t0);
                }
            } else if t.len() > t0.len() {
                assert(t[t.len() - 1] == cands[i].2);
            }
        }
    }
}

proof fn lemma_import_all_duplicates(
    paths: Seq<Seq<char>>,
    texts: Seq<Seq<char>>,
    cands: Seq<(Seq<char>, Seq<char>, Seq<char>)>,
)
    requires
        forall|i: int| 0 <= i < cands.len() ==> texts.contains(#[trigger] cands[i].2),
    ensures
        import_fold(paths, texts, cands, true) == (
            paths,
            texts,
            Seq::<Seq<char>>::empty(),
            cands.map_values(|c: (Seq<char>, Seq<char>, Seq<char>)| c.0),
            Seq::<Seq<char>>::empty(),
            Seq::<(Seq<char>, Seq<char>)>::empty(),
            Seq::<Seq<char>>::empty(),
        ),
    decreases cands.len(),
{
    if cands.len() > 0 {
        let rest = cands.drop_last();
        assert forall|i: int| 0 <= i < rest.len() implies texts.contains(#[trigger] rest[i].2) by {
            assert(rest[i] == cands[i]);
        }
        lemma_import_all_duplicates(paths, texts, rest);
        assert(texts.contains(cands[cands.len() - 1].2));
        assert(cands.map_values(|c: (Seq<char>, Seq<char>, Seq<char>)| c.0) =~= rest.map_values(
            |c: (Seq<char>, Seq<char>, Seq<char>)| c.0,
        ).push(cands.last().0));
    } else {
        assert(cands.map_values(|c: (Seq<char>, Seq<char>, Seq<char>)| c.0) =~= Seq::<
            Seq<char>,
        >::empty());
    }
}

/// Importing the same candidates again, into the catalog as the first
/// import with renames left it, imports nothing, renames nothing, skips no
/// conflict, and skips every candidate as a duplicate, in order.
pub proof fn lemma_reimport_skips_everything(
    paths: Seq<Seq<char>>,
    texts: Seq<Seq<char>>,
    cands: Seq<(Seq<char>, Seq<char>, Seq<char>)>,
)
    ensures
        ({
            let first = import_fold(paths, texts, cands, true);
            let again = import_fold(first.0, first.1, cands, true);
            &&& again.2.len() == 0
            &&& again.3 == cands.map_values(|c: (Seq<char>, Seq<char>, Seq<char>)| c.0)
            &&& again.4.len() == 0
            &&& again.5.len() == 0
        }),
{
    lemma_import_keeps_texts(paths, texts, cands);
    let first = import_fold(paths, texts, cands, true);
    lemma_import_all_duplicates(first.0, first.1, cands);
}

/// The file names of candidates, in order.
pub open spec fn candidate_names(cands: Seq<(Seq<char>, Seq<char>, Seq<char>)>) -> Seq<Seq<char>> {
    cands.map_values(|c: (Seq<char>, Seq<char>, Seq<char>)| c.0)
}

/// The file names of conflicts, in order.
pub open spec fn conflict_names(conflicts: Seq<(Seq<char>, Seq<char>, Seq<char>)>) -> Seq<
    Seq<char>,
> {
    conflicts.map_values(|c: (Seq<char>, Seq<char>, Seq<char>)| c.0)
}

/// The candidates in the order a preview or an import takes them.
pub open spec fn ordered_candidates(candidates: Seq<ImportCandidate>) -> Seq<
    (Seq<char>, Seq<char>, Seq<char>),
> {
    views(spec_sort_by_key(candidates))
}

/// Candidates as the TOML files of one directory give them through
/// `import_candidate`: no file name twice, each bound for
/// `configs/<its name>`.
pub open spec fn directory_candidates(cands: Seq<(Seq<char>, Seq<char>, Seq<char>)>) -> bool {
    &&& candidate_names(cands).no_duplicates()
    &&& forall|i: int|
        0 <= i < cands.len() ==> (#[trigger] cands[i]).1 == spec_storage_path(cands[i].0)
}

/// 1 when `b` holds, else 0.
pub open spec fn one_if(b: bool) -> int {
    if b {
        1
    } else {
        0
    }
}

proof fn lemma_storage_path_injective(a: Seq<char>, b: Seq<char>)
    ensures
        spec_storage_path(a) == spec_storage_path(b) ==> a == b,
{
    assert(a =~= spec_storage_path(a).skip("configs/"@.len() as int));
    assert(b =~= spec_storage_path(b).skip("configs/"@.len() as int));
}

proof fn lemma_concat_contains<A>(a: Seq<A>, b: Seq<A>, x: A)
    ensures
        (a + b).contains(x) <==> (a.contains(x) || b.contains(x)),
{
    if a.contains(x) {
        let i = choose|i: int| 0 <= i < a.len() && a[i] == x;
        assert((a + b)[i] == x);
    }
    if b.contains(x) {
        let i = choose|i: int| 0 <= i < b.len() && b[i] == x;
        assert((a + b)[a.len() + i] == x);
    }
    if (a + b).contains(x) {
        let i = choose|i: int| 0 <= i < (a + b).len() && (a + b)[i] == x;
        if i < a.len() {
            assert(a[i] == x);
        } else {
            assert(b[i - a.len()] == x);
        }
    }
}

proof fn lemma_preview_classifies(
    paths: Seq<Seq<char>>,
    texts: Seq<Seq<char>>,
    cands: Seq<(Seq<char>, Seq<char>, Seq<char>)>,
)
    requires
        directory_candidates(cands),
    ensures
        ({
            let p = preview_fold(paths, texts, cands);
            let names = candidate_names(cands);
            &&& forall|n: Seq<char>| #[trigger] p.3.contains(n) ==> names.contains(n)
            &&& forall|n: Seq<char>| #[trigger] conflict_names(p.4).contains(n) ==> names.contains(n)
            &&& forall|x: Seq<char>|
                #[trigger] p.5.contains(x) ==> exists|j: int|
                    0 <= j < names.len() && x == spec_storage_path(names[j])
            &&& forall|n: Seq<char>|
                #[trigger] names.contains(n) ==> one_if(p.3.contains(n)) + one_if(
                    conflict_names(p.4).contains(n),
                ) + one_if(p.5.contains(spec_storage_path(n))) == 1
        }),
    decreases cands.len(),
{
    if cands.len() > 0 {
        let rest = cands.drop_last();
        let c = cands.last();
        let x = c.0;
        let names = candidate_names(cands);
        let names0 = candidate_names(rest);
        assert(names0 =~= names.drop_last());
        assert(names =~= names0.push(x));
        assert(names[names.len() - 1] == x);
        assert forall|i: int| 0 <= i < rest.len() implies (#[trigger] rest[i]).1
            == spec_storage_path(rest[i].0) by {
            assert(rest[i] == cands[i]);
        }
        assert(names0.no_duplicates());
        lemma_preview_classifies(paths, texts, rest);
        let p0 = preview_fold(paths, texts, rest);
        let p = preview_fold(paths, texts, cands);
        assert(c == cands[cands.len() - 1]);
        assert(c.1 == spec_storage_path(x));
        if names0.contains(x) {
            let j = choose|j: int| 0 <= j < names0.len() && names0[j] == x;
            assert(names[j] == names[names.len() - 1]);
        }
        // the new name is nowhere yet
        assert(!p0.3.contains(x));
        assert(!conflict_names(p0.4).contains(x));
        if p0.5.contains(spec_storage_path(x)) {
            let j = choose|j: int|
                0 <= j < names0.len() && spec_storage_path(x) == spec_storage_path(names0[j]);
            lemma_storage_path_injective(x, names0[j]);
        }
        let cn0 = conflict_names(p0.4);
        let cn = conflict_names(p.4);
        if p0.1.contains(c.2) {
            assert(p.3 == p0.3.push(x));
            assert(cn =~= cn0);
            assert(p.5 == p0.5);
        } else if p0.0.contains(c.1) {
            assert(p.3 == p0.3);
            assert(cn =~= cn0.push(x));
            assert(p.5 == p0.5);
        } else {
            assert(p.3 == p0.3);
            assert(cn =~= cn0);
            assert(p.5 == p0.5.push(c.1));
        }
        assert forall|n: Seq<char>| #[trigger] p.3.contains(n) implies names.contains(n) by {
            lemma_push_contains(p0.3, x, n);
            lemma_push_contains(names0, x, n);
        }
        assert forall|n: Seq<char>| #[trigger] cn.contains(n) implies names.contains(n) by {
            lemma_push_contains(cn0, x, n);
            lemma_push_contains(names0, x, n);
        }
        assert forall|y: Seq<char>| #[trigger] p.5.contains(y) implies exists|j: int|
            0 <= j < names.len() && y == spec_storage_path(names[j]) by {
            lemma_push_contains(p0.5, c.1, y);
            if p0.5.contains(y) {
                let j = choose|j: int|
                    0 <= j < names0.len() && y == spec_storage_path(names0[j]);
                assert(names[j] == names0[j]);
            } else {
                assert(y == spec_storage_path(names[names.len() - 1]));
            }
        }
        assert forall|n: Seq<char>| #[trigger] names.contains(n) implies one_if(p.3.contains(n))
            + one_if(cn.contains(n)) + one_if(p.5.contains(spec_storage_path(n))) == 1 by {
            lemma_push_contains(names0, x, n);
            lemma_push_contains(p0.3, x, n);
            lemma_push_contains(cn0, x, n);
            lemma_push_contains(p0.5, c.1, spec_storage_path(n));
            lemma_storage_path_injective(n, x);
            if n != x {
                assert(names0.contains(n));
            }
        }
    }
}

proof fn lemma_preview_reserves(
    paths: Seq<Seq<char>>,
    texts: Seq<Seq<char>>,
    cands: Seq<(Seq<char>, Seq<char>, Seq<char>)>,
)
    ensures
        ({
            let p = preview_fold(paths, texts, cands);
            &&& p.0.len() == paths.len() + p.5.len() + p.4.len()
            &&& p.0.skip(paths.len() as int).to_multiset() == p.5.to_multiset().add(
                suggested_paths(p.4).to_multiset(),
            )
        }),
    decreases cands.len(),
{
    let p = preview_fold(paths, texts, cands);
    let l = paths.len() as int;
    if cands.len() == 0 {
        assert(p.0.skip(l) =~= Seq::<Seq<char>>::empty());
        assert(suggested_paths(p.4) =~= Seq::<Seq<char>>::empty());
        p.0.skip(l).to_multiset_ensures();
        p.5.to_multiset_ensures();
        suggested_paths(p.4).to_multiset_ensures();
        vstd::multiset::lemma_multiset_empty_len(p.0.skip(l).to_multiset());
        vstd::multiset::lemma_multiset_empty_len(p.5.to_multiset());
        vstd::multiset::lemma_multiset_empty_len(suggested_paths(p.4).to_multiset());
        assert(p.0.skip(l).to_multiset() =~= p.5.to_multiset().add(
            suggested_paths(p.4).to_multiset(),
        ));
    } else {
        let rest = cands.drop_last();
        lemma_preview_reserves(paths, texts, rest);
        let p0 = preview_fold(paths, texts, rest);
        let c = cands.last();
        p0.0.skip(l).to_multiset_ensures();
        p0.5.to_multiset_ensures();
        suggested_paths(p0.4).to_multiset_ensures();
        if p0.1.contains(c.2) {
        } else if p0.0.contains(c.1) {
            let y = spec_next_available_config_path(c.1, p0.0);
            assert(p.0.skip(l) =~= p0.0.skip(l).push(y));
            assert(suggested_paths(p.4) =~= suggested_paths(p0.4).push(y));
            assert(p.0.skip(l).to_multiset() =~= p.5.to_multiset().add(
                suggested_paths(p.4).to_multiset(),
            ));
        } else {
            assert(p.0.skip(l) =~= p0.0.skip(l).push(c.1));
            assert(suggested_paths(p.4) =~= suggested_paths(p0.4));
            assert(p.0.skip(l).to_multiset() =~= p.5.to_multiset().add(
                suggested_paths(p.4).to_multiset(),
            ));
        }
    }
}

proof fn lemma_import_all_new(
    paths: Seq<Seq<char>>,
    texts: Seq<Seq<char>>,
    cands: Seq<(Seq<char>, Seq<char>, Seq<char>)>,
    rename: bool,
)
    ensures
        all_new(paths, import_fold(paths, texts, cands, rename).2),
        import_fold(paths, texts, cands, rename).1 == texts + import_fold(
            paths,
            texts,
            cands,
            rename,
        ).6,
    decreases cands.len(),
{
    let q = import_fold(paths, texts, cands, rename);
    if cands.len() == 0 {
        assert(texts + Seq::<Seq<char>>::empty() =~= texts);
    } else {
        let rest = cands.drop_last();
        lemma_import_all_new(paths, texts, rest, rename);
        lemma_import_extends_known(paths, texts, rest, rename);
        let q0 = import_fold(paths, texts, rest, rename);
        let c = cands.last();
        if q.2.len() > q0.2.len() {
            let y = q.2.last();
            assert(q.2 == q0.2.push(y));
            if q0.0.contains(c.1) {
                lemma_next_available_is_least_free(c.1, q0.0);
            }
            assert(!q0.0.contains(y));
            lemma_concat_contains(paths, q0.2, y);
            lemma_all_new_push(paths, q0.2, y);
            assert(q.1 =~= texts + q.6);
        }
    }
}

/// The suggested path of the last conflict of file `name`.
pub open spec fn conflict_target(conflicts: Seq<(Seq<char>, Seq<char>, Seq<char>)>, name: Seq<char>) -> Seq<
    char,
>
    decreases conflicts.len(),
{
    if conflicts.len() == 0 {
        Seq::empty()
    } else if conflicts.last().0 == name {
        conflicts.last().2
    } else {
        conflict_target(conflicts.drop_last(), name)
    }
}

/// The paths a preview announces for its discovered files, in order: none
/// for a skipped duplicate, the suggested path for a conflict, and
/// `configs/<name>` for any other file.
pub open spec fn announced_targets(
    discovered: Seq<Seq<char>>,
    skipped: Seq<Seq<char>>,
    conflicts: Seq<(Seq<char>, Seq<char>, Seq<char>)>,
) -> Seq<Seq<char>>
    decreases discovered.len(),
{
    if discovered.len() == 0 {
        Seq::empty()
    } else {
        let n = discovered.last();
        let before = announced_targets(discovered.drop_last(), skipped, conflicts);
        if skipped.contains(n) {
            before
        } else if conflict_names(conflicts).contains(n) {
            before.push(conflict_target(conflicts, n))
        } else {
            before.push(spec_storage_path(n))
        }
    }
}

proof fn lemma_announced_targets_agree(
    d: Seq<Seq<char>>,
    s1: Seq<Seq<char>>,
    c1: Seq<(Seq<char>, Seq<char>, Seq<char>)>,
    s2: Seq<Seq<char>>,
    c2: Seq<(Seq<char>, Seq<char>, Seq<char>)>,
)
    requires
        forall|n: Seq<char>|
            #[trigger] d.contains(n) ==> s1.contains(n) == s2.contains(n) && conflict_names(
                c1,
            ).contains(n) == conflict_names(c2).contains(n) && conflict_target(c1, n)
                == conflict_target(c2, n),
    ensures
        announced_targets(d, s1, c1) == announced_targets(d, s2, c2),
    decreases d.len(),
{
    if d.len() > 0 {
        let init = d.drop_last();
        assert forall|n: Seq<char>| #[trigger] init.contains(n) implies d.contains(n) by {
            lemma_push_contains(init, d.last(), n);
            assert(init.push(d.last()) =~= d);
        }
        lemma_announced_targets_agree(init, s1, c1, s2, c2);
        assert(d.contains(d.last())) by {
            assert(d[d.len() - 1] == d.last());
        }
    }
}

proof fn lemma_import_targets(
    paths: Seq<Seq<char>>,
    texts: Seq<Seq<char>>,
    cands: Seq<(Seq<char>, Seq<char>, Seq<char>)>,
)
    requires
        directory_candidates(cands),
    ensures
        import_fold(paths, texts, cands, true).2 == announced_targets(
            candidate_names(cands),
            preview_fold(paths, texts, cands).3,
            preview_fold(paths, texts, cands).4,
        ),
    decreases cands.len(),
{
    let names = candidate_names(cands);
    if cands.len() == 0 {
        assert(names.len() == 0);
    } else {
        let rest = cands.drop_last();
        let c = cands.last();
        let x = c.0;
        let names0 = candidate_names(rest);
        assert(names0 =~= names.drop_last());
        assert(names =~= names0.push(x));
        assert(names[names.len() - 1] == x);
        assert forall|i: int| 0 <= i < rest.len() implies (#[trigger] rest[i]).1
            == spec_storage_path(rest[i].0) by {
            assert(rest[i] == cands[i]);
        }
        assert(names0.no_duplicates());
        lemma_import_targets(paths, texts, rest);
        lemma_preview_classifies(paths, texts, rest);
        lemma_preview_classifies(paths, texts, cands);
        lemma_import_follows_preview(paths, texts, rest);
        let p0 = preview_fold(paths, texts, rest);
        let p = preview_fold(paths, texts, cands);
        let q0 = import_fold(paths, texts, rest, true);
        let q = import_fold(paths, texts, cands, true);
        assert(c == cands[cands.len() - 1]);
        assert(c.1 == spec_storage_path(x));
        if names0.contains(x) {
            let j = choose|j: int| 0 <= j < names0.len() && names0[j] == x;
            assert(names[j] == names[names.len() - 1]);
        }
        let cn0 = conflict_names(p0.4);
        let cn = conflict_names(p.4);
        assert(!p0.3.contains(x));
        assert(!cn0.contains(x));
        if p0.1.contains(c.2) {
            assert(p.3 == p0.3.push(x));
            assert(p.4 == p0.4);
            assert(cn =~= cn0);
        } else if p0.0.contains(c.1) {
            assert(p.3 == p0.3);
            assert(p.4.drop_last() =~= p0.4);
            assert(p.4.last().0 == x);
            assert(cn =~= cn0.push(x));
        } else {
            assert(p.3 == p0.3);
            assert(p.4 == p0.4);
            assert(cn =~= cn0);
        }
        assert forall|n: Seq<char>| #[trigger] names0.contains(n) implies p0.3.contains(n)
            == p.3.contains(n) && conflict_names(p0.4).contains(n) == conflict_names(p.4).contains(n)
            && conflict_target(p0.4, n) == conflict_target(p.4, n) by {
            assert(n != x);
            lemma_push_contains(p0.3, x, n);
            lemma_push_contains(cn0, x, n);
        }
        lemma_announced_targets_agree(names0, p0.3, p0.4, p.3, p.4);
        assert(names.drop_last() == names0);
        assert(names.last() == x);
        let before = announced_targets(names0, p.3, p.4);
        assert(before == q0.2);
        assert(announced_targets(names, p.3, p.4) == if p.3.contains(x) {
            before
        } else if cn.contains(x) {
            before.push(conflict_target(p.4, x))
        } else {
            before.push(spec_storage_path(x))
        });
        if p0.1.contains(c.2) {
            lemma_push_contains(p0.3, x, x);
            assert(q0.1 == p0.1);
            assert(q.2 == q0.2);
        } else if p0.0.contains(c.1) {
            lemma_push_contains(cn0, x, x);
            assert(conflict_target(p.4, x) == spec_next_available_config_path(c.1, p0.0));
            assert(q.2 == q0.2.push(spec_next_available_config_path(c.1, q0.0)));
        } else {
            assert(q.2 == q0.2.push(c.1));
        }
    }
}

/// Every TOML file of the directory lands in exactly one place of the
/// preview. For the candidates of one directory (see
/// `directory_candidates`): the discovered names are the candidates' names
/// in file name order; each discovered name is exactly one of a skipped
/// duplicate, the name of a conflict, or the file whose storage path is
/// importable; and the three lists hold nothing else.
pub proof fn lemma_preview_places_each_file_once(
    source_dir: Seq<char>,
    paths: Seq<Seq<char>>,
    texts: Seq<Seq<char>>,
    candidates: Seq<ImportCandidate>,
)
    requires
        directory_candidates(views(candidates)),
    ensures
        ({
            let p = spec_import_preview(source_dir, paths, texts, candidates);
            &&& directory_candidates(ordered_candidates(candidates))
            &&& p.1 == candidate_names(ordered_candidates(candidates))
            &&& p.1.to_multiset() == candidate_names(views(candidates)).to_multiset()
            &&& forall|n: Seq<char>|
                #[trigger] p.1.contains(n) ==> one_if(p.2.contains(n)) + one_if(
                    conflict_names(p.3).contains(n),
                ) + one_if(p.4.contains(spec_storage_path(n))) == 1
            &&& forall|n: Seq<char>| #[trigger] p.2.contains(n) ==> p.1.contains(n)
            &&& forall|n: Seq<char>| #[trigger] conflict_names(p.3).contains(n) ==> p.1.contains(n)
            &&& forall|x: Seq<char>|
                #[trigger] p.4.contains(x) ==> exists|j: int|
                    0 <= j < p.1.len() && x == spec_storage_path(p.1[j])
        }),
{
    let ordered = ordered_candidates(candidates);
    let given = views(candidates);
    let name_of = |c: ImportCandidate| c@.0;
    lemma_sort_by_key_permutes(candidates, name_of);
    lemma_sort_by_key_permutes(candidates, |c: ImportCandidate| c@);
    let sorted = spec_sort_by_key(candidates);
    assert(candidate_names(ordered) =~= sorted.map_values(name_of));
    assert(candidate_names(given) =~= candidates.map_values(name_of));
    lemma_same_multiset_distinct(candidate_names(given), candidate_names(ordered));
    assert forall|i: int| 0 <= i < ordered.len() implies (#[trigger] ordered[i]).1
        == spec_storage_path(ordered[i].0) by {
        assert(candidates.contains(sorted[i]));
        let j = choose|j: int| 0 <= j < candidates.len() && candidates[j] == sorted[i];
        assert(given[j] == ordered[i]);
    }
    lemma_preview_classifies(paths, texts, ordered);
    lemma_preview_partition(paths, texts, ordered);
}

/// Importing with renames does what the preview of the same directory
/// into the same catalog announced: the same skipped duplicates, no
/// skipped conflict, each conflict renamed from its existing path to its
/// suggested path, and as imported paths exactly the importable paths and
/// the suggested paths, each once and none already in the catalog. For the
/// files of one directory the imported paths are, in file name order, the
/// path the preview announced for each file that is not a duplicate.
pub proof fn lemma_import_agrees_with_preview(
    source_dir: Seq<char>,
    paths: Seq<Seq<char>>,
    texts: Seq<Seq<char>>,
    candidates: Seq<ImportCandidate>,
)
    ensures
        ({
            let p = spec_import_preview(source_dir, paths, texts, candidates);
            let r = spec_import_plan(paths, texts, candidates, true).0;
            &&& r.1 == p.2
            &&& r.2.len() == 0
            &&& r.3 == announced_renames(p.3)
            &&& directory_candidates(views(candidates)) ==> r.0 == announced_targets(p.1, p.2, p.3)
            &&& r.0.to_multiset() == p.4.to_multiset().add(suggested_paths(p.3).to_multiset())
            &&& all_new(paths, r.0)
        }),
{
    let ordered = ordered_candidates(candidates);
    lemma_import_follows_preview(paths, texts, ordered);
    lemma_preview_reserves(paths, texts, ordered);
    lemma_import_all_new(paths, texts, ordered, true);
    if directory_candidates(views(candidates)) {
        lemma_preview_places_each_file_once(source_dir, paths, texts, candidates);
        lemma_import_targets(paths, texts, ordered);
    }
}

/// Importing without renames renames nothing, and with or without renames
/// an import never overwrites: every imported path is new to the catalog
/// and imported once, every candidate is imported, skipped as a duplicate
/// or skipped as a conflict, and the texts written are added after the
/// known texts.
pub proof fn lemma_import_never_overwrites(
    paths: Seq<Seq<char>>,
    texts: Seq<Seq<char>>,
    candidates: Seq<ImportCandidate>,
    rename: bool,
)
    ensures
        ({
            let r = spec_import_plan(paths, texts, candidates, rename).0;
            &&& !rename ==> r.3.len() == 0
            &&& all_new(paths, r.0)
            &&& r.0.len() + r.1.len() + r.2.len() == candidates.len()
        }),
{
    let ordered = ordered_candidates(candidates);
    lemma_sort_by_key_permutes(candidates, |c: ImportCandidate| c@);
    lemma_import_extends_known(paths, texts, ordered, rename);
    lemma_import_all_new(paths, texts, ordered, rename);
}

/// Importing the same directory a second time, with renames, into the
/// catalog the first import left (its paths and texts followed by the
/// imported paths and the texts written there), imports nothing, renames
/// nothing, skips no conflict, and skips every file as a duplicate, in
/// file name order.
pub proof fn lemma_second_import_skips_everything(
    paths: Seq<Seq<char>>,
    texts: Seq<Seq<char>>,
    candidates: Seq<ImportCandidate>,
)
    ensures
        ({
            let first = spec_import_plan(paths, texts, candidates, true);
            let again = spec_import_plan(
                paths + first.0.0,
                texts + first.1,
                candidates,
                true,
            ).0;
            &&& again.0.len() == 0
            &&& again.1 == candidate_names(ordered_candidates(candidates))
            &&& again.2.len() == 0
            &&& again.3.len() == 0
        }),
{
    let ordered = ordered_candidates(candidates);
    lemma_import_extends_known(paths, texts, ordered, true);
    lemma_import_all_new(paths, texts, ordered, true);
    lemma_reimport_skips_everything(paths, texts, ordered);
}

/// Where on disk an imported config is written: the file name of its
/// storage path, under the storage directory; `None` for a path without a
/// file name.
pub fn storage_file_path(storage_dir: &str, config_path: &str) -> (r: Option<String>)
    ensures
        match spec_path_file_name(config_path@) {
            Some(name) => r is Some && r->0@ == spec_path_join(storage_dir@, name),
            None => r is None,
        },
{
    match path_file_name(config_path) {
        Some(name) => Some(path_join(storage_dir, name.as_str())),
        None => None,
    }
}

} // verus!
