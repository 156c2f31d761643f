use crate::catalog::{
    contains_string, embedded_config_contents, path_join, spec_embedded_config_contents,
    spec_path_join,
};
use crate::config::{spec_validate_config, validate_config, ConfigError, NodeConfig};
use crate::order::views;
use vstd::prelude::*;

verus! {

/// What `Path::ancestors` yields for a path, as text: the path itself,
/// then each parent in turn.
pub uninterp spec fn spec_path_ancestors(path: Seq<char>) -> Seq<Seq<char>>;

/// What `Path::is_absolute` says of a path.
pub uninterp spec fn spec_path_is_absolute(path: Seq<char>) -> bool;

/// Trusted: `Path::ancestors` on a UTF-8 path, each ancestor converted back
/// to text, in the order the iterator yields them.
#[verifier::external_body]
pub(crate) fn path_ancestors(path: &str) -> (r: Vec<String>)
    ensures
        views(r@) == spec_path_ancestors(path@),
{
    let mut out = Vec::new();
    for ancestor in std::path::Path::new(path).ancestors() {
        out.push(ancestor.to_string_lossy().into_owned());
    }
    out
}

/// Trusted: `Path::is_absolute` on a UTF-8 path.
#[verifier::external_body]
pub(crate) fn path_is_absolute(path: &str) -> (r: bool)
    ensures
        r == spec_path_is_absolute(path@),
{
    std::path::Path::new(path).is_absolute()
}

/// Every ancestor of every search root, root by root.
pub open spec fn spec_root_ancestors(roots: Seq<Seq<char>>) -> Seq<Seq<char>>
    decreases roots.len(),
{
    if roots.len() == 0 {
        Seq::empty()
    } else {
        spec_root_ancestors(roots.drop_last()) + spec_path_ancestors(roots.last())
    }
}

/// The candidates of several search roots are those of each root in turn:
/// no root is left out, and none is tried before the roots listed ahead
/// of it. For one root they are the root's ancestors, for none there are
/// none, and for search roots `a` followed by `b` they are those of `a`
/// followed by those of `b`.
pub proof fn lemma_root_ancestors_cover_every_root(a: Seq<Seq<char>>, b: Seq<Seq<char>>, root: Seq<char>)
    ensures
        spec_root_ancestors(Seq::empty()) == Seq::<Seq<char>>::empty(),
        spec_root_ancestors(seq![root]) == spec_path_ancestors(root),
        spec_root_ancestors(a + b) == spec_root_ancestors(a) + spec_root_ancestors(b),
    decreases b.len(),
{
    assert(seq![root].drop_last() =~= Seq::<Seq<char>>::empty());
    assert(Seq::<Seq<char>>::empty() + spec_path_ancestors(root) =~= spec_path_ancestors(root));
    if b.len() == 0 {
        assert(a + b =~= a);
        assert(spec_root_ancestors(a) + Seq::<Seq<char>>::empty() =~= spec_root_ancestors(a));
    } else {
        lemma_root_ancestors_cover_every_root(a, b.drop_last(), root);
        assert((a + b).drop_last() =~= a + b.drop_last());
        assert((a + b).last() == b.last());
        assert(spec_root_ancestors(a) + spec_root_ancestors(b) =~= spec_root_ancestors(a)
            + spec_root_ancestors(b.drop_last()) + spec_path_ancestors(b.last()));
    }
}

/// The ancestors of the search roots, root by root: the directories that
/// may be the workspace root, in the order they are tried.
pub fn workspace_root_candidates(search_roots: &[String]) -> (r: Vec<String>)
    ensures
        views(r@) == spec_root_ancestors(views(search_roots@)),
{
    let ghost roots = views(search_roots@);
    let mut out: Vec<String> = Vec::new();
    let mut i: usize = 0;
    assert(roots.take(0) =~= Seq::<Seq<char>>::empty());
    while i < search_roots.len()
        invariant
            i <= search_roots@.len(),
            roots == views(search_roots@),
            views(out@) == spec_root_ancestors(roots.take(i as int)),
        decreases search_roots@.len() - i,
    {
        let mut ancestors = path_ancestors(search_roots[i].as_str());
        let ghost before = out@;
        let ghost added = ancestors@;
        out.append(&mut ancestors);
        proof {
            assert(roots.take(i + 1).drop_last() =~= roots.take(i as int));
            assert(roots.take(i + 1).last() == search_roots@[i as int]@);
            assert(views(out@) =~= views(before) + views(added));
        }
        i = i + 1;
    }
    assert(roots.take(i as int) =~= roots);
    out
}

/// The first of `candidates` that is among `marked`.
pub open spec fn first_marked(candidates: Seq<Seq<char>>, marked: Seq<Seq<char>>) -> Option<
    Seq<char>,
>
    decreases candidates.len(),
{
    if candidates.len() == 0 {
        None
    } else if marked.contains(candidates[0]) {
        Some(candidates[0])
    } else {
        first_marked(candidates.drop_first(), marked)
    }
}

fn first_marked_of(candidates: &Vec<String>, marked: &[String]) -> (r: Option<String>)
    ensures
        match r {
            Some(c) => first_marked(views(candidates@), views(marked@)) == Some(c@),
            None => first_marked(views(candidates@), views(marked@)) is None,
        },
{
    let ghost cs = views(candidates@);
    let ghost ms = views(marked@);
    let mut i: usize = 0;
    assert(cs.skip(0) =~= cs);
    while i < candidates.len()
        invariant
            i <= candidates@.len(),
            cs == views(candidates@),
            ms == views(marked@),
            first_marked(cs, ms) == first_marked(cs.skip(i as int), ms),
        decreases candidates@.len() - i,
    {
        assert(cs.skip(i as int)[0] == candidates@[i as int]@);
        if contains_string(marked, &candidates[i]) {
            return Some(candidates[i].clone());
        }
        assert(cs.skip(i as int).drop_first() =~= cs.skip(i + 1));
        i = i + 1;
    }
    None
}

proof fn lemma_first_marked_concat(a: Seq<Seq<char>>, b: Seq<Seq<char>>, marked: Seq<Seq<char>>)
    ensures
        first_marked(a + b, marked) == match first_marked(a, marked) {
            Some(found) => Some(found),
            None => first_marked(b, marked),
        },
    decreases a.len(),
{
    if a.len() == 0 {
        assert(a + b =~= b);
    } else {
        assert((a + b)[0] == a[0]);
        assert((a + b).drop_first() =~= a.drop_first() + b);
        lemma_first_marked_concat(a.drop_first(), b, marked);
    }
}

/// The workspace search tries the search roots in order: with search
/// roots `a` followed by `b`, the workspace root is the one found from
/// `a` if any, and otherwise the one found from `b`.
pub proof fn lemma_workspace_search_in_root_order(
    a: Seq<Seq<char>>,
    b: Seq<Seq<char>>,
    workspace_like: Seq<Seq<char>>,
)
    ensures
        first_marked(spec_root_ancestors(a + b), workspace_like) == match first_marked(
            spec_root_ancestors(a),
            workspace_like,
        ) {
            Some(found) => Some(found),
            None => first_marked(spec_root_ancestors(b), workspace_like),
        },
{
    lemma_root_ancestors_cover_every_root(a, b, Seq::empty());
    lemma_first_marked_concat(spec_root_ancestors(a), spec_root_ancestors(b), workspace_like);
}

/// The workspace root: the first ancestor of the search roots (root by
/// root) that is among `workspace_like`, the directories found to hold the
/// workspace markers.
pub fn workspace_root_from_search_roots(search_roots: &[String], workspace_like: &[String]) -> (r:
    Option<String>)
    ensures
        match r {
            Some(root) => first_marked(
                spec_root_ancestors(views(search_roots@)),
                views(workspace_like@),
            ) == Some(root@),
            None => first_marked(
                spec_root_ancestors(views(search_roots@)),
                views(workspace_like@),
            ) is None,
        },
{
    let candidates = workspace_root_candidates(search_roots);
    first_marked_of(&candidates, workspace_like)
}

/// The application's base directory: the workspace root, else the
/// executable's directory, else the first search root, else `.`.
pub open spec fn spec_app_base_dir(
    workspace_root: Option<Seq<char>>,
    executable_dir: Option<Seq<char>>,
    search_roots: Seq<Seq<char>>,
) -> Seq<char> {
    match workspace_root {
        Some(w) => w,
        None => match executable_dir {
            Some(e) => e,
            None => if search_roots.len() > 0 {
                search_roots[0]
            } else {
                "."@
            },
        },
    }
}

/// The application's base directory (see `spec_app_base_dir`).
pub fn app_base_dir_from_search_roots(
    workspace_root: Option<String>,
    executable_dir: Option<String>,
    search_roots: &[String],
) -> (r: String)
    ensures
        r@ == spec_app_base_dir(
            match workspace_root {
                Some(w) => Some(w@),
                None => None,
            },
            match executable_dir {
                Some(e) => Some(e@),
                None => None,
            },
            views(search_roots@),
        ),
{
    match workspace_root {
        Some(w) => w,
        None => match executable_dir {
            Some(e) => e,
            None => if search_roots.len() > 0 {
                search_roots[0].clone()
            } else {
                ".".to_owned()
            },
        },
    }
}

/// Where stored configs live: `configs` under the base directory.
pub fn config_storage_dir(base_dir: &str) -> (r: String)
    ensures
        r@ == spec_path_join(base_dir@, "configs"@),
{
    path_join(base_dir, "configs")
}

/// Where log files go: `logs` under the base directory.
pub fn log_directory(base_dir: &str) -> (r: String)
    ensures
        r@ == spec_path_join(base_dir@, "logs"@),
{
    path_join(base_dir, "logs")
}

/// The places a relative config path is looked for, in order: the path
/// as given, then the path under each ancestor of each search root.
pub open spec fn spec_config_path_candidates(path: Seq<char>, roots: Seq<Seq<char>>) -> Seq<
    Seq<char>,
> {
    seq![path] + spec_root_ancestors(roots).map_values(|a: Seq<char>| spec_path_join(a, path))
}

/// The places a relative config path is looked for (see
/// `spec_config_path_candidates`).
pub fn config_path_candidates(path: &str, search_roots: &[String]) -> (r: Vec<String>)
    ensures
        views(r@) == spec_config_path_candidates(path@, views(search_roots@)),
{
    let ancestors = workspace_root_candidates(search_roots);
    let ghost anc = views(ancestors@);
    let mut out: Vec<String> = Vec::new();
    out.push(path.to_owned());
    let mut i: usize = 0;
    while i < ancestors.len()
        invariant
            i <= ancestors@.len(),
            anc == views(ancestors@),
            views(out@) == seq![path@] + anc.take(i as int).map_values(
                |a: Seq<char>| spec_path_join(a, path@),
            ),
        decreases ancestors@.len() - i,
    {
        let joined = path_join(ancestors[i].as_str(), path);
        let ghost before = out@;
        out.push(joined);
        proof {
            assert(anc[i as int] == ancestors@[i as int]@);
            assert(anc.take(i + 1).map_values(|a: Seq<char>| spec_path_join(a, path@)) =~= anc.take(
                i as int,
            ).map_values(|a: Seq<char>| spec_path_join(a, path@)).push(
                spec_path_join(anc[i as int], path@),
            ));
            assert(views(out@) =~= views(before).push(joined@));
        }
        i = i + 1;
    }
    assert(anc.take(i as int) =~= anc);
    out
}

/// Where a config path leads: an absolute path as given; else the first
/// candidate place (see `spec_config_path_candidates`) among
/// `existing_paths`; else the path under the base directory.
pub open spec fn spec_resolve_config_path(
    path: Seq<char>,
    roots: Seq<Seq<char>>,
    existing_paths: Seq<Seq<char>>,
    base_dir: Seq<char>,
) -> Seq<char> {
    if spec_path_is_absolute(path) {
        path
    } else {
        match first_marked(spec_config_path_candidates(path, roots), existing_paths) {
            Some(found) => found,
            None => spec_path_join(base_dir, path),
        }
    }
}

/// Resolves a config path (see `spec_resolve_config_path`), given the
/// candidate places found to exist on disk and the base directory.
pub fn resolve_config_path(
    path: &str,
    search_roots: &[String],
    existing_paths: &[String],
    base_dir: &str,
) -> (r: String)
    ensures
        r@ == spec_resolve_config_path(
            path@,
            views(search_roots@),
            views(existing_paths@),
            base_dir@,
        ),
{
    if path_is_absolute(path) {
        return path.to_owned();
    }
    let candidates = config_path_candidates(path, search_roots);
    match first_marked_of(&candidates, existing_paths) {
        Some(found) => found,
        None => path_join(base_dir, path),
    }
}

proof fn lemma_first_marked_is_marked(candidates: Seq<Seq<char>>, marked: Seq<Seq<char>>)
    ensures
        first_marked(candidates, marked) matches Some(f) ==> marked.contains(f),
    decreases candidates.len(),
{
    if candidates.len() > 0 && !marked.contains(candidates[0]) {
        lemma_first_marked_is_marked(candidates.drop_first(), marked);
    }
}

/// Resolving again, with the same search roots, existing paths and base
/// directory, keeps the path a first resolution gave, whenever that path
/// is absolute or was found among the existing paths: only a relative path
/// found nowhere, under a base directory that leaves it relative, can
/// resolve anew.
pub proof fn lemma_resolve_is_fixed(
    path: Seq<char>,
    roots: Seq<Seq<char>>,
    existing_paths: Seq<Seq<char>>,
    base_dir: Seq<char>,
)
    ensures
        ({
            let once = spec_resolve_config_path(path, roots, existing_paths, base_dir);
            &&& !spec_path_is_absolute(path) && first_marked(
                spec_config_path_candidates(path, roots),
                existing_paths,
            ) is Some ==> existing_paths.contains(once)
            &&& spec_path_is_absolute(once) || existing_paths.contains(once) ==> spec_resolve_config_path(
                once,
                roots,
                existing_paths,
                base_dir,
            ) == once
        }),
{
    let once = spec_resolve_config_path(path, roots, existing_paths, base_dir);
    lemma_first_marked_is_marked(spec_config_path_candidates(path, roots), existing_paths);
    let c = spec_config_path_candidates(once, roots);
    assert(c[0] == once);
}

/// A relative path taken under `base_dir`; an absolute one unchanged.
pub open spec fn spec_under_base(path: Seq<char>, base_dir: Seq<char>) -> Seq<char> {
    if spec_path_is_absolute(path) {
        path
    } else {
        spec_path_join(base_dir, path)
    }
}

fn under_base(path: &String, base_dir: &str) -> (r: String)
    ensures
        r@ == spec_under_base(path@, base_dir@),
{
    if path_is_absolute(path.as_str()) {
        path.clone()
    } else {
        path_join(base_dir, path.as_str())
    }
}

/// Takes the config's output WAV path and debug dump directory under
/// `base_dir` when they are relative; nothing else changes.
pub fn normalize_relative_paths(config: &mut NodeConfig, base_dir: &str)
    ensures
        final(config).output.wav_path@ == spec_under_base(old(config).output.wav_path@, base_dir@),
        final(config).debug.dump_dir@ == spec_under_base(old(config).debug.dump_dir@, base_dir@),
        final(config).node == old(config).node,
        final(config).audio == old(config).audio,
        final(config).sync == old(config).sync,
        final(config).cancel == old(config).cancel,
        final(config).vad == old(config).vad,
        final(config).residual == old(config).residual,
        final(config).gui == old(config).gui,
        final(config).output.backend == old(config).output.backend,
        final(config).output.target_device == old(config).output.target_device,
        final(config).output.primary_target_device == old(config).output.primary_target_device,
        final(config).output.secondary_target_device == old(
            config,
        ).output.secondary_target_device,
        final(config).output.routing == old(config).output.routing,
        final(config).output.monitor_processed_output == old(
            config,
        ).output.monitor_processed_output,
        final(config).debug.dump_wav == old(config).debug.dump_wav,
        final(config).debug.dump_metrics == old(config).debug.dump_metrics,
        final(config).debug.log_level == old(config).debug.log_level,
        final(config).debug.mock_peer_delay_ms == old(config).debug.mock_peer_delay_ms,
        final(config).debug.mock_peer_gain == old(config).debug.mock_peer_gain,
{
    let wav = under_base(&config.output.wav_path, base_dir);
    let dump = under_base(&config.debug.dump_dir, base_dir);
    config.output.wav_path = wav;
    config.debug.dump_dir = dump;
}

/// `after` is `before` with its output WAV path and debug dump directory
/// taken under `base_dir` (see `spec_under_base`) and nothing else changed.
pub open spec fn spec_paths_under_base(before: NodeConfig, after: NodeConfig, base_dir: Seq<char>) -> bool {
    &&& after.output.wav_path@ == spec_under_base(before.output.wav_path@, base_dir)
    &&& after.debug.dump_dir@ == spec_under_base(before.debug.dump_dir@, base_dir)
    &&& after.node == before.node
    &&& after.audio == before.audio
    &&& after.sync == before.sync
    &&& after.cancel == before.cancel
    &&& after.vad == before.vad
    &&& after.residual == before.residual
    &&& after.gui == before.gui
    &&& after.output.backend == before.output.backend
    &&& after.output.target_device == before.output.target_device
    &&& after.output.primary_target_device == before.output.primary_target_device
    &&& after.output.secondary_target_device == before.output.secondary_target_device
    &&& after.output.routing == before.output.routing
    &&& after.output.monitor_processed_output == before.output.monitor_processed_output
    &&& after.debug.dump_wav == before.debug.dump_wav
    &&& after.debug.dump_metrics == before.debug.dump_metrics
    &&& after.debug.log_level == before.debug.log_level
    &&& after.debug.mock_peer_delay_ms == before.debug.mock_peer_delay_ms
    &&& after.debug.mock_peer_gain == before.debug.mock_peer_gain
}

/// A parsed config made ready for use, as loading does: its relative
/// output WAV path and debug dump directory are taken under `base_dir`,
/// then it is checked against the rules, given the ports of its listen and
/// peer addresses where they parse as `ip:port`. It is refused with the
/// first rule the parsed config breaks, and accepted exactly when it
/// breaks none.
pub fn prepare_loaded_config(
    config: NodeConfig,
    base_dir: &str,
    listen_port: Option<u16>,
    peer_port: Option<u16>,
) -> (r: Result<NodeConfig, ConfigError>)
    ensures
        match spec_validate_config(config, listen_port, peer_port) {
            Ok(()) => r matches Ok(c) && spec_paths_under_base(config, c, base_dir@),
            Err(e) => r == Err::<NodeConfig, ConfigError>(e),
        },
{
    let mut config = config;
    let ghost before = config;
    normalize_relative_paths(&mut config, base_dir);
    assert(spec_validate_config(config, listen_port, peer_port) == spec_validate_config(
        before,
        listen_port,
        peer_port,
    ));
    match validate_config(&config, listen_port, peer_port) {
        Ok(()) => Ok(config),
        Err(e) => Err(e),
    }
}

/// The config text to parse: what was read from the resolved path; failing
/// that, the compiled-in preset for the path as given, or else for the
/// resolved path; `None` when there is neither.
pub open spec fn spec_config_text(
    read: Option<Seq<char>>,
    path: Seq<char>,
    resolved_path: Seq<char>,
) -> Option<Seq<char>> {
    match read {
        Some(text) => Some(text),
        None => match spec_embedded_config_contents(path) {
            Some(text) => Some(text),
            None => spec_embedded_config_contents(resolved_path),
        },
    }
}

/// Chooses the config text to parse (see `spec_config_text`).
pub fn config_text(read: Option<String>, path: &str, resolved_path: &str) -> (r: Option<String>)
    ensures
        match r {
            Some(t) => spec_config_text(
                match read {
                    Some(x) => Some(x@),
                    None => None,
                },
                path@,
                resolved_path@,
            ) == Some(t@),
            None => spec_config_text(
                match read {
                    Some(x) => Some(x@),
                    None => None,
                },
                path@,
                resolved_path@,
            ) is None,
        },
{
    match read {
        Some(text) => Some(text),
        None => match embedded_config_contents(path) {
            Some(text) => Some(text.to_owned()),
            None => match embedded_config_contents(resolved_path) {
                Some(text) => Some(text.to_owned()),
                None => None,
            },
        },
    }
}

} // verus!
