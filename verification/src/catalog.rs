use crate::order::{sort_by_key, sorted_by_key, views, SortKey};
use crate::text::{
    decimal, digit_char, digit_value, digits_value, parse_u32, rsplit_once, spec_decimal,
    spec_parse_u32, spec_rsplit_once,
};
use vstd::prelude::*;

verus! {

/// What `Path::file_name` gives for a path, as text.
pub uninterp spec fn spec_path_file_name(path: Seq<char>) -> Option<Seq<char>>;

/// What `Path::file_stem` gives for a path, as text.
pub uninterp spec fn spec_path_file_stem(path: Seq<char>) -> Option<Seq<char>>;

/// What `Path::extension` gives for a path, as text.
pub uninterp spec fn spec_path_extension(path: Seq<char>) -> Option<Seq<char>>;

/// What `Path::join` gives for a base path and a relative part, as text.
pub uninterp spec fn spec_path_join(base: Seq<char>, part: Seq<char>) -> Seq<char>;

/// Trusted: `Path::file_name` on a UTF-8 path; the final component, if
/// any, converted back to text (always possible for text input).
#[verifier::external_body]
pub(crate) fn path_file_name(path: &str) -> (r: Option<String>)
    ensures
        match r {
            Some(n) => spec_path_file_name(path@) == Some(n@),
            None => spec_path_file_name(path@) is None,
        },
{
    match std::path::Path::new(path).file_name() {
        Some(name) => Some(name.to_string_lossy().into_owned()),
        None => None,
    }
}

/// Trusted: `Path::file_stem` on a UTF-8 path; the file name without its
/// extension, if any.
#[verifier::external_body]
pub(crate) fn path_file_stem(path: &str) -> (r: Option<String>)
    ensures
        match r {
            Some(n) => spec_path_file_stem(path@) == Some(n@),
            None => spec_path_file_stem(path@) is None,
        },
{
    match std::path::Path::new(path).file_stem() {
        Some(stem) => Some(stem.to_string_lossy().into_owned()),
        None => None,
    }
}

/// Trusted: `Path::extension` on a UTF-8 path; the text after the last dot
/// of the file name, if any.
#[verifier::external_body]
pub(crate) fn path_extension(path: &str) -> (r: Option<String>)
    ensures
        match r {
            Some(n) => spec_path_extension(path@) == Some(n@),
            None => spec_path_extension(path@) is None,
        },
{
    match std::path::Path::new(path).extension() {
        Some(ext) => Some(ext.to_string_lossy().into_owned()),
        None => None,
    }
}

/// Trusted: `Path::join` of two UTF-8 paths, converted back to text.
#[verifier::external_body]
pub(crate) fn path_join(base: &str, part: &str) -> (r: String)
    ensures
        r@ == spec_path_join(base@, part@),
{
    std::path::Path::new(base).join(part).to_string_lossy().into_owned()
}

/// A stem split into its base and a trailing `-<number>`, if it has one.
pub open spec fn spec_split_numeric_suffix(stem: Seq<char>) -> (Seq<char>, Option<u32>) {
    match spec_rsplit_once(stem, '-') {
        None => (stem, None),
        Some((base, suffix)) => match spec_parse_u32(suffix) {
            Some(index) => (base, Some(index)),
            None => (stem, None),
        },
    }
}

/// Splits `node-a-2` into `node-a` and 2; a stem without a numeric suffix
/// is returned whole.
pub fn split_numeric_suffix(stem: &str) -> (r: (&str, Option<u32>))
    ensures
        (r.0@, r.1) == spec_split_numeric_suffix(stem@),
{
    match rsplit_once(stem, '-') {
        None => (stem, None),
        Some((base, suffix)) => match parse_u32(suffix) {
            Some(index) => (base, Some(index)),
            None => (stem, None),
        },
    }
}

/// The storage path `configs/<base>-<index><extension>`.
pub open spec fn numbered_config_path(base: Seq<char>, index: nat, extension: Seq<char>) -> Seq<
    char,
> {
    "configs/"@ + base + "-"@ + spec_decimal(index) + extension
}

/// File name of `path`, or `path` itself when it has none.
pub open spec fn spec_name_part(path: Seq<char>) -> Seq<char> {
    match spec_path_file_name(path) {
        Some(n) => n,
        None => path,
    }
}

/// Stem of a file name, or the file name itself when it has none.
pub open spec fn spec_stem_part(file_name: Seq<char>) -> Seq<char> {
    match spec_path_file_stem(file_name) {
        Some(s) => s,
        None => file_name,
    }
}

/// Extension of a file name with its dot, or nothing.
pub open spec fn spec_extension_part(file_name: Seq<char>) -> Seq<char> {
    match spec_path_extension(file_name) {
        Some(e) => "."@ + e,
        None => Seq::empty(),
    }
}

/// The first index to try: one past the numeric suffix of the stem.
pub open spec fn spec_first_index(path: Seq<char>) -> nat {
    match spec_split_numeric_suffix(spec_stem_part(spec_name_part(path))).1 {
        Some(i) => (i + 1) as nat,
        None => 1,
    }
}

/// `k` is the first index from `first` on whose numbered path is free.
pub open spec fn is_first_free_index(
    base: Seq<char>,
    extension: Seq<char>,
    existing: Seq<Seq<char>>,
    first: nat,
    k: nat,
) -> bool {
    &&& first <= k
    &&& !existing.contains(numbered_config_path(base, k, extension))
    &&& forall|j: nat| first <= j < k ==> existing.contains(numbered_config_path(base, j, extension))
}

/// The path under `configs/` that an incoming config named like `path`
/// gets when that name is taken: the stem without any numeric suffix,
/// numbered with the first free index above that suffix (above 0 when there
/// is none), with the original extension.
pub open spec fn spec_next_available_config_path(path: Seq<char>, existing: Seq<Seq<char>>) -> Seq<
    char,
> {
    let name = spec_name_part(path);
    let base = spec_split_numeric_suffix(spec_stem_part(name)).0;
    let extension = spec_extension_part(name);
    let first = spec_first_index(path);
    numbered_config_path(
        base,
        choose|k: nat| is_first_free_index(base, extension, existing, first, k),
        extension,
    )
}

proof fn lemma_first_free_unique(
    base: Seq<char>,
    extension: Seq<char>,
    existing: Seq<Seq<char>>,
    first: nat,
    k1: nat,
    k2: nat,
)
    requires
        is_first_free_index(base, extension, existing, first, k1),
        is_first_free_index(base, extension, existing, first, k2),
    ensures
        k1 == k2,
{
    if k1 < k2 {
        assert(existing.contains(numbered_config_path(base, k1, extension)));
    } else if k2 < k1 {
        assert(existing.contains(numbered_config_path(base, k2, extension)));
    }
}

proof fn lemma_digit_round_trip(d: nat)
    requires
        d < 10,
    ensures
        digit_value(digit_char(d)) == d,
{
    let x: u8 = (d + 48) as u8;
    assert(x == d + 48);
    assert((x as char) as u32 == x);
}

/// Decimal representations are read back as the number they stand for.
pub proof fn lemma_decimal_value(n: nat)
    ensures
        digits_value(spec_decimal(n)) == n,
    decreases n,
{
    if n < 10 {
        lemma_digit_round_trip(n);
        let s = spec_decimal(n);
        assert(s.drop_last() =~= Seq::<char>::empty());
        assert(s.last() == digit_char(n));
        assert(digits_value(s) == digits_value(s.drop_last()) * 10 + digit_value(s.last()));
    } else {
        lemma_decimal_value(n / 10);
        lemma_digit_round_trip(n % 10);
        let s = spec_decimal(n);
        assert(s.drop_last() =~= spec_decimal(n / 10));
        assert(s.last() == digit_char(n % 10));
        assert(digits_value(s) == digits_value(s.drop_last()) * 10 + digit_value(s.last()));
        assert((n / 10) * 10 + n % 10 == n);
    }
}

proof fn lemma_numbered_path_injective(base: Seq<char>, extension: Seq<char>, a: nat, b: nat)
    requires
        numbered_config_path(base, a, extension) == numbered_config_path(base, b, extension),
    ensures
        a == b,
{
    let p = "configs/"@ + base + "-"@;
    let da = spec_decimal(a);
    let db = spec_decimal(b);
    let s = p + da + extension;
    let t = p + db + extension;
    assert(s == t);
    assert(da.len() == db.len());
    assert(s.subrange(p.len() as int, (p.len() + da.len()) as int) =~= da);
    assert(t.subrange(p.len() as int, (p.len() + db.len()) as int) =~= db);
    lemma_decimal_value(a);
    lemma_decimal_value(b);
}

proof fn lemma_free_index_from(
    base: Seq<char>,
    extension: Seq<char>,
    existing: Seq<Seq<char>>,
    first: nat,
    j: nat,
    seen: Set<Seq<char>>,
)
    requires
        first <= j,
        seen.finite(),
        seen.len() == j - first,
        seen.subset_of(existing.to_set()),
        existing.to_set().finite(),
        seen == Set::new(
            |s: Seq<char>| exists|i: nat| first <= i < j && s == numbered_config_path(base, i, extension),
        ),
        forall|i: nat|
            first <= i < j ==> existing.contains(#[trigger] numbered_config_path(base, i, extension)),
    ensures
        exists|k: nat| is_first_free_index(base, extension, existing, first, k),
    decreases existing.to_set().len() - seen.len(),
{
    vstd::set_lib::lemma_len_subset(seen, existing.to_set());
    let c = numbered_config_path(base, j, extension);
    if !existing.contains(c) {
        assert(is_first_free_index(base, extension, existing, first, j));
    } else {
        assert(!seen.contains(c)) by {
            if seen.contains(c) {
                let i = choose|i: nat| first <= i < j && c == numbered_config_path(base, i, extension);
                lemma_numbered_path_injective(base, extension, i, j);
            }
        }
        let seen2 = seen.insert(c);
        assert(existing.to_set().contains(c));
        vstd::set_lib::lemma_len_subset(seen2, existing.to_set());
        assert(seen2 =~= Set::new(
            |s: Seq<char>|
                exists|i: nat| first <= i < j + 1 && s == numbered_config_path(base, i, extension),
        )) by {
            assert forall|s: Seq<char>| seen2.contains(s) implies exists|i: nat|
                first <= i < j + 1 && s == numbered_config_path(base, i, extension) by {
                if s == c {
                    assert(first <= j < j + 1);
                } else {
                    let i = choose|i: nat|
                        first <= i < j && s == numbered_config_path(base, i, extension);
                    assert(first <= i < j + 1);
                }
            }
        }
        lemma_free_index_from(base, extension, existing, first, j + 1, seen2);
    }
}

/// The path `next_available_config_path` gives is the numbered path at the
/// least index above the numeric suffix (above 0 when there is none) that
/// no existing path takes; such an index always exists, so the result is
/// never an existing path, and its stem is the base without the old suffix,
/// so suffixes never nest.
pub proof fn lemma_next_available_is_least_free(path: Seq<char>, existing: Seq<Seq<char>>)
    ensures
        exists|k: nat|
            #[trigger] is_first_free_index(
                spec_split_numeric_suffix(spec_stem_part(spec_name_part(path))).0,
                spec_extension_part(spec_name_part(path)),
                existing,
                spec_first_index(path),
                k,
            ) && spec_next_available_config_path(path, existing) == numbered_config_path(
                spec_split_numeric_suffix(spec_stem_part(spec_name_part(path))).0,
                k,
                spec_extension_part(spec_name_part(path)),
            ),
        !existing.contains(spec_next_available_config_path(path, existing)),
{
    let name = spec_name_part(path);
    let base = spec_split_numeric_suffix(spec_stem_part(name)).0;
    let ext = spec_extension_part(name);
    let first = spec_first_index(path);
    existing.lemma_cardinality_of_set();
    let empty = Set::<Seq<char>>::empty();
    assert(empty =~= Set::new(
        |s: Seq<char>| exists|i: nat| first <= i < first && s == numbered_config_path(base, i, ext),
    ));
    lemma_free_index_from(base, ext, existing, first, first, empty);
    let k = choose|k: nat| is_first_free_index(base, ext, existing, first, k);
    assert(is_first_free_index(base, ext, existing, first, k));
}

pub(crate) fn contains_string(haystack: &[String], needle: &String) -> (r: bool)
    ensures
        r == views(haystack@).contains(needle@),
{
    let mut i: usize = 0;
    while i < haystack.len()
        invariant
            i <= haystack@.len(),
            forall|j: int| 0 <= j < i ==> haystack@[j]@ != needle@,
        decreases haystack@.len() - i,
    {
        if haystack[i] == *needle {
            assert(views(haystack@)[i as int] == needle@);
            return true;
        }
        i = i + 1;
    }
    assert forall|j: int| 0 <= j < views(haystack@).len() implies views(haystack@)[j]
        != needle@ by {
        assert(views(haystack@)[j] == haystack@[j]@);
    }
    false
}

/// The free path under `configs/` for a config named like `path`, given
/// the paths already in use (see `spec_next_available_config_path`).
pub fn next_available_config_path(path: &str, existing_paths: &[String]) -> (r: String)
    ensures
        r@ == spec_next_available_config_path(path@, views(existing_paths@)),
        !views(existing_paths@).contains(r@),
{
    let owned_path = path.to_owned();
    let file_name: String = match path_file_name(path) {
        Some(n) => n,
        None => owned_path,
    };
    let stem: String = match path_file_stem(file_name.as_str()) {
        Some(s) => s,
        None => file_name.clone(),
    };
    let extension: String = match path_extension(file_name.as_str()) {
        Some(e) => {
            let mut dotted = ".".to_owned();
            dotted.append(e.as_str());
            dotted
        },
        None => String::new(),
    };
    let (base_stem, start_index) = split_numeric_suffix(stem.as_str());
    let first: u128 = match start_index {
        Some(i) => i as u128 + 1,
        None => 1,
    };
    let count: usize = existing_paths.len();
    let ghost existing = views(existing_paths@);
    let ghost base = base_stem@;
    let ghost ext = extension@;
    proof {
        assert(file_name@ == spec_name_part(path@));
        assert(stem@ == spec_stem_part(file_name@));
        assert(extension@ =~= spec_extension_part(file_name@));
        assert(first == spec_first_index(path@));
        existing.lemma_cardinality_of_set();
    }
    let mut next_index: u128 = first;
    let ghost mut seen: Set<Seq<char>> = Set::empty();
    loop
        invariant
            first <= next_index,
            next_index - first == seen.len(),
            first <= u32::MAX + 1,
            existing.len() == count,
            seen.finite(),
            seen.subset_of(existing.to_set()),
            existing.to_set().len() <= existing.len(),
            existing.to_set().finite(),
            existing == views(existing_paths@),
            base == base_stem@,
            ext == extension@,
            base == spec_split_numeric_suffix(spec_stem_part(spec_name_part(path@))).0,
            ext == spec_extension_part(spec_name_part(path@)),
            first == spec_first_index(path@),
            seen == Set::new(
                |s: Seq<char>|
                    exists|j: nat|
                        first <= j < next_index && s == numbered_config_path(base, j, ext),
            ),
            forall|j: nat|
                first <= j < next_index ==> existing.contains(
                    #[trigger] numbered_config_path(base, j, ext),
                ),
        decreases existing.len() - seen.len(),
    {
        let mut candidate = "configs/".to_owned();
        candidate.append(base_stem);
        candidate.append("-");
        let digits = decimal(next_index);
        candidate.append(digits.as_str());
        candidate.append(extension.as_str());
        assert(candidate@ =~= numbered_config_path(base, next_index as nat, ext));
        if !contains_string(existing_paths, &candidate) {
            proof {
                let k = next_index as nat;
                assert(is_first_free_index(base, ext, existing, first as nat, k));
                let c = choose|k: nat| is_first_free_index(base, ext, existing, first as nat, k);
                lemma_first_free_unique(base, ext, existing, first as nat, k, c);
            }
            return candidate;
        }
        proof {
            let c = numbered_config_path(base, next_index as nat, ext);
            assert(!seen.contains(c)) by {
                if seen.contains(c) {
                    let j = choose|j: nat|
                        first <= j < next_index && c == numbered_config_path(base, j, ext);
                    lemma_numbered_path_injective(base, ext, j, next_index as nat);
                }
            }
            let seen2 = seen.insert(c);
            assert(existing.to_set().contains(c));
            vstd::set_lib::lemma_len_subset(seen2, existing.to_set());
            assert(seen2 =~= Set::new(
                |s: Seq<char>|
                    exists|j: nat|
                        first <= j < next_index + 1 && s == numbered_config_path(base, j, ext),
            )) by {
                assert forall|s: Seq<char>| seen2.contains(s) implies exists|j: nat|
                    first <= j < next_index + 1 && s == numbered_config_path(base, j, ext) by {
                    if s == c {
                        assert(first <= next_index < next_index + 1);
                    } else {
                        let j = choose|j: nat|
                            first <= j < next_index && s == numbered_config_path(base, j, ext);
                        assert(first <= j < next_index + 1);
                    }
                }
            }
            seen = seen2;
        }
        next_index = next_index + 1;
    }
}

/// A config preset compiled into the library.
pub struct EmbeddedConfigPreset {
    pub path: &'static str,
    pub contents: &'static str,
}

/// The master preset.
pub const MASTER_PRESET: &'static str = "[node]\nname = \"master\"\nlisten_addr = \"0.0.0.0:38001\"\npeer_addr = \"127.0.0.1:38002\"\ntransport_backend = \"udp\"\nsession_mode = \"master_slave\"\nrole = \"master\"\n\n[audio]\nbackend = \"wasapi\"\ninput_device = \"default\"\n\n[output]\nbackend = \"virtual_stub\"\nrouting = \"mix_to_primary\"\nprimary_target_device = \"default\"\nwav_path = \"artifacts/master/processed-output.wav\"\n\n[debug]\ndump_dir = \"artifacts/master\"\n";

/// The slave preset.
pub const SLAVE_PRESET: &'static str = "[node]\nname = \"slave\"\nlisten_addr = \"0.0.0.0:38002\"\npeer_addr = \"127.0.0.1:38001\"\ntransport_backend = \"udp\"\nsession_mode = \"master_slave\"\nrole = \"slave\"\n\n[audio]\nbackend = \"wasapi\"\ninput_device = \"default\"\n\n[output]\nbackend = \"virtual_stub\"\nrouting = \"local_only\"\nprimary_target_device = \"default\"\nwav_path = \"artifacts/slave/processed-output.wav\"\n\n[debug]\ndump_dir = \"artifacts/slave\"\n";

/// The peer preset.
pub const PEER_PRESET: &'static str = "[node]\nname = \"peer\"\nlisten_addr = \"0.0.0.0:38001\"\npeer_addr = \"127.0.0.1:38001\"\ntransport_backend = \"udp\"\nsession_mode = \"peer\"\nrole = \"peer\"\n\n[audio]\nbackend = \"wasapi\"\ninput_device = \"default\"\n\n[output]\nbackend = \"virtual_stub\"\nrouting = \"local_only\"\nprimary_target_device = \"default\"\nwav_path = \"artifacts/peer/processed-output.wav\"\n\n[debug]\ndump_dir = \"artifacts/peer\"\n";

/// Storage paths and contents of the compiled-in presets, in order.
pub open spec fn spec_embedded_presets() -> Seq<(Seq<char>, Seq<char>)> {
    seq![
        ("configs/master.toml"@, MASTER_PRESET@),
        ("configs/slave.toml"@, SLAVE_PRESET@),
        ("configs/peer.toml"@, PEER_PRESET@),
    ]
}

/// Storage paths of the compiled-in presets, in order.
pub open spec fn spec_embedded_preset_names() -> Seq<Seq<char>> {
    spec_embedded_presets().map_values(|p: (Seq<char>, Seq<char>)| p.0)
}

/// The compiled-in text for each preset file: the master preset for
/// `configs/master.toml`, the slave preset for `configs/slave.toml`, the
/// peer preset for `configs/peer.toml`; nothing for any other path.
pub open spec fn preset_text_for(path: Seq<char>) -> Option<Seq<char>> {
    if path == "configs/master.toml"@ {
        Some(MASTER_PRESET@)
    } else if path == "configs/slave.toml"@ {
        Some(SLAVE_PRESET@)
    } else if path == "configs/peer.toml"@ {
        Some(PEER_PRESET@)
    } else {
        None
    }
}

/// Every compiled-in preset carries the text of its own file, and the
/// presets are exactly the master, slave and peer files, each once.
pub proof fn lemma_presets_carry_their_own_text()
    ensures
        forall|i: int|
            0 <= i < spec_embedded_presets().len() ==> preset_text_for(
                #[trigger] spec_embedded_presets()[i].0,
            ) == Some(spec_embedded_presets()[i].1),
        spec_embedded_presets().len() == 3,
        spec_embedded_preset_names().contains("configs/master.toml"@),
        spec_embedded_preset_names().contains("configs/slave.toml"@),
        spec_embedded_preset_names().contains("configs/peer.toml"@),
{
    reveal_strlit("configs/master.toml");
    reveal_strlit("configs/slave.toml");
    reveal_strlit("configs/peer.toml");
    let p = spec_embedded_presets();
    let n = spec_embedded_preset_names();
    assert(p[0].0.len() != p[1].0.len() && p[0].0.len() != p[2].0.len() && p[1].0.len()
        != p[2].0.len());
    assert(n[0] == "configs/master.toml"@);
    assert(n[1] == "configs/slave.toml"@);
    assert(n[2] == "configs/peer.toml"@);
}

/// The compiled-in presets.
pub fn embedded_config_presets() -> (r: Vec<EmbeddedConfigPreset>)
    ensures
        r@.len() == spec_embedded_presets().len(),
        forall|i: int|
            0 <= i < r@.len() ==> (#[trigger] r@[i].path@, r@[i].contents@)
                == spec_embedded_presets()[i],
{
    let mut r: Vec<EmbeddedConfigPreset> = Vec::new();
    r.push(EmbeddedConfigPreset { path: "configs/master.toml", contents: MASTER_PRESET });
    r.push(EmbeddedConfigPreset { path: "configs/slave.toml", contents: SLAVE_PRESET });
    r.push(EmbeddedConfigPreset { path: "configs/peer.toml", contents: PEER_PRESET });
    r
}

/// Storage paths of the compiled-in presets.
pub fn embedded_config_preset_names() -> (r: Vec<String>)
    ensures
        views(r@) == spec_embedded_preset_names(),
{
    let presets = embedded_config_presets();
    let mut names: Vec<String> = Vec::new();
    let mut i: usize = 0;
    while i < presets.len()
        invariant
            i <= presets@.len(),
            presets@.len() == spec_embedded_presets().len(),
            forall|j: int|
                0 <= j < presets@.len() ==> (#[trigger] presets@[j].path@, presets@[j].contents@)
                    == spec_embedded_presets()[j],
            views(names@) == spec_embedded_preset_names().take(i as int),
        decreases presets@.len() - i,
    {
        let ghost before = names@;
        names.push(presets[i].path.to_owned());
        assert(views(names@) =~= views(before).push(presets@[i as int].path@));
        assert(views(names@) =~= spec_embedded_preset_names().take(i + 1)) by {
            assert(presets@[i as int].path@ == spec_embedded_presets()[i as int].0);
            assert(spec_embedded_preset_names().take(i + 1) =~= spec_embedded_preset_names().take(
                i as int,
            ).push(spec_embedded_presets()[i as int].0));
        }
        i = i + 1;
    }
    assert(spec_embedded_preset_names().take(i as int) =~= spec_embedded_preset_names());
    names
}

/// `s` ends with `t`.
pub open spec fn spec_ends_with(s: Seq<char>, t: Seq<char>) -> bool {
    s.len() >= t.len() && s.skip(s.len() - t.len()) == t
}

/// Whether `s` ends with `t` (as `str::ends_with`).
pub fn ends_with(s: &str, t: &str) -> (r: bool)
    ensures
        r == spec_ends_with(s@, t@),
{
    let n = s.unicode_len();
    let m = t.unicode_len();
    if m > n {
        return false;
    }
    let mut i: usize = 0;
    while i < m
        invariant
            i <= m,
            m <= n,
            n == s@.len(),
            m == t@.len(),
            forall|j: int| 0 <= j < i ==> s@[n - m + j] == t@[j],
        decreases m - i,
    {
        if s.get_char(n - m + i) != t.get_char(i) {
            assert(s@.skip(n - m)[i as int] != t@[i as int]);
            return false;
        }
        i = i + 1;
    }
    assert(s@.skip(n - m) =~= t@);
    true
}

/// `s` with every backslash turned into a slash.
pub open spec fn spec_forward_slashes(s: Seq<char>) -> Seq<char> {
    s.map_values(|c: char| if c == '\\' { '/' } else { c })
}

/// Replaces every backslash with a slash.
pub fn forward_slashes(s: &str) -> (r: String)
    ensures
        r@ == spec_forward_slashes(s@),
{
    let n = s.unicode_len();
    let mut out = String::new();
    let mut i: usize = 0;
    while i < n
        invariant
            i <= n,
            n == s@.len(),
            out@ == spec_forward_slashes(s@.take(i as int)),
        decreases n - i,
    {
        let c = s.get_char(i);
        crate::text::push_char(&mut out, if c == '\\' { '/' } else { c });
        assert(spec_forward_slashes(s@.take(i + 1)) =~= spec_forward_slashes(s@.take(i as int)).push(
            if c == '\\' { '/' } else { c },
        ));
        i = i + 1;
    }
    assert(s@.take(n as int) =~= s@);
    out
}

/// A preset that answers a request for `path_text` whose file name is
/// `file_name`: same path, or a preset path ending in the requested path or
/// in its file name.
pub open spec fn preset_matches(preset_path: Seq<char>, path_text: Seq<char>, file_name: Seq<char>) -> bool {
    preset_path == path_text || spec_ends_with(preset_path, path_text) || spec_ends_with(
        preset_path,
        file_name,
    )
}

/// The contents of the first compiled-in preset that answers a request for
/// `path` (backslashes read as slashes), or `None` when the path has no
/// file name or no preset answers.
pub open spec fn spec_embedded_config_contents(path: Seq<char>) -> Option<Seq<char>> {
    match spec_path_file_name(path) {
        None => None,
        Some(file_name) => {
            let text = spec_forward_slashes(path);
            let presets = spec_embedded_presets();
            if exists|i: int| 0 <= i < presets.len() && preset_matches(presets[i].0, text, file_name) {
                let i = choose|i: int|
                    0 <= i < presets.len() && preset_matches(presets[i].0, text, file_name) && forall|
                        j: int,
                    |
                        0 <= j < i ==> !preset_matches(presets[j].0, text, file_name);
                Some(presets[i].1)
            } else {
                None
            }
        },
    }
}

/// A config path missing on disk is answered only with the text of a
/// compiled-in preset file that answers the request (see `preset_matches`),
/// and always with that file's own text.
pub proof fn lemma_embedded_contents_are_preset_texts(path: Seq<char>)
    ensures
        spec_embedded_config_contents(path) matches Some(text) ==> spec_path_file_name(path) matches Some(
            file_name,
        ) && exists|i: int|
            0 <= i < spec_embedded_presets().len() && preset_matches(
                #[trigger] spec_embedded_presets()[i].0,
                spec_forward_slashes(path),
                file_name,
            ) && preset_text_for(spec_embedded_presets()[i].0) == Some(text),
{
    lemma_presets_carry_their_own_text();
}

/// A request for a preset file by its own path (slashes or backslashes),
/// or by its file name alone, is answered with that preset's own text.
pub proof fn lemma_preset_requested_by_name(path: Seq<char>, preset: Seq<char>, file_name: Seq<char>)
    requires
        (preset == "configs/master.toml"@ && file_name == "master.toml"@) || (preset
            == "configs/slave.toml"@ && file_name == "slave.toml"@) || (preset
            == "configs/peer.toml"@ && file_name == "peer.toml"@),
        spec_forward_slashes(path) == preset || spec_forward_slashes(path) == file_name,
        spec_path_file_name(path) == Some(file_name),
    ensures
        spec_embedded_config_contents(path) == preset_text_for(preset),
{
    reveal_strlit("configs/master.toml");
    reveal_strlit("configs/slave.toml");
    reveal_strlit("configs/peer.toml");
    reveal_strlit("master.toml");
    reveal_strlit("slave.toml");
    reveal_strlit("peer.toml");
    lemma_presets_carry_their_own_text();
    let presets = spec_embedded_presets();
    let text = spec_forward_slashes(path);
    let i = if preset == "configs/master.toml"@ {
        0int
    } else if preset == "configs/slave.toml"@ {
        1int
    } else {
        2int
    };
    assert(presets[i].0 == preset);
    assert(preset.skip(preset.len() - file_name.len()) =~= file_name);
    assert(preset_matches(presets[i].0, text, file_name));
    assert forall|j: int| 0 <= j < i implies !preset_matches(presets[j].0, text, file_name) by {
        let pj = presets[j].0;
        assert(pj != preset);
        assert(pj.len() != file_name.len());
        assert(pj.skip(pj.len() - preset.len())[0] != preset[0]);
        assert(pj.skip(pj.len() - file_name.len())[0] != file_name[0]);
    }
}

/// The compiled-in contents for a config path that is missing on disk.
pub fn embedded_config_contents(path: &str) -> (r: Option<&'static str>)
    ensures
        match r {
            Some(c) => spec_embedded_config_contents(path@) == Some(c@),
            None => spec_embedded_config_contents(path@) is None,
        },
{
    let path_text = forward_slashes(path);
    let file_name = match path_file_name(path) {
        Some(n) => n,
        None => return None,
    };
    let presets = embedded_config_presets();
    let ghost text = path_text@;
    let ghost fname = file_name@;
    let ghost specs = spec_embedded_presets();
    let mut i: usize = 0;
    while i < presets.len()
        invariant
            i <= presets@.len(),
            presets@.len() == specs.len(),
            specs == spec_embedded_presets(),
            text == path_text@,
            fname == file_name@,
            text == spec_forward_slashes(path@),
            spec_path_file_name(path@) == Some(fname),
            forall|j: int|
                0 <= j < presets@.len() ==> (#[trigger] presets@[j].path@, presets@[j].contents@)
                    == specs[j],
            forall|j: int| 0 <= j < i ==> !preset_matches(specs[j].0, text, fname),
        decreases presets@.len() - i,
    {
        let preset_path = presets[i].path;
        if str_eq_string(preset_path, &path_text) || ends_with(preset_path, path_text.as_str())
            || ends_with(preset_path, file_name.as_str()) {
            proof {
                assert(presets@[i as int].path@ == specs[i as int].0);
                assert(presets@[i as int].contents@ == specs[i as int].1);
                assert(spec_path_file_name(path@) == Some(fname));
                assert(preset_matches(specs[i as int].0, text, fname));
                let k = choose|k: int|
                    0 <= k < specs.len() && preset_matches(specs[k].0, text, fname) && forall|
                        j: int,
                    |
                        0 <= j < k ==> !preset_matches(specs[j].0, text, fname);
                assert(0 <= i && (i as int) < specs.len() && preset_matches(
                    specs[i as int].0,
                    text,
                    fname,
                ));
                if k < i {
                } else if k > i {
                    assert(!preset_matches(specs[i as int].0, text, fname));
                }
            }
            return Some(presets[i].contents);
        }
        i = i + 1;
    }
    None
}

fn str_eq_string(a: &str, b: &String) -> (r: bool)
    ensures
        r == (a@ == b@),
{
    crate::order::str_eq(a, b.as_str())
}

} // verus!

verus! {

/// The embedded preset paths missing from `have`, in preset order.
pub open spec fn spec_missing_presets(have: Seq<Seq<char>>, names: Seq<Seq<char>>) -> Seq<
    Seq<char>,
>
    decreases names.len(),
{
    if names.len() == 0 {
        Seq::empty()
    } else {
        spec_missing_presets(have, names.drop_last()) + if have.contains(names.last()) {
            Seq::empty()
        } else {
            seq![names.last()]
        }
    }
}

proof fn lemma_missing_subset(have: Seq<Seq<char>>, names: Seq<Seq<char>>, x: Seq<char>)
    ensures
        spec_missing_presets(have, names).contains(x) ==> names.contains(x) && !have.contains(x),
    decreases names.len(),
{
    if names.len() > 0 {
        lemma_missing_subset(have, names.drop_last(), x);
        let m = spec_missing_presets(have, names.drop_last());
        if spec_missing_presets(have, names).contains(x) {
            let i = choose|i: int| 0 <= i < spec_missing_presets(have, names).len() && spec_missing_presets(have, names)[i] == x;
            if i < m.len() {
                assert(m[i] == x);
                assert(m.contains(x));
                let j = choose|j: int| 0 <= j < names.drop_last().len() && names.drop_last()[j] == x;
                assert(names[j] == x);
            } else {
                assert(x == names.last());
                assert(names[names.len() - 1] == x);
            }
        }
    }
}

proof fn lemma_missing_covers(have: Seq<Seq<char>>, names: Seq<Seq<char>>, x: Seq<char>)
    requires
        names.contains(x),
        !have.contains(x),
    ensures
        spec_missing_presets(have, names).contains(x),
    decreases names.len(),
{
    let m = spec_missing_presets(have, names.drop_last());
    if names.last() == x {
        let full = spec_missing_presets(have, names);
        assert(full[full.len() - 1] == x);
    } else {
        let i = choose|i: int| 0 <= i < names.len() && names[i] == x;
        assert(names.drop_last()[i] == x);
        lemma_missing_covers(have, names.drop_last(), x);
        let j = choose|j: int| 0 <= j < m.len() && m[j] == x;
        assert(spec_missing_presets(have, names)[j] == x);
    }
}

/// Every compiled-in preset is offered: the presets found in a workspace
/// together with the compiled-in ones missing from them cover every
/// compiled-in path, and add nothing the workspace already has.
pub proof fn lemma_presets_cover_embedded(found: Seq<Seq<char>>, name: Seq<char>)
    requires
        spec_embedded_preset_names().contains(name) || found.contains(name),
    ensures
        (found + spec_missing_presets(found, spec_embedded_preset_names())).contains(name),
        !spec_missing_presets(found, spec_embedded_preset_names()).contains(name) || !found.contains(
            name,
        ),
{
    let all = found + spec_missing_presets(found, spec_embedded_preset_names());
    if found.contains(name) {
        let i = choose|i: int| 0 <= i < found.len() && found[i] == name;
        assert(all[i] == name);
    } else {
        lemma_missing_covers(found, spec_embedded_preset_names(), name);
        let m = spec_missing_presets(found, spec_embedded_preset_names());
        let j = choose|j: int| 0 <= j < m.len() && m[j] == name;
        assert(all[found.len() + j] == name);
    }
    lemma_missing_subset(found, spec_embedded_preset_names(), name);
}

/// Adds the compiled-in presets that are not listed yet, then sorts the
/// list.
pub fn merge_embedded_presets(presets: &mut Vec<String>)
    ensures
        sorted_by_key(final(presets)@),
        views(final(presets)@).to_multiset() == (views(old(presets)@) + spec_missing_presets(
            views(old(presets)@),
            spec_embedded_preset_names(),
        )).to_multiset(),
{
    let names = embedded_config_preset_names();
    let ghost have = views(presets@);
    let ghost all = spec_embedded_preset_names();
    let mut i: usize = 0;
    while i < names.len()
        invariant
            i <= names@.len(),
            views(names@) == all,
            all == spec_embedded_preset_names(),
            views(presets@) == have + spec_missing_presets(have, all.take(i as int)),
        decreases names@.len() - i,
    {
        let present = contains_string(presets.as_slice(), &names[i]);
        proof {
            let cur = views(presets@);
            let name = all[i as int];
            assert(views(names@)[i as int] == names@[i as int]@);
            assert(all.take(i + 1).drop_last() =~= all.take(i as int));
            assert(all.take(i + 1).last() == name);
            if !have.contains(name) {
                assert(!spec_missing_presets(have, all.take(i as int)).contains(name)) by {
                    lemma_missing_subset(have, all.take(i as int), name);
                    if all.take(i as int).contains(name) {
                        let j = choose|j: int| 0 <= j < all.take(i as int).len() && all.take(i as int)[j] == name;
                        assert(all[j] == all[i as int]);
                        reveal_strlit("configs/master.toml");
                        reveal_strlit("configs/slave.toml");
                        reveal_strlit("configs/peer.toml");
                        assert(all[0] != all[1]);
                        assert(all[0] != all[2]);
                        assert(all[1] != all[2]);
                    }
                }
            }
            assert(present == cur.contains(name));
            assert(cur.contains(name) == have.contains(name)) by {
                if have.contains(name) {
                    let j = choose|j: int| 0 <= j < have.len() && have[j] == name;
                    assert(cur[j] == name);
                }
            }
        }
        if !present {
            let ghost before = presets@;
            presets.push(names[i].clone());
            assert(views(presets@) =~= views(before).push(names@[i as int]@));
        }
        proof {
            let m0 = spec_missing_presets(have, all.take(i as int));
            let m1 = spec_missing_presets(have, all.take(i + 1));
            assert(views(presets@) =~= have + m1);
        }
        i = i + 1;
    }
    assert(all.take(i as int) =~= all);
    let ghost merged = presets@;
    let mut taken: Vec<String> = Vec::new();
    std::mem::swap(&mut taken, presets);
    let sorted = sort_by_key(taken);
    *presets = sorted;
}

/// Whether `name` has the extension `toml`.
pub open spec fn spec_is_toml_name(name: Seq<char>) -> bool {
    spec_path_extension(name) == Some("toml"@)
}

/// Whether a file name has the extension `toml`.
pub fn is_toml_file_name(name: &str) -> (r: bool)
    ensures
        r == spec_is_toml_name(name@),
{
    match path_extension(name) {
        Some(ext) => crate::order::str_eq(ext.as_str(), "toml"),
        None => false,
    }
}

/// `configs/<name>` for every TOML file name, in the given order.
pub open spec fn spec_toml_presets(names: Seq<Seq<char>>) -> Seq<Seq<char>>
    decreases names.len(),
{
    if names.len() == 0 {
        Seq::empty()
    } else {
        spec_toml_presets(names.drop_last()) + if spec_is_toml_name(names.last()) {
            seq!["configs/"@ + names.last()]
        } else {
            Seq::empty()
        }
    }
}

/// The preset list of a workspace whose `configs` directory holds
/// `file_names`: `configs/<name>` for each TOML file, sorted.
pub fn discover_config_presets_from(file_names: &Vec<String>) -> (r: Vec<String>)
    ensures
        sorted_by_key(r@),
        views(r@).to_multiset() == spec_toml_presets(views(file_names@)).to_multiset(),
{
    let mut presets: Vec<String> = Vec::new();
    let ghost names = views(file_names@);
    let mut i: usize = 0;
    while i < file_names.len()
        invariant
            i <= file_names@.len(),
            names == views(file_names@),
            views(presets@) == spec_toml_presets(names.take(i as int)),
        decreases file_names@.len() - i,
    {
        proof {
            assert(names.take(i + 1).drop_last() =~= names.take(i as int));
            assert(names.take(i + 1).last() == file_names@[i as int]@);
        }
        if is_toml_file_name(file_names[i].as_str()) {
            let mut entry = "configs/".to_owned();
            entry.append(file_names[i].as_str());
            let ghost before = presets@;
            presets.push(entry);
            assert(views(presets@) =~= views(before).push(entry@));
        }
        assert(views(presets@) =~= spec_toml_presets(names.take(i + 1)));
        i = i + 1;
    }
    assert(names.take(i as int) =~= names);
    sort_by_key(presets)
}

pub(crate) proof fn lemma_same_multiset_distinct<A>(a: Seq<A>, b: Seq<A>)
    requires
        a.no_duplicates(),
        a.to_multiset() == b.to_multiset(),
    ensures
        b.no_duplicates(),
{
    a.lemma_multiset_has_no_duplicates();
    b.lemma_multiset_has_no_duplicates_conv();
}

proof fn lemma_toml_presets_distinct(names: Seq<Seq<char>>)
    requires
        names.no_duplicates(),
    ensures
        spec_toml_presets(names).no_duplicates(),
        forall|x: Seq<char>|
            spec_toml_presets(names).contains(x) ==> exists|k: int|
                0 <= k < names.len() && x == "configs/"@ + names[k],
    decreases names.len(),
{
    if names.len() > 0 {
        let init = names.drop_last();
        lemma_toml_presets_distinct(init);
        let t0 = spec_toml_presets(init);
        let last = names.last();
        let t = spec_toml_presets(names);
        let prefix = "configs/"@;
        if spec_is_toml_name(last) {
            let x = prefix + last;
            assert(t == t0 + seq![x]);
            assert forall|i: int, j: int| 0 <= i < t0.len() && 0 <= j < seq![x].len() implies t0[i]
                != seq![x][j] by {
                assert(t0.contains(t0[i]));
                let k = choose|k: int| 0 <= k < init.len() && t0[i] == prefix + init[k];
                if t0[i] == x {
                    assert(init[k] =~= (prefix + init[k]).skip(prefix.len() as int));
                    assert(last =~= x.skip(prefix.len() as int));
                    assert(names[k] == names[names.len() - 1]);
                }
            }
            vstd::seq_lib::lemma_no_dup_in_concat(t0, seq![x]);
            assert forall|y: Seq<char>| t.contains(y) implies exists|k: int|
                0 <= k < names.len() && y == prefix + names[k] by {
                let i = choose|i: int| 0 <= i < t.len() && t[i] == y;
                if i < t0.len() {
                    assert(t0.contains(y));
                    let k = choose|k: int| 0 <= k < init.len() && y == prefix + init[k];
                    assert(names[k] == init[k]);
                } else {
                    assert(y == prefix + names[names.len() - 1]);
                }
            }
        } else {
            assert(t =~= t0);
            assert forall|y: Seq<char>| t.contains(y) implies exists|k: int|
                0 <= k < names.len() && y == prefix + names[k] by {
                let k = choose|k: int| 0 <= k < init.len() && y == prefix + init[k];
                assert(names[k] == init[k]);
            }
        }
    }
}

proof fn lemma_missing_distinct(have: Seq<Seq<char>>, names: Seq<Seq<char>>)
    requires
        names.no_duplicates(),
    ensures
        spec_missing_presets(have, names).no_duplicates(),
    decreases names.len(),
{
    if names.len() > 0 {
        let init = names.drop_last();
        lemma_missing_distinct(have, init);
        let m0 = spec_missing_presets(have, init);
        let last = names.last();
        if !have.contains(last) {
            assert forall|i: int, j: int| 0 <= i < m0.len() && 0 <= j < seq![last].len() implies m0[i]
                != seq![last][j] by {
                assert(m0.contains(m0[i]));
                lemma_missing_subset(have, init, m0[i]);
                if m0[i] == last {
                    let k = choose|k: int| 0 <= k < init.len() && init[k] == last;
                    assert(names[k] == names[names.len() - 1]);
                }
            }
            vstd::seq_lib::lemma_no_dup_in_concat(m0, seq![last]);
            assert(spec_missing_presets(have, names) == m0 + seq![last]);
        } else {
            assert(spec_missing_presets(have, names) =~= m0);
        }
    }
}

proof fn lemma_embedded_names_distinct()
    ensures
        spec_embedded_preset_names().no_duplicates(),
{
    reveal_strlit("configs/master.toml");
    reveal_strlit("configs/slave.toml");
    reveal_strlit("configs/peer.toml");
    let n = spec_embedded_preset_names();
    assert(n[0].len() != n[1].len() && n[0].len() != n[2].len() && n[1].len() != n[2].len());
}

/// The config presets to offer: with a workspace (whose `configs`
/// directory holds `workspace_file_names`) its TOML presets merged with the
/// compiled-in ones and sorted; without one, the compiled-in presets. File
/// names of one directory are distinct, and then no preset is offered twice.
pub fn discover_config_presets(workspace_file_names: Option<Vec<String>>) -> (r: Vec<String>)
    ensures
        match workspace_file_names {
            None => views(r@) == spec_embedded_preset_names(),
            Some(names) => {
                &&& sorted_by_key(r@)
                &&& views(names@).no_duplicates() ==> views(r@).no_duplicates()
                &&& exists|found: Seq<Seq<char>>|
                    found.to_multiset() == spec_toml_presets(views(names@)).to_multiset()
                        && views(r@).to_multiset() == (found + spec_missing_presets(
                        found,
                        spec_embedded_preset_names(),
                    )).to_multiset()
            },
        },
{
    match workspace_file_names {
        None => embedded_config_preset_names(),
        Some(names) => {
            let mut presets = discover_config_presets_from(&names);
            let ghost found = views(presets@);
            merge_embedded_presets(&mut presets);
            proof {
                if views(names@).no_duplicates() {
                    let missing = spec_missing_presets(found, spec_embedded_preset_names());
                    lemma_toml_presets_distinct(views(names@));
                    lemma_same_multiset_distinct(spec_toml_presets(views(names@)), found);
                    lemma_embedded_names_distinct();
                    lemma_missing_distinct(found, spec_embedded_preset_names());
                    assert forall|i: int, j: int|
                        0 <= i < found.len() && 0 <= j < missing.len() implies found[i]
                        != missing[j] by {
                        assert(missing.contains(missing[j]));
                        lemma_missing_subset(found, spec_embedded_preset_names(), missing[j]);
                        assert(found.contains(found[i]));
                    }
                    vstd::seq_lib::lemma_no_dup_in_concat(found, missing);
                    lemma_same_multiset_distinct(found + missing, views(presets@));
                }
            }
            presets
        },
    }
}

} // verus!
