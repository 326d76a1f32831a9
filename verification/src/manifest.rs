//! The `model-assets.json` manifest of a model release, and the lookups
//! made in it.
//!
//! A grouped model nests its artifacts by engine, then by precision. The
//! JSON there is loosely typed: a level may fail to be an object, and a
//! leaf may fail to be an artifact entry; those cases are kept as `None`.
use vstd::prelude::*;

use crate::bill_item::string_views;
use crate::text::{
    lemma_seq_lt_irreflexive, lemma_seq_lt_total, lemma_seq_lt_transitive, seq_lt, str_eq, str_lt,
};

verus! {

/// One file of an artifact.
#[derive(Debug)]
pub struct V2ArtifactFile {
    pub path: String,
    pub sha256: String,
    pub release_asset_name: String,
}

impl Clone for V2ArtifactFile {
    fn clone(&self) -> (r: Self)
        ensures
            r == *self,
    {
        V2ArtifactFile {
            path: self.path.clone(),
            sha256: self.sha256.clone(),
            release_asset_name: self.release_asset_name.clone(),
        }
    }
}

/// The files of one (engine, precision) artifact.
#[derive(Debug)]
pub struct V2ArtifactEntry {
    pub engine: String,
    pub precision: String,
    pub format: String,
    pub files: Vec<V2ArtifactFile>,
}

/// Two entries hold the same values.
pub open spec fn same_entry(a: V2ArtifactEntry, b: V2ArtifactEntry) -> bool {
    a.engine == b.engine && a.precision == b.precision && a.format == b.format && a.files@ == b.files@
}

fn clone_files(v: &Vec<V2ArtifactFile>) -> (r: Vec<V2ArtifactFile>)
    ensures
        r@ == v@,
{
    let mut r: Vec<V2ArtifactFile> = Vec::new();
    let mut i: usize = 0;
    while i < v.len()
        invariant
            i <= v.len(),
            r@ == v@.subrange(0, i as int),
        decreases v.len() - i,
    {
        r.push(v[i].clone());
        assert(v@.subrange(0, i + 1) =~= v@.subrange(0, i as int).push(v@[i as int]));
        i = i + 1;
    }
    assert(v@.subrange(0, v@.len() as int) =~= v@);
    r
}

impl Clone for V2ArtifactEntry {
    fn clone(&self) -> (r: Self)
        ensures
            same_entry(r, *self),
    {
        V2ArtifactEntry {
            engine: self.engine.clone(),
            precision: self.precision.clone(),
            format: self.format.clone(),
            files: clone_files(&self.files),
        }
    }
}

/// A flat artifact entry of manifests without grouped models.
#[derive(Debug, Clone)]
pub struct V2FlatArtifact {
    pub version: String,
    pub family: String,
    pub backbone: String,
    pub engine: String,
    pub precision: String,
    pub format: String,
    pub files: Vec<V2ArtifactFile>,
}

/// The value under one precision key: an artifact entry, or `None` when it
/// does not read as one.
#[derive(Debug, Clone)]
pub struct PrecisionSlot {
    pub precision: String,
    pub entry: Option<V2ArtifactEntry>,
}

/// The value under one engine key: its precisions, or `None` when it is
/// not an object.
#[derive(Debug, Clone)]
pub struct EngineSlot {
    pub engine: String,
    pub precisions: Option<Vec<PrecisionSlot>>,
}

/// A grouped model entry.
#[derive(Debug, Clone)]
pub struct V2ModelEntry {
    pub asset_stem: String,
    pub display_name: String,
    pub backbone: String,
    pub version: String,
    pub family: String,
    pub supported_backbones: Vec<String>,
    /// The engines, or `None` when the artifacts are not an object.
    pub artifacts: Option<Vec<EngineSlot>>,
}

/// A release manifest.
#[derive(Debug, Clone)]
pub struct V2Manifest {
    pub schema_version: u32,
    pub modellist: Vec<String>,
    pub models: Vec<V2ModelEntry>,
    pub artifacts: Vec<V2FlatArtifact>,
}

impl V2Manifest {
    /// The manifest groups its artifacts by model.
    pub fn has_grouped_models(&self) -> (r: bool)
        ensures
            r == (self.models@.len() > 0),
    {
        self.models.len() > 0
    }
}

/// Why no artifact file was found in a model.
#[derive(Debug, Clone, Copy, PartialEq, Eq, Structural)]
pub enum ArtifactError {
    ArtifactsNotObject,
    MissingEngine,
    EngineNotObject,
    MissingPrecision,
    BadEntry,
    NoFiles,
}

/// Position of the first element of `keys` equal to `k`.
pub open spec fn first_key(keys: Seq<Seq<char>>, k: Seq<char>) -> Option<int>
    decreases keys.len(),
{
    if keys.len() == 0 {
        None
    } else {
        match first_key(keys.drop_last(), k) {
            Some(i) => Some(i),
            None => if keys.last() == k {
                Some(keys.len() - 1)
            } else {
                None
            },
        }
    }
}

pub open spec fn engine_keys(slots: Seq<EngineSlot>) -> Seq<Seq<char>> {
    slots.map_values(|s: EngineSlot| s.engine@)
}

pub open spec fn precision_keys(slots: Seq<PrecisionSlot>) -> Seq<Seq<char>> {
    slots.map_values(|s: PrecisionSlot| s.precision@)
}

/// The artifact entry of a model for `(engine, precision)`, or the reason
/// there is none.
pub open spec fn artifact_lookup(model: V2ModelEntry, engine: Seq<char>, precision: Seq<char>) -> Result<
    V2ArtifactEntry,
    ArtifactError,
> {
    match model.artifacts {
        None => Err(ArtifactError::ArtifactsNotObject),
        Some(engines) => match first_key(engine_keys(engines@), engine) {
            None => Err(ArtifactError::MissingEngine),
            Some(i) => match engines@[i].precisions {
                None => Err(ArtifactError::EngineNotObject),
                Some(ps) => match first_key(precision_keys(ps@), precision) {
                    None => Err(ArtifactError::MissingPrecision),
                    Some(j) => match ps@[j].entry {
                        None => Err(ArtifactError::BadEntry),
                        Some(e) => if e.files@.len() == 0 {
                            Err(ArtifactError::NoFiles)
                        } else {
                            Ok(e)
                        },
                    },
                },
            },
        },
    }
}

fn find_key(keys: &Vec<&str>, k: &str) -> (r: Option<usize>)
    ensures
        match r {
            Some(i) => first_key(keys@.map_values(|s: &str| s@), k@) == Some(i as int),
            None => first_key(keys@.map_values(|s: &str| s@), k@) is None,
        },
        r matches Some(i) ==> i < keys@.len(),
{
    let ghost kv = keys@.map_values(|s: &str| s@);
    let mut i: usize = 0;
    while i < keys.len()
        invariant
            i <= keys.len(),
            kv == keys@.map_values(|s: &str| s@),
            first_key(kv.subrange(0, i as int), k@) is None,
        decreases keys.len() - i,
    {
        assert(kv.subrange(0, i + 1).drop_last() =~= kv.subrange(0, i as int));
        if str_eq(keys[i], k) {
            assert(first_key(kv.subrange(0, i + 1), k@) == Some(i as int));
            proof {
                lemma_first_key_prefix(kv, k@, i + 1);
            }
            return Some(i);
        }
        i = i + 1;
    }
    assert(kv.subrange(0, i as int) =~= kv);
    None
}

proof fn lemma_first_key_prefix(keys: Seq<Seq<char>>, k: Seq<char>, n: int)
    requires
        0 <= n <= keys.len(),
        first_key(keys.subrange(0, n), k) is Some,
    ensures
        first_key(keys, k) == first_key(keys.subrange(0, n), k),
    decreases keys.len() - n,
{
    if n < keys.len() {
        assert(keys.subrange(0, n + 1).drop_last() =~= keys.subrange(0, n));
        lemma_first_key_prefix(keys, k, n + 1);
    } else {
        assert(keys.subrange(0, n) =~= keys);
    }
}

fn engine_names(slots: &Vec<EngineSlot>) -> (r: Vec<&str>)
    ensures
        r@.map_values(|s: &str| s@) == engine_keys(slots@),
{
    let mut r: Vec<&str> = Vec::new();
    let mut i: usize = 0;
    while i < slots.len()
        invariant
            i <= slots.len(),
            r@.len() == i,
            forall|j: int| 0 <= j < i ==> #[trigger] r@[j]@ == slots@[j].engine@,
        decreases slots.len() - i,
    {
        r.push(slots[i].engine.as_str());
        i = i + 1;
    }
    assert(r@.map_values(|s: &str| s@) =~= engine_keys(slots@));
    r
}

fn precision_names(slots: &Vec<PrecisionSlot>) -> (r: Vec<&str>)
    ensures
        r@.map_values(|s: &str| s@) == precision_keys(slots@),
{
    let mut r: Vec<&str> = Vec::new();
    let mut i: usize = 0;
    while i < slots.len()
        invariant
            i <= slots.len(),
            r@.len() == i,
            forall|j: int| 0 <= j < i ==> #[trigger] r@[j]@ == slots@[j].precision@,
        decreases slots.len() - i,
    {
        r.push(slots[i].precision.as_str());
        i = i + 1;
    }
    assert(r@.map_values(|s: &str| s@) =~= precision_keys(slots@));
    r
}

/// The first file of a model's `(engine, precision)` artifact, with the
/// artifact entry; or why there is none.
pub fn find_artifact_in_model(model: &V2ModelEntry, engine: &str, precision: &str) -> (r: Result<
    (V2ArtifactFile, V2ArtifactEntry),
    ArtifactError,
>)
    ensures
        match artifact_lookup(*model, engine@, precision@) {
            Ok(e) => r matches Ok((f, e2)) && same_entry(e2, e) && f == e.files@[0],
            Err(err) => r == Err::<(V2ArtifactFile, V2ArtifactEntry), ArtifactError>(err),
        },
{
    let engines = match &model.artifacts {
        None => {
            return Err(ArtifactError::ArtifactsNotObject);
        },
        Some(e) => e,
    };
    let names = engine_names(engines);
    let i = match find_key(&names, engine) {
        None => {
            return Err(ArtifactError::MissingEngine);
        },
        Some(i) => i,
    };
    let ps = match &engines[i].precisions {
        None => {
            return Err(ArtifactError::EngineNotObject);
        },
        Some(p) => p,
    };
    let pnames = precision_names(ps);
    let j = match find_key(&pnames, precision) {
        None => {
            return Err(ArtifactError::MissingPrecision);
        },
        Some(j) => j,
    };
    match &ps[j].entry {
        None => Err(ArtifactError::BadEntry),
        Some(e) => {
            if e.files.len() == 0 {
                Err(ArtifactError::NoFiles)
            } else {
                let f = e.files[0].clone();
                let entry = e.clone();
                Ok((f, entry))
            }
        },
    }
}

// ---------------------------------------------------------------------------
// Model listing
// ---------------------------------------------------------------------------
/// What is shown of a model: its names and the backbones it supports.
#[derive(Debug, Clone)]
pub struct ModelInfo {
    pub asset_stem: String,
    pub display_name: String,
    pub backbone: String,
    pub version: String,
    pub family: String,
    pub supported_backbones: Vec<String>,
}

#[verifier::ext_equal]
pub struct SummaryView {
    pub asset_stem: Seq<char>,
    pub display_name: Seq<char>,
    pub backbone: Seq<char>,
    pub version: Seq<char>,
    pub family: Seq<char>,
    pub supported_backbones: Seq<Seq<char>>,
}

impl View for ModelInfo {
    type V = SummaryView;

    open spec fn view(&self) -> SummaryView {
        SummaryView {
            asset_stem: self.asset_stem@,
            display_name: self.display_name@,
            backbone: self.backbone@,
            version: self.version@,
            family: self.family@,
            supported_backbones: string_views(self.supported_backbones@),
        }
    }
}

pub open spec fn summary_views(v: Seq<ModelInfo>) -> Seq<SummaryView> {
    v.map_values(|m: ModelInfo| m@)
}

/// The summary of a grouped model: an empty display name shows the
/// backbone; no supported backbones means the model's own.
pub open spec fn entry_summary(e: V2ModelEntry) -> SummaryView {
    SummaryView {
        asset_stem: e.asset_stem@,
        display_name: if e.display_name@.len() == 0 { e.backbone@ } else { e.display_name@ },
        backbone: e.backbone@,
        version: e.version@,
        family: e.family@,
        supported_backbones: if e.supported_backbones@.len() == 0 {
            seq![e.backbone@]
        } else {
            string_views(e.supported_backbones@)
        },
    }
}

/// The summary a flat artifact stands for: `{backbone}.{family}`, named
/// after its backbone.
pub open spec fn flat_summary(a: V2FlatArtifact) -> SummaryView {
    SummaryView {
        asset_stem: a.backbone@ + "."@ + a.family@,
        display_name: a.backbone@,
        backbone: a.backbone@,
        version: a.version@,
        family: a.family@,
        supported_backbones: seq![a.backbone@],
    }
}

/// Models are ordered by family, then backbone.
pub open spec fn key_lt(a: (Seq<char>, Seq<char>), b: (Seq<char>, Seq<char>)) -> bool {
    seq_lt(a.0, b.0) || (a.0 == b.0 && seq_lt(a.1, b.1))
}

pub open spec fn flat_key(a: V2FlatArtifact) -> (Seq<char>, Seq<char>) {
    (a.family@, a.backbone@)
}

pub open spec fn summary_key(s: SummaryView) -> (Seq<char>, Seq<char>) {
    (s.family, s.backbone)
}

proof fn lemma_key_order(a: (Seq<char>, Seq<char>), b: (Seq<char>, Seq<char>), c: (Seq<char>, Seq<char>))
    ensures
        !key_lt(a, a),
        key_lt(a, b) || key_lt(b, a) || a == b,
        key_lt(a, b) && key_lt(b, c) ==> key_lt(a, c),
{
    lemma_seq_lt_irreflexive(a.0);
    lemma_seq_lt_irreflexive(a.1);
    lemma_seq_lt_total(a.0, b.0);
    lemma_seq_lt_total(a.1, b.1);
    if key_lt(a, b) && key_lt(b, c) {
        if seq_lt(a.0, b.0) && seq_lt(b.0, c.0) {
            lemma_seq_lt_transitive(a.0, b.0, c.0);
        }
        if a.0 == b.0 && b.0 == c.0 {
            lemma_seq_lt_transitive(a.1, b.1, c.1);
        }
    }
}

/// The grouped model's summary.
pub fn model_entry_to_info(entry: &V2ModelEntry) -> (r: ModelInfo)
    ensures
        r@ == entry_summary(*entry),
{
    let display_name = if entry.display_name.unicode_len() == 0 {
        entry.backbone.clone()
    } else {
        entry.display_name.clone()
    };
    let supported_backbones = if entry.supported_backbones.len() == 0 {
        let mut v: Vec<String> = Vec::new();
        v.push(entry.backbone.clone());
        assert(string_views(v@) =~= seq![entry.backbone@]);
        v
    } else {
        crate::bill_item::clone_strings(&entry.supported_backbones)
    };
    let r = ModelInfo {
        asset_stem: entry.asset_stem.clone(),
        display_name,
        backbone: entry.backbone.clone(),
        version: entry.version.clone(),
        family: entry.family.clone(),
        supported_backbones,
    };
    assert(r@ =~= entry_summary(*entry));
    r
}

fn flat_to_info(a: &V2FlatArtifact) -> (r: ModelInfo)
    ensures
        r@ == flat_summary(*a),
{
    let mut stem = a.backbone.clone();
    stem.append(".");
    stem.append(a.family.as_str());
    let mut b: Vec<String> = Vec::new();
    b.push(a.backbone.clone());
    assert(string_views(b@) =~= seq![a.backbone@]);
    let r = ModelInfo {
        asset_stem: stem,
        display_name: a.backbone.clone(),
        backbone: a.backbone.clone(),
        version: a.version.clone(),
        family: a.family.clone(),
        supported_backbones: b,
    };
    assert(r@ =~= flat_summary(*a));
    r
}

/// Artifact `k` is the first of the first `n` with this key.
pub open spec fn first_with_key(arts: Seq<V2FlatArtifact>, n: int, k: int, key: (Seq<char>, Seq<char>)) -> bool {
    0 <= k < n && flat_key(arts[k]) == key && forall|j: int| 0 <= j < k ==> flat_key(#[trigger] arts[j]) != key
}

/// A summary is that of the first of the first `n` artifacts with its key.
pub open spec fn from_first_artifact(arts: Seq<V2FlatArtifact>, n: int, s: SummaryView) -> bool {
    exists|k: int| #[trigger] first_with_key(arts, n, k, summary_key(s)) && s == flat_summary(arts[k])
}

/// The flat listing is right for the first `n` artifacts: one summary per
/// distinct (family, backbone), sorted, each that of the first artifact
/// with its key.
pub open spec fn flat_listing(arts: Seq<V2FlatArtifact>, n: int, r: Seq<SummaryView>) -> bool {
    &&& forall|i: int, j: int| 0 <= i < j < r.len() ==> key_lt(summary_key(#[trigger] r[i]), summary_key(#[trigger] r[j]))
    &&& forall|i: int| 0 <= i < r.len() ==> from_first_artifact(arts, n, #[trigger] r[i])
    &&& forall|k: int| 0 <= k < n ==> key_listed(r, #[trigger] flat_key(arts[k]))
}

/// Some summary has this key.
pub open spec fn key_listed(r: Seq<SummaryView>, key: (Seq<char>, Seq<char>)) -> bool {
    exists|i: int| 0 <= i < r.len() && summary_key(#[trigger] r[i]) == key
}

/// The models a manifest offers: its grouped models in order, or, without
/// any, one per (family, backbone) of its flat artifacts, sorted by family
/// and backbone, each as its first artifact describes it.
pub fn list_models_from_manifest(manifest: &V2Manifest) -> (r: Vec<ModelInfo>)
    ensures
        manifest.models@.len() > 0 ==> summary_views(r@) == manifest.models@.map_values(
            |e: V2ModelEntry| entry_summary(e),
        ),
        manifest.models@.len() == 0 ==> flat_listing(
            manifest.artifacts@,
            manifest.artifacts@.len() as int,
            summary_views(r@),
        ),
{
    let mut r: Vec<ModelInfo> = Vec::new();
    if manifest.models.len() > 0 {
        let mut i: usize = 0;
        while i < manifest.models.len()
            invariant
                i <= manifest.models.len(),
                r@.len() == i,
                forall|k: int| 0 <= k < i ==> #[trigger] r@[k]@ == entry_summary(manifest.models@[k]),
            decreases manifest.models.len() - i,
        {
            r.push(model_entry_to_info(&manifest.models[i]));
            i = i + 1;
        }
        assert(summary_views(r@) =~= manifest.models@.map_values(|e: V2ModelEntry| entry_summary(e)));
        return r;
    }
    let arts = &manifest.artifacts;
    let mut k: usize = 0;
    while k < arts.len()
        invariant
            k <= arts.len(),
            arts@ == manifest.artifacts@,
            flat_listing(arts@, k as int, summary_views(r@)),
        decreases arts.len() - k,
    {
        let a = &arts[k];
        let ghost key = flat_key(*a);
        let ghost rv = summary_views(r@);
        // First place whose key does not sort before this artifact's.
        let mut j: usize = 0;
        while j < r.len() && (str_lt(r[j].family.as_str(), a.family.as_str()) || (str_eq(
            r[j].family.as_str(),
            a.family.as_str(),
        ) && str_lt(r[j].backbone.as_str(), a.backbone.as_str())))
            invariant
                j <= r.len(),
                rv == summary_views(r@),
                key == flat_key(*a),
                forall|i: int| 0 <= i < j ==> key_lt(summary_key(#[trigger] rv[i]), key),
            decreases r.len() - j,
        {
            assert(summary_key(rv[j as int]) == (r@[j as int].family@, r@[j as int].backbone@));
            j = j + 1;
        }
        let present = j < r.len() && str_eq(r[j].family.as_str(), a.family.as_str()) && str_eq(
            r[j].backbone.as_str(),
            a.backbone.as_str(),
        );
        if present {
            proof {
                assert(summary_key(rv[j as int]) == key);
                assert forall|i: int| 0 <= i < rv.len() implies from_first_artifact(arts@, k + 1, #[trigger] rv[i]) by {
                    let q = choose|q: int| #[trigger] first_with_key(arts@, k as int, q, summary_key(rv[i])) && rv[i] == flat_summary(arts@[q]);
                    assert(first_with_key(arts@, k + 1, q, summary_key(rv[i])));
                }
                assert forall|q: int| 0 <= q < k + 1 implies key_listed(rv, #[trigger] flat_key(arts@[q])) by {
                    if q == k {
                        assert(summary_key(rv[j as int]) == flat_key(arts@[q]));
                    }
                }
            }
        } else {
            proof {
                if j < r.len() {
                    lemma_key_order(summary_key(rv[j as int]), key, key);
                    assert(!key_lt(summary_key(rv[j as int]), key));
                    assert(summary_key(rv[j as int]) != key);
                    assert(key_lt(key, summary_key(rv[j as int])));
                }
            }
            let info = flat_to_info(a);
            r.insert(j, info);
            proof {
                let nv = summary_views(r@);
                assert(nv =~= rv.insert(j as int, flat_summary(*a)));
                // Sorted.
                assert forall|x: int, y: int| 0 <= x < y < nv.len() implies key_lt(
                    summary_key(#[trigger] nv[x]),
                    summary_key(#[trigger] nv[y]),
                ) by {
                    if y < j {
                    } else if x < j && y == j {
                    } else if x < j && y > j {
                        assert(nv[y] == rv[y - 1]);
                        lemma_key_order(summary_key(rv[x]), key, summary_key(rv[y - 1]));
                        if y - 1 > j {
                            assert(key_lt(summary_key(rv[j as int]), summary_key(rv[y - 1])));
                            lemma_key_order(key, summary_key(rv[j as int]), summary_key(rv[y - 1]));
                        }
                    } else if x == j {
                        assert(nv[y] == rv[y - 1]);
                        if y - 1 > j {
                            assert(key_lt(summary_key(rv[j as int]), summary_key(rv[y - 1])));
                            lemma_key_order(key, summary_key(rv[j as int]), summary_key(rv[y - 1]));
                        }
                    } else {
                        assert(nv[x] == rv[x - 1] && nv[y] == rv[y - 1]);
                    }
                }
                // The key was new: no earlier artifact had it.
                assert forall|p: int| 0 <= p < k implies flat_key(#[trigger] arts@[p]) != key by {
                    assert(key_listed(rv, flat_key(arts@[p])));
                    let i = choose|i: int| 0 <= i < rv.len() && summary_key(#[trigger] rv[i]) == flat_key(arts@[p]);
                    if flat_key(arts@[p]) == key {
                        if i < j {
                            lemma_key_order(key, key, key);
                        } else if i > j {
                            assert(key_lt(summary_key(rv[j as int]), summary_key(rv[i])));
                            lemma_key_order(key, summary_key(rv[j as int]), key);
                        }
                    }
                }
                assert forall|i: int| 0 <= i < nv.len() implies from_first_artifact(arts@, k + 1, #[trigger] nv[i]) by {
                    if i == j {
                        assert(first_with_key(arts@, k + 1, k as int, summary_key(nv[i])));
                    } else {
                        let old_i = if i < j { i } else { i - 1 };
                        assert(nv[i] == rv[old_i]);
                        assert(from_first_artifact(arts@, k as int, rv[old_i]));
                        let q = choose|q: int| #[trigger] first_with_key(arts@, k as int, q, summary_key(rv[old_i])) && rv[old_i] == flat_summary(arts@[q]);
                        assert(first_with_key(arts@, k + 1, q, summary_key(nv[i])));
                    }
                }
                assert forall|q: int| 0 <= q < k + 1 implies key_listed(nv, #[trigger] flat_key(arts@[q])) by {
                    if q == k {
                        assert(summary_key(nv[j as int]) == flat_key(arts@[q]));
                    } else {
                        assert(key_listed(rv, flat_key(arts@[q])));
                        let i = choose|i: int| 0 <= i < rv.len() && summary_key(#[trigger] rv[i]) == flat_key(arts@[q]);
                        if i < j {
                            assert(nv[i] == rv[i]);
                        } else {
                            assert(nv[i + 1] == rv[i]);
                        }
                    }
                }
            }
        }
        k = k + 1;
    }
    r
}

} // verus!
