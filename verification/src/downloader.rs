//! Downloading a second-generation model: where to fetch the manifest and
//! the model from, which artifact to take, and whether the bytes that
//! arrived are the right ones.
use vstd::prelude::*;
use vstd::string::*;

use crate::const_value::v2::{
    build_model_name, model_name_spec, BASE_URL_GITEE, BASE_URL_GITHUB, DEFAULT_BACKBONE,
    DEFAULT_PRECISION, MANIFEST_NAME, MODEL_FAMILY,
};
use crate::manifest::{
    artifact_lookup, find_artifact_in_model, ArtifactError, V2ArtifactFile, V2Manifest,
    V2ModelEntry,
};
use crate::text::{str_eq, trim, trim_string};

verus! {

/// Where release assets are downloaded from.
#[derive(Debug, Clone, Copy, PartialEq, Eq, Structural)]
pub enum Mirror {
    Github,
    Gitee,
}

impl Mirror {
    pub open spec fn base_spec(self) -> Seq<char> {
        match self {
            Mirror::Github => BASE_URL_GITHUB@,
            Mirror::Gitee => BASE_URL_GITEE@,
        }
    }

    /// The release download prefix of the mirror.
    pub fn v2_base(self) -> (r: &'static str)
        ensures
            r@ == self.base_spec(),
    {
        match self {
            Mirror::Github => BASE_URL_GITHUB,
            Mirror::Gitee => BASE_URL_GITEE,
        }
    }

    /// The mirrors in the order they are tried: GitHub, then Gitee.
    pub fn preferred_order() -> (r: Vec<Mirror>)
        ensures
            r@ == seq![Mirror::Github, Mirror::Gitee],
    {
        let mut r: Vec<Mirror> = Vec::new();
        r.push(Mirror::Github);
        r.push(Mirror::Gitee);
        assert(r@ =~= seq![Mirror::Github, Mirror::Gitee]);
        r
    }
}

/// `{base}/{tag}/{name}`.
pub open spec fn release_url(base: Seq<char>, tag: Seq<char>, name: Seq<char>) -> Seq<char> {
    base + "/"@ + tag + "/"@ + name
}

/// The manifest address of a release on a mirror.
pub fn manifest_url(mirror: Mirror, tag: &str) -> (r: String)
    ensures
        r@ == release_url(mirror.base_spec(), tag@, MANIFEST_NAME@),
{
    asset_url(mirror, tag, MANIFEST_NAME)
}

/// The address of a release asset on a mirror.
pub fn asset_url(mirror: Mirror, tag: &str, name: &str) -> (r: String)
    ensures
        r@ == release_url(mirror.base_spec(), tag@, name@),
{
    let mut r = String::from_str(mirror.v2_base());
    r.append("/");
    r.append(tag);
    r.append("/");
    r.append(name);
    r
}

/// What to download and where.
#[derive(Debug, Clone)]
pub struct V2DownloadOptions {
    /// The release tag; `None` or blank asks for the newest compatible one.
    pub tag: Option<String>,
    pub backbone: String,
    pub precision: String,
    /// Picks the model by its asset stem, ahead of the backbone.
    pub asset_stem: Option<String>,
    pub mirror: Mirror,
    /// The directory the model goes to.
    pub dest: String,
    /// The checksum to expect, instead of the manifest's.
    pub expected_sha256: Option<String>,
}

impl V2DownloadOptions {
    /// The defaults apply: automatic tag, default backbone and precision,
    /// GitHub first, no stem, no checksum given.
    pub open spec fn is_default_for(self, dest: Seq<char>) -> bool {
        &&& self.tag is None
        &&& self.backbone@ == DEFAULT_BACKBONE@
        &&& self.precision@ == DEFAULT_PRECISION@
        &&& self.asset_stem is None
        &&& self.mirror == Mirror::Github
        &&& self.dest@ == dest
        &&& self.expected_sha256 is None
    }

    /// The default options for a destination directory.
    pub fn with_defaults(dest: &str) -> (r: Self)
        ensures
            r.is_default_for(dest@),
    {
        V2DownloadOptions {
            tag: None,
            backbone: String::from_str(DEFAULT_BACKBONE),
            precision: String::from_str(DEFAULT_PRECISION),
            asset_stem: None,
            mirror: Mirror::Github,
            dest: String::from_str(dest),
            expected_sha256: None,
        }
    }

    /// The default options with a fixed tag.
    pub fn with_tag(dest: &str, tag: &str) -> (r: Self)
        ensures
            (V2DownloadOptions { tag: None, ..r }).is_default_for(dest@),
            r.tag matches Some(t) && t@ == tag@,
    {
        let mut opts = Self::with_defaults(dest);
        opts.tag = Some(String::from_str(tag));
        opts
    }

    /// The default options with a model chosen by asset stem.
    pub fn with_asset_stem(dest: &str, asset_stem: &str) -> (r: Self)
        ensures
            (V2DownloadOptions { asset_stem: None, ..r }).is_default_for(dest@),
            r.asset_stem matches Some(s) && s@ == asset_stem@,
    {
        let mut opts = Self::with_defaults(dest);
        opts.asset_stem = Some(String::from_str(asset_stem));
        opts
    }

    /// The model file name for the chosen backbone and precision.
    pub fn model_name(&self) -> (r: String)
        ensures
            r@ == model_name_spec(self.backbone@, self.precision@),
    {
        build_model_name(self.backbone.as_str(), self.precision.as_str())
    }

    /// The tag asked for, trimmed; `None` (automatic) when none or a blank
    /// one is given.
    pub fn requested_tag(&self) -> (r: Option<String>)
        ensures
            match self.tag {
                None => r is None,
                Some(t) => if trim(t@).len() == 0 {
                    r is None
                } else {
                    r matches Some(u) && u@ == trim(t@)
                },
            },
    {
        match &self.tag {
            None => None,
            Some(t) => {
                let u = trim_string(t.as_str());
                if u.unicode_len() == 0 {
                    None
                } else {
                    Some(u)
                }
            },
        }
    }

    /// The checksum a download must have: the one given, else the
    /// manifest's.
    pub fn expected_checksum(&self, file: &V2ArtifactFile) -> (r: String)
        ensures
            r@ == match self.expected_sha256 {
                Some(s) => s@,
                None => file.sha256@,
            },
    {
        match &self.expected_sha256 {
            Some(s) => s.clone(),
            None => file.sha256.clone(),
        }
    }
}

impl Default for V2DownloadOptions {
    fn default() -> (r: Self)
        ensures
            r.is_default_for(Seq::empty()),
    {
        V2DownloadOptions {
            tag: None,
            backbone: String::from_str(DEFAULT_BACKBONE),
            precision: String::from_str(DEFAULT_PRECISION),
            asset_stem: None,
            mirror: Mirror::Github,
            dest: String::new(),
            expected_sha256: None,
        }
    }
}

/// The first model with this asset stem.
pub open spec fn model_by_stem(models: Seq<V2ModelEntry>, stem: Seq<char>) -> Option<int>
    decreases models.len(),
{
    if models.len() == 0 {
        None
    } else {
        match model_by_stem(models.drop_last(), stem) {
            Some(i) => Some(i),
            None => if models.last().asset_stem@ == stem {
                Some(models.len() - 1)
            } else {
                None
            },
        }
    }
}

/// The first model of this family and backbone.
pub open spec fn model_by_backbone(models: Seq<V2ModelEntry>, family: Seq<char>, backbone: Seq<char>) -> Option<int>
    decreases models.len(),
{
    if models.len() == 0 {
        None
    } else {
        match model_by_backbone(models.drop_last(), family, backbone) {
            Some(i) => Some(i),
            None => if models.last().family@ == family && models.last().backbone@ == backbone {
                Some(models.len() - 1)
            } else {
                None
            },
        }
    }
}

/// The first model of the manifest with this asset stem.
pub fn find_model_by_stem<'a>(manifest: &'a V2Manifest, asset_stem: &str) -> (r: Option<&'a V2ModelEntry>)
    ensures
        match model_by_stem(manifest.models@, asset_stem@) {
            Some(i) => r matches Some(m) && *m == manifest.models@[i],
            None => r is None,
        },
{
    let ms = &manifest.models;
    let mut i: usize = 0;
    while i < ms.len()
        invariant
            i <= ms.len(),
            ms@ == manifest.models@,
            model_by_stem(ms@.subrange(0, i as int), asset_stem@) is None,
        decreases ms.len() - i,
    {
        assert(ms@.subrange(0, i + 1).drop_last() =~= ms@.subrange(0, i as int));
        if str_eq(ms[i].asset_stem.as_str(), asset_stem) {
            proof {
                assert(ms@.subrange(0, i + 1).last() == ms@[i as int]);
                assert(model_by_stem(ms@.subrange(0, i + 1), asset_stem@) == Some(i as int));
                lemma_stem_prefix(ms@, asset_stem@, i + 1);
            }
            return Some(&ms[i]);
        }
        i = i + 1;
    }
    assert(ms@.subrange(0, i as int) =~= ms@);
    None
}

proof fn lemma_stem_prefix(models: Seq<V2ModelEntry>, stem: Seq<char>, n: int)
    requires
        0 <= n <= models.len(),
        model_by_stem(models.subrange(0, n), stem) is Some,
    ensures
        model_by_stem(models, stem) == model_by_stem(models.subrange(0, n), stem),
    decreases models.len() - n,
{
    if n < models.len() {
        assert(models.subrange(0, n + 1).drop_last() =~= models.subrange(0, n));
        lemma_stem_prefix(models, stem, n + 1);
    } else {
        assert(models.subrange(0, n) =~= models);
    }
}

/// The first model of the manifest of this family and backbone.
pub fn find_model_by_backbone<'a>(manifest: &'a V2Manifest, family: &str, backbone: &str) -> (r: Option<&'a V2ModelEntry>)
    ensures
        match model_by_backbone(manifest.models@, family@, backbone@) {
            Some(i) => r matches Some(m) && *m == manifest.models@[i],
            None => r is None,
        },
{
    let ms = &manifest.models;
    let mut i: usize = 0;
    while i < ms.len()
        invariant
            i <= ms.len(),
            ms@ == manifest.models@,
            model_by_backbone(ms@.subrange(0, i as int), family@, backbone@) is None,
        decreases ms.len() - i,
    {
        assert(ms@.subrange(0, i + 1).drop_last() =~= ms@.subrange(0, i as int));
        if str_eq(ms[i].family.as_str(), family) && str_eq(ms[i].backbone.as_str(), backbone) {
            proof {
                assert(ms@.subrange(0, i + 1).last() == ms@[i as int]);
                assert(model_by_backbone(ms@.subrange(0, i + 1), family@, backbone@) == Some(i as int));
                lemma_backbone_prefix(ms@, family@, backbone@, i + 1);
            }
            return Some(&ms[i]);
        }
        i = i + 1;
    }
    assert(ms@.subrange(0, i as int) =~= ms@);
    None
}

proof fn lemma_backbone_prefix(models: Seq<V2ModelEntry>, family: Seq<char>, backbone: Seq<char>, n: int)
    requires
        0 <= n <= models.len(),
        model_by_backbone(models.subrange(0, n), family, backbone) is Some,
    ensures
        model_by_backbone(models, family, backbone) == model_by_backbone(models.subrange(0, n), family, backbone),
    decreases models.len() - n,
{
    if n < models.len() {
        assert(models.subrange(0, n + 1).drop_last() =~= models.subrange(0, n));
        lemma_backbone_prefix(models, family, backbone, n + 1);
    } else {
        assert(models.subrange(0, n) =~= models);
    }
}

/// Why no file could be chosen from a manifest.
#[derive(Debug, Clone, Copy, PartialEq, Eq, Structural)]
pub enum TargetError {
    /// No model has the asked asset stem.
    NoSuchStem,
    /// No model has the family and backbone.
    NoSuchModel,
    /// The model has no usable ONNX artifact of the precision.
    Artifact(ArtifactError),
}

/// The file to download: with an asset stem, the ONNX artifact of the
/// model with that stem; otherwise that of the model of the default family
/// with the chosen backbone; in both cases at the chosen precision.
pub open spec fn target_spec(manifest: V2Manifest, opts: V2DownloadOptions) -> Result<V2ArtifactFile, TargetError> {
    let model = match opts.asset_stem {
        Some(stem) => model_by_stem(manifest.models@, stem@),
        None => model_by_backbone(manifest.models@, MODEL_FAMILY@, opts.backbone@),
    };
    match model {
        None => if opts.asset_stem is Some {
            Err(TargetError::NoSuchStem)
        } else {
            Err(TargetError::NoSuchModel)
        },
        Some(i) => match artifact_lookup(manifest.models@[i], "onnx"@, opts.precision@) {
            Ok(e) => Ok(e.files@[0]),
            Err(a) => Err(TargetError::Artifact(a)),
        },
    }
}

/// Chooses the file to download from a manifest (see `target_spec`).
pub fn resolve_artifact_target(manifest: &V2Manifest, opts: &V2DownloadOptions) -> (r: Result<V2ArtifactFile, TargetError>)
    ensures
        r == target_spec(*manifest, *opts),
{
    proof {
        reveal_strlit("onnx");
    }
    let model = match &opts.asset_stem {
        Some(stem) => match find_model_by_stem(manifest, stem.as_str()) {
            Some(m) => m,
            None => {
                return Err(TargetError::NoSuchStem);
            },
        },
        None => match find_model_by_backbone(manifest, MODEL_FAMILY, opts.backbone.as_str()) {
            Some(m) => m,
            None => {
                return Err(TargetError::NoSuchModel);
            },
        },
    };
    match find_artifact_in_model(model, "onnx", opts.precision.as_str()) {
        Ok((file, _)) => Ok(file),
        Err(e) => Err(TargetError::Artifact(e)),
    }
}

/// Lower-case hexadecimal SHA-256 digest of `bytes`.
pub uninterp spec fn sha256_hex(bytes: Seq<u8>) -> Seq<char>;

/// `sha2`: `Sha256::digest(bytes)`, written as lower-case hexadecimal.
/// Claims only that the text is a function of the bytes.
#[verifier::external_body]
fn sha256_text(bytes: &[u8]) -> (r: String)
    ensures
        r@ == sha256_hex(bytes@),
{
    let digest = <sha2::Sha256 as sha2::Digest>::digest(bytes);
    digest.iter().map(|b| format!("{:02x}", b)).collect()
}

/// The SHA-256 digest of downloaded bytes, in lower-case hexadecimal.
pub fn sha256_of(bytes: &[u8]) -> (r: String)
    ensures
        r@ == sha256_hex(bytes@),
{
    sha256_text(bytes)
}

/// The downloaded bytes have the expected digest.
pub fn checksum_matches(bytes: &[u8], expected: &str) -> (r: bool)
    ensures
        r == (sha256_hex(bytes@) == expected@),
{
    let actual = sha256_text(bytes);
    str_eq(actual.as_str(), expected)
}

/// The three first-generation model files, in download order.
pub fn v1_model_files() -> (r: Vec<&'static str>)
    ensures
        r@.map_values(|s: &str| s@) == seq![
            crate::const_value::v1::MODEL_ONNX_EQUAL@,
            crate::const_value::v1::MODEL_ONNX_OPERATOR@,
            crate::const_value::v1::MODEL_ONNX_DIGIT@,
        ],
{
    let mut r: Vec<&'static str> = Vec::new();
    r.push(crate::const_value::v1::MODEL_ONNX_EQUAL);
    r.push(crate::const_value::v1::MODEL_ONNX_OPERATOR);
    r.push(crate::const_value::v1::MODEL_ONNX_DIGIT);
    assert(r@.map_values(|s: &str| s@) =~= seq![
        crate::const_value::v1::MODEL_ONNX_EQUAL@,
        crate::const_value::v1::MODEL_ONNX_OPERATOR@,
        crate::const_value::v1::MODEL_ONNX_DIGIT@,
    ]);
    r
}

/// The download address of a first-generation model file (on Gitee).
pub fn v1_model_url(file: &str) -> (r: String)
    ensures
        r@ == crate::const_value::v1::BASE_URL_GITEE@ + "/"@ + file@,
{
    let mut r = String::from_str(crate::const_value::v1::BASE_URL_GITEE);
    r.append("/");
    r.append(file);
    r
}

} // verus!
