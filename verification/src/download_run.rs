//! The course of a second-generation model download, as a state machine.
//!
//! The caller performs each action (fetch the manifest, read the file that
//! is already there, fetch the model) and hands back what came of it. The
//! manifest and the model are each taken from the first mirror, in the
//! preferred order, that serves them; a file already there is kept when its
//! digest is the manifest's; a downloaded model must have the expected
//! digest, or it is removed.
use vstd::prelude::*;
use vstd::string::*;

use crate::const_value::v2::MANIFEST_NAME;
use crate::downloader::{
    asset_url, checksum_matches, manifest_url, release_url, sha256_hex, sha256_of, target_spec,
    resolve_artifact_target, Mirror, TargetError, V2DownloadOptions,
};
use crate::manifest::{V2ArtifactFile, V2Manifest};

verus! {

/// Where a download stands.
#[derive(Debug, Clone, Copy, PartialEq, Eq, Structural)]
pub enum DownloadPhase {
    /// Waiting for the manifest from the current mirror.
    Manifest,
    /// Waiting for the file already at the destination, if any.
    Existing,
    /// Waiting for the model from the current mirror.
    Asset,
    /// Finished, well or not.
    Over,
}

/// Why a download failed.
#[derive(Debug, Clone, PartialEq, Eq)]
pub enum DownloadError {
    /// No mirror served the manifest; the last failure.
    Manifest(String),
    /// The manifest has no file that fits the options.
    Target(TargetError),
    /// No mirror served the model; the last failure.
    Asset(String),
    /// The model arrived with another digest than the expected one.
    Checksum { expected: String, actual: String },
}

/// What the caller does next.
#[derive(Debug, Clone, PartialEq, Eq)]
pub enum DownloadAction {
    /// Fetch the manifest from this address.
    FetchManifest(String),
    /// Read the file of this name in the destination, if there is one.
    ReadExisting(String),
    /// Fetch the model from this address into the destination, removing
    /// the file already there first when asked.
    FetchAsset { url: String, remove_existing: bool },
    /// Done: the model is the file of this name in the destination.
    Succeed(String),
    /// Done, with this error.
    Fail(DownloadError),
    /// Remove the downloaded file, and end with this error.
    RemoveAndFail(DownloadError),
}

/// The mirrors, in the order they are tried.
pub open spec fn mirror_order() -> Seq<Mirror> {
    seq![Mirror::Github, Mirror::Gitee]
}

fn mirror_at(i: usize) -> (r: Mirror)
    requires
        i < 2,
    ensures
        r == mirror_order()[i as int],
{
    if i == 0 {
        Mirror::Github
    } else {
        Mirror::Gitee
    }
}

/// A download of the release `tag`.
#[derive(Debug)]
pub struct DownloadRun {
    pub tag: String,
    pub phase: DownloadPhase,
    /// The mirror currently asked, as a position in `mirror_order`.
    pub mirror: usize,
    /// The file chosen from the manifest.
    pub file: Option<V2ArtifactFile>,
    /// The digest the model must have.
    pub expected: String,
}

impl DownloadRun {
    pub open spec fn wf(&self) -> bool {
        &&& self.mirror < mirror_order().len()
        &&& (self.phase == DownloadPhase::Existing || self.phase == DownloadPhase::Asset)
            ==> self.file is Some
    }

    /// Starts a download of `tag`: the manifest from the first mirror.
    pub fn start(tag: &str) -> (r: (Self, DownloadAction))
        ensures
            r.0.wf(),
            r.0.tag@ == tag@,
            r.0.phase == DownloadPhase::Manifest,
            r.0.mirror == 0,
            r.1 matches DownloadAction::FetchManifest(u) && u@ == release_url(
                mirror_order()[0].base_spec(),
                tag@,
                MANIFEST_NAME@,
            ),
    {
        let url = manifest_url(mirror_at(0), tag);
        let run = DownloadRun {
            tag: String::from_str(tag),
            phase: DownloadPhase::Manifest,
            mirror: 0,
            file: None,
            expected: String::new(),
        };
        (run, DownloadAction::FetchManifest(url))
    }

    /// The manifest arrived (`Ok`), or the current mirror failed to serve
    /// or parse it (`Err`). A manifest gives the file to take, or the error
    /// that none fits; a failure moves to the next mirror, and after the
    /// last one ends the download with that failure.
    pub fn on_manifest(&mut self, opts: &V2DownloadOptions, result: Result<V2Manifest, String>) -> (r: DownloadAction)
        requires
            old(self).wf(),
            old(self).phase == DownloadPhase::Manifest,
        ensures
            final(self).wf(),
            final(self).tag == old(self).tag,
            match result {
                Ok(m) => match target_spec(m, *opts) {
                    Err(e) => final(self).phase == DownloadPhase::Over
                        && r == DownloadAction::Fail(DownloadError::Target(e)),
                    Ok(f) => {
                        &&& final(self).phase == DownloadPhase::Existing
                        &&& final(self).file == Some(f)
                        &&& final(self).expected@ == match opts.expected_sha256 {
                            Some(s) => s@,
                            None => f.sha256@,
                        }
                        &&& r matches DownloadAction::ReadExisting(n) && n@ == f.release_asset_name@
                    },
                },
                Err(e) => if old(self).mirror + 1 < mirror_order().len() {
                    &&& final(self).phase == DownloadPhase::Manifest
                    &&& final(self).mirror == old(self).mirror + 1
                    &&& r matches DownloadAction::FetchManifest(u) && u@ == release_url(
                        mirror_order()[old(self).mirror + 1].base_spec(),
                        old(self).tag@,
                        MANIFEST_NAME@,
                    )
                } else {
                    &&& final(self).phase == DownloadPhase::Over
                    &&& r matches DownloadAction::Fail(DownloadError::Manifest(m)) && m@ == e@
                },
            },
    {
        match result {
            Ok(m) => match resolve_artifact_target(&m, opts) {
                Err(e) => {
                    self.phase = DownloadPhase::Over;
                    DownloadAction::Fail(DownloadError::Target(e))
                },
                Ok(f) => {
                    self.expected = opts.expected_checksum(&f);
                    let name = f.release_asset_name.clone();
                    self.file = Some(f);
                    self.phase = DownloadPhase::Existing;
                    DownloadAction::ReadExisting(name)
                },
            },
            Err(e) => {
                if self.mirror + 1 < 2 {
                    self.mirror = self.mirror + 1;
                    let url = manifest_url(mirror_at(self.mirror), self.tag.as_str());
                    DownloadAction::FetchManifest(url)
                } else {
                    self.phase = DownloadPhase::Over;
                    DownloadAction::Fail(DownloadError::Manifest(e))
                }
            },
        }
    }

    /// The file already at the destination (`None` when there is none).
    /// One with the manifest's digest is kept and ends the download;
    /// otherwise the model is fetched from the first mirror, after the
    /// stale file is removed.
    pub fn on_existing(&mut self, existing: Option<Vec<u8>>) -> (r: DownloadAction)
        requires
            old(self).wf(),
            old(self).phase == DownloadPhase::Existing,
        ensures
            final(self).wf(),
            final(self).tag == old(self).tag,
            final(self).file == old(self).file,
            final(self).expected == old(self).expected,
            ({
                let f = old(self).file->0;
                if existing is Some && sha256_hex(existing->0@) == f.sha256@ {
                    &&& final(self).phase == DownloadPhase::Over
                    &&& r matches DownloadAction::Succeed(n) && n@ == f.release_asset_name@
                } else {
                    &&& final(self).phase == DownloadPhase::Asset
                    &&& final(self).mirror == 0
                    &&& r matches DownloadAction::FetchAsset { url, remove_existing } && url@
                        == release_url(
                        mirror_order()[0].base_spec(),
                        old(self).tag@,
                        f.release_asset_name@,
                    ) && remove_existing == existing is Some
                }
            }),
    {
        let f = match &self.file {
            Some(f) => f.clone(),
            None => {
                return DownloadAction::Fail(DownloadError::Asset(String::new()));
            },
        };
        let remove_existing = match &existing {
            Some(b) => {
                if checksum_matches(b.as_slice(), f.sha256.as_str()) {
                    self.phase = DownloadPhase::Over;
                    return DownloadAction::Succeed(f.release_asset_name);
                }
                true
            },
            None => false,
        };
        self.phase = DownloadPhase::Asset;
        self.mirror = 0;
        let url = asset_url(mirror_at(0), self.tag.as_str(), f.release_asset_name.as_str());
        DownloadAction::FetchAsset { url, remove_existing }
    }

    /// The model arrived and was written to the destination (`Ok`), or the
    /// current mirror failed to serve it (`Err`). A model with the expected
    /// digest ends the download well; one with another digest is removed
    /// and ends it with an error; a failure moves to the next mirror, and
    /// after the last one ends the download with that failure.
    pub fn on_asset(&mut self, result: Result<Vec<u8>, String>) -> (r: DownloadAction)
        requires
            old(self).wf(),
            old(self).phase == DownloadPhase::Asset,
        ensures
            final(self).wf(),
            final(self).tag == old(self).tag,
            final(self).file == old(self).file,
            final(self).expected == old(self).expected,
            ({
                let f = old(self).file->0;
                match result {
                    Ok(b) => {
                        &&& final(self).phase == DownloadPhase::Over
                        &&& if sha256_hex(b@) == old(self).expected@ {
                            r matches DownloadAction::Succeed(n) && n@ == f.release_asset_name@
                        } else {
                            r matches DownloadAction::RemoveAndFail(
                                DownloadError::Checksum { expected, actual },
                            ) && expected@ == old(self).expected@ && actual@ == sha256_hex(b@)
                        }
                    },
                    Err(e) => if old(self).mirror + 1 < mirror_order().len() {
                        &&& final(self).phase == DownloadPhase::Asset
                        &&& final(self).mirror == old(self).mirror + 1
                        &&& r matches DownloadAction::FetchAsset { url, remove_existing } && url@
                            == release_url(
                            mirror_order()[old(self).mirror + 1].base_spec(),
                            old(self).tag@,
                            f.release_asset_name@,
                        ) && !remove_existing
                    } else {
                        &&& final(self).phase == DownloadPhase::Over
                        &&& r matches DownloadAction::Fail(DownloadError::Asset(m)) && m@ == e@
                    },
                }
            }),
    {
        let f = match &self.file {
            Some(f) => f.clone(),
            None => {
                return DownloadAction::Fail(DownloadError::Asset(String::new()));
            },
        };
        match result {
            Ok(b) => {
                self.phase = DownloadPhase::Over;
                if checksum_matches(b.as_slice(), self.expected.as_str()) {
                    DownloadAction::Succeed(f.release_asset_name)
                } else {
                    let actual = sha256_of(b.as_slice());
                    let expected = self.expected.clone();
                    DownloadAction::RemoveAndFail(DownloadError::Checksum { expected, actual })
                }
            },
            Err(e) => {
                if self.mirror + 1 < 2 {
                    self.mirror = self.mirror + 1;
                    let url = asset_url(
                        mirror_at(self.mirror),
                        self.tag.as_str(),
                        f.release_asset_name.as_str(),
                    );
                    DownloadAction::FetchAsset { url, remove_existing: false }
                } else {
                    self.phase = DownloadPhase::Over;
                    DownloadAction::Fail(DownloadError::Asset(e))
                }
            },
        }
    }
}

} // verus!
