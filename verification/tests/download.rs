use shmtu::download_run::{DownloadAction, DownloadError, DownloadPhase, DownloadRun};
use shmtu::downloader::{TargetError, V2DownloadOptions};
use shmtu::manifest::{EngineSlot, PrecisionSlot, V2ArtifactEntry, V2ArtifactFile, V2Manifest, V2ModelEntry};

const ABC_SHA256: &str = "ba7816bf8f01cfea414140de5dae2223b00361a396177a9cb410ff61f20015ad";
const NAME: &str = "mobilenet_v3_small.trislot_decoder.v2_0.fp16.onnx";

fn manifest_with_digest(sha256: &str) -> V2Manifest {
    let model = V2ModelEntry {
        asset_stem: "mobilenet_v3_small.trislot_decoder.v2_0".to_string(),
        display_name: "CAS OCR TriSlot Decoder".to_string(),
        backbone: "mobilenet_v3_small".to_string(),
        version: "2.0".to_string(),
        family: "trislot_decoder".to_string(),
        supported_backbones: vec!["mobilenet_v3_small".to_string()],
        artifacts: Some(vec![EngineSlot {
            engine: "onnx".to_string(),
            precisions: Some(vec![PrecisionSlot {
                precision: "fp16".to_string(),
                entry: Some(V2ArtifactEntry {
                    engine: "onnx".to_string(),
                    precision: "fp16".to_string(),
                    format: "onnx".to_string(),
                    files: vec![V2ArtifactFile {
                        path: format!("onnx/{}", NAME),
                        release_asset_name: NAME.to_string(),
                        sha256: sha256.to_string(),
                    }],
                }),
            }]),
        }]),
    };
    V2Manifest { schema_version: 2, modellist: vec![model.asset_stem.clone()], models: vec![model], artifacts: vec![] }
}

fn github(tag: &str, name: &str) -> String {
    format!("https://github.com/a645162/shmtu-cas-ocr-model/releases/download/{}/{}", tag, name)
}

fn gitee(tag: &str, name: &str) -> String {
    format!("https://gitee.com/a645162/shmtu-cas-ocr-model/releases/download/{}/{}", tag, name)
}

#[test]
fn download_falls_back_to_second_mirror_and_verifies() {
    let opts = V2DownloadOptions::with_defaults("/tmp/models");
    let (mut run, action) = DownloadRun::start("v2.0.2");
    assert_eq!(action, DownloadAction::FetchManifest(github("v2.0.2", "model-assets.json")));
    let action = run.on_manifest(&opts, Err("timeout".to_string()));
    assert_eq!(action, DownloadAction::FetchManifest(gitee("v2.0.2", "model-assets.json")));
    let action = run.on_manifest(&opts, Ok(manifest_with_digest(ABC_SHA256)));
    assert_eq!(action, DownloadAction::ReadExisting(NAME.to_string()));
    assert_eq!(run.phase, DownloadPhase::Existing);
    let action = run.on_existing(Some(b"old".to_vec()));
    assert_eq!(action, DownloadAction::FetchAsset { url: github("v2.0.2", NAME), remove_existing: true });
    let action = run.on_asset(Err("refused".to_string()));
    assert_eq!(action, DownloadAction::FetchAsset { url: gitee("v2.0.2", NAME), remove_existing: false });
    let action = run.on_asset(Ok(b"abc".to_vec()));
    assert_eq!(action, DownloadAction::Succeed(NAME.to_string()));
    assert_eq!(run.phase, DownloadPhase::Over);
}

#[test]
fn download_keeps_matching_existing_file() {
    let opts = V2DownloadOptions::with_defaults("/tmp/models");
    let (mut run, _) = DownloadRun::start("v2.0.2");
    run.on_manifest(&opts, Ok(manifest_with_digest(ABC_SHA256)));
    assert_eq!(run.on_existing(Some(b"abc".to_vec())), DownloadAction::Succeed(NAME.to_string()));
}

#[test]
fn download_errors() {
    let opts = V2DownloadOptions::with_defaults("/tmp/models");
    let (mut run, _) = DownloadRun::start("v2.0.2");
    run.on_manifest(&opts, Err("a".to_string()));
    assert_eq!(
        run.on_manifest(&opts, Err("b".to_string())),
        DownloadAction::Fail(DownloadError::Manifest("b".to_string()))
    );

    let mut other = V2DownloadOptions::with_defaults("/tmp/models");
    other.backbone = "resnet".to_string();
    let (mut run, _) = DownloadRun::start("v2.0.2");
    assert_eq!(
        run.on_manifest(&other, Ok(manifest_with_digest(ABC_SHA256))),
        DownloadAction::Fail(DownloadError::Target(TargetError::NoSuchModel))
    );

    let (mut run, _) = DownloadRun::start("v2.0.2");
    run.on_manifest(&opts, Ok(manifest_with_digest("deadbeef")));
    assert_eq!(
        run.on_existing(None),
        DownloadAction::FetchAsset { url: github("v2.0.2", NAME), remove_existing: false }
    );
    assert_eq!(
        run.on_asset(Ok(b"abc".to_vec())),
        DownloadAction::RemoveAndFail(DownloadError::Checksum {
            expected: "deadbeef".to_string(),
            actual: ABC_SHA256.to_string(),
        })
    );

    let (mut run, _) = DownloadRun::start("v2.0.2");
    run.on_manifest(&opts, Ok(manifest_with_digest("deadbeef")));
    run.on_existing(None);
    run.on_asset(Err("x".to_string()));
    assert_eq!(run.on_asset(Err("y".to_string())), DownloadAction::Fail(DownloadError::Asset("y".to_string())));
}
