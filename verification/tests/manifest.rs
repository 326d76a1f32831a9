use shmtu::downloader::{
    asset_url, checksum_matches, manifest_url, resolve_artifact_target, sha256_of, Mirror,
    TargetError, V2DownloadOptions,
};
use shmtu::manifest::{
    find_artifact_in_model, ArtifactError, EngineSlot, PrecisionSlot, V2ArtifactEntry,
    V2ArtifactFile, V2Manifest, V2ModelEntry,
};

fn sample_model() -> V2ModelEntry {
    V2ModelEntry {
        asset_stem: "mobilenet_v3_small.trislot_decoder.v2_0".to_string(),
        display_name: "CAS OCR TriSlot Decoder".to_string(),
        backbone: "mobilenet_v3_small".to_string(),
        version: "2.0".to_string(),
        family: "trislot_decoder".to_string(),
        supported_backbones: vec!["mobilenet_v3_small".to_string(), "mobilenetv4_conv_small".to_string()],
        artifacts: Some(vec![EngineSlot {
            engine: "onnx".to_string(),
            precisions: Some(vec![PrecisionSlot {
                precision: "fp16".to_string(),
                entry: Some(V2ArtifactEntry {
                    engine: "onnx".to_string(),
                    precision: "fp16".to_string(),
                    format: "onnx".to_string(),
                    files: vec![V2ArtifactFile {
                        path: "onnx/mobilenet_v3_small.trislot_decoder.v2_0.fp16.onnx".to_string(),
                        release_asset_name: "mobilenet_v3_small.trislot_decoder.v2_0.fp16.onnx".to_string(),
                        sha256: "deadbeef".to_string(),
                    }],
                }),
            }]),
        }]),
    }
}

fn sample_manifest() -> V2Manifest {
    V2Manifest {
        schema_version: 2,
        modellist: vec!["mobilenet_v3_small.trislot_decoder.v2_0".to_string()],
        models: vec![sample_model()],
        artifacts: vec![],
    }
}

#[test]
fn find_artifact_in_model_ok() {
    let m = sample_manifest();
    let model = &m.models[0];
    let (file, entry) = find_artifact_in_model(model, "onnx", "fp16").unwrap();
    assert_eq!(file.sha256, "deadbeef");
    assert_eq!(entry.engine, "onnx");
}

#[test]
fn find_artifact_in_model_missing_engine() {
    let m = sample_manifest();
    let model = &m.models[0];
    assert!(find_artifact_in_model(model, "pytorch", "fp32").is_err());
}

#[test]
fn find_artifact_in_model_missing_precision() {
    let m = sample_manifest();
    let model = &m.models[0];
    assert!(find_artifact_in_model(model, "onnx", "fp32").is_err());
}

#[test]
fn artifact_errors_name_the_failing_level() {
    let mut model = sample_model();
    assert_eq!(find_artifact_in_model(&model, "ncnn", "fp16").unwrap_err(), ArtifactError::MissingEngine);
    assert_eq!(find_artifact_in_model(&model, "onnx", "int8").unwrap_err(), ArtifactError::MissingPrecision);
    model.artifacts = None;
    assert_eq!(find_artifact_in_model(&model, "onnx", "fp16").unwrap_err(), ArtifactError::ArtifactsNotObject);
    model.artifacts = Some(vec![EngineSlot { engine: "onnx".to_string(), precisions: None }]);
    assert_eq!(find_artifact_in_model(&model, "onnx", "fp16").unwrap_err(), ArtifactError::EngineNotObject);
    model.artifacts = Some(vec![EngineSlot {
        engine: "onnx".to_string(),
        precisions: Some(vec![
            PrecisionSlot { precision: "fp16".to_string(), entry: None },
        ]),
    }]);
    assert_eq!(find_artifact_in_model(&model, "onnx", "fp16").unwrap_err(), ArtifactError::BadEntry);
    model.artifacts = Some(vec![EngineSlot {
        engine: "onnx".to_string(),
        precisions: Some(vec![PrecisionSlot {
            precision: "fp16".to_string(),
            entry: Some(V2ArtifactEntry {
                engine: "onnx".to_string(),
                precision: "fp16".to_string(),
                format: String::new(),
                files: vec![],
            }),
        }]),
    }]);
    assert_eq!(find_artifact_in_model(&model, "onnx", "fp16").unwrap_err(), ArtifactError::NoFiles);
}

#[test]
fn grouped_manifest_and_target_choice() {
    let m = sample_manifest();
    assert!(m.has_grouped_models());
    let opts = V2DownloadOptions::with_defaults("/tmp/models");
    let f = resolve_artifact_target(&m, &opts).unwrap();
    assert_eq!(f.release_asset_name, "mobilenet_v3_small.trislot_decoder.v2_0.fp16.onnx");
    let by_stem = V2DownloadOptions::with_asset_stem("/tmp/models", "mobilenet_v3_small.trislot_decoder.v2_0");
    assert_eq!(resolve_artifact_target(&m, &by_stem).unwrap().sha256, "deadbeef");
    let bad_stem = V2DownloadOptions::with_asset_stem("/tmp/models", "nope");
    assert_eq!(resolve_artifact_target(&m, &bad_stem).unwrap_err(), TargetError::NoSuchStem);
    let mut other = V2DownloadOptions::with_defaults("/tmp/models");
    other.backbone = "resnet".to_string();
    assert_eq!(resolve_artifact_target(&m, &other).unwrap_err(), TargetError::NoSuchModel);
    other.backbone = "mobilenet_v3_small".to_string();
    other.precision = "fp32".to_string();
    assert_eq!(
        resolve_artifact_target(&m, &other).unwrap_err(),
        TargetError::Artifact(ArtifactError::MissingPrecision)
    );
}

#[test]
fn download_options_and_urls() {
    let o = V2DownloadOptions::with_tag("/d", "  v2.0.2 ");
    assert_eq!(o.requested_tag(), Some("v2.0.2".to_string()));
    assert_eq!(V2DownloadOptions::with_tag("/d", "   ").requested_tag(), None);
    assert_eq!(V2DownloadOptions::default().requested_tag(), None);
    assert_eq!(o.model_name(), "mobilenet_v3_small.trislot_decoder.v2_0.fp16.onnx");
    assert_eq!(o.dest, "/d");
    assert_eq!(Mirror::preferred_order(), vec![Mirror::Github, Mirror::Gitee]);
    assert_eq!(
        manifest_url(Mirror::Gitee, "v2.0.2"),
        "https://gitee.com/a645162/shmtu-cas-ocr-model/releases/download/v2.0.2/model-assets.json"
    );
    assert_eq!(
        asset_url(Mirror::Github, "v2.0.2", "x.onnx"),
        "https://github.com/a645162/shmtu-cas-ocr-model/releases/download/v2.0.2/x.onnx"
    );
    let file = V2ArtifactFile { path: String::new(), sha256: "abc".to_string(), release_asset_name: String::new() };
    assert_eq!(o.expected_checksum(&file), "abc");
    let mut given = o.clone();
    given.expected_sha256 = Some("fff".to_string());
    assert_eq!(given.expected_checksum(&file), "fff");
}

#[test]
fn sha256_of_known_input() {
    let d = sha256_of(b"abc");
    assert_eq!(d, "ba7816bf8f01cfea414140de5dae2223b00361a396177a9cb410ff61f20015ad");
    assert!(checksum_matches(b"abc", &d));
    assert!(!checksum_matches(b"abd", &d));
}

use shmtu::manifest::{list_models_from_manifest, model_entry_to_info, V2FlatArtifact};

fn flat(family: &str, backbone: &str, version: &str) -> V2FlatArtifact {
    V2FlatArtifact {
        version: version.to_string(),
        family: family.to_string(),
        backbone: backbone.to_string(),
        engine: "onnx".to_string(),
        precision: "fp16".to_string(),
        format: "onnx".to_string(),
        files: vec![V2ArtifactFile {
            path: "x.onnx".to_string(),
            release_asset_name: "x.onnx".to_string(),
            sha256: "abc".to_string(),
        }],
    }
}

#[test]
fn list_models_returns_info() {
    let m = sample_manifest();
    let infos = list_models_from_manifest(&m);
    assert_eq!(infos.len(), 1);
    assert_eq!(infos[0].asset_stem, "mobilenet_v3_small.trislot_decoder.v2_0");
    assert_eq!(infos[0].supported_backbones.len(), 2);
}

#[test]
fn fallback_to_flat_artifacts() {
    let m = V2Manifest {
        schema_version: 1,
        modellist: vec![],
        models: vec![],
        artifacts: vec![flat("trislot_decoder", "mobilenet_v3_small", "2.0")],
    };
    assert!(!m.has_grouped_models());
    let infos = list_models_from_manifest(&m);
    assert_eq!(infos.len(), 1);
    assert_eq!(infos[0].backbone, "mobilenet_v3_small");
    assert_eq!(infos[0].family, "trislot_decoder");
}

#[test]
fn flat_listing_is_sorted_and_keeps_first_artifact() {
    let m = V2Manifest {
        schema_version: 1,
        modellist: vec![],
        models: vec![],
        artifacts: vec![
            flat("b", "y", "1"),
            flat("a", "z", "2"),
            flat("b", "y", "3"),
            flat("a", "c", "4"),
            flat("b", "x", "5"),
        ],
    };
    let infos = list_models_from_manifest(&m);
    let keys: Vec<(String, String, String)> =
        infos.iter().map(|i| (i.family.clone(), i.backbone.clone(), i.version.clone())).collect();
    assert_eq!(keys, vec![
        ("a".to_string(), "c".to_string(), "4".to_string()),
        ("a".to_string(), "z".to_string(), "2".to_string()),
        ("b".to_string(), "x".to_string(), "5".to_string()),
        ("b".to_string(), "y".to_string(), "1".to_string()),
    ]);
    assert_eq!(infos[0].asset_stem, "c.a");
    assert_eq!(infos[0].display_name, "c");
    assert_eq!(infos[0].supported_backbones, vec!["c".to_string()]);
}

#[test]
fn summary_defaults_to_backbone() {
    let mut e = sample_model();
    e.display_name = String::new();
    e.supported_backbones = vec![];
    let s = model_entry_to_info(&e);
    assert_eq!(s.display_name, "mobilenet_v3_small");
    assert_eq!(s.supported_backbones, vec!["mobilenet_v3_small".to_string()]);
}
