//! The second model generation: one MobileNetV3 tri-slot decoder.
use vstd::prelude::*;
use vstd::string::*;

verus! {

pub const DEFAULT_TAG: &'static str = "v2.0.2";

pub const DEFAULT_BACKBONE: &'static str = "mobilenet_v3_small";

pub const DEFAULT_PRECISION: &'static str = "fp16";

pub const MODEL_FAMILY: &'static str = "trislot_decoder";

pub const BASE_URL_GITHUB: &'static str = "https://github.com/a645162/shmtu-cas-ocr-model/releases/download";

pub const BASE_URL_GITEE: &'static str = "https://gitee.com/a645162/shmtu-cas-ocr-model/releases/download";

pub const MANIFEST_NAME: &'static str = "model-assets.json";

/// `{backbone}.trislot_decoder.v2_0.{precision}.onnx`
pub open spec fn model_name_spec(backbone: Seq<char>, precision: Seq<char>) -> Seq<char> {
    backbone + "."@ + "trislot_decoder"@ + ".v2_0."@ + precision + ".onnx"@
}

/// The model file name: `{backbone}.trislot_decoder.v2_0.{precision}.onnx`.
pub fn build_model_name(backbone: &str, precision: &str) -> (r: String)
    ensures
        r@ == model_name_spec(backbone@, precision@),
{
    let mut r = String::from_str(backbone);
    r.append(".");
    r.append(MODEL_FAMILY);
    r.append(".v2_0.");
    r.append(precision);
    r.append(".onnx");
    r
}

} // verus!
