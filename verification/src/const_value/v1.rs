//! The first model generation: three separate ResNet ONNX models.
use vstd::prelude::*;

verus! {

pub const MODEL_ONNX_EQUAL: &'static str = "resnet18_equal_symbol_latest.onnx";

pub const MODEL_ONNX_OPERATOR: &'static str = "resnet18_operator_latest.onnx";

pub const MODEL_ONNX_DIGIT: &'static str = "resnet34_digit_latest.onnx";

pub const SHA256SUMS_FILE: &'static str = "SHA256SUMS.txt";

pub const BASE_URL_GITEE: &'static str =
    "https://gitee.com/a645162/shmtu-cas-ocr-model/releases/download/v1.0-ONNX";

pub const BASE_URL_GITHUB: &'static str =
    "https://github.com/a645162/shmtu-cas-ocr-model/releases/download/v1.0-ONNX";

pub const CHECKSUM_URL: &'static str =
    "https://gitee.com/a645162/shmtu-cas-ocr-model/releases/download/v1.0-ONNX/SHA256SUMS.txt";

} // verus!
