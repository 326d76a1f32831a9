use shmtu::const_value::v2::build_model_name;
use shmtu::ocr::{decode_result, model_files, v1_equal_symbol, v1_operator, v2_operator, EqualSymbol, ExprOperator, ModelVersion};

#[test]
fn model_version_names() {
    assert_eq!(ModelVersion::V1.as_str(), "v1");
    assert_eq!(ModelVersion::parse_or_default(" V1 "), ModelVersion::V1);
    assert_eq!(ModelVersion::parse_or_default("v3"), ModelVersion::V2);
    assert_eq!(ModelVersion::default(), ModelVersion::V2);
    assert_eq!(ModelVersion::V2.display_name(), "v2 (新版, 单模型 MobileNetV3)");
}

#[test]
fn operators_and_codes() {
    assert_eq!(ExprOperator::SubChs.as_str(), "-");
    assert_eq!(ExprOperator::MulChs.calculate(6, 7), 42);
    assert_eq!(ExprOperator::Sub.calculate(3, 5), -2);
    assert_eq!(ExprOperator::MulChs.code(), 5);
    assert_eq!(EqualSymbol::NotApplicable.code(), -1);
    assert_eq!(v1_equal_symbol(1), EqualSymbol::Symbol);
    assert_eq!(v1_equal_symbol(0), EqualSymbol::Chs);
    assert_eq!(v1_operator(3), Some(ExprOperator::SubChs));
    assert_eq!(v1_operator(6), None);
    assert_eq!(v2_operator(2), Some(ExprOperator::Mul));
    assert_eq!(v2_operator(-1), None);
}

#[test]
fn decoded_expression_text() {
    let r = decode_result(3, ExprOperator::Add, 5, EqualSymbol::Symbol);
    assert_eq!(r.result, 8);
    assert_eq!(r.expr, "3 + 5 = 8");
    let r = decode_result(-1, ExprOperator::Mul, 9, EqualSymbol::NotApplicable);
    assert_eq!(r.expr, "-1 × 9 = -9");
}

#[test]
fn model_file_names() {
    assert_eq!(build_model_name("a", "fp32"), "a.trislot_decoder.v2_0.fp32.onnx");
    assert_eq!(model_files(ModelVersion::V2), vec!["mobilenet_v3_small.trislot_decoder.v2_0.fp16.onnx".to_string()]);
    assert_eq!(model_files(ModelVersion::V1).len(), 3);
}
