//! Recognition results of the captcha OCR models.
use vstd::prelude::*;
use vstd::string::*;

use crate::bill::{ascii_lowercase, to_ascii_lowercase};
use crate::text::{i64_to_decimal, int_to_decimal, str_eq, trim, trim_string};

verus! {

/// Model generation.
#[derive(Debug, Clone, Copy, PartialEq, Eq, Structural)]
pub enum ModelVersion {
    /// Three separate ResNet models (kept for existing users).
    V1,
    /// One MobileNetV3 tri-slot decoder (the default).
    V2,
}

impl Default for ModelVersion {
    fn default() -> (r: Self)
        ensures
            r == ModelVersion::V2,
    {
        ModelVersion::V2
    }
}

impl ModelVersion {
    pub open spec fn as_str_spec(self) -> Seq<char> {
        match self {
            ModelVersion::V1 => "v1"@,
            ModelVersion::V2 => "v2"@,
        }
    }

    pub open spec fn parse_spec(s: Seq<char>) -> ModelVersion {
        let l = ascii_lowercase(trim(s));
        if l == "v1"@ {
            ModelVersion::V1
        } else {
            ModelVersion::V2
        }
    }

    /// `v1` / `v2`, as configuration files write it.
    pub fn as_str(self) -> (r: &'static str)
        ensures
            r@ == self.as_str_spec(),
    {
        match self {
            ModelVersion::V1 => "v1",
            ModelVersion::V2 => "v2",
        }
    }

    pub fn display_name(self) -> (r: &'static str)
        ensures
            self == ModelVersion::V1 ==> r@ == "v1 (旧版, 3 模型 ResNet)"@,
            self == ModelVersion::V2 ==> r@ == "v2 (新版, 单模型 MobileNetV3)"@,
    {
        match self {
            ModelVersion::V1 => "v1 (旧版, 3 模型 ResNet)",
            ModelVersion::V2 => "v2 (新版, 单模型 MobileNetV3)",
        }
    }

    /// Reads `v1` or `v2` (trimmed, ignoring ASCII case); anything else gives
    /// the default, `V2`.
    pub fn parse_or_default(s: &str) -> (r: Self)
        ensures
            r == Self::parse_spec(s@),
    {
        let t = trim_string(s);
        let l = to_ascii_lowercase(t.as_str());
        if str_eq(l.as_str(), "v1") {
            ModelVersion::V1
        } else if str_eq(l.as_str(), "v2") {
            ModelVersion::V2
        } else {
            ModelVersion::default()
        }
    }
}

/// What each operator computes from the two digits: an addition gives a
/// value from which taking `b` leaves `a`, a subtraction a value to which
/// adding `b` gives back `a`, a multiplication the product; the Chinese
/// form of an operator computes what its symbol form does.
pub proof fn lemma_operator_values(a: int, b: int)
    ensures
        ExprOperator::Add.apply(a, b) - b == a,
        ExprOperator::Sub.apply(a, b) + b == a,
        ExprOperator::Mul.apply(a, b) == a * b,
        ExprOperator::AddChs.apply(a, b) == ExprOperator::Add.apply(a, b),
        ExprOperator::SubChs.apply(a, b) == ExprOperator::Sub.apply(a, b),
        ExprOperator::MulChs.apply(a, b) == ExprOperator::Mul.apply(a, b),
{
}

/// A version reads back from its own name.
pub proof fn lemma_model_version_round_trip(v: ModelVersion)
    ensures
        ModelVersion::parse_spec(v.as_str_spec()) == v,
{
    reveal_strlit("v1");
    reveal_strlit("v2");
    let s = v.as_str_spec();
    crate::text::lemma_trim_of_trimmed(s);
    assert(ascii_lowercase(s) =~= s);
    assert("v1"@[1] != "v2"@[1]);
}

/// Kind of equals sign on the captcha.
#[derive(Debug, Clone, Copy, PartialEq, Eq, Structural)]
pub enum EqualSymbol {
    Chs,
    Symbol,
    /// Second-generation models do not predict the equals sign.
    NotApplicable,
}

impl EqualSymbol {
    pub open spec fn code_spec(self) -> i32 {
        match self {
            EqualSymbol::Chs => 0i32,
            EqualSymbol::Symbol => 1i32,
            EqualSymbol::NotApplicable => -1i32,
        }
    }

    /// The numeric code the OCR services report (0, 1, or -1).
    pub fn code(self) -> (r: i32)
        ensures
            r == self.code_spec(),
    {
        match self {
            EqualSymbol::Chs => 0,
            EqualSymbol::Symbol => 1,
            EqualSymbol::NotApplicable => -1,
        }
    }
}

/// Operator on the captcha, in digits or in Chinese.
#[derive(Debug, Clone, Copy, PartialEq, Eq, Structural)]
pub enum ExprOperator {
    Add,
    AddChs,
    Sub,
    SubChs,
    Mul,
    MulChs,
}

impl ExprOperator {
    pub open spec fn apply(self, a: int, b: int) -> int {
        match self {
            ExprOperator::Add | ExprOperator::AddChs => a + b,
            ExprOperator::Sub | ExprOperator::SubChs => a - b,
            ExprOperator::Mul | ExprOperator::MulChs => a * b,
        }
    }

    pub open spec fn as_str_spec(self) -> Seq<char> {
        match self {
            ExprOperator::Add | ExprOperator::AddChs => "+"@,
            ExprOperator::Sub | ExprOperator::SubChs => "-"@,
            ExprOperator::Mul | ExprOperator::MulChs => "×"@,
        }
    }

    /// The operator's symbol.
    pub fn as_str(self) -> (r: &'static str)
        ensures
            r@ == self.as_str_spec(),
    {
        match self {
            ExprOperator::Add | ExprOperator::AddChs => "+",
            ExprOperator::Sub | ExprOperator::SubChs => "-",
            ExprOperator::Mul | ExprOperator::MulChs => "×",
        }
    }

    pub open spec fn code_spec(self) -> i32 {
        match self {
            ExprOperator::Add => 0i32,
            ExprOperator::AddChs => 1i32,
            ExprOperator::Sub => 2i32,
            ExprOperator::SubChs => 3i32,
            ExprOperator::Mul => 4i32,
            ExprOperator::MulChs => 5i32,
        }
    }

    /// The numeric code the OCR services report (0 to 5).
    pub fn code(self) -> (r: i32)
        ensures
            r == self.code_spec(),
    {
        match self {
            ExprOperator::Add => 0,
            ExprOperator::AddChs => 1,
            ExprOperator::Sub => 2,
            ExprOperator::SubChs => 3,
            ExprOperator::Mul => 4,
            ExprOperator::MulChs => 5,
        }
    }

    /// The value of `digit1 op digit2`.
    pub fn calculate(self, digit1: i32, digit2: i32) -> (r: i32)
        requires
            i32::MIN <= self.apply(digit1 as int, digit2 as int) <= i32::MAX,
        ensures
            r == self.apply(digit1 as int, digit2 as int),
    {
        match self {
            ExprOperator::Add | ExprOperator::AddChs => digit1 + digit2,
            ExprOperator::Sub | ExprOperator::SubChs => digit1 - digit2,
            ExprOperator::Mul | ExprOperator::MulChs => digit1 * digit2,
        }
    }
}

/// A recognised captcha.
#[derive(Debug, Clone)]
pub struct OcrResult {
    /// The final answer.
    pub result: i32,
    /// The whole expression, such as `3 + 5 = 8`.
    pub expr: String,
    pub equal_symbol: EqualSymbol,
    pub operator: ExprOperator,
    pub digit1: i32,
    pub digit2: i32,
}

// ---------------------------------------------------------------------------
// Decoding the models' class indices
// ---------------------------------------------------------------------------
/// The equals sign the first-generation equals model's class stands for:
/// class 1 is the symbol, any other the Chinese character.
pub fn v1_equal_symbol(cls: i32) -> (r: EqualSymbol)
    ensures
        r == (if cls == 1 { EqualSymbol::Symbol } else { EqualSymbol::Chs }),
{
    if cls == 1 {
        EqualSymbol::Symbol
    } else {
        EqualSymbol::Chs
    }
}

/// The operator of a first-generation operator class (0 to 5, in the
/// order `+`, `加`, `-`, `减`, `×`, `乘`), or `None` for another class.
pub fn v1_operator(cls: i32) -> (r: Option<ExprOperator>)
    ensures
        0 <= cls <= 5 ==> (r matches Some(op) && op.code_spec() == cls),
        !(0 <= cls <= 5) ==> r is None,
{
    match cls {
        0 => Some(ExprOperator::Add),
        1 => Some(ExprOperator::AddChs),
        2 => Some(ExprOperator::Sub),
        3 => Some(ExprOperator::SubChs),
        4 => Some(ExprOperator::Mul),
        5 => Some(ExprOperator::MulChs),
        _ => None,
    }
}

/// The operator of a second-generation operator class: 0 is `+`, 1 is `-`,
/// 2 is `×`; `None` for another class.
pub fn v2_operator(cls: i32) -> (r: Option<ExprOperator>)
    ensures
        cls == 0 ==> r == Some(ExprOperator::Add),
        cls == 1 ==> r == Some(ExprOperator::Sub),
        cls == 2 ==> r == Some(ExprOperator::Mul),
        !(0 <= cls <= 2) ==> r is None,
{
    match cls {
        0 => Some(ExprOperator::Add),
        1 => Some(ExprOperator::Sub),
        2 => Some(ExprOperator::Mul),
        _ => None,
    }
}

/// `{digit1} {op} {digit2} = {result}`.
pub open spec fn expression_text(digit1: i32, op: ExprOperator, digit2: i32, result: int) -> Seq<char> {
    int_to_decimal(digit1 as int) + " "@ + op.as_str_spec() + " "@ + int_to_decimal(digit2 as int)
        + " = "@ + int_to_decimal(result)
}

/// The recognised captcha from its two digits and operator: the value of
/// the expression and its text.
pub fn decode_result(digit1: i32, op: ExprOperator, digit2: i32, equal_symbol: EqualSymbol) -> (r: OcrResult)
    requires
        i32::MIN <= op.apply(digit1 as int, digit2 as int) <= i32::MAX,
    ensures
        r.result == op.apply(digit1 as int, digit2 as int),
        r.expr@ == expression_text(digit1, op, digit2, op.apply(digit1 as int, digit2 as int)),
        r.equal_symbol == equal_symbol,
        r.operator == op,
        r.digit1 == digit1,
        r.digit2 == digit2,
{
    let result = op.calculate(digit1, digit2);
    let mut expr = i64_to_decimal(digit1 as i64);
    expr.append(" ");
    expr.append(op.as_str());
    expr.append(" ");
    let d2 = i64_to_decimal(digit2 as i64);
    expr.append(d2.as_str());
    expr.append(" = ");
    let res = i64_to_decimal(result as i64);
    expr.append(res.as_str());
    OcrResult { result, expr, equal_symbol, operator: op, digit1, digit2 }
}

/// The model files a generation needs: the three first-generation models,
/// or the default second-generation model.
pub fn model_files(version: ModelVersion) -> (r: Vec<String>)
    ensures
        version == ModelVersion::V1 ==> r@.map_values(|s: String| s@) == seq![
            crate::const_value::v1::MODEL_ONNX_EQUAL@,
            crate::const_value::v1::MODEL_ONNX_OPERATOR@,
            crate::const_value::v1::MODEL_ONNX_DIGIT@,
        ],
        version == ModelVersion::V2 ==> r@.map_values(|s: String| s@) == seq![
            crate::const_value::v2::model_name_spec(
                crate::const_value::v2::DEFAULT_BACKBONE@,
                crate::const_value::v2::DEFAULT_PRECISION@,
            ),
        ],
{
    let mut r: Vec<String> = Vec::new();
    match version {
        ModelVersion::V1 => {
            r.push(String::from_str(crate::const_value::v1::MODEL_ONNX_EQUAL));
            r.push(String::from_str(crate::const_value::v1::MODEL_ONNX_OPERATOR));
            r.push(String::from_str(crate::const_value::v1::MODEL_ONNX_DIGIT));
        },
        ModelVersion::V2 => {
            r.push(
                crate::const_value::v2::build_model_name(
                    crate::const_value::v2::DEFAULT_BACKBONE,
                    crate::const_value::v2::DEFAULT_PRECISION,
                ),
            );
        },
    }
    assert(r@.map_values(|s: String| s@) =~= match version {
        ModelVersion::V1 => seq![
            crate::const_value::v1::MODEL_ONNX_EQUAL@,
            crate::const_value::v1::MODEL_ONNX_OPERATOR@,
            crate::const_value::v1::MODEL_ONNX_DIGIT@,
        ],
        ModelVersion::V2 => seq![
            crate::const_value::v2::model_name_spec(
                crate::const_value::v2::DEFAULT_BACKBONE@,
                crate::const_value::v2::DEFAULT_PRECISION@,
            ),
        ],
    });
    r
}

} // verus!
