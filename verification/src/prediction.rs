//! The energy-prediction capability: the contract interchangeable regressor
//! backends implement, the tag selecting which backend to construct, and
//! the verified unit-conversion step every backend applies to its inputs.

use vstd::prelude::*;

use crate::traversal::TraversalModelError;
use crate::units::{
    convert_grade_value, convert_speed_value, EnergyRate, EnergyRateUnit, Grade, GradeUnit, Speed,
    SpeedUnit,
};

verus! {

/// The tag selecting which prediction backend to construct: a tree-ensemble
/// regressor or a neural-network inference session.
#[derive(Clone, Copy, Debug, PartialEq, Eq, Structural)]
pub enum ModelType {
    Smartcore,
    Onnx,
}

/// Everything a runtime needs to load one prediction backend: the tag, the
/// path of the trained artifact, and the units the artifact was trained on.
/// Fixed once at construction; never mutated afterwards.
pub struct PredictionModelConfig {
    pub model_type: ModelType,
    pub energy_model_path: String,
    pub speed_unit: SpeedUnit,
    pub grade_unit: GradeUnit,
    pub energy_rate_unit: EnergyRateUnit,
}

impl ModelType {
    /// The lower-case tag naming the backend, as it appears in
    /// configuration documents.
    pub fn name(&self) -> (r: String)
        ensures
            r@ == match *self {
                ModelType::Smartcore => "smartcore"@,
                ModelType::Onnx => "onnx"@,
            },
    {
        match self {
            ModelType::Smartcore => "smartcore".to_owned(),
            ModelType::Onnx => "onnx".to_owned(),
        }
    }

    /// Decides how a speed-grade energy prediction backend is to be built:
    /// packages the artifact path and the unit configuration under this
    /// tag. The load itself — file reads and inference-runtime
    /// initialization — is performed by the surrounding runtime from the
    /// returned configuration, and its failures are reported there as
    /// `BuildError`s.
    pub fn build(
        &self,
        energy_model_path: &String,
        energy_model_speed_unit: SpeedUnit,
        energy_model_grade_unit: GradeUnit,
        energy_model_energy_rate_unit: EnergyRateUnit,
    ) -> (r: Result<PredictionModelConfig, TraversalModelError>)
        ensures
            r matches Ok(c) && c.model_type == *self && c.energy_model_path@
                == energy_model_path@ && c.speed_unit == energy_model_speed_unit && c.grade_unit
                == energy_model_grade_unit && c.energy_rate_unit
                == energy_model_energy_rate_unit,
    {
        Ok(
            PredictionModelConfig {
                model_type: *self,
                energy_model_path: energy_model_path.clone(),
                speed_unit: energy_model_speed_unit,
                grade_unit: energy_model_grade_unit,
                energy_rate_unit: energy_model_energy_rate_unit,
            },
        )
    }
}

/// The capability contract of an energy-rate regressor. A backend wraps one
/// loaded inference artifact, is immutable after construction, and must be
/// safe to invoke from arbitrarily many concurrent callers, answering
/// identical inputs with identical outputs. Concrete backends live with the
/// inference runtimes, outside the verified core; every successful
/// prediction is tagged with the backend's configured energy-rate unit.
pub trait SpeedGradePredictionModel {
    /// The unit every successful prediction is reported in.
    spec fn energy_rate_unit_spec(&self) -> EnergyRateUnit;

    /// Predicts the energy-consumption rate at which a vehicle moving at
    /// `speed` on a road of grade `grade` consumes energy. A failure of the
    /// underlying regressor is reported for the one call it hit.
    fn predict(&self, speed: Speed, speed_unit: SpeedUnit, grade: Grade, grade_unit: GradeUnit)
        -> (r: Result<(EnergyRate, EnergyRateUnit), TraversalModelError>)
        ensures
            r matches Ok(p) ==> p.1 == self.energy_rate_unit_spec(),
    ;
}

/// Converts a caller's speed and grade into the units a backend's artifact
/// was trained on, before inference: exactly the fixed-point conversions of
/// the unit module, with a `NumericError` when a converted quantity leaves
/// its representable range.
pub fn prepare_model_input(
    speed: Speed,
    speed_unit: SpeedUnit,
    model_speed_unit: SpeedUnit,
    grade: Grade,
    grade_unit: GradeUnit,
    model_grade_unit: GradeUnit,
) -> (r: Result<(Speed, Grade), TraversalModelError>)
    ensures
        ({
            let s = convert_speed_value(speed.0 as int, speed_unit, model_speed_unit);
            let g = convert_grade_value(grade.0 as int, grade_unit, model_grade_unit);
            if s <= u64::MAX && i64::MIN <= g <= i64::MAX {
                r == Ok::<(Speed, Grade), TraversalModelError>((Speed(s as u64), Grade(g as i64)))
            } else {
                r == Err::<(Speed, Grade), TraversalModelError>(TraversalModelError::NumericError)
            }
        }),
{
    match speed_unit.convert(speed, model_speed_unit) {
        Some(converted_speed) => {
            match grade_unit.convert(grade, model_grade_unit) {
                Some(converted_grade) => Ok((converted_speed, converted_grade)),
                None => Err(TraversalModelError::NumericError),
            }
        },
        None => Err(TraversalModelError::NumericError),
    }
}

} // verus!
