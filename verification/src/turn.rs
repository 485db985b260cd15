//! Classification of the signed bearing delta between two edges into a
//! discrete turn category, used to look up turn-dependent access penalties.

use vstd::prelude::*;

verus! {

/// A discrete turn category, derived from a signed bearing-delta angle in
/// whole degrees. Negative angles turn left, positive angles turn right.
#[derive(Clone, Copy, Debug, PartialEq, Eq, Structural)]
pub enum Turn {
    NoTurn,
    SlightRight,
    SlightLeft,
    Right,
    Left,
    SharpRight,
    SharpLeft,
    UTurn,
}

/// Errors raised while reading attributes of the road network.
#[derive(Clone, Debug)]
pub enum GraphError {
    /// An attribute value fell outside its legal range; carries the name of
    /// the attribute and the offending value for diagnosis.
    AttributeError { attribute: String, value: i64 },
}

/// The turn category assigned to each angle of the legal domain
/// `[-180, 180]`, and `None` outside it. The bins are inclusive on both
/// ends and cover the domain exhaustively.
pub open spec fn turn_of_angle(angle: int) -> Option<Turn> {
    if -180 <= angle <= -160 {
        Some(Turn::UTurn)
    } else if -159 <= angle <= -135 {
        Some(Turn::SharpLeft)
    } else if -134 <= angle <= -45 {
        Some(Turn::Left)
    } else if -44 <= angle <= -20 {
        Some(Turn::SlightLeft)
    } else if -19 <= angle <= 19 {
        Some(Turn::NoTurn)
    } else if 20 <= angle <= 44 {
        Some(Turn::SlightRight)
    } else if 45 <= angle <= 134 {
        Some(Turn::Right)
    } else if 135 <= angle <= 159 {
        Some(Turn::SharpRight)
    } else if 160 <= angle <= 180 {
        Some(Turn::UTurn)
    } else {
        None
    }
}

impl Turn {
    /// Classifies a signed bearing-delta angle into its turn category.
    /// Returns an `AttributeError` naming the offending value for any angle
    /// outside `[-180, 180]`.
    pub fn from_angle(angle: i16) -> (r: Result<Turn, GraphError>)
        ensures
            match turn_of_angle(angle as int) {
                Some(t) => r == Ok::<Turn, GraphError>(t),
                None => r matches Err(GraphError::AttributeError { attribute, value })
                    && attribute@ == "turn"@ && value == angle as i64,
            },
    {
        if -180 <= angle && angle <= -160 {
            Ok(Turn::UTurn)
        } else if -159 <= angle && angle <= -135 {
            Ok(Turn::SharpLeft)
        } else if -134 <= angle && angle <= -45 {
            Ok(Turn::Left)
        } else if -44 <= angle && angle <= -20 {
            Ok(Turn::SlightLeft)
        } else if -19 <= angle && angle <= 19 {
            Ok(Turn::NoTurn)
        } else if 20 <= angle && angle <= 44 {
            Ok(Turn::SlightRight)
        } else if 45 <= angle && angle <= 134 {
            Ok(Turn::Right)
        } else if 135 <= angle && angle <= 159 {
            Ok(Turn::SharpRight)
        } else if 160 <= angle && angle <= 180 {
            Ok(Turn::UTurn)
        } else {
            Err(GraphError::AttributeError { attribute: "turn".to_owned(), value: angle as i64 })
        }
    }
}

/// Turn classification is total over the domain `[-180, 180]`: every angle
/// of the domain is assigned a category.
pub proof fn lemma_turn_classification_total(angle: int)
    requires
        -180 <= angle <= 180,
    ensures
        turn_of_angle(angle) is Some,
{
}

} // verus!
