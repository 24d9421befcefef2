//! Cloze-deletion language drill engine: script-aware sentence segmentation,
//! prompt generation around a masked unit, batch assembly from an unreliable
//! corpus, and edit-distance grading of guesses.

pub mod batch;
pub mod distance;
pub mod grade;
pub mod score;
pub mod segment;
pub mod sentence;
pub mod text;
