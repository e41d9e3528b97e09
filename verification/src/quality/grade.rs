//! Quality grades, blur levels and analysis profiles.

use vstd::prelude::*;

verus! {

/// Blur detection levels
#[derive(Debug, Clone, Copy, PartialEq, Eq, Structural)]
pub enum BlurLevel {
    /// Very clear, minimal blur. Suitable for high quality capture.
    Sharp,
    /// Slight blur, still acceptable for general use.
    Good,
    /// Noticeable blur, borderline acceptable depending on use case.
    Moderate,
    /// Significant blur, poor quality. Should likely be discarded.
    Blurry,
    /// Severely blurred, unusable for any purpose.
    VeryBlurry,
}

/// Quality grade enumeration
#[derive(Debug, Clone, Copy, PartialEq, Eq, Structural)]
pub enum QualityGrade {
    /// 0.9+ score. Exceptional quality.
    Excellent,
    /// 0.8-0.89 score. High quality, suitable for professional use.
    VeryGood,
    /// 0.7-0.79 score. Good quality, acceptable for most uses.
    Good,
    /// 0.6-0.69 score. Acceptable but imperfect.
    Fair,
    /// 0.4-0.59 score. Noticeable flaws.
    Poor,
    /// <0.4 score. Unusable quality.
    VeryPoor,
}

/// The display name of a grade.
pub open spec fn grade_name(g: QualityGrade) -> Seq<char> {
    match g {
        QualityGrade::Excellent => "Excellent"@,
        QualityGrade::VeryGood => "Very Good"@,
        QualityGrade::Good => "Good"@,
        QualityGrade::Fair => "Fair"@,
        QualityGrade::Poor => "Poor"@,
        QualityGrade::VeryPoor => "Very Poor"@,
    }
}

impl QualityGrade {
    /// Get string representation for display.
    pub fn as_str(&self) -> (s: &'static str)
        ensures
            s@ == grade_name(*self),
    {
        match self {
            Self::Excellent => "Excellent",
            Self::VeryGood => "Very Good",
            Self::Good => "Good",
            Self::Fair => "Fair",
            Self::Poor => "Poor",
            Self::VeryPoor => "Very Poor",
        }
    }
}

/// Analysis profile controlling the cost/accuracy trade-off for quality validation.
///
/// - `Standard` is the balanced default (full resolution, moderate noise
///   sampling, balanced weights).
/// - `FastPreview` is for preview / hot paths: downscales the frame, samples noise
///   coarsely, and weights only blur + exposure (skips composition/technical).
/// - `FinalCapture` is the accurate pass: denser noise sampling and slightly more
///   weight on composition/technical.
#[derive(Debug, Clone, Copy, PartialEq, Eq, Structural)]
pub enum QualityProfile {
    /// Balanced default behavior.
    Standard,
    /// Cheap pass for live preview / hot loops.
    FastPreview,
    /// Accurate pass for final captured frames.
    FinalCapture,
}

impl Default for QualityProfile {
    fn default() -> (p: Self)
        ensures
            p == QualityProfile::Standard,
    {
        QualityProfile::Standard
    }
}

impl QualityProfile {
    /// Maximum dimension (px) to analyze; larger frames are downscaled.
    /// `None` disables downscaling.
    pub fn max_analysis_dimension(&self) -> (d: Option<u32>)
        ensures
            d == (match *self {
                QualityProfile::FastPreview => Some(320u32),
                _ => None,
            }),
    {
        match self {
            QualityProfile::FastPreview => Some(320),
            QualityProfile::Standard | QualityProfile::FinalCapture => None,
        }
    }

    /// Byte stride for noise sampling; smaller = denser (more accurate).
    pub fn noise_sampling_step(&self) -> (s: usize)
        ensures
            s == (match *self {
                QualityProfile::FastPreview => 1200usize,
                QualityProfile::Standard => 300usize,
                QualityProfile::FinalCapture => 30usize,
            }),
    {
        match self {
            QualityProfile::FastPreview => 1200,
            QualityProfile::Standard => 300,
            QualityProfile::FinalCapture => 30,
        }
    }
}

} // verus!
