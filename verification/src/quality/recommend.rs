//! Quality improvement suggestions for an analysed frame.

use vstd::prelude::*;
use crate::quality::grade::BlurLevel;

verus! {

broadcast use vstd::string::to_string_from_display_ensures_for_str;

/// The findings of a frame analysis that suggestions are made from. The
/// floating-point comparisons (noise against its limit, colour balance
/// against 0.6) are made by the analysis and handed in as flags.
#[derive(Debug, Clone, Copy, PartialEq, Eq, Structural)]
pub struct AnalysisFindings {
    /// Blur level of the frame.
    pub blur_level: BlurLevel,
    /// The exposure analysis judged the frame underexposed.
    pub underexposed: bool,
    /// The exposure analysis judged the frame overexposed.
    pub overexposed: bool,
    /// The noise estimate exceeds the configured maximum.
    pub noisy: bool,
    /// Frame width.
    pub width: u32,
    /// Frame height.
    pub height: u32,
    /// Minimum width required.
    pub min_width: u32,
    /// Minimum height required.
    pub min_height: u32,
    /// The colour balance score is below 0.6.
    pub poor_color_balance: bool,
}

/// Suggestion for a blurry frame.
pub open spec fn blurry_advice() -> Seq<char> {
    "Image is blurry. Try stabilizing the camera or using faster shutter speed."@
}

/// Suggestion for an underexposed frame.
pub open spec fn underexposed_advice() -> Seq<char> {
    "Image is underexposed. Increase exposure time, ISO, or add lighting."@
}

/// Suggestion for an overexposed frame.
pub open spec fn overexposed_advice() -> Seq<char> {
    "Image is overexposed. Decrease exposure time, lower ISO, or reduce lighting."@
}

/// Suggestion for a noisy frame.
pub open spec fn noise_advice() -> Seq<char> {
    "High noise detected. Consider lowering ISO or improving lighting conditions."@
}

/// Suggestion for a frame below the minimum resolution.
pub open spec fn resolution_advice() -> Seq<char> {
    "Low resolution detected. Consider using higher resolution settings."@
}

/// Suggestion for a frame with poor colour balance.
pub open spec fn color_advice() -> Seq<char> {
    "Poor color balance detected. Check white balance settings or lighting conditions."@
}

/// What is said of a frame with no flaw.
pub open spec fn all_good_advice() -> Seq<char> {
    "Image quality is good. No specific improvements needed."@
}

/// A suggestion when `cond` holds, none otherwise.
pub open spec fn advice_if(cond: bool, advice: Seq<char>) -> Seq<Seq<char>> {
    if cond {
        seq![advice]
    } else {
        seq![]
    }
}

/// The suggestions for the flaws found, in order: blur, exposure, noise,
/// resolution, colour balance.
pub open spec fn flaw_advice(f: AnalysisFindings) -> Seq<Seq<char>> {
    advice_if(
        f.blur_level == BlurLevel::Blurry || f.blur_level == BlurLevel::VeryBlurry,
        blurry_advice(),
    ) + advice_if(f.underexposed, underexposed_advice()) + advice_if(
        !f.underexposed && f.overexposed,
        overexposed_advice(),
    ) + advice_if(f.noisy, noise_advice()) + advice_if(
        f.width < f.min_width || f.height < f.min_height,
        resolution_advice(),
    ) + advice_if(f.poor_color_balance, color_advice())
}

/// The suggestions for a frame: those for its flaws, or the all-good note
/// when it has none.
pub open spec fn recommendations_for(f: AnalysisFindings) -> Seq<Seq<char>> {
    if flaw_advice(f).len() == 0 {
        seq![all_good_advice()]
    } else {
        flaw_advice(f)
    }
}

/// An element is in a concatenation exactly when it is in one of the parts.
proof fn lemma_concat_contains(a: Seq<Seq<char>>, b: Seq<Seq<char>>, x: Seq<char>)
    ensures
        (a + b).contains(x) <==> a.contains(x) || b.contains(x),
{
    if (a + b).contains(x) {
        let i = choose|i: int| 0 <= i < (a + b).len() && (a + b)[i] == x;
        if i < a.len() {
            assert(a[i] == x);
        } else {
            assert(b[i - a.len()] == x);
        }
    }
    if a.contains(x) {
        let i = choose|i: int| 0 <= i < a.len() && a[i] == x;
        assert((a + b)[i] == x);
    }
    if b.contains(x) {
        let i = choose|i: int| 0 <= i < b.len() && b[i] == x;
        assert((a + b)[a.len() + i] == x);
    }
}

/// Which piece of advice a text is, if any: the seven texts differ.
proof fn lemma_advice_texts_differ()
    ensures
        blurry_advice() != underexposed_advice(),
        blurry_advice() != overexposed_advice(),
        blurry_advice() != noise_advice(),
        blurry_advice() != resolution_advice(),
        blurry_advice() != color_advice(),
        all_good_advice() != blurry_advice(),
        all_good_advice() != underexposed_advice(),
        all_good_advice() != overexposed_advice(),
        all_good_advice() != noise_advice(),
        all_good_advice() != resolution_advice(),
        all_good_advice() != color_advice(),
        underexposed_advice() != overexposed_advice(),
        underexposed_advice() != noise_advice(),
        underexposed_advice() != resolution_advice(),
        underexposed_advice() != color_advice(),
        overexposed_advice() != noise_advice(),
        overexposed_advice() != resolution_advice(),
        overexposed_advice() != color_advice(),
        noise_advice() != resolution_advice(),
        noise_advice() != color_advice(),
        resolution_advice() != color_advice(),
{
    reveal_strlit("Image is blurry. Try stabilizing the camera or using faster shutter speed.");
    reveal_strlit("Image is underexposed. Increase exposure time, ISO, or add lighting.");
    reveal_strlit("Image is overexposed. Decrease exposure time, lower ISO, or reduce lighting.");
    reveal_strlit("High noise detected. Consider lowering ISO or improving lighting conditions.");
    reveal_strlit("Low resolution detected. Consider using higher resolution settings.");
    reveal_strlit(
        "Poor color balance detected. Check white balance settings or lighting conditions.",
    );
    reveal_strlit("Image quality is good. No specific improvements needed.");
    assert(blurry_advice()[9] != underexposed_advice()[9]);
    assert(blurry_advice()[9] != overexposed_advice()[9]);
    assert(blurry_advice()[0] != noise_advice()[0]);
    assert(blurry_advice()[0] != resolution_advice()[0]);
    assert(blurry_advice()[0] != color_advice()[0]);
    assert(all_good_advice()[6] != blurry_advice()[6]);
    assert(all_good_advice()[6] != underexposed_advice()[6]);
    assert(all_good_advice()[6] != overexposed_advice()[6]);
    assert(all_good_advice()[0] != noise_advice()[0]);
    assert(all_good_advice()[0] != resolution_advice()[0]);
    assert(all_good_advice()[0] != color_advice()[0]);
    assert(underexposed_advice()[9] != overexposed_advice()[9]);
    assert(underexposed_advice()[0] != noise_advice()[0]);
    assert(underexposed_advice()[0] != resolution_advice()[0]);
    assert(underexposed_advice()[0] != color_advice()[0]);
    assert(overexposed_advice()[0] != noise_advice()[0]);
    assert(overexposed_advice()[0] != resolution_advice()[0]);
    assert(overexposed_advice()[0] != color_advice()[0]);
    assert(noise_advice()[0] != resolution_advice()[0]);
    assert(noise_advice()[0] != color_advice()[0]);
    assert(resolution_advice()[0] != color_advice()[0]);
}

/// Each suggestion is made exactly for its flaw: the blur advice when the
/// frame is blurry or very blurry, the underexposure advice when it is
/// underexposed, the overexposure advice when it is overexposed and not
/// underexposed, the noise, resolution and colour advice for those flaws,
/// and the all-good note exactly when no flaw is found.
pub proof fn lemma_advice_matches_flaws(f: AnalysisFindings)
    ensures
        recommendations_for(f).contains(
            "Image is blurry. Try stabilizing the camera or using faster shutter speed."@,
        ) <==> (f.blur_level == BlurLevel::Blurry
            || f.blur_level == BlurLevel::VeryBlurry),
        recommendations_for(f).contains(
            "Image is underexposed. Increase exposure time, ISO, or add lighting."@,
        ) <==> f.underexposed,
        recommendations_for(f).contains(
            "Image is overexposed. Decrease exposure time, lower ISO, or reduce lighting."@,
        ) <==> (f.overexposed
            && !f.underexposed),
        recommendations_for(f).contains(
            "High noise detected. Consider lowering ISO or improving lighting conditions."@,
        ) <==> f.noisy,
        recommendations_for(f).contains(
            "Low resolution detected. Consider using higher resolution settings."@,
        ) <==> (f.width < f.min_width
            || f.height < f.min_height),
        recommendations_for(f).contains(
            "Poor color balance detected. Check white balance settings or lighting conditions."@,
        ) <==> f.poor_color_balance,
        recommendations_for(f).contains(
            "Image quality is good. No specific improvements needed."@,
        ) <==> !(f.blur_level == BlurLevel::Blurry
            || f.blur_level == BlurLevel::VeryBlurry || f.underexposed || f.overexposed || f.noisy
            || f.width < f.min_width || f.height < f.min_height || f.poor_color_balance),
{
    lemma_advice_texts_differ();
    let a1 = advice_if(
        f.blur_level == BlurLevel::Blurry || f.blur_level == BlurLevel::VeryBlurry,
        blurry_advice(),
    );
    let a2 = advice_if(f.underexposed, underexposed_advice());
    let a3 = advice_if(!f.underexposed && f.overexposed, overexposed_advice());
    let a4 = advice_if(f.noisy, noise_advice());
    let a5 = advice_if(f.width < f.min_width || f.height < f.min_height, resolution_advice());
    let a6 = advice_if(f.poor_color_balance, color_advice());
    let flaws = flaw_advice(f);
    assert(flaws == a1 + a2 + a3 + a4 + a5 + a6);
    assert forall|x: Seq<char>| #[trigger] flaws.contains(x) <==> (a1.contains(x) || a2.contains(
        x,
    ) || a3.contains(x) || a4.contains(x) || a5.contains(x) || a6.contains(x)) by {
        lemma_concat_contains(a1, a2, x);
        lemma_concat_contains(a1 + a2, a3, x);
        lemma_concat_contains(a1 + a2 + a3, a4, x);
        lemma_concat_contains(a1 + a2 + a3 + a4, a5, x);
        lemma_concat_contains(a1 + a2 + a3 + a4 + a5, a6, x);
    }
    assert forall|c: bool, adv: Seq<char>, x: Seq<char>| #[trigger] advice_if(c, adv).contains(x)
        <==> (c && adv == x) by {
        if c {
            assert(advice_if(c, adv)[0] == adv);
        }
    }
    assert(flaws.contains(blurry_advice()) == a1.contains(blurry_advice()));
    assert(flaws.contains(underexposed_advice()) == a2.contains(underexposed_advice()));
    assert(flaws.contains(overexposed_advice()) == a3.contains(overexposed_advice()));
    assert(flaws.contains(noise_advice()) == a4.contains(noise_advice()));
    assert(flaws.contains(resolution_advice()) == a5.contains(resolution_advice()));
    assert(flaws.contains(color_advice()) == a6.contains(color_advice()));
    assert(!flaws.contains(all_good_advice()));
    if flaws.len() == 0 {
        assert(seq![all_good_advice()][0] == all_good_advice());
        assert(!flaws.contains(blurry_advice()));
        assert(!flaws.contains(underexposed_advice()));
        assert(!flaws.contains(overexposed_advice()));
        assert(!flaws.contains(noise_advice()));
        assert(!flaws.contains(resolution_advice()));
        assert(!flaws.contains(color_advice()));
    }
    if a1.len() > 0 {
        assert(flaws.contains(a1[0]));
    }
    if a2.len() > 0 {
        assert(flaws.contains(a2[0]));
    }
    if a3.len() > 0 {
        assert(flaws.contains(a3[0]));
    }
    if a4.len() > 0 {
        assert(flaws.contains(a4[0]));
    }
    if a5.len() > 0 {
        assert(flaws.contains(a5[0]));
    }
    if a6.len() > 0 {
        assert(flaws.contains(a6[0]));
    }
}

/// The texts of a list of strings.
pub open spec fn texts(v: Seq<String>) -> Seq<Seq<char>> {
    v.map_values(|s: String| s@)
}

/// Push `advice` when `cond` holds.
fn push_if(out: &mut Vec<String>, cond: bool, advice: &str)
    ensures
        texts(final(out)@) == texts(old(out)@) + advice_if(cond, advice@),
{
    if cond {
        out.push(advice.to_string());
    }
    assert(texts(out@) =~= texts(old(out)@) + advice_if(cond, advice@));
}

/// Generate quality improvement recommendations
pub fn generate_recommendations(f: &AnalysisFindings) -> (r: Vec<String>)
    ensures
        r@.len() == recommendations_for(*f).len(),
        forall|i: int| 0 <= i < r@.len() ==> #[trigger] r@[i]@ == recommendations_for(*f)[i],
        texts(r@).contains(
            "Image is blurry. Try stabilizing the camera or using faster shutter speed."@,
        ) <==> (f.blur_level == BlurLevel::Blurry
            || f.blur_level == BlurLevel::VeryBlurry),
        texts(r@).contains(
            "Image quality is good. No specific improvements needed."@,
        ) <==> !(f.blur_level == BlurLevel::Blurry
            || f.blur_level == BlurLevel::VeryBlurry || f.underexposed || f.overexposed || f.noisy
            || f.width < f.min_width || f.height < f.min_height || f.poor_color_balance),
{
    let mut out: Vec<String> = Vec::new();
    assert(texts(out@) =~= Seq::<Seq<char>>::empty());
    let blurry = match f.blur_level {
        BlurLevel::Blurry | BlurLevel::VeryBlurry => true,
        _ => false,
    };
    push_if(
        &mut out,
        blurry,
        "Image is blurry. Try stabilizing the camera or using faster shutter speed.",
    );
    push_if(
        &mut out,
        f.underexposed,
        "Image is underexposed. Increase exposure time, ISO, or add lighting.",
    );
    push_if(
        &mut out,
        !f.underexposed && f.overexposed,
        "Image is overexposed. Decrease exposure time, lower ISO, or reduce lighting.",
    );
    push_if(
        &mut out,
        f.noisy,
        "High noise detected. Consider lowering ISO or improving lighting conditions.",
    );
    push_if(
        &mut out,
        f.width < f.min_width || f.height < f.min_height,
        "Low resolution detected. Consider using higher resolution settings.",
    );
    push_if(
        &mut out,
        f.poor_color_balance,
        "Poor color balance detected. Check white balance settings or lighting conditions.",
    );
    assert(texts(out@) =~= flaw_advice(*f));
    if out.len() == 0 {
        out.push("Image quality is good. No specific improvements needed.".to_string());
        assert(texts(out@) =~= seq![all_good_advice()]);
    }
    assert forall|i: int| 0 <= i < out@.len() implies #[trigger] out@[i]@ == recommendations_for(
        *f,
    )[i] by {
        assert(texts(out@)[i] == out@[i]@);
    }
    proof {
        lemma_advice_matches_flaws(*f);
        assert(texts(out@) =~= recommendations_for(*f));
    }
    out
}

} // verus!
