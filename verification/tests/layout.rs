use wemoji_render::compositor::max_advance;
use wemoji_render::metrics::FontMetrics;
use wemoji_render::style::ScalePx;
use wemoji_render::token::RenderToken;

#[test]
fn reach_counts_text_and_pictographs() {
    let font = FontMetrics {
        units_per_em: 12,
        ascent: 10,
        descent: 2,
        line_gap: 0,
        advances: vec![('H', 10), ('i', 4)],
    };
    let tokens = vec![
        RenderToken::Text("Hi".to_string()),
        RenderToken::StandardPictograph(vec![1, 2, 3]),
        RenderToken::CustomPictograph("https://example.invalid/a.png".to_string()),
    ];
    let total = max_advance(&font, ScalePx { x: 12, y: 12 }, &tokens).unwrap();
    // 14 pixels for the text run and 12 for each pictograph, whether or not
    // it would resolve: the reach is the upper bound over every outcome.
    assert_eq!(total, 14 + 12 + 12);
}

#[test]
fn empty_sequence_reaches_nowhere() {
    let font = FontMetrics {
        units_per_em: 1,
        ascent: 1,
        descent: 0,
        line_gap: 0,
        advances: vec![],
    };
    let tokens: Vec<RenderToken> = vec![];
    assert_eq!(max_advance(&font, ScalePx { x: 5, y: 5 }, &tokens), Some(0));
}

#[test]
fn unrepresentable_reach_is_rejected() {
    let font = FontMetrics {
        units_per_em: 1,
        ascent: 1,
        descent: 0,
        line_gap: 0,
        advances: vec![],
    };
    let tokens = vec![
        RenderToken::StandardPictograph(vec![]),
        RenderToken::StandardPictograph(vec![]),
    ];
    // Two pictograph edges of nearly 2^32 pixels cannot fit the
    // rasterizer's coordinate range.
    assert!(max_advance(&font, ScalePx { x: 1, y: u32::MAX }, &tokens).is_none());
}
