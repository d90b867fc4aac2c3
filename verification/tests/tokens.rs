use wemoji_render::canvas::draw_pictograph;
use wemoji_render::canvas::Canvas;
use wemoji_render::token::{tokenize, RenderToken};

#[test]
fn plain_text_tokenizes_per_character_in_order() {
    let tokens = tokenize("Hi".to_string());
    assert_eq!(tokens.len(), 2);
    match &tokens[0] {
        RenderToken::Text(s) => assert_eq!(s, "H"),
        _ => panic!("expected a text token"),
    }
    match &tokens[1] {
        RenderToken::Text(s) => assert_eq!(s, "i"),
        _ => panic!("expected a text token"),
    }
}

#[test]
fn emoji_tokenizes_to_decodable_pictograph_bytes() {
    let tokens = tokenize("\u{1F914}".to_string());
    assert_eq!(tokens.len(), 1);
    match &tokens[0] {
        RenderToken::StandardPictograph(bytes) => {
            assert!(!bytes.is_empty());
            // The bundled bytes are a real image: compositing them succeeds
            // and advances by the full edge.
            let mut canvas = Canvas::new(image::DynamicImage::new_rgb8(64, 64));
            let adv = draw_pictograph(&mut canvas, bytes, 0, 0, 16);
            assert_eq!(adv, 16);
        },
        _ => panic!("expected a standard pictograph token"),
    }
}

#[test]
fn custom_pictograph_reference_becomes_a_url() {
    let tokens = tokenize("<a:pepega:123456789012345678>".to_string());
    assert_eq!(tokens.len(), 1);
    match &tokens[0] {
        RenderToken::CustomPictograph(url) => {
            assert_eq!(url, "https://cdn.discordapp.com/emojis/123456789012345678.png?size=96");
        },
        _ => panic!("expected a custom pictograph token"),
    }
}

#[test]
fn mixed_input_keeps_reading_order() {
    let tokens = tokenize("a<a:p:123456789012345678>b".to_string());
    assert_eq!(tokens.len(), 3);
    assert!(matches!(&tokens[0], RenderToken::Text(s) if s == "a"));
    assert!(matches!(&tokens[1], RenderToken::CustomPictograph(_)));
    assert!(matches!(&tokens[2], RenderToken::Text(s) if s == "b"));
}
