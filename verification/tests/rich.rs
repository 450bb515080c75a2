use messenger::rich::{
    bytes_ci_prefix, is_url_char, tokenize, Piece,
};
use messenger::types::TextStyle;

fn texts(pieces: &[Piece]) -> Vec<String> {
    pieces.iter().map(|p| format!("{p:?}")).collect()
}

#[test]
fn plain_text_is_one_piece() {
    assert_eq!(
        tokenize("hello world"),
        vec![Piece::Text {
            text: "hello world".to_owned(),
            style: TextStyle::default()
        }]
    );
}

#[test]
fn bold_italic_and_url() {
    let pieces = tokenize("a **b** c *i* http://x.com/y end");
    assert!(matches!(
        pieces[1],
        Piece::Text {
            style: TextStyle { bold: true, .. },
            ..
        }
    ));
    assert!(matches!(
        pieces[3],
        Piece::Text {
            style: TextStyle { italic: true, .. },
            ..
        }
    ));
    assert!(matches!(&pieces[5], Piece::Link { href, .. } if href == "http://x.com/y"));
}

#[test]
fn custom_emoji_static_and_animated() {
    let pieces = tokenize("hi <:steamhappy:12345> and <a:wave:67890>!");
    assert!(
        matches!(&pieces[1], Piece::Emoji { name, id: 12345, animated: false } if name == "steamhappy")
    );
    assert!(matches!(&pieces[3], Piece::Emoji { name, id: 67890, animated: true } if name == "wave"));
}

#[test]
fn malformed_emoji_stays_text() {
    let pieces = tokenize("<:broken> <:nope:bad>");
    assert_eq!(texts(&pieces).len(), 1);
    assert!(matches!(&pieces[0], Piece::Text { text, .. } if text == "<:broken> <:nope:bad>"));
}

#[test]
fn unicode_emoji_passes_through_as_text() {
    let pieces = tokenize("hi 😀");
    assert_eq!(
        pieces,
        vec![Piece::Text {
            text: "hi 😀".to_owned(),
            style: TextStyle::default()
        }]
    );
}

#[test]
fn empty_content_has_no_pieces() {
    assert!(tokenize("").is_empty());
}

#[test]
fn case_insensitive_prefix() {
    assert!(bytes_ci_prefix("HTTPS://example", "https://"));
    assert!(bytes_ci_prefix("http", "http"));
    assert!(!bytes_ci_prefix("htt", "http"));
    assert!(!bytes_ci_prefix("ftp://x", "http"));
}

#[test]
fn url_characters() {
    assert!(is_url_char('a'));
    assert!(is_url_char('Z'));
    assert!(is_url_char('7'));
    assert!(is_url_char('%'));
    assert!(is_url_char('/'));
    assert!(!is_url_char(' '));
    assert!(!is_url_char('<'));
    assert!(!is_url_char('é'));
}

#[test]
fn emoji_token_consumes_whole_form() {
    let pieces = tokenize("<:ok:42> rest");
    assert_eq!(
        pieces[0],
        Piece::Emoji {
            name: "ok".to_owned(),
            id: 42,
            animated: false
        }
    );
    assert_eq!(
        pieces[1],
        Piece::Text {
            text: " rest".to_owned(),
            style: TextStyle::default()
        }
    );
    assert_eq!(pieces.len(), 2);
    for literal in ["<:ok:> rest", "<:o k:1>", "plain"] {
        assert_eq!(
            tokenize(literal),
            vec![Piece::Text {
                text: literal.to_owned(),
                style: TextStyle::default()
            }]
        );
    }
}

#[test]
fn bold_and_italic_tokens() {
    let pieces = tokenize("**hé** there");
    assert_eq!(
        pieces[0],
        Piece::Text {
            text: "hé".to_owned(),
            style: TextStyle {
                bold: true,
                italic: false
            }
        }
    );
    assert_eq!(
        pieces[1],
        Piece::Text {
            text: " there".to_owned(),
            style: TextStyle::default()
        }
    );
    assert_eq!(tokenize("****").len(), 1);
    let pieces = tokenize("_it_ x");
    assert_eq!(
        pieces[0],
        Piece::Text {
            text: "it".to_owned(),
            style: TextStyle {
                bold: false,
                italic: true
            }
        }
    );
}

#[test]
fn url_token_stops_at_non_url_characters() {
    let pieces = tokenize("https://a.b/c d");
    assert_eq!(
        pieces[0],
        Piece::Link {
            text: "https://a.b/c".to_owned(),
            href: "https://a.b/c".to_owned()
        }
    );
    assert_eq!(pieces.len(), 2);
    assert!(matches!(tokenize("mailto:x")[0], Piece::Text { .. }));
}
