use pumpkin_advancement::util::text::{
    replace_text, ClickEvent, Color, Locale, NamedColor, RGBColor, TextComponent, TextContent,
};

#[test]
fn chat_decorated_fills_the_format() {
    let c = TextComponent::chat_decorated(
        "&a{DISPLAYNAME}: {MESSAGE} &&".to_string(),
        "Steve".to_string(),
        "hi {DISPLAYNAME}".to_string(),
    );
    assert!(matches!(&c.0.content, TextContent::Text { text } if text == "§aSteve: hi {DISPLAYNAME} §§"));
}

#[test]
fn replace_scans_left_to_right() {
    assert_eq!(replace_text("aaaa", "aa", "b"), "bb");
    assert_eq!(replace_text("aaa", "aa", "b"), "ba");
    assert_eq!(replace_text("xyz", "q", "b"), "xyz");
    assert_eq!(replace_text("", "q", "b"), "");
    assert_eq!(replace_text("héhé", "é", "e"), "hehe");
}

#[test]
fn custom_keys_are_lower_case() {
    let c = TextComponent::custom("Pumpkin".to_string(), "Key.Name".to_string(), Locale::EnUs, vec![]);
    assert!(matches!(&c.0.content, TextContent::Custom { key, locale: Locale::EnUs, with } if key == "pumpkin:key.name" && with.is_empty()));
}

#[test]
fn builders_set_one_style_field() {
    let c = TextComponent::text("x".to_string())
        .bold()
        .italic()
        .color_named(NamedColor::Red)
        .insertion("ins".to_string())
        .click_event(ClickEvent::ChangePage { page: 2 });
    assert_eq!(c.0.style.bold, Some(true));
    assert_eq!(c.0.style.italic, Some(true));
    assert_eq!(c.0.style.underlined, None);
    assert_eq!(c.0.style.color, Some(Color::Named(NamedColor::Red)));
    assert_eq!(c.0.style.insertion, Some("ins".to_string()));
    assert_eq!(c.0.style.click_event, Some(ClickEvent::ChangePage { page: 2 }));
    let rgb = TextComponent::text("y".to_string()).color_rgb(RGBColor { red: 1, green: 2, blue: 3 });
    assert_eq!(rgb.0.style.color, Some(Color::Rgb(RGBColor { red: 1, green: 2, blue: 3 })));
}

#[test]
fn children_are_appended_in_order() {
    let c = TextComponent::text("a".to_string())
        .add_text("b".to_string())
        .add_child(TextComponent::text("c".to_string()).bold());
    assert_eq!(c.0.extra.len(), 2);
    assert!(matches!(&c.0.extra[0].content, TextContent::Text { text } if text == "b"));
    assert_eq!(c.0.extra[1].style.bold, Some(true));
}

#[test]
fn translate_keeps_arguments() {
    let c = TextComponent::translate(
        "multiplayer.player.joined".to_string(),
        vec![TextComponent::text("NAME".to_string())],
    )
    .color_named(NamedColor::Yellow);
    assert!(matches!(&c.0.content, TextContent::Translate { translate, with } if translate == "multiplayer.player.joined" && with.len() == 1));
    assert_eq!(c.0.style.color, Some(Color::Named(NamedColor::Yellow)));
}
