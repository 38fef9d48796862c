use pumpkin_advancement::util::text::{Locale, TextComponent, TextComponentBase, TextContent};
use pumpkin_advancement::util::translation::{copy_text, Translation, TranslationTable};

fn text_of(c: &TextComponentBase) -> String {
    match &c.content {
        TextContent::Text { text } => text.clone(),
        _ => panic!("not a plain text"),
    }
}

fn table() -> TranslationTable {
    let mut t = TranslationTable::new();
    t.add(
        "test:greet".to_string(),
        Translation::new("Hello %s, from %s!".to_string(), vec![(6, 7), (15, 16)], vec![1, 0]).unwrap(),
    );
    t.add("test:plain".to_string(), Translation::new("Just text".to_string(), vec![], vec![]).unwrap());
    t.add("test:end".to_string(), Translation::new("Bye %s".to_string(), vec![(4, 5)], vec![0]).unwrap());
    t
}

#[test]
fn translation_inserts_arguments_in_order() {
    let c = TextComponent::custom(
        "Test".to_string(),
        "Greet".to_string(),
        Locale::EnUs,
        vec![TextComponent::text("Alex".to_string()), TextComponent::text("Steve".to_string())],
    );
    let r = c.0.to_translated(&table());
    assert_eq!(text_of(&r), "Hello ");
    let parts: Vec<String> = r.extra.iter().map(text_of).collect();
    assert_eq!(parts, vec!["Steve", ", from ", "Alex", "!"]);
}

#[test]
fn translation_at_the_end_and_missing() {
    let t = table();
    let end = TextComponent::custom("test".to_string(), "end".to_string(), Locale::EnUs, vec![]);
    let r = end.0.to_translated(&t);
    assert_eq!(text_of(&r), "Bye ");
    let parts: Vec<String> = r.extra.iter().map(text_of).collect();
    assert_eq!(parts, vec!["%s"]);

    let plain = TextComponent::custom("test".to_string(), "plain".to_string(), Locale::EnUs, vec![]);
    let r = plain.0.to_translated(&t);
    assert_eq!(text_of(&r), "Just text");
    assert!(r.extra.is_empty());

    let missing = TextComponent::custom("test".to_string(), "nothing".to_string(), Locale::EnUs, vec![]);
    assert_eq!(text_of(&missing.0.to_translated(&t)), "test:nothing");
}

#[test]
fn plain_text_is_kept_and_extras_translated() {
    let inner = TextComponent::custom("test".to_string(), "plain".to_string(), Locale::EnUs, vec![]);
    let c = TextComponent::text("A".to_string()).add_child(inner);
    let copy = copy_text(&c.0);
    let r = copy.to_translated(&table());
    assert_eq!(text_of(&r), "A");
    assert_eq!(text_of(&r.extra[0]), "Just text");
}

#[test]
fn ill_formed_translations_are_refused() {
    assert!(Translation::new("ab".to_string(), vec![(1, 2)], vec![0]).is_none());
    assert!(Translation::new("a%sb%s".to_string(), vec![(1, 2), (2, 3)], vec![0, 1]).is_none());
    assert!(Translation::new("a%s".to_string(), vec![(1, 2)], vec![]).is_none());
}

#[test]
fn translating_twice_changes_nothing_more() {
    let c = TextComponent::custom(
        "test".to_string(),
        "greet".to_string(),
        Locale::EnUs,
        vec![TextComponent::text("Alex".to_string()), TextComponent::text("Steve".to_string())],
    );
    let t = table();
    let once = c.0.to_translated(&t);
    let twice = once.clone().to_translated(&t);
    assert_eq!(once, twice);
}
