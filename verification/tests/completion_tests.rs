use table_viewer::events::{EventState, Key, KeyConfig};
use table_viewer::CompletionComponent;

fn popup(word: &str) -> CompletionComponent {
    let mut c = CompletionComponent::new(KeyConfig::default(), String::new());
    c.update(word.to_string());
    c
}

#[test]
fn uppercase_word_filters_by_prefix() {
    let c = popup("AN");
    assert_eq!(c.filterd_candidates(), vec!["AND"]);
    assert_eq!(c.string_to_be_completed(), Some("D ".to_string()));
}

#[test]
fn lowercase_word_matches_uppercase_candidates() {
    let c = popup("an");
    assert_eq!(c.filterd_candidates(), vec!["AND"]);
    assert_eq!(c.string_to_be_completed(), Some("D ".to_string()));
}

#[test]
fn empty_word_matches_nothing() {
    let c = popup("");
    assert!(c.filterd_candidates().is_empty());
    assert_eq!(c.string_to_be_completed(), None);
}

#[test]
fn fully_typed_word_inserts_only_the_separator() {
    let c = popup("NULL");
    assert_eq!(c.filterd_candidates(), vec!["NULL"]);
    assert_eq!(c.string_to_be_completed(), Some(" ".to_string()));
}

#[test]
fn cycling_wraps_around_the_filtered_list() {
    let mut c = popup("N");
    assert_eq!(c.filterd_candidates(), vec!["NOT", "NULL"]);
    assert_eq!(c.state, Some(0));
    c.next();
    assert_eq!(c.state, Some(1));
    c.next();
    assert_eq!(c.state, Some(0));
    c.previous();
    assert_eq!(c.state, Some(1));
    c.previous();
    assert_eq!(c.state, Some(0));
}

#[test]
fn cycling_over_no_candidates_is_a_no_op() {
    let mut c = popup("");
    c.next();
    assert_eq!(c.state, Some(0));
    c.previous();
    assert_eq!(c.state, Some(0));
}

#[test]
fn configured_keys_drive_the_selection() {
    let mut c = popup("N");
    assert_eq!(c.event(Key::Down), EventState::Consumed);
    assert_eq!(c.state, Some(1));
    assert_eq!(c.event(Key::Up), EventState::Consumed);
    assert_eq!(c.state, Some(0));
    assert_eq!(c.event(Key::Char('x')), EventState::NotConsumed);
    assert_eq!(c.state, Some(0));
}

#[test]
fn fresh_popup_offers_no_candidates() {
    let c = CompletionComponent::new(KeyConfig::default(), "AN".to_string());
    assert!(c.filterd_candidates().is_empty());
    assert_eq!(c.string_to_be_completed(), None);
}
