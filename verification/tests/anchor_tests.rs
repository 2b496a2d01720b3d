use xml_localizer::anchor::SkipState;
use xml_localizer::event::Attr;
use xml_localizer::rewrite_error::RewriteError;

fn attrs(pairs: &[(&str, &str)]) -> Vec<Attr> {
    pairs
        .iter()
        .map(|(n, v)| Attr { name: n.to_string(), value: v.to_string() })
        .collect()
}

#[test]
fn no_anchor_never_skips() {
    let mut sk = SkipState::new(None);
    assert_eq!(sk.observe_open(&attrs(&[("Key", "A")])), Ok(false));
    assert_eq!(sk.observe_open(&attrs(&[("Key", "B")])), Ok(false));
}

#[test]
fn seeking_skips_until_match_then_stays_active() {
    let mut sk = SkipState::new(Some("B".to_string()));
    assert_eq!(sk.observe_open(&attrs(&[("Key", "A")])), Ok(true));
    assert_eq!(sk.observe_open(&attrs(&[("Key", "B")])), Ok(false));
    assert_eq!(sk.observe_open(&attrs(&[("Key", "A")])), Ok(false));
    assert_eq!(sk.observe_open(&attrs(&[("Key", "C")])), Ok(false));
}

#[test]
fn missing_key_is_malformed() {
    let mut sk = SkipState::new(None);
    assert_eq!(
        sk.observe_open(&attrs(&[("Name", "A")])),
        Err(RewriteError::MissingKey)
    );
    let mut seeking = SkipState::new(Some("B".to_string()));
    assert_eq!(seeking.observe_open(&attrs(&[])), Err(RewriteError::MissingKey));
}

#[test]
fn first_key_attribute_wins() {
    let mut sk = SkipState::new(Some("B".to_string()));
    assert_eq!(
        sk.observe_open(&attrs(&[("Other", "x"), ("Key", "B"), ("Key", "A")])),
        Ok(false)
    );
}

#[test]
fn error_description_names_the_key() {
    let e = RewriteError::MissingKey;
    assert_eq!(e.describe(), "translatable element without a Key attribute");
}
