use xml_localizer::prompt::{chomp_line, classify_reply, Reply};

#[test]
fn accept_lower_and_upper() {
    assert_eq!(classify_reply(&"y\n".to_string()), Reply::Accept);
    assert_eq!(classify_reply(&"Y\n".to_string()), Reply::Accept);
    assert_eq!(classify_reply(&"  y  \n".to_string()), Reply::Accept);
}

#[test]
fn manual_skip_quit_keys() {
    assert_eq!(classify_reply(&"n\n".to_string()), Reply::Manual);
    assert_eq!(classify_reply(&"N".to_string()), Reply::Manual);
    assert_eq!(classify_reply(&"s\n".to_string()), Reply::Skip);
    assert_eq!(classify_reply(&"S\n".to_string()), Reply::Skip);
    assert_eq!(classify_reply(&"q\n".to_string()), Reply::Quit);
    assert_eq!(classify_reply(&"Q\r\n".to_string()), Reply::Quit);
}

#[test]
fn invalid_input_reprompts() {
    assert_eq!(classify_reply(&"maybe\n".to_string()), Reply::Invalid);
    assert_eq!(classify_reply(&"".to_string()), Reply::Invalid);
    assert_eq!(classify_reply(&"  \n".to_string()), Reply::Invalid);
    assert_eq!(classify_reply(&"yes\n".to_string()), Reply::Invalid);
    assert_eq!(classify_reply(&"yq\n".to_string()), Reply::Invalid);
}

#[test]
fn chomp_removes_one_line_ending() {
    assert_eq!(chomp_line(&"bonjour\n".to_string()), "bonjour");
    assert_eq!(chomp_line(&"bonjour\r\n".to_string()), "bonjour");
    assert_eq!(chomp_line(&"bonjour".to_string()), "bonjour");
    assert_eq!(chomp_line(&"".to_string()), "");
}

#[test]
fn chomp_keeps_inner_whitespace() {
    assert_eq!(chomp_line(&" a  b \n".to_string()), " a  b ");
    assert_eq!(chomp_line(&"a\nb\n".to_string()), "a\nb");
    assert_eq!(chomp_line(&"tab\there\n".to_string()), "tab\there");
}
