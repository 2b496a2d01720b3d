use xml_localizer::driver::{Decision, Rewriter, StepAction};
use xml_localizer::event::{Attr, StructuralEvent};
use xml_localizer::render::render_document;
use xml_localizer::rewrite_error::RewriteError;

fn open(name: &str, attrs: &[(&str, &str)]) -> StructuralEvent {
    StructuralEvent::ElementOpen {
        name: name.to_string(),
        attrs: attrs
            .iter()
            .map(|(n, v)| Attr { name: n.to_string(), value: v.to_string() })
            .collect(),
    }
}

fn close(name: &str) -> StructuralEvent {
    StructuralEvent::ElementClose { name: name.to_string() }
}

fn text(t: &str) -> StructuralEvent {
    StructuralEvent::TextContent { text: t.to_string() }
}

fn feed_written(rw: &mut Rewriter, ev: StructuralEvent) {
    match rw.step(ev) {
        Ok(StepAction::Written) => {}
        other => panic!("expected a plain write, got {:?}", discriminant_name(&other)),
    }
}

fn feed_prompt(rw: &mut Rewriter, ev: StructuralEvent) -> String {
    match rw.step(ev) {
        Ok(StepAction::NeedDecision { original }) => original,
        other => panic!("expected a prompt, got {:?}", discriminant_name(&other)),
    }
}

fn feed_jumped(rw: &mut Rewriter, ev: StructuralEvent) -> String {
    match rw.step(ev) {
        Ok(StepAction::Jumped { original }) => original,
        other => panic!("expected a jump, got {:?}", discriminant_name(&other)),
    }
}

fn discriminant_name(r: &Result<StepAction, RewriteError>) -> &'static str {
    match r {
        Ok(StepAction::Written) => "Written",
        Ok(StepAction::Jumped { .. }) => "Jumped",
        Ok(StepAction::NeedDecision { .. }) => "NeedDecision",
        Err(_) => "Err",
    }
}

fn rendered_string(rw: Rewriter) -> String {
    let out = rw.into_output();
    String::from_utf8(render_document(&out)).unwrap()
}

#[test]
fn passthrough_of_non_translatable_text() {
    let mut rw = Rewriter::new(None);
    feed_written(&mut rw, open("Root", &[]));
    feed_written(&mut rw, open("Meta", &[]));
    feed_written(&mut rw, text("keep me"));
    feed_written(&mut rw, close("Meta"));
    feed_written(&mut rw, open("String", &[("Key", "A")]));
    let original = feed_prompt(&mut rw, text("hello"));
    assert_eq!(original, "hello");
    rw.resolve("hola".to_string(), Decision::Accept);
    feed_written(&mut rw, close("String"));
    feed_written(&mut rw, close("Root"));
    assert_eq!(
        rendered_string(rw),
        "<Root><Meta>keep me</Meta><String Key=\"A\">hola</String></Root>"
    );
}

#[test]
fn skip_decision_preserves_original() {
    let mut rw = Rewriter::new(None);
    let mut prompts: usize = 0;
    feed_written(&mut rw, open("Root", &[]));
    feed_written(&mut rw, open("Meta", &[]));
    feed_written(&mut rw, text("keep me"));
    feed_written(&mut rw, close("Meta"));
    feed_written(&mut rw, open("String", &[("Key", "A")]));
    let original = feed_prompt(&mut rw, text("hello"));
    prompts += 1;
    assert_eq!(original, "hello");
    rw.resolve("hola".to_string(), Decision::Skip);
    feed_written(&mut rw, close("String"));
    feed_written(&mut rw, close("Root"));
    assert_eq!(prompts, 1);
    assert_eq!(
        rendered_string(rw),
        "<Root><Meta>keep me</Meta><String Key=\"A\">hello</String></Root>"
    );
}

#[test]
fn manual_override() {
    let mut rw = Rewriter::new(None);
    feed_written(&mut rw, open("String", &[("Key", "A")]));
    let original = feed_prompt(&mut rw, text("hi"));
    assert_eq!(original, "hi");
    rw.resolve("x".to_string(), Decision::Manual { text: "bonjour".to_string() });
    feed_written(&mut rw, close("String"));
    assert_eq!(rendered_string(rw), "<String Key=\"A\">bonjour</String>");
}

#[test]
fn anchor_seeks_forward_inclusively() {
    let mut rw = Rewriter::new(Some("B".to_string()));
    feed_written(&mut rw, open("Root", &[]));
    feed_written(&mut rw, open("String", &[("Key", "A")]));
    let skipped = feed_jumped(&mut rw, text("alpha"));
    assert_eq!(skipped, "alpha");
    feed_written(&mut rw, close("String"));
    feed_written(&mut rw, open("String", &[("Key", "B")]));
    assert_eq!(feed_prompt(&mut rw, text("beta")), "beta");
    rw.resolve("b2".to_string(), Decision::Accept);
    feed_written(&mut rw, close("String"));
    feed_written(&mut rw, open("String", &[("Key", "C")]));
    assert_eq!(feed_prompt(&mut rw, text("gamma")), "gamma");
    rw.resolve("c2".to_string(), Decision::Accept);
    feed_written(&mut rw, close("String"));
    feed_written(&mut rw, close("Root"));
    assert_eq!(
        rendered_string(rw),
        "<Root><String Key=\"A\">alpha</String><String Key=\"B\">b2</String>\
         <String Key=\"C\">c2</String></Root>"
    );
}

#[test]
fn quit_mid_stream() {
    let mut rw = Rewriter::new(None);
    feed_written(&mut rw, open("Root", &[]));
    feed_written(&mut rw, open("String", &[("Key", "A")]));
    assert_eq!(feed_prompt(&mut rw, text("a1")), "a1");
    rw.resolve("a2".to_string(), Decision::Accept);
    feed_written(&mut rw, close("String"));
    feed_written(&mut rw, open("String", &[("Key", "B")]));
    assert_eq!(feed_prompt(&mut rw, text("b1")), "b1");
    assert!(!rw.is_done());
    rw.resolve("b2".to_string(), Decision::Quit);
    assert!(rw.is_done());
    let out = rendered_string(rw);
    assert!(out.contains("<String Key=\"A\">a2</String>"));
    assert!(!out.contains("b1"));
    assert!(!out.contains("b2"));
    assert_eq!(
        out,
        "<Root><String Key=\"A\">a2</String><String Key=\"B\">"
    );
}

#[test]
fn identity_candidates_accepted_round_trip() {
    let mut rw = Rewriter::new(None);
    feed_written(&mut rw, open("Root", &[]));
    feed_written(&mut rw, open("String", &[("Key", "A")]));
    let a = feed_prompt(&mut rw, text("one"));
    rw.resolve(a, Decision::Accept);
    feed_written(&mut rw, close("String"));
    feed_written(&mut rw, open("String", &[("Key", "B")]));
    let b = feed_prompt(&mut rw, text("two"));
    rw.resolve(b, Decision::Accept);
    feed_written(&mut rw, close("String"));
    feed_written(&mut rw, close("Root"));
    assert_eq!(
        rendered_string(rw),
        "<Root><String Key=\"A\">one</String><String Key=\"B\">two</String></Root>"
    );
}

#[test]
fn missing_key_stops_the_walk() {
    let mut rw = Rewriter::new(None);
    feed_written(&mut rw, open("Root", &[]));
    match rw.step(open("String", &[("Name", "A")])) {
        Err(e) => assert_eq!(e, RewriteError::MissingKey),
        Ok(_) => panic!("an opening String without Key must be rejected"),
    }
}

#[test]
fn replacement_text_is_escaped_when_written() {
    let mut rw = Rewriter::new(None);
    feed_written(&mut rw, open("String", &[("Key", "A")]));
    assert_eq!(feed_prompt(&mut rw, text("x")), "x");
    rw.resolve("a&b <c>".to_string(), Decision::Accept);
    feed_written(&mut rw, close("String"));
    assert_eq!(
        rendered_string(rw),
        "<String Key=\"A\">a&amp;b &lt;c&gt;</String>"
    );
}

#[test]
fn other_markup_passes_through_verbatim() {
    let mut rw = Rewriter::new(None);
    feed_written(&mut rw, open("Root", &[]));
    feed_written(&mut rw, StructuralEvent::OtherMarkup { raw: "&amp;".to_string() });
    feed_written(&mut rw, close("Root"));
    assert_eq!(rendered_string(rw), "<Root>&amp;</Root>");
}

#[test]
fn attribute_order_is_kept() {
    let mut rw = Rewriter::new(None);
    feed_written(&mut rw, open("Item", &[("B", "2"), ("A", "1")]));
    feed_written(&mut rw, close("Item"));
    assert_eq!(rendered_string(rw), "<Item B=\"2\" A=\"1\"></Item>");
}
