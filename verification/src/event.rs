//! The structural events a tagged document is made of, and their
//! mathematical views.

use vstd::prelude::*;

verus! {

/// One attribute of an element: a name and a value, both plain text.
pub struct Attr {
    pub name: String,
    pub value: String,
}

/// The mathematical view of an attribute: both sides as character sequences.
pub struct AttrView {
    pub name: Seq<char>,
    pub value: Seq<char>,
}

impl View for Attr {
    type V = AttrView;

    open spec fn view(&self) -> AttrView {
        AttrView { name: self.name@, value: self.value@ }
    }
}

/// One structural event of a tagged document, in document order.
///
/// `ElementOpen` carries the ordered attribute list of the opening tag.
/// `TextContent` is character data between tags.  `OtherMarkup` carries any
/// further markup verbatim; the rewrite never inspects it.
pub enum StructuralEvent {
    ElementOpen { name: String, attrs: Vec<Attr> },
    ElementClose { name: String },
    TextContent { text: String },
    OtherMarkup { raw: String },
}

/// The mathematical view of a structural event.
#[verifier::ext_equal]
pub enum EventView {
    Open { name: Seq<char>, attrs: Seq<AttrView> },
    Close { name: Seq<char> },
    Text { text: Seq<char> },
    Other { raw: Seq<char> },
}

impl View for StructuralEvent {
    type V = EventView;

    open spec fn view(&self) -> EventView {
        match self {
            StructuralEvent::ElementOpen { name, attrs } => EventView::Open {
                name: name@,
                attrs: attrs@.map_values(|a: Attr| a@),
            },
            StructuralEvent::ElementClose { name } => EventView::Close { name: name@ },
            StructuralEvent::TextContent { text } => EventView::Text { text: text@ },
            StructuralEvent::OtherMarkup { raw } => EventView::Other { raw: raw@ },
        }
    }
}

/// The views of a sequence of events, in the same order.
pub open spec fn events_view(s: Seq<StructuralEvent>) -> Seq<EventView> {
    s.map_values(|e: StructuralEvent| e@)
}

/// The views of an attribute list, in the same order.
pub open spec fn attrs_view(s: Seq<Attr>) -> Seq<AttrView> {
    s.map_values(|a: Attr| a@)
}

/// Appending an event appends its view.
pub proof fn lemma_events_view_push(s: Seq<StructuralEvent>, e: StructuralEvent)
    ensures
        events_view(s.push(e)) =~= events_view(s).push(e@),
{
}

/// The name of the translatable element.
pub open spec fn translatable_tag() -> Seq<char> {
    "String"@
}

/// The name of the attribute that identifies a translatable element.
pub open spec fn key_attr_name() -> Seq<char> {
    "Key"@
}

/// Whether an element name is the translatable one.
pub fn is_translatable_tag(name: &String) -> (r: bool)
    ensures
        r == (name@ == translatable_tag()),
{
    let tag: String = "String".to_owned();
    *name == tag
}

/// Whether an attribute name is the key attribute.
pub fn is_key_attr_name(name: &String) -> (r: bool)
    ensures
        r == (name@ == key_attr_name()),
{
    let key: String = "Key".to_owned();
    *name == key
}

} // verus!
