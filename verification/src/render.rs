//! Serializing the rewritten events back into document bytes.
//!
//! The byte form of a single event is quick_xml's business: the names
//! below stand for what its writer emits for one opening tag, one closing
//! tag, one text and one raw span, and the wrappers around the writer are
//! trusted to append exactly that.  What the library proves is the
//! composition: a document renders to the concatenation of its events'
//! markup, in order.

use vstd::prelude::*;

use crate::event::Attr;
use crate::event::AttrView;
use crate::event::EventView;
use crate::event::StructuralEvent;
use crate::event::attrs_view;
use crate::event::events_view;

verus! {

#[verifier::external_type_specification]
#[verifier::external_body]
#[verifier::reject_recursive_types(W)]
pub struct ExXmlWriter<W>(quick_xml::Writer<W>);

#[verifier::external_type_specification]
#[verifier::external_body]
#[verifier::reject_recursive_types(T)]
pub struct ExIoCursor<T>(std::io::Cursor<T>);

/// The bytes an in-memory writer has accumulated.
pub uninterp spec fn writer_contents(w: quick_xml::Writer<std::io::Cursor<Vec<u8>>>) -> Seq<u8>;

/// The bytes quick_xml emits for an opening tag with these attributes.
pub uninterp spec fn open_markup(name: Seq<char>, attrs: Seq<(Seq<char>, Seq<char>)>) -> Seq<u8>;

/// The bytes quick_xml emits for a closing tag.
pub uninterp spec fn close_markup(name: Seq<char>) -> Seq<u8>;

/// The bytes quick_xml emits for a text, escaping included.
pub uninterp spec fn text_markup(text: Seq<char>) -> Seq<u8>;

/// The bytes quick_xml emits for a span it passes through as it stands.
pub uninterp spec fn raw_markup(raw: Seq<char>) -> Seq<u8>;

/// Attribute views as plain pairs of name and value.
pub open spec fn pairs_of(attrs: Seq<AttrView>) -> Seq<(Seq<char>, Seq<char>)> {
    attrs.map_values(|a: AttrView| (a.name, a.value))
}

/// The bytes one event renders to.
pub open spec fn event_markup(e: EventView) -> Seq<u8> {
    match e {
        EventView::Open { name, attrs } => open_markup(name, pairs_of(attrs)),
        EventView::Close { name } => close_markup(name),
        EventView::Text { text } => text_markup(text),
        EventView::Other { raw } => raw_markup(raw),
    }
}

/// The bytes a sequence of events renders to: each event's markup, in order.
pub open spec fn rendered(s: Seq<EventView>) -> Seq<u8>
    decreases s.len(),
{
    if s.len() == 0 {
        Seq::empty()
    } else {
        rendered(s.drop_last()) + event_markup(s.last())
    }
}

/// Relies on quick_xml::Writer::new over a fresh in-memory cursor: a new
/// writer has emitted nothing.
#[verifier::external_body]
fn new_writer() -> (w: quick_xml::Writer<std::io::Cursor<Vec<u8>>>)
    ensures
        writer_contents(w) == Seq::<u8>::empty(),
{
    quick_xml::Writer::new(std::io::Cursor::new(Vec::new()))
}

/// Relies on quick_xml::Writer::write_event with Event::Start: it appends
/// `<`, the name, each attribute as ` name="value"` with the value
/// escaped, and `>`.  Writing into an in-memory cursor cannot fail.
#[verifier::external_body]
fn write_open(
    w: &mut quick_xml::Writer<std::io::Cursor<Vec<u8>>>,
    name: &String,
    attrs: &Vec<Attr>,
)
    ensures
        writer_contents(*final(w)) == writer_contents(*old(w)) + open_markup(
            name@,
            pairs_of(attrs_view(attrs@)),
        ),
{
    let tag = quick_xml::events::BytesStart::new(name.as_str()).with_attributes(
        attrs.iter().map(|a: &Attr| (a.name.as_str(), a.value.as_str())),
    );
    w.write_event(quick_xml::events::Event::Start(tag)).unwrap();
}

/// Relies on quick_xml::Writer::write_event with Event::End: it appends
/// `</`, the name and `>`.  Writing into an in-memory cursor cannot fail.
#[verifier::external_body]
fn write_close(w: &mut quick_xml::Writer<std::io::Cursor<Vec<u8>>>, name: &String)
    ensures
        writer_contents(*final(w)) == writer_contents(*old(w)) + close_markup(name@),
{
    let tag = quick_xml::events::BytesEnd::new(name.as_str());
    w.write_event(quick_xml::events::Event::End(tag)).unwrap();
}

/// Relies on quick_xml::Writer::write_event with Event::Text built by
/// BytesText::new: the text is escaped and the escaped bytes appended.
/// Writing into an in-memory cursor cannot fail.
#[verifier::external_body]
fn write_text(w: &mut quick_xml::Writer<std::io::Cursor<Vec<u8>>>, text: &String)
    ensures
        writer_contents(*final(w)) == writer_contents(*old(w)) + text_markup(text@),
{
    let ev = quick_xml::events::BytesText::new(text.as_str());
    w.write_event(quick_xml::events::Event::Text(ev)).unwrap();
}

/// Relies on quick_xml::Writer::write_event with Event::Text built by
/// BytesText::from_escaped: the span's own bytes are appended unchanged.
/// Writing into an in-memory cursor cannot fail.
#[verifier::external_body]
fn write_raw(w: &mut quick_xml::Writer<std::io::Cursor<Vec<u8>>>, raw: &String)
    ensures
        writer_contents(*final(w)) == writer_contents(*old(w)) + raw_markup(raw@),
{
    let ev = quick_xml::events::BytesText::from_escaped(raw.as_str());
    w.write_event(quick_xml::events::Event::Text(ev)).unwrap();
}

/// Relies on quick_xml::Writer::into_inner and Cursor::into_inner: they
/// hand back the accumulated bytes.
#[verifier::external_body]
fn writer_into_bytes(w: quick_xml::Writer<std::io::Cursor<Vec<u8>>>) -> (r: Vec<u8>)
    ensures
        r@ == writer_contents(w),
{
    w.into_inner().into_inner()
}

/// Serialize a rewritten document: the concatenation of every event's
/// markup, in the order the events stand.
pub fn render_document(events: &Vec<StructuralEvent>) -> (r: Vec<u8>)
    ensures
        r@ == rendered(events_view(events@)),
{
    let ghost evs = events_view(events@);
    let mut w = new_writer();
    let n = events.len();
    let mut i: usize = 0;
    proof {
        assert(evs.take(0) =~= Seq::<EventView>::empty());
    }
    while i < n
        invariant
            i <= n,
            n == events@.len(),
            evs == events_view(events@),
            evs.len() == n,
            writer_contents(w) == rendered(evs.take(i as int)),
        decreases n - i,
    {
        proof {
            assert(evs[i as int] == events@[i as int]@);
        }
        match &events[i] {
            StructuralEvent::ElementOpen { name, attrs } => {
                write_open(&mut w, name, attrs);
            },
            StructuralEvent::ElementClose { name } => {
                write_close(&mut w, name);
            },
            StructuralEvent::TextContent { text } => {
                write_text(&mut w, text);
            },
            StructuralEvent::OtherMarkup { raw } => {
                write_raw(&mut w, raw);
            },
        }
        proof {
            assert(evs.take(i as int + 1).drop_last() =~= evs.take(i as int));
            assert(evs.take(i as int + 1).last() == evs[i as int]);
            assert(writer_contents(w) == rendered(evs.take(i as int + 1)));
        }
        i = i + 1;
    }
    proof {
        assert(evs.take(n as int) =~= evs);
    }
    writer_into_bytes(w)
}

} // verus!
