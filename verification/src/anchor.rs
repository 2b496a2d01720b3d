//! The skip anchor: where interactive prompting begins.
//!
//! The operator may name a `Key` value on the command line.  Until a
//! translatable element carrying that key is opened, every translatable
//! text passes through verbatim; from the matching element on (that
//! element included), prompting applies.

use vstd::prelude::*;

use crate::event::Attr;
use crate::event::AttrView;
use crate::event::attrs_view;
use crate::event::is_key_attr_name;
use crate::event::key_attr_name;
use crate::rewrite_error::RewriteError;

verus! {

/// The state of the skip anchor.
pub enum SkipState {
    /// No anchor was supplied: prompting applies from the start.
    NoAnchor,
    /// An anchor was supplied and has not been reached yet.
    Seeking { anchor: String },
    /// The anchor has been reached: prompting applies from here on.
    Active,
}

/// The mathematical view of the skip anchor state.
#[verifier::ext_equal]
pub enum SkipView {
    NoAnchor,
    Seeking { anchor: Seq<char> },
    Active,
}

impl View for SkipState {
    type V = SkipView;

    open spec fn view(&self) -> SkipView {
        match self {
            SkipState::NoAnchor => SkipView::NoAnchor,
            SkipState::Seeking { anchor } => SkipView::Seeking { anchor: anchor@ },
            SkipState::Active => SkipView::Active,
        }
    }
}

/// The view of an optional anchor value.
pub open spec fn anchor_view(anchor: Option<String>) -> Option<Seq<char>> {
    match anchor {
        Some(v) => Some(v@),
        None => None,
    }
}

/// The skip state a run starts in.
pub open spec fn initial_skip(anchor: Option<Seq<char>>) -> SkipView {
    match anchor {
        Some(v) => SkipView::Seeking { anchor: v },
        None => SkipView::NoAnchor,
    }
}

/// The value of the first attribute named `name`, if any.
pub open spec fn attr_lookup(attrs: Seq<AttrView>, name: Seq<char>) -> Option<Seq<char>>
    decreases attrs.len(),
{
    if attrs.len() == 0 {
        None
    } else if attrs[0].name == name {
        Some(attrs[0].value)
    } else {
        attr_lookup(attrs.drop_first(), name)
    }
}

/// What observing the opening tag of a translatable element does: `None`
/// when the element lacks a `Key` attribute, else the skip state afterwards
/// and whether this element's texts are passed through without prompting.
pub open spec fn observe_result(sk: SkipView, attrs: Seq<AttrView>) -> Option<(SkipView, bool)> {
    match attr_lookup(attrs, key_attr_name()) {
        None => None,
        Some(key) => match sk {
            SkipView::NoAnchor => Some((sk, false)),
            SkipView::Active => Some((sk, false)),
            SkipView::Seeking { anchor } => if key == anchor {
                Some((SkipView::Active, false))
            } else {
                Some((sk, true))
            },
        },
    }
}

/// Find the first attribute named `Key`.
fn find_key(attrs: &Vec<Attr>) -> (r: Option<usize>)
    ensures
        match r {
            Some(k) => k < attrs@.len() && attr_lookup(attrs_view(attrs@), key_attr_name())
                == Some(attrs@[k as int]@.value),
            None => attr_lookup(attrs_view(attrs@), key_attr_name()) is None,
        },
{
    let ghost full = attrs_view(attrs@);
    let len = attrs.len();
    let mut k: usize = 0;
    proof {
        assert(full.subrange(0, len as int) =~= full);
    }
    while k < len
        invariant
            k <= len,
            len == attrs@.len(),
            full == attrs_view(attrs@),
            full.len() == len,
            attr_lookup(full, key_attr_name()) == attr_lookup(
                full.subrange(k as int, len as int),
                key_attr_name(),
            ),
        decreases len - k,
    {
        let ghost part = full.subrange(k as int, len as int);
        if is_key_attr_name(&attrs[k].name) {
            proof {
                assert(part[0] == full[k as int]);
            }
            return Some(k);
        }
        proof {
            assert(part[0] == full[k as int]);
            assert(part.drop_first() =~= full.subrange(k as int + 1, len as int));
        }
        k = k + 1;
    }
    None
}

impl SkipState {
    /// The tracker a run starts with: seeking when an anchor was given.
    pub fn new(anchor: Option<String>) -> (r: SkipState)
        ensures
            r@ == initial_skip(anchor_view(anchor)),
    {
        match anchor {
            Some(v) => SkipState::Seeking { anchor: v },
            None => SkipState::NoAnchor,
        }
    }

    /// Observe the attributes of a translatable element's opening tag.
    ///
    /// Returns whether this element's texts are passed through without
    /// prompting, or an error when the element lacks a `Key` attribute.
    /// Seeking flips to the terminal `Active` state on the first key that
    /// equals the anchor, and the matching element itself is prompted.
    pub fn observe_open(&mut self, attrs: &Vec<Attr>) -> (r: Result<bool, RewriteError>)
        ensures
            match r {
                Ok(skip_now) => observe_result(old(self)@, attrs_view(attrs@))
                    == Some((final(self)@, skip_now)),
                Err(e) => {
                    &&& observe_result(old(self)@, attrs_view(attrs@)) is None
                    &&& *final(self) == *old(self)
                    &&& e == RewriteError::MissingKey
                },
            },
    {
        match find_key(attrs) {
            None => Err(RewriteError::MissingKey),
            Some(k) => {
                let matched: bool;
                let skip_now: bool;
                match &*self {
                    SkipState::NoAnchor => {
                        matched = false;
                        skip_now = false;
                    },
                    SkipState::Active => {
                        matched = false;
                        skip_now = false;
                    },
                    SkipState::Seeking { anchor } => {
                        if attrs[k].value == *anchor {
                            matched = true;
                            skip_now = false;
                        } else {
                            matched = false;
                            skip_now = true;
                        }
                    },
                }
                if matched {
                    *self = SkipState::Active;
                }
                Ok(skip_now)
            },
        }
    }
}

} // verus!
