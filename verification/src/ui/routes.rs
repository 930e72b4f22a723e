//! Requests to the web interface.
//!
//! What a request asks for, how its parameters are read, and what an edit
//! makes of a gradient.
use vstd::prelude::*;

use crate::engine::colour::Colour;
use crate::engine::gradient::{is_outside, Gradient, Stop};
use crate::error::{Error, ErrorView};
use crate::number::Single;

verus! {

// -- Parameters

/// The hexadecimal form of a colour, such as `#00ff7f`.
pub fn format_colour(colour: &Colour) -> (r: String)
    ensures
        r@ == crate::engine::colour::hex_text(*colour),
{
    colour.to_string()
}

/// A parameter that was sent empty is one that was not sent.
pub open spec fn nonempty(opt: Option<Seq<char>>) -> Option<Seq<char>> {
    match opt {
        Some(s) => if s.len() == 0 {
            None
        } else {
            Some(s)
        },
        None => None,
    }
}

/// Takes a parameter that was sent empty for one that was not sent. A form
/// sends its fields whether or not they are filled in.
pub fn empty_string_as_none(opt: Option<String>) -> (r: Option<String>)
    ensures
        crate::text::text_view(r) == nonempty(crate::text::text_view(opt)),
{
    match opt {
        Some(s) => {
            if s.as_str().is_empty() {
                None
            } else {
                Some(s)
            }
        },
        None => None,
    }
}

/// Whether a byte of a header is a visible character, a space or a tab.
pub open spec fn visible(b: u8) -> bool {
    0x20 <= b < 0x7f || b == 0x09
}

/// The text of a header: its characters, if all of them are visible.
pub open spec fn header_text(bytes: Seq<u8>) -> Option<Seq<char>> {
    if forall|i: int| 0 <= i < bytes.len() ==> visible(#[trigger] bytes[i]) {
        Some(bytes.map_values(|b: u8| b as char))
    } else {
        None
    }
}

/// What the user was prompted for: the text of the header, if there is any.
pub open spec fn prompt(header: Option<Seq<u8>>) -> Option<Seq<char>> {
    match header {
        Some(bytes) => nonempty(header_text(bytes)),
        None => None,
    }
}

/// The model of an optional header.
pub open spec fn header_view(header: Option<Vec<u8>>) -> Option<Seq<u8>> {
    match header {
        Some(bytes) => Some(bytes@),
        None => None,
    }
}

/// Reads what the user was prompted for from the header that carries it. Text
/// that is empty or not plainly visible counts as none.
pub fn parse_hx_prompt(header: &Option<Vec<u8>>) -> (r: Option<String>)
    ensures
        crate::text::text_view(r) == prompt(header_view(*header)),
{
    match header {
        None => None,
        Some(bytes) => {
            let mut text = String::new();
            let mut i: usize = 0;
            while i < bytes.len()
                invariant
                    i <= bytes.len(),
                    header_view(*header) == Some(bytes@),
                    forall|k: int| 0 <= k < i ==> visible(#[trigger] bytes@[k]),
                    text@ == bytes@.take(i as int).map_values(|b: u8| b as char),
                decreases bytes.len() - i,
            {
                let b: u8 = bytes[i];
                if !(0x20 <= b && b < 0x7f || b == 0x09) {
                    assert(!visible(bytes@[i as int]));
                    return None;
                }
                text.push(b as char);
                i = i + 1;
                assert(text@ =~= bytes@.take(i as int).map_values(|b: u8| b as char));
            }
            assert(bytes@.take(i as int) == bytes@);
            assert(header_text(bytes@) == Some(text@));
            empty_string_as_none(Some(text))
        },
    }
}

// -- Requests

/// A request.
#[derive(Debug)]
pub enum Request {
    /// The audio inputs, after a switch to the one of this name.
    AudioInputs(Option<String>),
    /// The audio outputs, after a switch to the one of this name.
    AudioOutputs(Option<String>),
    /// Whether audio is playing.
    AudioStatus,
    /// Play or pause.
    ToggleAudioStatus,
    /// The ports for the lights, after a switch to the one of this name.
    DMXOutputs(Option<String>),
    /// The gradients, after a switch to the one of this name.
    Gradients(Option<String>),
    /// A new gradient, named by the prompt in this header.
    AddGradient(Option<Vec<u8>>),
    /// A gradient less, named by the prompt in this header.
    DeleteGradient(Option<Vec<u8>>),
    /// An edit of the gradient of this name.
    EditGradient(String, Edit),
}

/// An edit of a gradient.
#[derive(Debug)]
pub enum Edit {
    /// A new colour at the end.
    Add,
    /// A colour less.
    Delete(usize),
    /// Another colour in place of one, by its hexadecimal form.
    Value(usize, String),
    /// Another position for a colour.
    Position(usize, Single),
}

/// The model of a [`Request`].
#[verifier::ext_equal]
pub enum RequestView {
    AudioInputs(Option<Seq<char>>),
    AudioOutputs(Option<Seq<char>>),
    AudioStatus,
    ToggleAudioStatus,
    DMXOutputs(Option<Seq<char>>),
    Gradients(Option<Seq<char>>),
    AddGradient(Option<Seq<u8>>),
    DeleteGradient(Option<Seq<u8>>),
    EditGradient(Seq<char>, EditView),
}

/// The model of an [`Edit`].
#[verifier::ext_equal]
pub enum EditView {
    Add,
    Delete(nat),
    Value(nat, Seq<char>),
    Position(nat, Single),
}

impl View for Edit {
    type V = EditView;

    open spec fn view(&self) -> EditView {
        match self {
            Edit::Add => EditView::Add,
            Edit::Delete(index) => EditView::Delete(*index as nat),
            Edit::Value(index, value) => EditView::Value(*index as nat, value@),
            Edit::Position(index, position) => EditView::Position(*index as nat, *position),
        }
    }
}

impl View for Request {
    type V = RequestView;

    open spec fn view(&self) -> RequestView {
        match self {
            Request::AudioInputs(device) => RequestView::AudioInputs(
                crate::text::text_view(*device),
            ),
            Request::AudioOutputs(device) => RequestView::AudioOutputs(
                crate::text::text_view(*device),
            ),
            Request::AudioStatus => RequestView::AudioStatus,
            Request::ToggleAudioStatus => RequestView::ToggleAudioStatus,
            Request::DMXOutputs(device) => RequestView::DMXOutputs(
                crate::text::text_view(*device),
            ),
            Request::Gradients(name) => RequestView::Gradients(crate::text::text_view(*name)),
            Request::AddGradient(header) => RequestView::AddGradient(header_view(*header)),
            Request::DeleteGradient(header) => RequestView::DeleteGradient(header_view(*header)),
            Request::EditGradient(name, edit) => RequestView::EditGradient(name@, edit@),
        }
    }
}

// -- Edits

/// The stops once the one at `index` has moved to `position` and they are
/// sorted.
pub open spec fn moved(stops: Seq<Stop>, index: int, position: Single) -> Seq<Stop> {
    choose|after: Seq<Stop>|
        crate::engine::gradient::sorted_from(
            crate::engine::gradient::placed(stops, index, position),
            after,
        )
}

/// The colour that a text stands for.
pub open spec fn read_colour(text: Seq<char>) -> Option<Colour> {
    crate::engine::colour::colour_of(
        crate::engine::colour::hex_code(vstd::utf8::encode_utf8(text)),
    )
}

/// What an edit makes of a gradient, or why it is refused.
pub open spec fn edited(stops: Seq<Stop>, edit: EditView) -> Result<Seq<Stop>, ErrorView> {
    match edit {
        EditView::Add => Ok(stops.push((Colour::spec_black(), Single::spec_one()))),
        EditView::Delete(index) => if index >= stops.len() {
            Err(ErrorView::ColourIndex)
        } else {
            Ok(stops.remove(index as int))
        },
        EditView::Value(index, value) => if index >= stops.len() {
            Err(ErrorView::ColourIndex)
        } else {
            match read_colour(value) {
                Some(colour) => Ok(stops.update(index as int, (colour, stops[index as int].1))),
                None => Err(
                    ErrorView::InvalidColour(crate::engine::colour::colour_error(value)),
                ),
            }
        },
        EditView::Position(index, position) => if index >= stops.len() {
            Err(ErrorView::ColourIndex)
        } else if crate::engine::gradient::outside(position) {
            Err(ErrorView::ColourPosition)
        } else {
            Ok(moved(stops, index as int, position))
        },
    }
}

/// Whether an edit can be tried: the text of a colour can be cut apart, and a
/// gradient whose colour moves can be sorted.
pub open spec fn editable(stops: Seq<Stop>, edit: EditView) -> bool {
    match edit {
        EditView::Value(index, value) => index < stops.len() ==> crate::engine::colour::splits(
            crate::engine::colour::hex_code(vstd::utf8::encode_utf8(value)),
        ),
        EditView::Position(index, position) => index < stops.len()
            && !crate::engine::gradient::outside(position) ==> crate::engine::gradient::sortable(
            crate::engine::gradient::placed(stops, index as int, position),
        ),
        _ => true,
    }
}

/// Hands a gradient on if it has a colour at `index`.
pub fn parse_colour_index(gradient: Result<Gradient, Error>, index: usize) -> (r: Result<
    Gradient,
    Error,
>)
    ensures
        match gradient {
            Ok(g) => if index < g@.len() {
                r == gradient
            } else {
                r is Err && r->Err_0@ == ErrorView::ColourIndex
            },
            Err(_) => r == gradient,
        },
{
    match gradient {
        Ok(g) => {
            let len: usize = g.colours.len();
            if index >= len || len == 0 {
                Err(Error::ColourIndex)
            } else {
                Ok(g)
            }
        },
        Err(e) => Err(e),
    }
}

/// Whether an edit can be tried on a gradient.
pub fn is_editable(gradient: &Gradient, edit: &Edit) -> (r: bool)
    ensures
        r == editable(gradient@, edit@),
{
    let len: usize = gradient.colours.len();
    match edit {
        Edit::Value(index, value) => *index >= len || crate::engine::colour::splits_as_hex(
            value.as_str(),
        ),
        Edit::Position(index, position) => *index >= len || is_outside(*position)
            || gradient.can_move(*index, *position),
        _ => true,
    }
}

/// Edits a gradient, or says why the edit is refused.
pub fn edit_gradient(gradient: Gradient, edit: &Edit) -> (r: Result<Gradient, Error>)
    requires
        editable(gradient@, edit@),
    ensures
        match edited(gradient@, edit@) {
            Ok(stops) => r is Ok && r->Ok_0@ == stops,
            Err(e) => r is Err && r->Err_0@ == e,
        },
{
    let ghost before = gradient@;
    match edit {
        Edit::Add => {
            let mut g = gradient;
            g.add_colour(Colour::black());
            Ok(g)
        },
        Edit::Delete(index) => {
            match parse_colour_index(Ok(gradient), *index) {
                Ok(gradient) => {
                    let mut g = gradient;
                    match g.delete_colour(*index) {
                        Ok(_) => Ok(g),
                        Err(e) => Err(e),
                    }
                },
                Err(e) => Err(e),
            }
        },
        Edit::Value(index, value) => {
            match parse_colour_index(Ok(gradient), *index) {
                Ok(gradient) => {
                    match Colour::from_str(value.as_str()) {
                        Ok(colour) => {
                            let mut g = gradient;
                            g.change_colour(*index, colour);
                            Ok(g)
                        },
                        Err(e) => Err(e),
                    }
                },
                Err(e) => Err(e),
            }
        },
        Edit::Position(index, position) => {
            match parse_colour_index(Ok(gradient), *index) {
                Ok(gradient) => {
                    if is_outside(*position) {
                        Err(Error::ColourPosition)
                    } else {
                        let mut g = gradient;
                        g.change_position(*index, *position);
                        proof {
                            crate::engine::gradient::lemma_sorting_is_determined(
                                crate::engine::gradient::placed(before, *index as int, *position),
                                g@,
                                moved(before, *index as int, *position),
                            );
                        }
                        Ok(g)
                    }
                },
                Err(e) => Err(e),
            }
        },
    }
}

} // verus!
