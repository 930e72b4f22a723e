//! What can go wrong.
use vstd::prelude::*;
use vstd::string::StringExecFns;

verus! {

/// Why a request was refused.
#[derive(Debug)]
pub enum Error {
    /// No device of this name is attached.
    DeviceNotFound(String),
    /// There is no gradient of the given name.
    GradientMissing,
    /// There is a gradient of the given name already.
    GradientExists,
    /// The gradient has no colour at the given index.
    ColourIndex,
    /// The position lies outside the gradient.
    ColourPosition,
    /// A colour was addressed past the end of its gradient.
    IndexOutOfRange,
    /// A colour was placed outside its gradient.
    PositionOutOfRange,
    /// The text is no hexadecimal colour; this one says why.
    InvalidColour(String),
    /// A device, a port or a stream failed; the text is its own account.
    Device(String),
}

/// The model of an [`Error`].
#[verifier::ext_equal]
pub enum ErrorView {
    DeviceNotFound(Seq<char>),
    GradientMissing,
    GradientExists,
    ColourIndex,
    ColourPosition,
    IndexOutOfRange,
    PositionOutOfRange,
    InvalidColour(Seq<char>),
    Device(Seq<char>),
}

impl View for Error {
    type V = ErrorView;

    open spec fn view(&self) -> ErrorView {
        match self {
            Error::DeviceNotFound(name) => ErrorView::DeviceNotFound(name@),
            Error::GradientMissing => ErrorView::GradientMissing,
            Error::GradientExists => ErrorView::GradientExists,
            Error::ColourIndex => ErrorView::ColourIndex,
            Error::ColourPosition => ErrorView::ColourPosition,
            Error::IndexOutOfRange => ErrorView::IndexOutOfRange,
            Error::PositionOutOfRange => ErrorView::PositionOutOfRange,
            Error::InvalidColour(text) => ErrorView::InvalidColour(text@),
            Error::Device(text) => ErrorView::Device(text@),
        }
    }
}

/// The text of an error.
pub open spec fn message_of(error: ErrorView) -> Seq<char> {
    match error {
        ErrorView::DeviceNotFound(name) => "device not found: "@ + name,
        ErrorView::GradientMissing => "gradient does not exist"@,
        ErrorView::GradientExists => "gradient already exists"@,
        ErrorView::ColourIndex => "invalid colour index"@,
        ErrorView::ColourPosition => "invalid colour position"@,
        ErrorView::IndexOutOfRange => "index out of range"@,
        ErrorView::PositionOutOfRange => "position out of range"@,
        ErrorView::InvalidColour(text) => text,
        ErrorView::Device(text) => text,
    }
}

/// The text names the device that was not found, and hands on what a device or
/// the reading of a colour says for itself.
pub proof fn lemma_messages(text: Seq<char>)
    ensures
        message_of(ErrorView::DeviceNotFound(text)).len() == 18 + text.len(),
        message_of(ErrorView::DeviceNotFound(text)).skip(18) == text,
        message_of(ErrorView::DeviceNotFound(text)).take(18) == "device not found: "@,
        message_of(ErrorView::Device(text)) == text,
        message_of(ErrorView::InvalidColour(text)) == text,
{
    reveal_strlit("device not found: ");
    let all = message_of(ErrorView::DeviceNotFound(text));
    assert(all.skip(18) =~= text);
    assert(all.take(18) =~= "device not found: "@);
}

/// An error is what it holds.
pub proof fn lemma_error_models(text: String)
    ensures
        Error::DeviceNotFound(text)@ == ErrorView::DeviceNotFound(text@),
        Error::GradientMissing@ is GradientMissing,
        Error::GradientExists@ is GradientExists,
        Error::ColourIndex@ is ColourIndex,
        Error::ColourPosition@ is ColourPosition,
        Error::IndexOutOfRange@ is IndexOutOfRange,
        Error::PositionOutOfRange@ is PositionOutOfRange,
        Error::InvalidColour(text)@ == ErrorView::InvalidColour(text@),
        Error::Device(text)@ == ErrorView::Device(text@),
{
}

impl Error {
    /// The text of the error.
    pub fn message(&self) -> (r: String)
        ensures
            r@ == message_of(self@),
    {
        match self {
            Error::DeviceNotFound(name) => "device not found: ".to_owned().concat(name.as_str()),
            Error::GradientMissing => "gradient does not exist".to_owned(),
            Error::GradientExists => "gradient already exists".to_owned(),
            Error::ColourIndex => "invalid colour index".to_owned(),
            Error::ColourPosition => "invalid colour position".to_owned(),
            Error::IndexOutOfRange => "index out of range".to_owned(),
            Error::PositionOutOfRange => "position out of range".to_owned(),
            Error::InvalidColour(text) => text.clone(),
            Error::Device(text) => text.clone(),
        }
    }
}

} // verus!
