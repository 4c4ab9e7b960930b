//! What can go wrong in a conversion.

use vstd::prelude::*;

verus! {

/// The classes of failure.
#[derive(Debug, Clone, Copy, PartialEq, Eq, Structural)]
pub enum ErrorClass {
    /// A name is not one that the font model accepts.
    Naming,
    /// No row of an axis's table stands at exactly the coordinate asked for.
    MappingNotFound,
    /// A master, layer, glyph or axis that is referred to is not there.
    Lookup,
    /// The designspace is not one that can be converted.
    Configuration,
    /// An outline cannot be handed over as it is.
    Outline,
    /// A value tree does not have the shape of the record that is read
    /// from it.
    Schema,
}

/// The kind of a failed conversion.
#[derive(Debug, Clone, Copy, PartialEq, Eq, Structural)]
pub enum ErrorKind {
    /// A name is empty or holds a control character.
    InvalidName,
    /// The style of a style map is none of the four known ones.
    UnknownStyleMapStyle,
    /// No row of an axis's table stands at exactly the coordinate asked for.
    MappingNotFound,
    /// A location names an axis that the designspace does not have.
    MissingAxis,
    /// A source names a font object that was not handed in.
    MissingFontObject,
    /// A font object lacks a layer that a source names.
    MissingLayer,
    /// No master source is drawn in the font object of an associated layer.
    MissingParentMaster,
    /// No source stands at the default location of the axes.
    MissingDefaultSource,
    /// No master of the Glyphs source has the style name of a master source.
    MissingMaster,
    /// Two sources have the same name.
    DuplicateSourceName,
    /// The designspace has more than six axes.
    TooManyAxes,
    /// A location has no position at all.
    EmptyLocation,
    /// A master source has no style name.
    MissingStyleName,
    /// The identifiers handed in are not as many as the sources.
    IdentifierCount,
    /// Two sources were handed the same identifier.
    RepeatedIdentifier,
    /// The glyph order of a font object is not a list of strings.
    BadGlyphOrder,
    /// An open path does not start with a plain line node.
    OpenPathStart,
    /// A dictionary lacks an entry that the record needs.
    MissingField,
    /// A node of the value tree is of a kind that the record cannot take.
    WrongVariant,
}

impl ErrorKind {
    /// The class of failure that this kind belongs to.
    pub open spec fn spec_class(self) -> ErrorClass {
        match self {
            ErrorKind::InvalidName | ErrorKind::UnknownStyleMapStyle => ErrorClass::Naming,
            ErrorKind::MappingNotFound => ErrorClass::MappingNotFound,
            ErrorKind::MissingAxis
            | ErrorKind::MissingFontObject
            | ErrorKind::MissingLayer
            | ErrorKind::MissingParentMaster
            | ErrorKind::MissingDefaultSource
            | ErrorKind::MissingMaster => ErrorClass::Lookup,
            ErrorKind::DuplicateSourceName
            | ErrorKind::TooManyAxes
            | ErrorKind::EmptyLocation
            | ErrorKind::MissingStyleName
            | ErrorKind::IdentifierCount
            | ErrorKind::RepeatedIdentifier
            | ErrorKind::BadGlyphOrder => ErrorClass::Configuration,
            ErrorKind::OpenPathStart => ErrorClass::Outline,
            ErrorKind::MissingField | ErrorKind::WrongVariant => ErrorClass::Schema,
        }
    }

    /// The class of failure that this kind belongs to.
    #[verifier::when_used_as_spec(spec_class)]
    pub fn class(self) -> (r: ErrorClass)
        ensures
            r == self.spec_class(),
    {
        match self {
            ErrorKind::InvalidName | ErrorKind::UnknownStyleMapStyle => ErrorClass::Naming,
            ErrorKind::MappingNotFound => ErrorClass::MappingNotFound,
            ErrorKind::MissingAxis
            | ErrorKind::MissingFontObject
            | ErrorKind::MissingLayer
            | ErrorKind::MissingParentMaster
            | ErrorKind::MissingDefaultSource
            | ErrorKind::MissingMaster => ErrorClass::Lookup,
            ErrorKind::DuplicateSourceName
            | ErrorKind::TooManyAxes
            | ErrorKind::EmptyLocation
            | ErrorKind::MissingStyleName
            | ErrorKind::IdentifierCount
            | ErrorKind::RepeatedIdentifier
            | ErrorKind::BadGlyphOrder => ErrorClass::Configuration,
            ErrorKind::OpenPathStart => ErrorClass::Outline,
            ErrorKind::MissingField | ErrorKind::WrongVariant => ErrorClass::Schema,
        }
    }
}

/// A failed conversion: its kind, and the name of what it failed on.
#[derive(Debug, PartialEq, Eq)]
pub struct ConversionError {
    pub kind: ErrorKind,
    pub subject: String,
}

/// What a [`ConversionError`] stands for.
pub struct ConversionErrorModel {
    pub kind: ErrorKind,
    pub subject: Seq<char>,
}

impl DeepView for ConversionError {
    type V = ConversionErrorModel;

    open spec fn deep_view(&self) -> ConversionErrorModel {
        ConversionErrorModel { kind: self.kind, subject: self.subject@ }
    }
}

impl Clone for ConversionError {
    fn clone(&self) -> (r: ConversionError)
        ensures
            r.deep_view() == self.deep_view(),
    {
        ConversionError { kind: self.kind, subject: self.subject.clone() }
    }
}

impl ConversionErrorModel {
    /// An error of the given kind about `subject`.
    pub open spec fn new(kind: ErrorKind, subject: Seq<char>) -> ConversionErrorModel {
        ConversionErrorModel { kind, subject }
    }
}

impl ConversionError {
    /// An error of the given kind about `subject`.
    pub fn new(kind: ErrorKind, subject: &str) -> (r: ConversionError)
        ensures
            r.deep_view() == ConversionErrorModel::new(kind, subject@),
    {
        ConversionError { kind, subject: subject.to_owned() }
    }
}

} // verus!
