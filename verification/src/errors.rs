//! Error taxonomy of the service: transport failures, structural parse
//! failures, and an out-of-range seed for the feed selection.
use vstd::prelude::*;

verus! {

/// A structural element of the upstream page that the extractor expects.
#[derive(Clone, Copy, PartialEq, Eq, Structural, Debug)]
pub enum Elem {
    /// The container element that holds the comic image.
    Container,
    /// The image element inside the container.
    Image,
    /// The container element that holds the "previous comic" navigation link.
    PreviousContainer,
    /// The link element inside the "previous" container.
    PreviousLink,
    /// The numeric id pattern inside the "previous" link's target.
    IdInLink,
}

/// An attribute of a present element that the extractor expects.
#[derive(Clone, Copy, PartialEq, Eq, Structural, Debug)]
pub enum Attr {
    /// The `title` attribute of the comic image.
    Title,
    /// The `src` attribute of the comic image.
    Src,
    /// The `href` attribute of the "previous" link.
    Href,
}

/// Everything that the core can report to a caller.
#[derive(Clone, PartialEq, Eq, Debug)]
pub enum ServiceError {
    /// Network or transport failure, or a non-success upstream status.
    Fetch(String),
    /// An expected structural element is absent from the upstream markup.
    NotFound(Elem),
    /// An element is present but an expected attribute is absent.
    MissingAttribute(Attr),
    /// The resolved maximum id is zero: no id can be drawn from an empty range.
    SeedRange,
}

impl ServiceError {
    /// A short human-readable description of the error.
    pub fn message(&self) -> String {
        match self {
            ServiceError::Fetch(m) => m.clone(),
            ServiceError::NotFound(e) => match e {
                Elem::Container => "could not find the comic container".to_owned(),
                Elem::Image => "could not find the comic image".to_owned(),
                Elem::PreviousContainer => "could not find the previous-link container".to_owned(),
                Elem::PreviousLink => "could not find the previous link".to_owned(),
                Elem::IdInLink => "could not find an id in the previous link".to_owned(),
            },
            ServiceError::MissingAttribute(a) => match a {
                Attr::Title => "the comic image has no title attribute".to_owned(),
                Attr::Src => "the comic image has no src attribute".to_owned(),
                Attr::Href => "the previous link has no href attribute".to_owned(),
            },
            ServiceError::SeedRange => "the maximum id is zero".to_owned(),
        }
    }
}

} // verus!
