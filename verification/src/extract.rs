//! Classification of what a page query found: the extractor fails with a
//! not-found error exactly when an expected element is absent, and with a
//! missing-attribute error exactly when the element is there but an expected
//! attribute is not.  Empty attribute values are not failures.
use crate::errors::{Attr, Elem, ServiceError};
use vstd::prelude::*;

verus! {

/// What a query for the comic image found in a page.
pub enum ImgQuery {
    /// The container element is absent.
    NoContainer,
    /// The container is there, but holds no image element.
    NoImage,
    /// The image element, with its optional `title` and `src` attributes.
    Image { title: Option<String>, src: Option<String> },
}

impl ImgQuery {
    /// The same finding over plain values.
    pub open spec fn as_plain(&self) -> Option<Option<(Option<Seq<char>>, Option<Seq<char>>)>> {
        match *self {
            ImgQuery::NoContainer => None,
            ImgQuery::NoImage => Some(None),
            ImgQuery::Image { title, src } => Some(
                Some(
                    (
                        match title {
                            Some(t) => Some(t@),
                            None => None,
                        },
                        match src {
                            Some(s) => Some(s@),
                            None => None,
                        },
                    ),
                ),
            ),
        }
    }
}

/// What a query for the "previous" navigation link found in a page.
pub enum LinkQuery {
    /// The "previous" container element is absent.
    NoContainer,
    /// The container is there, but holds no link element.
    NoLink,
    /// The link element, with its optional `href` attribute.
    Link { href: Option<String> },
}

impl LinkQuery {
    /// The same finding over plain values.
    pub open spec fn as_plain(&self) -> Option<Option<Option<Seq<char>>>> {
        match *self {
            LinkQuery::NoContainer => None,
            LinkQuery::NoLink => Some(None),
            LinkQuery::Link { href } => Some(
                Some(
                    match href {
                        Some(h) => Some(h@),
                        None => None,
                    },
                ),
            ),
        }
    }
}

/// Turn an image query's finding into the extractor's outcome: title and
/// image URL on success; the absent element or attribute otherwise.  An
/// empty title or URL is a success.
pub fn classify_comic_query(q: ImgQuery) -> (r: Result<(String, String), ServiceError>)
    ensures
        match r {
            Ok(p) => q.as_plain() == Some(Some((Some(p.0@), Some(p.1@)))),
            Err(e) => match e {
                ServiceError::NotFound(Elem::Container) => q.as_plain() is None,
                ServiceError::NotFound(Elem::Image) => q.as_plain() == Some(
                    None::<(Option<Seq<char>>, Option<Seq<char>>)>,
                ),
                ServiceError::MissingAttribute(Attr::Title) => (q.as_plain() matches Some(
                    Some(p),
                ) && p.0 is None),
                ServiceError::MissingAttribute(Attr::Src) => (q.as_plain() matches Some(
                    Some(p),
                ) && p.0 is Some && p.1 is None),
                _ => false,
            },
        },
{
    match q {
        ImgQuery::NoContainer => Err(ServiceError::NotFound(Elem::Container)),
        ImgQuery::NoImage => Err(ServiceError::NotFound(Elem::Image)),
        ImgQuery::Image { title, src } => match (title, src) {
            (Some(t), Some(s)) => Ok((t, s)),
            (None, _) => Err(ServiceError::MissingAttribute(Attr::Title)),
            (Some(_), None) => Err(ServiceError::MissingAttribute(Attr::Src)),
        },
    }
}

/// Turn a link query's finding into the "previous" link's target: the href
/// on success; the absent element or attribute otherwise.
pub fn classify_prev_query(q: LinkQuery) -> (r: Result<String, ServiceError>)
    ensures
        match r {
            Ok(h) => q.as_plain() == Some(Some(Some(h@))),
            Err(e) => match e {
                ServiceError::NotFound(Elem::PreviousContainer) => q.as_plain() is None,
                ServiceError::NotFound(Elem::PreviousLink) => q.as_plain() == Some(
                    None::<Option<Seq<char>>>,
                ),
                ServiceError::MissingAttribute(Attr::Href) => q.as_plain() == Some(
                    Some(None::<Seq<char>>),
                ),
                _ => false,
            },
        },
{
    match q {
        LinkQuery::NoContainer => Err(ServiceError::NotFound(Elem::PreviousContainer)),
        LinkQuery::NoLink => Err(ServiceError::NotFound(Elem::PreviousLink)),
        LinkQuery::Link { href } => match href {
            Some(h) => Ok(h),
            None => Err(ServiceError::MissingAttribute(Attr::Href)),
        },
    }
}

} // verus!
