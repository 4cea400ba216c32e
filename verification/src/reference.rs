//! Naming an object by its number or by its slug, as a request does.

use vstd::prelude::*;
use vstd::std_specs::convert::FromSpecImpl;
use vstd::std_specs::convert::TryFromSpecImpl;
use crate::text::decimal_i64;
use crate::text::parse_i64;
use crate::text::same_text;

verus! {

/// An object named by its number or by its slug.
#[derive(Debug, Copy, Clone, Hash, PartialEq, Eq)]
pub enum Reference<'a> {
    Id(i64),
    Slug(&'a str),
}

/// Mathematical value of a [`Reference`].
pub enum ReferenceView {
    Id(i64),
    Slug(Seq<char>),
}

impl<'a> View for Reference<'a> {
    type V = ReferenceView;

    open spec fn view(&self) -> ReferenceView {
        match self {
            Reference::Id(id) => ReferenceView::Id(*id),
            Reference::Slug(slug) => ReferenceView::Slug(slug@),
        }
    }
}

impl From<i64> for Reference<'static> {
    fn from(id: i64) -> (r: Reference<'static>) {
        Reference::Id(id)
    }
}

impl FromSpecImpl<i64> for Reference<'static> {
    open spec fn obeys_from_spec() -> bool {
        true
    }

    open spec fn from_spec(id: i64) -> Reference<'static> {
        Reference::Id(id)
    }
}

impl<'a> From<&'a str> for Reference<'a> {
    fn from(slug: &'a str) -> (r: Reference<'a>) {
        Reference::Slug(slug)
    }
}

impl<'a> FromSpecImpl<&'a str> for Reference<'a> {
    open spec fn obeys_from_spec() -> bool {
        true
    }

    open spec fn from_spec(slug: &'a str) -> Reference<'a> {
        Reference::Slug(slug)
    }
}

/// Why a request names no object.
#[derive(Debug, Copy, Clone, Hash, PartialEq, Eq, Structural)]
pub enum ReferenceError {
    /// The kind of name is neither `id` nor `slug`.
    UnknownType,
    /// The kind of name is none of `from-id`, `to-id`, `from-slug` and
    /// `to-slug`.
    UnknownDirectedType,
    /// The name is to be a number and is not a 64-bit signed integer in
    /// decimal notation.
    InvalidId,
}

impl ReferenceError {
    /// The HTTP status that answers the request: 400 where the kind of
    /// name is unknown, 500 where the number cannot be read.
    pub fn status(&self) -> (r: u16)
        ensures
            r == match *self {
                ReferenceError::UnknownType => 400u16,
                ReferenceError::UnknownDirectedType => 400u16,
                ReferenceError::InvalidId => 500u16,
            },
    {
        match self {
            ReferenceError::UnknownType => 400,
            ReferenceError::UnknownDirectedType => 400,
            ReferenceError::InvalidId => 500,
        }
    }

    /// The words that answer the request.
    pub fn message(&self) -> (r: &'static str)
        ensures
            r@ == match *self {
                ReferenceError::UnknownType => "May only specify object by 'id' or 'slug'"@,
                ReferenceError::UnknownDirectedType =>
                    "May only specify object as 'from-id', 'from-slug', 'to-id', or 'to-slug'"@,
                ReferenceError::InvalidId => "May only specify an id as a 64-bit integer"@,
            },
    {
        match self {
            ReferenceError::UnknownType => "May only specify object by 'id' or 'slug'",
            ReferenceError::UnknownDirectedType => {
                "May only specify object as 'from-id', 'from-slug', 'to-id', or 'to-slug'"
            },
            ReferenceError::InvalidId => "May only specify an id as a 64-bit integer",
        }
    }
}

/// The object that a number in decimal notation names.
pub open spec fn id_reference(value: Seq<char>) -> Result<ReferenceView, ReferenceError> {
    match decimal_i64(value) {
        Some(id) => Ok(ReferenceView::Id(id)),
        None => Err(ReferenceError::InvalidId),
    }
}

/// The object that the pair of a kind and a name stands for: with `slug`
/// the name is the slug, with `id` it is the number in decimal notation.
pub open spec fn reference_of(value_type: Seq<char>, value: Seq<char>) -> Result<
    ReferenceView,
    ReferenceError,
> {
    if value_type == "slug"@ {
        Ok(ReferenceView::Slug(value))
    } else if value_type == "id"@ {
        id_reference(value)
    } else {
        Err(ReferenceError::UnknownType)
    }
}

impl<'a> Reference<'a> {
    /// Reads the number that names an object.
    pub fn from_id_text(value: &str) -> (r: Result<Reference<'a>, ReferenceError>)
        ensures
            r == (match decimal_i64(value@) {
                Some(id) => Ok::<Reference<'a>, ReferenceError>(Reference::Id(id)),
                None => Err::<Reference<'a>, ReferenceError>(ReferenceError::InvalidId),
            }),
    {
        match parse_i64(value) {
            Some(id) => Ok(Reference::Id(id)),
            None => Err(ReferenceError::InvalidId),
        }
    }
}

impl<'a> TryFrom<(&'a str, &'a str)> for Reference<'a> {
    type Error = ReferenceError;

    /// Reads a reference from the two parameters of a request: the kind
    /// of name, and the name.
    fn try_from(parameters: (&'a str, &'a str)) -> (r: Result<Reference<'a>, ReferenceError>)
        ensures
            match r {
                Ok(reference) => reference_of(parameters.0@, parameters.1@) == Ok::<
                    ReferenceView,
                    ReferenceError,
                >(reference@),
                Err(e) => reference_of(parameters.0@, parameters.1@) == Err::<
                    ReferenceView,
                    ReferenceError,
                >(e),
            },
    {
        let (value_type, value) = parameters;
        if same_text(value_type, "slug") {
            Ok(Reference::Slug(value))
        } else if same_text(value_type, "id") {
            Reference::from_id_text(value)
        } else {
            Err(ReferenceError::UnknownType)
        }
    }
}

impl<'a> TryFromSpecImpl<(&'a str, &'a str)> for Reference<'a> {
    open spec fn obeys_try_from_spec() -> bool {
        true
    }

    open spec fn try_from_spec(parameters: (&'a str, &'a str)) -> Result<Reference<'a>, ReferenceError> {
        if parameters.0@ == "slug"@ {
            Ok(Reference::Slug(parameters.1))
        } else if parameters.0@ == "id"@ {
            match decimal_i64(parameters.1@) {
                Some(id) => Ok(Reference::Id(id)),
                None => Err(ReferenceError::InvalidId),
            }
        } else {
            Err(ReferenceError::UnknownType)
        }
    }
}

/// Which way a link is followed.
#[derive(Debug, Copy, Clone, Hash, PartialEq, Eq, Structural)]
pub enum Direction {
    From,
    To,
}

/// An object and the direction in which its links are followed.
#[derive(Debug, Copy, Clone, Hash, PartialEq, Eq)]
pub struct DirectedReference<'a> {
    pub direction: Direction,
    pub reference: Reference<'a>,
}

/// Mathematical value of a [`DirectedReference`].
pub struct DirectedReferenceView {
    pub direction: Direction,
    pub reference: ReferenceView,
}

impl<'a> View for DirectedReference<'a> {
    type V = DirectedReferenceView;

    open spec fn view(&self) -> DirectedReferenceView {
        DirectedReferenceView { direction: self.direction, reference: self.reference@ }
    }
}

/// The direction that a kind of directed name gives, and whether the name
/// is a number; `None` for an unknown kind.
pub open spec fn directed_kind(directed_type: Seq<char>) -> Option<(Direction, bool)> {
    if directed_type == "from-id"@ {
        Some((Direction::From, true))
    } else if directed_type == "to-id"@ {
        Some((Direction::To, true))
    } else if directed_type == "from-slug"@ {
        Some((Direction::From, false))
    } else if directed_type == "to-slug"@ {
        Some((Direction::To, false))
    } else {
        None
    }
}

/// The directed reference that the pair of a kind and a name stands for.
pub open spec fn directed_reference_of(directed_type: Seq<char>, value: Seq<char>) -> Result<
    DirectedReferenceView,
    ReferenceError,
> {
    match directed_kind(directed_type) {
        None => Err(ReferenceError::UnknownDirectedType),
        Some((direction, numbered)) => if numbered {
            match id_reference(value) {
                Ok(reference) => Ok(DirectedReferenceView { direction, reference }),
                Err(e) => Err(e),
            }
        } else {
            Ok(DirectedReferenceView { direction, reference: ReferenceView::Slug(value) })
        },
    }
}

impl<'a> TryFrom<(&'a str, &'a str)> for DirectedReference<'a> {
    type Error = ReferenceError;

    /// Reads a directed reference from the two parameters of a request:
    /// the kind of name with its direction, and the name.
    fn try_from(parameters: (&'a str, &'a str)) -> (r: Result<DirectedReference<'a>, ReferenceError>)
        ensures
            match r {
                Ok(directed) => directed_reference_of(parameters.0@, parameters.1@) == Ok::<
                    DirectedReferenceView,
                    ReferenceError,
                >(directed@),
                Err(e) => directed_reference_of(parameters.0@, parameters.1@) == Err::<
                    DirectedReferenceView,
                    ReferenceError,
                >(e),
            },
    {
        let (directed_type, value) = parameters;
        let (direction, numbered) = if same_text(directed_type, "from-id") {
            (Direction::From, true)
        } else if same_text(directed_type, "to-id") {
            (Direction::To, true)
        } else if same_text(directed_type, "from-slug") {
            (Direction::From, false)
        } else if same_text(directed_type, "to-slug") {
            (Direction::To, false)
        } else {
            return Err(ReferenceError::UnknownDirectedType);
        };
        let reference = if numbered {
            match Reference::from_id_text(value) {
                Ok(reference) => reference,
                Err(e) => {
                    return Err(e);
                },
            }
        } else {
            Reference::Slug(value)
        };
        Ok(DirectedReference { direction, reference })
    }
}

impl<'a> TryFromSpecImpl<(&'a str, &'a str)> for DirectedReference<'a> {
    open spec fn obeys_try_from_spec() -> bool {
        true
    }

    open spec fn try_from_spec(parameters: (&'a str, &'a str)) -> Result<
        DirectedReference<'a>,
        ReferenceError,
    > {
        match directed_kind(parameters.0@) {
            None => Err(ReferenceError::UnknownDirectedType),
            Some((direction, numbered)) => if numbered {
                match decimal_i64(parameters.1@) {
                    Some(id) => Ok(DirectedReference { direction, reference: Reference::Id(id) }),
                    None => Err(ReferenceError::InvalidId),
                }
            } else {
                Ok(DirectedReference { direction, reference: Reference::Slug(parameters.1) })
            },
        }
    }
}

} // verus!
