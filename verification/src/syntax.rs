use vstd::prelude::*;

verus! {

broadcast use vstd::string::group_string_axioms;

/// The arguments that follow one segment of a path.
///
/// `T` is what a generic type argument stands for: callers hold whatever they
/// need to find the argument again (a reference into their own tree, a name).
#[derive(Debug)]
pub enum ArgsShape<T> {
    /// No arguments: `Option`.
    Empty,
    /// Angle-bracketed arguments: `Option<u32>`, `HashMap<K, V>`.
    AngleBracketed(Vec<GenericArgShape<T>>),
    /// Parenthesized arguments: `Fn(A) -> B`.
    Parenthesized,
}

/// One argument between angle brackets.
#[derive(Debug)]
pub enum GenericArgShape<T> {
    /// A type argument.
    Type(T),
    /// A lifetime, a constant, an associated type or a bound.
    Other,
}

/// One segment of a path: its identifier, as the identifier prints
/// (a raw identifier keeps its `r#`), and its arguments.
#[derive(Debug)]
pub struct SegmentShape<T> {
    pub ident: String,
    pub arguments: ArgsShape<T>,
}

/// A path such as `std::option::Option<u32>`.
#[derive(Debug)]
pub struct PathShape<T> {
    /// Whether the path starts with `::`.
    pub leading_colon: bool,
    pub segments: Vec<SegmentShape<T>>,
}

/// A type: either a path type or any other kind of type
/// (reference, tuple, slice, parenthesized or grouped type, ...).
#[derive(Debug)]
pub enum TypeShape<T> {
    /// A path type; a qualified self (`<A as B>::C`) is not kept, only the path.
    Path(PathShape<T>),
    Other,
}

/// An attribute, seen through the path that names it (`skip_update` in
/// `#[skip_update]`, `serde` in `#[serde(rename = "x")]`).
#[derive(Debug)]
pub struct AttrShape<T> {
    pub path: PathShape<T>,
}

impl<T> ArgsShape<T> {
    /// Whether there are no arguments at all.
    pub open spec fn spec_is_none(&self) -> bool {
        self is Empty
    }

    pub fn is_none(&self) -> (r: bool)
        ensures
            r == self.spec_is_none(),
    {
        match self {
            ArgsShape::Empty => true,
            _ => false,
        }
    }
}

impl<T> PathShape<T> {
    /// The identifier that the path consists of, if it is a single identifier:
    /// no leading `::`, exactly one segment, and no arguments on it.
    pub open spec fn spec_ident(&self) -> Option<Seq<char>> {
        if !self.leading_colon && self.segments@.len() == 1
            && self.segments@[0].arguments.spec_is_none() {
            Some(self.segments@[0].ident@)
        } else {
            None
        }
    }

    /// Returns the identifier that the path consists of, if it is a single
    /// identifier (see [`PathShape::spec_ident`]).
    pub fn get_ident(&self) -> (r: Option<&String>)
        ensures
            match r {
                Some(id) => self.spec_ident() == Some(id@),
                None => self.spec_ident() is None,
            },
    {
        if !self.leading_colon && self.segments.len() == 1 && self.segments[0].arguments.is_none() {
            Some(&self.segments[0].ident)
        } else {
            None
        }
    }

    /// Whether the path is the single identifier `ident`.
    pub fn is_ident(&self, ident: &str) -> (r: bool)
        ensures
            r == (self.spec_ident() == Some(ident@)),
    {
        match self.get_ident() {
            Some(id) => text_eq(id, ident),
            None => false,
        }
    }
}

/// Whether an identifier's text equals `text`.
pub fn text_eq(ident: &String, text: &str) -> (r: bool)
    ensures
        r == (ident@ == text@),
{
    let owned: String = text.to_string();
    ident.eq(&owned)
}

/// A path is a single identifier exactly when it has no leading `::` and
/// one segment without arguments, and that identifier is the segment's text.
pub proof fn law_single_identifier_path<T>(path: PathShape<T>)
    ensures
        path.spec_ident() is Some <==> (!path.leading_colon && path.segments@.len() == 1
            && path.segments@[0].arguments is Empty),
        path.spec_ident() is Some ==> path.spec_ident() == Some(path.segments@[0].ident@),
{
}

} // verus!
