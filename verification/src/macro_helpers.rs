use vstd::prelude::*;

use crate::punctuated::{
    extended, law_extended_keeps_written_separators, lemma_extended_values, values_of,
    PunctuatedShape,
};
use crate::syntax::{text_eq, ArgsShape, AttrShape, GenericArgShape, PathShape, TypeShape};

verus! {

broadcast use vstd::string::group_string_axioms;

/// Whether an attribute is `#[skip_update]`: its path is that single identifier.
pub open spec fn is_skip_update<T>(path: PathShape<T>) -> bool {
    path.spec_ident() == Some("skip_update"@)
}

/// Only `#[skip_update]` marks a field: an attribute counts exactly when its
/// path has no leading `::` and a single segment, without arguments, whose
/// identifier is `skip_update`. Any other attribute (`doc`, `serde`,
/// `allow`, `a::skip_update`, `skip_update<T>`, ...) does not.
pub proof fn law_skip_update_is_that_identifier<T>(path: PathShape<T>)
    ensures
        is_skip_update(path) <==> {
            &&& !path.leading_colon
            &&& path.segments@.len() == 1
            &&& path.segments@[0].arguments is Empty
            &&& path.segments@[0].ident@ == "skip_update"@
        },
{
}

/// A field none of whose attributes is named by a `skip_update` segment
/// (for instance one that only carries doc comments) is not marked.
pub proof fn law_unmarked_fields<T>(attrs: Seq<AttrShape<T>>)
    requires
        forall|i: int, j: int|
            0 <= i < attrs.len() && 0 <= j < attrs[i].path.segments@.len() ==> (
            #[trigger] attrs[i].path.segments@[j]).ident@ != "skip_update"@,
    ensures
        !exists|i: int| 0 <= i < attrs.len() && is_skip_update(#[trigger] attrs[i].path),
{
    assert forall|i: int| 0 <= i < attrs.len() implies !is_skip_update(#[trigger] attrs[i].path) by {
        if attrs[i].path.segments@.len() > 0 {
            assert(attrs[i].path.segments@[0].ident@ != "skip_update"@);
        }
    }
}

/// Checks whether there is a `skip_update` attribute on a field.
pub fn has_skip_update_attr<T>(attrs: &[AttrShape<T>]) -> (r: bool)
    ensures
        r == exists|i: int| 0 <= i < attrs@.len() && is_skip_update(#[trigger] attrs@[i].path),
{
    let mut i: usize = 0;
    while i < attrs.len()
        invariant
            i <= attrs@.len(),
            forall|j: int| 0 <= j < i ==> !is_skip_update(#[trigger] attrs@[j].path),
        decreases attrs@.len() - i,
    {
        if attrs[i].path.is_ident("skip_update") {
            return true;
        }
        i = i + 1;
    }
    false
}

/// An error that a macro reports to the user, by its message.
#[derive(Debug)]
pub struct MacroError {
    pub message: String,
}

/// The arguments of the enum-merging attribute macro, which takes none.
#[derive(Debug, Default)]
pub struct MacroArgs;

impl MacroArgs {
    /// Parses the arguments of the macro: succeeds exactly when no token
    /// remains in the input, and otherwise reports "macro takes no arguments".
    pub fn parse(input_is_empty: bool) -> (r: Result<MacroArgs, MacroError>)
        ensures
            r is Ok <==> input_is_empty,
            r matches Err(e) ==> e.message@ == "macro takes no arguments"@,
    {
        if input_is_empty {
            Ok(MacroArgs)
        } else {
            Err(MacroError { message: "macro takes no arguments".to_string() })
        }
    }
}

/// The body of a type definition, as far as enum merging reads it: the
/// variants of an enum with the separators between them, or the kind of a
/// non-enum definition.
#[derive(Debug)]
pub enum DataShape<V, P> {
    Enum(PunctuatedShape<V, P>),
    Struct,
    Union,
}

/// A type definition: a `header` (name, attributes, visibility, generics;
/// whatever the caller needs to print the definition again), carried through
/// untouched, and its body.
#[derive(Debug)]
pub struct ItemShape<H, V, P> {
    pub header: H,
    pub data: DataShape<V, P>,
}

/// Why merging two definitions failed.
#[derive(Debug)]
pub enum MergeError<E> {
    /// The macro's arguments were refused.
    Arguments(E),
    /// The first definition could not be parsed.
    Left(E),
    /// The second definition could not be parsed.
    Right(E),
    /// One of the two definitions is not an enum.
    NotEnums(MacroError),
}

/// The outcome of merging once the arguments and both definitions parsed.
/// When both are enums: `left`'s header, and `left`'s variants with their
/// separators as written, followed by `right`'s variants pushed one by one
/// (see [`extended`]: each new variant is preceded by `separator` unless the
/// sequence is empty or already ends with a separator; `right`'s own
/// separators are not kept). Otherwise the refusal of non-enums.
pub open spec fn merged_when_parsed<H, V, P, E>(
    left: ItemShape<H, V, P>,
    right: ItemShape<H, V, P>,
    separator: P,
    r: Result<ItemShape<H, V, P>, MergeError<E>>,
) -> bool {
    match (left.data, right.data) {
        (DataShape::Enum(left_variants), DataShape::Enum(right_variants)) => {
            &&& r matches Ok(item)
            &&& item.header == left.header
            &&& item.data matches DataShape::Enum(variants)
            &&& (variants.inner@, variants.last) == extended(
                left_variants.inner@,
                left_variants.last,
                values_of(right_variants.inner@, right_variants.last),
                separator,
            )
        },
        _ => r matches Err(MergeError::NotEnums(e)) && e.message@
            == "variants may only be added for enums"@,
    }
}

/// The variants of a merged enum are the first enum's followed by the
/// second's, in order, whatever the separators.
pub open spec fn merged_variants_concatenate<H, V, P, E>(
    left: ItemShape<H, V, P>,
    right: ItemShape<H, V, P>,
    r: Result<ItemShape<H, V, P>, MergeError<E>>,
) -> bool {
    r matches Ok(item) ==> match (item.data, left.data, right.data) {
        (DataShape::Enum(m), DataShape::Enum(l), DataShape::Enum(rt)) => values_of(
            m.inner@,
            m.last,
        ) == values_of(l.inner@, l.last) + values_of(rt.inner@, rt.last),
        _ => false,
    }
}

/// What merging two parsed enums gives: the first enum's header; its pairs
/// of variant and separator first, as written; every separator added equal
/// to `separator`; and the variants of the first enum followed by those of
/// the second. Merging anything else than two enums is refused as such.
pub proof fn law_merge_keeps_first_enum<H, V, P, E>(
    left: ItemShape<H, V, P>,
    right: ItemShape<H, V, P>,
    separator: P,
    r: Result<ItemShape<H, V, P>, MergeError<E>>,
)
    requires
        merged_when_parsed(left, right, separator, r),
    ensures
        (left.data is Enum && right.data is Enum) ==> {
            &&& r is Ok
            &&& r->Ok_0.header == left.header
            &&& r->Ok_0.data is Enum
            &&& r->Ok_0.data->Enum_0.inner@.len() >= left.data->Enum_0.inner@.len()
            &&& forall|k: int|
                0 <= k < left.data->Enum_0.inner@.len() ==> #[trigger] r->Ok_0.data->Enum_0.inner@[k]
                    == left.data->Enum_0.inner@[k]
            &&& forall|k: int|
                left.data->Enum_0.inner@.len() <= k < r->Ok_0.data->Enum_0.inner@.len() ==> (
                #[trigger] r->Ok_0.data->Enum_0.inner@[k]).1 == separator
            &&& values_of(r->Ok_0.data->Enum_0.inner@, r->Ok_0.data->Enum_0.last) == values_of(
                left.data->Enum_0.inner@,
                left.data->Enum_0.last,
            ) + values_of(right.data->Enum_0.inner@, right.data->Enum_0.last)
        },
        !(left.data is Enum && right.data is Enum) ==> {
            &&& r is Err
            &&& r->Err_0 is NotEnums
            &&& r->Err_0->NotEnums_0.message@ == "variants may only be added for enums"@
        },
{
    if left.data is Enum && right.data is Enum {
        let l = left.data->Enum_0;
        let rt = right.data->Enum_0;
        let vals = values_of(rt.inner@, rt.last);
        law_extended_keeps_written_separators(l.inner@, l.last, vals, separator);
        lemma_extended_values(l.inner@, l.last, vals, separator);
    }
}

/// Merges the variants of two enums. Takes the outcome of parsing the
/// macro's arguments (see [`MacroArgs::parse`]) and the two definitions, and
/// reports the first parse error in that order; then appends the second
/// enum's variants to the first enum's, placing `separator` where a new one
/// is needed.
pub fn merge_variants<H, V, P: Copy, E>(
    metadata: Result<MacroArgs, E>,
    left: Result<ItemShape<H, V, P>, E>,
    right: Result<ItemShape<H, V, P>, E>,
    separator: P,
) -> (r: Result<ItemShape<H, V, P>, MergeError<E>>)
    ensures
        match metadata {
            Err(e) => r == Err::<ItemShape<H, V, P>, MergeError<E>>(MergeError::Arguments(e)),
            Ok(_) => match left {
                Err(e) => r == Err::<ItemShape<H, V, P>, MergeError<E>>(MergeError::Left(e)),
                Ok(l) => match right {
                    Err(e) => r == Err::<ItemShape<H, V, P>, MergeError<E>>(MergeError::Right(e)),
                    Ok(rt) => {
                        &&& merged_when_parsed(l, rt, separator, r)
                        &&& merged_variants_concatenate(l, rt, r)
                    },
                },
            },
        },
{
    match metadata {
        Ok(_) => {},
        Err(e) => {
            return Err(MergeError::Arguments(e));
        },
    }
    let left = match left {
        Ok(item) => item,
        Err(e) => {
            return Err(MergeError::Left(e));
        },
    };
    let right = match right {
        Ok(item) => item,
        Err(e) => {
            return Err(MergeError::Right(e));
        },
    };
    let ItemShape { header, data } = left;
    match (data, right.data) {
        (DataShape::Enum(mut variants), DataShape::Enum(to_add)) => {
            variants.extend(to_add, separator);
            Ok(ItemShape { header, data: DataShape::Enum(variants) })
        },
        _ => Err(
            MergeError::NotEnums(
                MacroError { message: "variants may only be added for enums".to_string() },
            ),
        ),
    }
}

/// The type `T` of a type written `Option<T>`: a path type whose last segment
/// is the identifier `Option` followed by angle-bracketed arguments, the first
/// of which is a type. The segments before the last are not looked at, so
/// `std::option::Option<T>` qualifies too.
pub open spec fn option_inner_type<T>(ty: TypeShape<T>) -> Option<T> {
    match ty {
        TypeShape::Path(path) => {
            if path.segments@.len() == 0 {
                None
            } else {
                let last = path.segments@.last();
                if last.ident@ == "Option"@ {
                    match last.arguments {
                        ArgsShape::AngleBracketed(args) => {
                            if args@.len() == 0 {
                                None
                            } else {
                                match args@[0] {
                                    GenericArgShape::Type(inner) => Some(inner),
                                    GenericArgShape::Other => None,
                                }
                            }
                        },
                        _ => None,
                    }
                } else {
                    None
                }
            }
        },
        TypeShape::Other => None,
    }
}

/// What an inner type found by [`get_option_inner_type`] must be: the type
/// is a path whose last segment is the identifier `Option`, written with
/// angle-bracketed arguments the first of which is that very type. A type
/// whose last segment has any other identifier has no inner type, whatever
/// its arguments (`Vec<T>`, `BTreeMap<K, V>`).
pub proof fn law_option_inner_type_is_first_argument_of_option<T>(ty: TypeShape<T>)
    ensures
        option_inner_type(ty) is Some ==> {
            &&& ty is Path
            &&& ty->0.segments@.len() > 0
            &&& ty->0.segments@.last().ident@ == "Option"@
            &&& ty->0.segments@.last().arguments is AngleBracketed
            &&& ty->0.segments@.last().arguments->0@.len() > 0
            &&& ty->0.segments@.last().arguments->0@[0] == GenericArgShape::Type(
                option_inner_type(ty)->0,
            )
        },
{
}

/// Every type written `Option<T, ..>` gives `T`, whatever segments come
/// before `Option` (`std::option::Option<T>`) and with or without a leading
/// `::`.
pub proof fn law_every_option_gives_its_argument<T>(ty: TypeShape<T>, inner: T)
    requires
        ty is Path,
        ty->0.segments@.len() > 0,
        ty->0.segments@.last().ident@ == "Option"@,
        ty->0.segments@.last().arguments is AngleBracketed,
        ty->0.segments@.last().arguments->0@.len() > 0,
        ty->0.segments@.last().arguments->0@[0] == GenericArgShape::Type(inner),
    ensures
        option_inner_type(ty) == Some(inner),
{
}

/// Only the last segment of a path type matters: two path types that end
/// with the same segment give the same answer, however they are qualified.
pub proof fn law_option_depends_on_last_segment_only<T>(a: TypeShape<T>, b: TypeShape<T>)
    requires
        a is Path,
        b is Path,
        a->0.segments@.len() > 0,
        b->0.segments@.len() > 0,
        a->0.segments@.last() == b->0.segments@.last(),
    ensures
        option_inner_type(a) == option_inner_type(b),
{
}

/// Returns the inner type of an `Option<T>` type (see [`option_inner_type`]),
/// or `None` when the type is not written that way.
pub fn get_option_inner_type<T>(ty: &TypeShape<T>) -> (r: Option<&T>)
    ensures
        match r {
            Some(inner) => option_inner_type(*ty) == Some(*inner),
            None => option_inner_type(*ty) is None,
        },
{
    if let TypeShape::Path(path) = ty {
        let n = path.segments.len();
        if n > 0 {
            let segment = &path.segments[n - 1];
            if text_eq(&segment.ident, "Option") {
                if let ArgsShape::AngleBracketed(args) = &segment.arguments {
                    if args.len() > 0 {
                        if let GenericArgShape::Type(inner_type) = &args[0] {
                            return Some(inner_type);
                        }
                    }
                }
            }
        }
    }
    None
}

} // verus!
