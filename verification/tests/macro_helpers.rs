use valence_utils::macro_helpers::{
    get_option_inner_type, has_skip_update_attr, merge_variants, DataShape, ItemShape, MacroArgs,
    MergeError,
};
use valence_utils::punctuated::PunctuatedShape;
use valence_utils::syntax::{ArgsShape, AttrShape, GenericArgShape, PathShape, SegmentShape, TypeShape};

fn segment(ident: &str, arguments: ArgsShape<&'static str>) -> SegmentShape<&'static str> {
    SegmentShape { ident: ident.to_string(), arguments }
}

fn path(segments: Vec<SegmentShape<&'static str>>) -> PathShape<&'static str> {
    PathShape { leading_colon: false, segments }
}

fn ident_path(ident: &str) -> PathShape<&'static str> {
    path(vec![segment(ident, ArgsShape::Empty)])
}

fn attr(p: PathShape<&'static str>) -> AttrShape<&'static str> {
    AttrShape { path: p }
}

fn angle(args: Vec<GenericArgShape<&'static str>>) -> ArgsShape<&'static str> {
    ArgsShape::AngleBracketed(args)
}

// Path queries

#[test]
fn single_identifier_path_is_that_identifier() {
    let p = ident_path("skip_update");
    assert!(p.is_ident("skip_update"));
    assert!(!p.is_ident("skip"));
    assert_eq!(p.get_ident().map(|s| s.as_str()), Some("skip_update"));
}

#[test]
fn path_with_leading_colon_is_no_identifier() {
    let p = PathShape { leading_colon: true, segments: vec![segment("skip_update", ArgsShape::Empty)] };
    assert!(!p.is_ident("skip_update"));
    assert!(p.get_ident().is_none());
}

#[test]
fn path_with_two_segments_is_no_identifier() {
    let p = path(vec![segment("a", ArgsShape::Empty), segment("skip_update", ArgsShape::Empty)]);
    assert!(!p.is_ident("skip_update"));
    assert!(p.get_ident().is_none());
}

#[test]
fn path_with_arguments_is_no_identifier() {
    let p = path(vec![segment("skip_update", angle(vec![GenericArgShape::Type("u8")]))]);
    assert!(!p.is_ident("skip_update"));
    let q = path(vec![segment("skip_update", ArgsShape::Parenthesized)]);
    assert!(!q.is_ident("skip_update"));
}

#[test]
fn empty_path_is_no_identifier() {
    let p = path(vec![]);
    assert!(p.get_ident().is_none());
    assert!(!p.is_ident(""));
}

// has_skip_update_attr

#[test]
fn no_attributes_means_no_skip_update() {
    let attrs: Vec<AttrShape<&'static str>> = vec![];
    assert!(!has_skip_update_attr(&attrs));
}

#[test]
fn skip_update_found_among_other_attributes() {
    let attrs = vec![attr(ident_path("serde")), attr(ident_path("doc")), attr(ident_path("skip_update"))];
    assert!(has_skip_update_attr(&attrs));
    let first = vec![attr(ident_path("skip_update")), attr(ident_path("serde"))];
    assert!(has_skip_update_attr(&first));
}

#[test]
fn other_attributes_are_not_skip_update() {
    let attrs = vec![
        attr(ident_path("serde")),
        attr(ident_path("skip_updates")),
        attr(ident_path("r#skip_update")),
        attr(path(vec![segment("valence", ArgsShape::Empty), segment("skip_update", ArgsShape::Empty)])),
        attr(PathShape { leading_colon: true, segments: vec![segment("skip_update", ArgsShape::Empty)] }),
    ];
    assert!(!has_skip_update_attr(&attrs));
}

// get_option_inner_type

#[test]
fn option_of_a_type_gives_that_type() {
    let ty = TypeShape::Path(path(vec![segment("Option", angle(vec![GenericArgShape::Type("u32")]))]));
    assert_eq!(get_option_inner_type(&ty), Some(&"u32"));
}

#[test]
fn qualified_option_gives_its_type() {
    let ty = TypeShape::Path(PathShape {
        leading_colon: true,
        segments: vec![
            segment("std", ArgsShape::Empty),
            segment("option", ArgsShape::Empty),
            segment("Option", angle(vec![GenericArgShape::Type("String")])),
        ],
    });
    assert_eq!(get_option_inner_type(&ty), Some(&"String"));
}

#[test]
fn option_with_two_arguments_gives_the_first() {
    let ty = TypeShape::Path(path(vec![segment(
        "Option",
        angle(vec![GenericArgShape::Type("A"), GenericArgShape::Type("B")]),
    )]));
    assert_eq!(get_option_inner_type(&ty), Some(&"A"));
}

#[test]
fn option_whose_first_argument_is_no_type_gives_none() {
    let ty = TypeShape::Path(path(vec![segment(
        "Option",
        angle(vec![GenericArgShape::Other, GenericArgShape::Type("T")]),
    )]));
    assert_eq!(get_option_inner_type(&ty), None);
}

#[test]
fn bare_or_empty_or_parenthesized_option_gives_none() {
    let bare = TypeShape::Path(ident_path("Option"));
    assert_eq!(get_option_inner_type(&bare), None);
    let empty = TypeShape::Path(path(vec![segment("Option", angle(vec![]))]));
    assert_eq!(get_option_inner_type(&empty), None);
    let paren = TypeShape::Path(path(vec![segment("Option", ArgsShape::Parenthesized)]));
    assert_eq!(get_option_inner_type(&paren), None);
}

#[test]
fn other_types_give_none() {
    let vec_ty = TypeShape::Path(path(vec![segment("Vec", angle(vec![GenericArgShape::Type("u32")]))]));
    assert_eq!(get_option_inner_type(&vec_ty), None);
    let inner_option = TypeShape::Path(path(vec![
        segment("Option", angle(vec![GenericArgShape::Type("u32")])),
        segment("Inner", ArgsShape::Empty),
    ]));
    assert_eq!(get_option_inner_type(&inner_option), None);
    let lower = TypeShape::Path(path(vec![segment("option", angle(vec![GenericArgShape::Type("u32")]))]));
    assert_eq!(get_option_inner_type(&lower), None);
    let no_segments = TypeShape::Path(path(vec![]));
    assert_eq!(get_option_inner_type(&no_segments), None);
    let other: TypeShape<&'static str> = TypeShape::Other;
    assert_eq!(get_option_inner_type(&other), None);
}

// MacroArgs::parse

#[test]
fn macro_args_accept_empty_input() {
    assert!(MacroArgs::parse(true).is_ok());
}

#[test]
fn macro_args_refuse_any_argument() {
    let err = MacroArgs::parse(false).unwrap_err();
    assert_eq!(err.message, "macro takes no arguments");
}

// merge_variants

// Separators are numbered as written; the separator put in by merging is 0.
type Item = ItemShape<&'static str, &'static str, u32>;

const NEW: u32 = 0;

/// An enum whose variants are separated by the separators `first`,
/// `first + 1`, ... and which ends with one more separator when `trailing`.
fn enum_item(name: &'static str, variants: Vec<&'static str>, trailing: bool, first: u32) -> Item {
    let mut inner = Vec::new();
    let mut last = None;
    let n = variants.len();
    for (i, v) in variants.into_iter().enumerate() {
        if i + 1 < n || trailing {
            inner.push((v, first + i as u32));
        } else {
            last = Some(v);
        }
    }
    ItemShape { header: name, data: DataShape::Enum(PunctuatedShape { inner, last }) }
}

fn punctuated_of(item: Item) -> PunctuatedShape<&'static str, u32> {
    match item.data {
        DataShape::Enum(v) => v,
        _ => panic!("not an enum"),
    }
}

fn values(p: &PunctuatedShape<&'static str, u32>) -> Vec<&'static str> {
    let mut out: Vec<&'static str> = p.inner.iter().map(|(v, _)| *v).collect();
    out.extend(p.last.iter().copied());
    out
}

#[test]
fn merging_two_enums_appends_the_second_after_the_first() {
    let merged = merge_variants::<_, _, _, String>(
        Ok(MacroArgs),
        Ok(enum_item("Functions", vec!["Transfer", "Swap"], false, 10)),
        Ok(enum_item("Extra", vec!["Pause", "Resume", "Stop"], false, 20)),
        NEW,
    )
    .unwrap();
    assert_eq!(merged.header, "Functions");
    let p = punctuated_of(merged);
    assert_eq!(values(&p), vec!["Transfer", "Swap", "Pause", "Resume", "Stop"]);
    assert_eq!(p.inner, vec![("Transfer", 10), ("Swap", NEW), ("Pause", NEW), ("Resume", NEW)]);
    assert_eq!(p.last, Some("Stop"));
}

#[test]
fn merging_keeps_the_first_enums_trailing_separator() {
    let merged = merge_variants::<_, _, _, String>(
        Ok(MacroArgs),
        Ok(enum_item("A", vec!["X", "Y"], true, 10)),
        Ok(enum_item("B", vec!["Z"], true, 20)),
        NEW,
    )
    .unwrap();
    let p = punctuated_of(merged);
    assert_eq!(p.inner, vec![("X", 10), ("Y", 11)]);
    assert_eq!(p.last, Some("Z"));
}

#[test]
fn merging_with_an_enum_without_variants_keeps_the_first() {
    let merged = merge_variants::<_, _, _, String>(
        Ok(MacroArgs),
        Ok(enum_item("A", vec!["X", "Y"], true, 10)),
        Ok(enum_item("B", vec![], false, 20)),
        NEW,
    )
    .unwrap();
    assert_eq!(merged.header, "A");
    let p = punctuated_of(merged);
    assert_eq!(p.inner, vec![("X", 10), ("Y", 11)]);
    assert_eq!(p.last, None);

    let merged = merge_variants::<_, _, _, String>(
        Ok(MacroArgs),
        Ok(enum_item("A", vec![], false, 10)),
        Ok(enum_item("B", vec!["Z"], true, 20)),
        NEW,
    )
    .unwrap();
    assert_eq!(merged.header, "A");
    let p = punctuated_of(merged);
    assert!(p.inner.is_empty());
    assert_eq!(p.last, Some("Z"));
}

#[test]
fn push_and_extend_follow_the_separator_rule() {
    let mut p: PunctuatedShape<&'static str, u32> = PunctuatedShape { inner: vec![], last: None };
    p.push("A", 1);
    assert!(p.inner.is_empty());
    assert_eq!(p.last, Some("A"));
    p.push("B", 2);
    assert_eq!(p.inner, vec![("A", 2)]);
    assert_eq!(p.last, Some("B"));
    p.extend(PunctuatedShape { inner: vec![("C", 7), ("D", 8)], last: None }, 3);
    assert_eq!(p.inner, vec![("A", 2), ("B", 3), ("C", 3)]);
    assert_eq!(p.last, Some("D"));
}

#[test]
fn merging_reports_the_argument_error_before_anything_else() {
    let args = MacroArgs::parse(false).map_err(|e| e.message);
    let out = merge_variants::<&'static str, &'static str, u32, String>(
        args,
        Err("bad left".to_string()),
        Ok(enum_item("B", vec![], false, 0)),
        NEW,
    );
    match out {
        Err(MergeError::Arguments(e)) => assert_eq!(e, "macro takes no arguments"),
        other => panic!("unexpected outcome: {:?}", other),
    }
}

#[test]
fn merging_with_parsed_empty_arguments_goes_on() {
    let args = MacroArgs::parse(true).map_err(|e| e.message);
    let merged = merge_variants(
        args,
        Ok(enum_item("A", vec!["X"], false, 10)),
        Ok(enum_item("B", vec!["Y"], false, 20)),
        NEW,
    )
    .unwrap();
    assert_eq!(values(&punctuated_of(merged)), vec!["X", "Y"]);
}

#[test]
fn merging_reports_the_left_parse_error_first() {
    let out = merge_variants::<&'static str, &'static str, u32, String>(
        Ok(MacroArgs),
        Err("bad left".to_string()),
        Err("bad right".to_string()),
        NEW,
    );
    match out {
        Err(MergeError::Left(e)) => assert_eq!(e, "bad left"),
        other => panic!("unexpected outcome: {:?}", other),
    }
}

#[test]
fn merging_reports_the_right_parse_error() {
    let out = merge_variants::<_, _, _, String>(
        Ok(MacroArgs),
        Ok(enum_item("A", vec!["X"], false, 10)),
        Err("bad right".to_string()),
        NEW,
    );
    match out {
        Err(MergeError::Right(e)) => assert_eq!(e, "bad right"),
        other => panic!("unexpected outcome: {:?}", other),
    }
}

#[test]
fn merging_refuses_non_enums() {
    let cases: Vec<(Item, Item)> = vec![
        (ItemShape { header: "S", data: DataShape::Struct }, enum_item("B", vec!["X"], false, 0)),
        (enum_item("A", vec!["X"], false, 0), ItemShape { header: "U", data: DataShape::Union }),
        (ItemShape { header: "S", data: DataShape::Struct }, ItemShape { header: "T", data: DataShape::Struct }),
    ];
    for (left, right) in cases {
        match merge_variants::<_, _, _, String>(Ok(MacroArgs), Ok(left), Ok(right), NEW) {
            Err(MergeError::NotEnums(e)) => assert_eq!(e.message, "variants may only be added for enums"),
            other => panic!("unexpected outcome: {:?}", other),
        }
    }
}
