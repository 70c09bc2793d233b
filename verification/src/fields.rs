use vstd::prelude::*;

verus! {

/// `syn::ItemStruct`, the syntax tree of one structure definition. Verus sees
/// nothing inside a value of it; the names below say what the contracts need.
#[verifier::external_type_specification]
#[verifier::external_body]
pub struct ExItemStruct(syn::ItemStruct);

/// `syn::Field`, the syntax tree of one field of a structure.
#[verifier::external_type_specification]
#[verifier::external_body]
pub struct ExField(syn::Field);

/// `syn::Error`, what syn's parsers return for input that they do not accept.
#[verifier::external_type_specification]
#[verifier::external_body]
pub struct ExError(syn::Error);

/// Whether the `fields` of the structure are of the variant
/// `syn::Fields::Named`: whether it is written with fields in braces.
pub uninterp spec fn has_named_fields(item: syn::ItemStruct) -> bool;

/// The fields that the structure holds, each as the text of its tokens, from
/// the first to the last. The punctuation between them is no part of it.
pub uninterp spec fn field_texts(item: syn::ItemStruct) -> Seq<Seq<char>>;

/// The text of the tokens of everything in the structure but its `fields`:
/// attributes, visibility, name, generics and closing semicolon.
pub uninterp spec fn frame_text(item: syn::ItemStruct) -> Seq<char>;

/// The text of the tokens of one field.
pub uninterp spec fn field_text(field: syn::Field) -> Seq<char>;

/// What `syn::Field::parse_named` makes of `text` when `text` is all of its
/// input: the text of the tokens of the field that it reads, or `None` where it
/// reads none.
pub uninterp spec fn named_field_text(text: Seq<char>) -> Option<Seq<char>>;

/// The field that is appended, as it is written in a structure.
pub const INJECTED_FIELD: &'static str = "pub a: String";

/// Tells the variants of `syn::Fields` apart, as they stand in the `fields` of
/// the structure.
#[verifier::external_body]
fn is_named(item: &syn::ItemStruct) -> (named: bool)
    ensures
        named == has_named_fields(*item),
{
    match item.fields {
        syn::Fields::Named(_) => true,
        syn::Fields::Unnamed(_) => false,
        syn::Fields::Unit => false,
    }
}

/// Calls `syn::parse::Parser::parse_str` on `syn::Field::parse_named`, which
/// reads one named field from the whole of `text` and fails where `text` is
/// anything else. The result depends on `text` alone.
#[verifier::external_body]
fn parse_named_field(text: &str) -> (parsed: Result<syn::Field, syn::Error>)
    ensures
        (match named_field_text(text@) {
            Some(read) => parsed matches Ok(field) && field_text(field) == read,
            None => parsed is Err,
        }),
{
    syn::parse::Parser::parse_str(syn::Field::parse_named, text)
}

/// Calls `syn::punctuated::Punctuated::push` on the named fields of the
/// structure. It puts `field` behind the fields that are there, with a comma
/// before it where one is missing, and touches nothing else. It does not panic.
#[verifier::external_body]
fn push_named(item: &mut syn::ItemStruct, field: syn::Field)
    requires
        has_named_fields(*old(item)),
    ensures
        has_named_fields(*final(item)),
        frame_text(*final(item)) == frame_text(*old(item)),
        field_texts(*final(item)) == field_texts(*old(item)).push(field_text(field)),
{
    match &mut item.fields {
        syn::Fields::Named(fields) => fields.named.push(field),
        syn::Fields::Unnamed(_) => {},
        syn::Fields::Unit => {},
    }
}

/// Appends what the parser has read to a structure: where the structure has
/// named fields and `parsed` holds a field, that field is put behind the
/// fields that are there. In every other case the structure is left as it is.
pub fn append_parsed(item: &mut syn::ItemStruct, parsed: Result<syn::Field, syn::Error>)
    ensures
        has_named_fields(*final(item)) == has_named_fields(*old(item)),
        frame_text(*final(item)) == frame_text(*old(item)),
        (match parsed {
            Ok(field) => if has_named_fields(*old(item)) {
                field_texts(*final(item)) == field_texts(*old(item)).push(field_text(field))
            } else {
                *final(item) == *old(item)
            },
            Err(_) => *final(item) == *old(item),
        }),
{
    if is_named(item) {
        match parsed {
            Ok(field) => push_named(item, field),
            Err(_) => {},
        }
    }
}

/// Appends the field `pub a: String` to a structure with named fields, behind
/// the fields that it has, and leaves every other structure as it is.
///
/// The new field is read from [`INJECTED_FIELD`] by syn's parser. Whether the
/// parser accepts that text is its own affair: where it does not, the
/// structure is left as it is.
pub fn append_field(item: &mut syn::ItemStruct)
    ensures
        has_named_fields(*final(item)) == has_named_fields(*old(item)),
        frame_text(*final(item)) == frame_text(*old(item)),
        has_named_fields(*old(item)) ==> (match named_field_text(INJECTED_FIELD@) {
            Some(text) => field_texts(*final(item)) == field_texts(*old(item)).push(text),
            None => *final(item) == *old(item),
        }),
        !has_named_fields(*old(item)) ==> *final(item) == *old(item),
{
    if is_named(item) {
        let parsed = parse_named_field(INJECTED_FIELD);
        append_parsed(item, parsed);
    }
}

} // verus!
