//! Files of a declared kind: what the declaration of a stage needs to know
//! of them, and the types of values that map to the declaration language.

use crate::schema::{MartianBlanketType, MartianPrimaryType, PrimaryView, TypeView};
use crate::text::{ends_with, starts_with, str_ends_with, str_starts_with};
use std::collections::HashMap;
use vstd::prelude::*;
use vstd::string::*;

verus! {

/// The path of `name` below the directory `dir`: `name` itself where it
/// starts at the root; else the directory, a `/` unless it is empty or ends
/// in one, and the name.
pub open spec fn joined(dir: Seq<char>, name: Seq<char>) -> Seq<char> {
    if starts_with(name, "/"@) {
        name
    } else if dir.len() == 0 || ends_with(dir, "/"@) {
        dir + name
    } else {
        dir + "/"@ + name
    }
}

/// `path` with the extension `extension`: the path itself where the
/// extension is empty or the path ends with a dot and the extension; else
/// the path, a dot and the extension.
pub open spec fn with_extension(path: Seq<char>, extension: Seq<char>) -> Seq<char> {
    if extension.len() == 0 || ends_with(path, "."@ + extension) {
        path
    } else {
        path + "."@ + extension
    }
}

/// The path of the file `name` with the extension `extension` below the
/// directory `dir`.
pub open spec fn file_path_of(dir: Seq<char>, name: Seq<char>, extension: Seq<char>) -> Seq<
    char,
> {
    with_extension(joined(dir, name), extension)
}

/// The path of `name` below the directory `dir`.
pub fn join_path(dir: &str, name: &str) -> (path: String)
    ensures
        path@ == joined(dir@, name@),
{
    if str_starts_with(name, "/") {
        String::from_str(name)
    } else if dir.unicode_len() == 0 || str_ends_with(dir, "/") {
        let mut path = String::from_str(dir);
        path.append(name);
        path
    } else {
        let mut path = String::from_str(dir);
        path.append("/");
        path.append(name);
        path
    }
}

/// `path` with the extension `extension`.
pub fn set_extension(path: String, extension: &str) -> (r: String)
    ensures
        r@ == with_extension(path@, extension@),
{
    if extension.unicode_len() == 0 {
        return path;
    }
    let mut suffix = String::from_str(".");
    suffix.append(extension);
    if str_ends_with(path.as_str(), suffix.as_str()) {
        path
    } else {
        let mut r = path;
        r.append(".");
        r.append(extension);
        r
    }
}

/// The path of the file `name` with the extension `extension` below the
/// directory `dir`.
pub fn make_file_path(dir: &str, name: &str, extension: &str) -> (path: String)
    ensures
        path@ == file_path_of(dir@, name@, extension@),
{
    set_extension(join_path(dir, name), extension)
}

/// A file of a declared kind.
pub trait MartianFileType: Sized {
    /// The extension that names the kind, without a dot.
    fn extension() -> String;

    /// The file `file_name` of this kind below the directory `file_path`.
    fn new(file_path: &str, file_name: &str) -> Self;

    /// The path of the file.
    fn as_ref(&self) -> &str;
}

/// The type of the fields that hold a file of the kind whose extension is
/// `extension`.
pub open spec fn file_type_view(extension: Seq<char>) -> TypeView {
    TypeView::Primary(PrimaryView::FileType(extension))
}

/// The type of the fields that hold a file of the kind whose extension is
/// `extension`.
pub fn file_type(extension: String) -> (ty: MartianBlanketType)
    ensures
        ty@ == file_type_view(extension@),
{
    MartianBlanketType::Primary(MartianPrimaryType::FileType(extension))
}

/// The type of the fields that hold a file of the kind `F`: the file type
/// of the extension that `F` gives.
pub fn file_type_of<F: MartianFileType>() -> (ty: MartianBlanketType)
    ensures
        exists|extension: String| #[trigger]
            call_ensures(F::extension, (), extension) && ty@ == file_type_view(extension@),
{
    let extension = F::extension();
    let ghost given = extension;
    let ty = file_type(extension);
    assert(call_ensures(F::extension, (), given) && ty@ == file_type_view(given@));
    ty
}

/// A type of values that has a type in the declaration language.
pub trait AsMartianBlanketType {
    /// The type in the declaration language.
    fn as_martian_blanket_type() -> MartianBlanketType;
}

/// The type of sequences of items of the type `item`.
pub fn array_of(item: MartianBlanketType) -> (ty: MartianBlanketType)
    ensures
        ty@ == TypeView::Array(Box::new(item@)),
{
    MartianBlanketType::Array(Box::new(item))
}

impl AsMartianBlanketType for i8 {
    fn as_martian_blanket_type() -> (ty: MartianBlanketType)
        ensures
            ty@ == TypeView::Primary(PrimaryView::Int),
    {
        MartianBlanketType::Primary(MartianPrimaryType::Int)
    }
}

impl AsMartianBlanketType for i16 {
    fn as_martian_blanket_type() -> (ty: MartianBlanketType)
        ensures
            ty@ == TypeView::Primary(PrimaryView::Int),
    {
        MartianBlanketType::Primary(MartianPrimaryType::Int)
    }
}

impl AsMartianBlanketType for i32 {
    fn as_martian_blanket_type() -> (ty: MartianBlanketType)
        ensures
            ty@ == TypeView::Primary(PrimaryView::Int),
    {
        MartianBlanketType::Primary(MartianPrimaryType::Int)
    }
}

impl AsMartianBlanketType for i64 {
    fn as_martian_blanket_type() -> (ty: MartianBlanketType)
        ensures
            ty@ == TypeView::Primary(PrimaryView::Int),
    {
        MartianBlanketType::Primary(MartianPrimaryType::Int)
    }
}

impl AsMartianBlanketType for u8 {
    fn as_martian_blanket_type() -> (ty: MartianBlanketType)
        ensures
            ty@ == TypeView::Primary(PrimaryView::Int),
    {
        MartianBlanketType::Primary(MartianPrimaryType::Int)
    }
}

impl AsMartianBlanketType for u16 {
    fn as_martian_blanket_type() -> (ty: MartianBlanketType)
        ensures
            ty@ == TypeView::Primary(PrimaryView::Int),
    {
        MartianBlanketType::Primary(MartianPrimaryType::Int)
    }
}

impl AsMartianBlanketType for u32 {
    fn as_martian_blanket_type() -> (ty: MartianBlanketType)
        ensures
            ty@ == TypeView::Primary(PrimaryView::Int),
    {
        MartianBlanketType::Primary(MartianPrimaryType::Int)
    }
}

impl AsMartianBlanketType for u64 {
    fn as_martian_blanket_type() -> (ty: MartianBlanketType)
        ensures
            ty@ == TypeView::Primary(PrimaryView::Int),
    {
        MartianBlanketType::Primary(MartianPrimaryType::Int)
    }
}

impl AsMartianBlanketType for usize {
    fn as_martian_blanket_type() -> (ty: MartianBlanketType)
        ensures
            ty@ == TypeView::Primary(PrimaryView::Int),
    {
        MartianBlanketType::Primary(MartianPrimaryType::Int)
    }
}

impl AsMartianBlanketType for bool {
    fn as_martian_blanket_type() -> (ty: MartianBlanketType)
        ensures
            ty@ == TypeView::Primary(PrimaryView::Bool),
    {
        MartianBlanketType::Primary(MartianPrimaryType::Bool)
    }
}

impl AsMartianBlanketType for String {
    fn as_martian_blanket_type() -> (ty: MartianBlanketType)
        ensures
            ty@ == TypeView::Primary(PrimaryView::Str),
    {
        MartianBlanketType::Primary(MartianPrimaryType::Str)
    }
}

impl AsMartianBlanketType for char {
    fn as_martian_blanket_type() -> (ty: MartianBlanketType)
        ensures
            ty@ == TypeView::Primary(PrimaryView::Str),
    {
        MartianBlanketType::Primary(MartianPrimaryType::Str)
    }
}

impl<K, V, S> AsMartianBlanketType for HashMap<K, V, S> {
    fn as_martian_blanket_type() -> (ty: MartianBlanketType)
        ensures
            ty@ == TypeView::Primary(PrimaryView::UntypedMap),
    {
        MartianBlanketType::Primary(MartianPrimaryType::UntypedMap)
    }
}

impl<T: AsMartianBlanketType> AsMartianBlanketType for Vec<T> {
    /// The type of sequences of items of the type that `T` gives.
    fn as_martian_blanket_type() -> (ty: MartianBlanketType)
        ensures
            exists|item: MartianBlanketType|
                call_ensures(T::as_martian_blanket_type, (), item) && ty@ == TypeView::Array(
                    Box::new(item@),
                ),
    {
        let item = T::as_martian_blanket_type();
        array_of(item)
    }
}

impl<T: AsMartianBlanketType> AsMartianBlanketType for Option<T> {
    /// The type that `T` gives: a value that may be missing is declared as
    /// the value.
    fn as_martian_blanket_type() -> (ty: MartianBlanketType)
        ensures
            call_ensures(T::as_martian_blanket_type, (), ty),
    {
        T::as_martian_blanket_type()
    }
}

/// `field` is the field `name` of the type that the declaration language
/// has for the values of `T`: a type that `T` gives.
pub open spec fn field_for<T: AsMartianBlanketType>(
    name: Seq<char>,
    field: crate::schema::FieldView,
) -> bool {
    exists|ty: MartianBlanketType| #[trigger]
        call_ensures(T::as_martian_blanket_type, (), ty) && field
            == (crate::schema::FieldView { name, ty: ty@ })
}

/// The field `name` of the type that the declaration language has for the
/// values of `T`.
pub fn field_of<T: AsMartianBlanketType>(name: &str) -> (field: crate::schema::MroField)
    ensures
        field_for::<T>(name@, field@),
{
    let ty = T::as_martian_blanket_type();
    let ghost given = ty;
    let field = crate::schema::MroField::new(name, ty);
    assert(call_ensures(T::as_martian_blanket_type, (), given) && field@
        == (crate::schema::FieldView { name: name@, ty: given@ }));
    field
}

/// A field whose type comes from a type parameter is declared as the
/// field written out by hand: where `T` gives one type only, and that is
/// the type of the field `written`, the field that is made for `T` under
/// the name of `written` has the line of `written`.
pub proof fn lemma_generic_field_as_written<T: AsMartianBlanketType>(
    keyword: Seq<char>,
    resolved: crate::schema::FieldView,
    written: crate::schema::FieldView,
    width: nat,
)
    requires
        field_for::<T>(written.name, resolved),
        forall|ty: MartianBlanketType|
            call_ensures(T::as_martian_blanket_type, (), ty) ==> ty@ == written.ty,
    ensures
        resolved == written,
        crate::stage::field_line(keyword, resolved, width) == crate::stage::field_line(
            keyword,
            written,
            width,
        ),
{
}

} // verus!
