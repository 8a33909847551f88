//! The types of a stage's fields, and how the declaration language writes
//! them.

use crate::text::words;
use vstd::prelude::*;
use vstd::string::*;

verus! {

/// A type that the declaration language has a word for.
#[derive(Debug)]
pub enum MartianPrimaryType {
    Int,
    Float,
    Str,
    Bool,
    /// A map from text to values of any kind.
    UntypedMap,
    Path,
    /// A file of a declared kind, named by its extension.
    FileType(String),
    /// A record of named fields.
    Struct(StructDef),
}

/// The type of a field: a primary type, a sequence, or a map from text to
/// values of one type.
#[derive(Debug)]
pub enum MartianBlanketType {
    Primary(MartianPrimaryType),
    Array(Box<MartianBlanketType>),
    TypedMap(Box<MartianBlanketType>),
}

/// One field of a schema: its name and its type.
#[derive(Debug)]
pub struct MroField {
    pub name: String,
    pub ty: MartianBlanketType,
}

/// A named record type: its fields in the order in which they are declared.
#[derive(Debug)]
pub struct StructDef {
    pub name: String,
    pub fields: Vec<MroField>,
}

/// The schema in which a fault was found.
#[derive(Clone, Copy, Debug, PartialEq, Eq, Structural)]
pub enum SchemaRole {
    StageInputs,
    StageOutputs,
    ChunkInputs,
    ChunkOutputs,
    Record,
}

/// Why a schema cannot be declared.
#[derive(Debug)]
pub enum SchemaError {
    /// Two fields of one schema have the same name.
    DuplicateField { schema: SchemaRole, name: String },
}

/// A [`MartianPrimaryType`] as plain values.
pub enum PrimaryView {
    Int,
    Float,
    Str,
    Bool,
    UntypedMap,
    Path,
    FileType(Seq<char>),
    Struct(StructView),
}

/// A [`MartianBlanketType`] as plain values.
pub enum TypeView {
    Primary(PrimaryView),
    Array(Box<TypeView>),
    TypedMap(Box<TypeView>),
}

/// An [`MroField`] as plain values.
pub struct FieldView {
    pub name: Seq<char>,
    pub ty: TypeView,
}

/// A [`StructDef`] as plain values.
pub struct StructView {
    pub name: Seq<char>,
    pub fields: Seq<FieldView>,
}

/// The names of the fields of a schema, in order.
pub open spec fn field_names(fields: Seq<FieldView>) -> Seq<Seq<char>> {
    fields.map_values(|f: FieldView| f.name)
}

/// The index of the first field that has the name of a field before it, if
/// there is one.
pub open spec fn first_repeat(names: Seq<Seq<char>>) -> Option<int>
    decreases names.len(),
{
    if names.len() == 0 {
        None
    } else {
        match first_repeat(names.drop_last()) {
            Some(j) => Some(j),
            None => if names.drop_last().contains(names.last()) {
                Some(names.len() - 1)
            } else {
                None
            },
        }
    }
}

/// What is wrong with a schema in the given role: the role and the name that
/// its first repeating field repeats; nothing where no name repeats.
pub open spec fn schema_fault(role: SchemaRole, fields: Seq<FieldView>) -> Option<
    (SchemaRole, Seq<char>),
> {
    match first_repeat(field_names(fields)) {
        Some(j) => Some((role, fields[j].name)),
        None => None,
    }
}

/// What is wrong with a type: the fault of the first record in it, met in
/// the order of its fields, that has two fields of one name.
pub open spec fn type_fault(ty: TypeView) -> Option<(SchemaRole, Seq<char>)>
    decreases ty, 0int,
{
    match ty {
        TypeView::Primary(PrimaryView::Struct(def)) => match schema_fault(
            SchemaRole::Record,
            def.fields,
        ) {
            Some(fault) => Some(fault),
            None => fields_fault(def.fields, def.fields.len()),
        },
        TypeView::Primary(_) => None,
        TypeView::Array(item) => type_fault(*item),
        TypeView::TypedMap(value) => type_fault(*value),
    }
}

/// What is wrong with the types of the first `n` of `fields`.
pub open spec fn fields_fault(fields: Seq<FieldView>, n: nat) -> Option<(SchemaRole, Seq<char>)>
    decreases fields, n,
{
    if n == 0 || n > fields.len() {
        None
    } else {
        match fields_fault(fields, (n - 1) as nat) {
            Some(fault) => Some(fault),
            None => type_fault(fields[n - 1].ty),
        }
    }
}

/// What is wrong with a schema in the given role, the records among its
/// fields included; nothing where no schema has two fields of one name.
pub open spec fn deep_schema_fault(role: SchemaRole, fields: Seq<FieldView>) -> Option<
    (SchemaRole, Seq<char>),
> {
    match schema_fault(role, fields) {
        Some(fault) => Some(fault),
        None => fields_fault(fields, fields.len()),
    }
}

/// The view of a result of a check.
pub open spec fn checked(r: Result<(), SchemaError>) -> Option<(SchemaRole, Seq<char>)> {
    match r {
        Ok(_) => None,
        Err(e) => Some(fault_view(e)),
    }
}

/// The view of a fault.
pub open spec fn fault_view(e: SchemaError) -> (SchemaRole, Seq<char>) {
    match e {
        SchemaError::DuplicateField { schema, name } => (schema, name@),
    }
}

/// A list of names has a first repeat exactly if some name stands in it
/// twice; the repeat is within the list and repeats an earlier name.
pub proof fn lemma_first_repeat(names: Seq<Seq<char>>)
    ensures
        first_repeat(names) is None <==> names.no_duplicates(),
        first_repeat(names) matches Some(j) ==> 0 <= j < names.len() && names.take(j).contains(
            names[j],
        ) && names.take(j).no_duplicates(),
    decreases names.len(),
{
    if names.len() > 0 {
        let shorter = names.drop_last();
        lemma_first_repeat(shorter);
        match first_repeat(shorter) {
            Some(j) => {
                assert(shorter.take(j) =~= names.take(j));
                let i = choose|i: int| 0 <= i < j && shorter.take(j)[i] == shorter[j];
                assert(names[i] == names[j]);
            },
            None => {
                if shorter.contains(names.last()) {
                    let i = choose|i: int| 0 <= i < shorter.len() && shorter[i] == names.last();
                    assert(names[i] == names[names.len() - 1]);
                    assert(names.take(names.len() - 1) =~= shorter);
                } else {
                    assert forall|i: int, j: int|
                        0 <= i < names.len() && 0 <= j < names.len() && i != j implies names[i]
                        != names[j] by {
                        if i < shorter.len() && j < shorter.len() {
                            assert(shorter[i] != shorter[j]);
                        } else if i < shorter.len() {
                            assert(shorter[i] == names[i]);
                        } else {
                            assert(shorter[j] == names[j]);
                        }
                    }
                }
            },
        }
    }
}

/// A schema is at fault, taken by itself, exactly if two of its fields
/// have the same name.
pub proof fn lemma_schema_fault_means_repeat(role: SchemaRole, fields: Seq<FieldView>)
    ensures
        schema_fault(role, fields) is None <==> field_names(fields).no_duplicates(),
        schema_fault(role, fields) matches Some(fault) ==> fault.0 == role && exists|
            i: int,
            j: int,
        |
            0 <= i < j < fields.len() && fields[i].name == fields[j].name && fault.1
                == fields[j].name,
{
    let names = field_names(fields);
    lemma_first_repeat(names);
    match first_repeat(names) {
        Some(j) => {
            let i = choose|i: int| 0 <= i < j && names.take(j)[i] == names[j];
            assert(names[i] == fields[i].name);
            assert(names[j] == fields[j].name);
        },
        None => {},
    }
}

/// A repeat among the first `m` names is the first repeat of the whole
/// list.
pub proof fn lemma_first_repeat_extends(names: Seq<Seq<char>>, m: int)
    requires
        0 <= m <= names.len(),
        first_repeat(names.take(m)) is Some,
    ensures
        first_repeat(names) == first_repeat(names.take(m)),
    decreases names.len() - m,
{
    if m < names.len() {
        assert(names.take(m + 1).drop_last() =~= names.take(m));
        lemma_first_repeat_extends(names, m + 1);
    } else {
        assert(names.take(m) =~= names);
    }
}

/// The view of a type.
pub open spec fn type_view(ty: MartianBlanketType) -> TypeView
    decreases ty, 0int,
{
    match ty {
        MartianBlanketType::Primary(MartianPrimaryType::Int) => TypeView::Primary(
            PrimaryView::Int,
        ),
        MartianBlanketType::Primary(MartianPrimaryType::Float) => TypeView::Primary(
            PrimaryView::Float,
        ),
        MartianBlanketType::Primary(MartianPrimaryType::Str) => TypeView::Primary(
            PrimaryView::Str,
        ),
        MartianBlanketType::Primary(MartianPrimaryType::Bool) => TypeView::Primary(
            PrimaryView::Bool,
        ),
        MartianBlanketType::Primary(MartianPrimaryType::UntypedMap) => TypeView::Primary(
            PrimaryView::UntypedMap,
        ),
        MartianBlanketType::Primary(MartianPrimaryType::Path) => TypeView::Primary(
            PrimaryView::Path,
        ),
        MartianBlanketType::Primary(MartianPrimaryType::FileType(extension)) => TypeView::Primary(
            PrimaryView::FileType(extension@),
        ),
        MartianBlanketType::Primary(MartianPrimaryType::Struct(def)) => TypeView::Primary(
            PrimaryView::Struct(
                StructView {
                    name: def.name@,
                    fields: fields_view(def.fields@, def.fields@.len()),
                },
            ),
        ),
        MartianBlanketType::Array(item) => TypeView::Array(Box::new(type_view(*item))),
        MartianBlanketType::TypedMap(value) => TypeView::TypedMap(Box::new(type_view(*value))),
    }
}

/// The views of the first `n` of `fields`.
pub open spec fn fields_view(fields: Seq<MroField>, n: nat) -> Seq<FieldView>
    decreases fields, n,
{
    if n == 0 || n > fields.len() {
        Seq::empty()
    } else {
        fields_view(fields, (n - 1) as nat).push(
            FieldView { name: fields[n - 1].name@, ty: type_view(fields[n - 1].ty) },
        )
    }
}

/// The view of a schema: the view of each of its fields, in order.
pub open spec fn schema_view(fields: Seq<MroField>) -> Seq<FieldView> {
    fields_view(fields, fields.len())
}

impl View for MartianBlanketType {
    type V = TypeView;

    open spec fn view(&self) -> TypeView {
        type_view(*self)
    }
}

impl View for MartianPrimaryType {
    type V = PrimaryView;

    open spec fn view(&self) -> PrimaryView {
        type_view(MartianBlanketType::Primary(*self))->Primary_0
    }
}

impl View for MroField {
    type V = FieldView;

    open spec fn view(&self) -> FieldView {
        FieldView { name: self.name@, ty: type_view(self.ty) }
    }
}

impl View for StructDef {
    type V = StructView;

    open spec fn view(&self) -> StructView {
        StructView { name: self.name@, fields: schema_view(self.fields@) }
    }
}

/// The views of the first `n` fields of a schema are the views of those
/// fields, in order.
pub proof fn lemma_fields_view(fields: Seq<MroField>, n: nat)
    requires
        n <= fields.len(),
    ensures
        fields_view(fields, n).len() == n,
        forall|i: int| 0 <= i < n ==> #[trigger] fields_view(fields, n)[i] == fields[i]@,
    decreases n,
{
    if n > 0 {
        lemma_fields_view(fields, (n - 1) as nat);
    }
}

/// The view of a schema has one entry for each field, in order.
pub proof fn lemma_schema_view(fields: Seq<MroField>)
    ensures
        schema_view(fields).len() == fields.len(),
        forall|i: int| 0 <= i < fields.len() ==> #[trigger] schema_view(fields)[i] == fields[i]@,
{
    lemma_fields_view(fields, fields.len());
}

/// How the declaration language writes a primary type.
pub open spec fn primary_text(ty: PrimaryView) -> Seq<char> {
    match ty {
        PrimaryView::Int => "int"@,
        PrimaryView::Float => "float"@,
        PrimaryView::Str => "string"@,
        PrimaryView::Bool => "bool"@,
        PrimaryView::UntypedMap => "map"@,
        PrimaryView::Path => "path"@,
        PrimaryView::FileType(extension) => extension,
        PrimaryView::Struct(def) => def.name,
    }
}

/// How the declaration language writes a type: a primary type by its word
/// (a file type by its extension, a record by its name), a sequence as the
/// type of its items followed by `[]`, a typed map as `map<` and `>` around
/// the type of its values.
pub open spec fn type_text(ty: TypeView) -> Seq<char>
    decreases ty,
{
    match ty {
        TypeView::Primary(p) => primary_text(p),
        TypeView::Array(item) => type_text(*item) + "[]"@,
        TypeView::TypedMap(value) => "map<"@ + type_text(*value) + ">"@,
    }
}

/// The extensions of the file types that a type mentions, in the order in
/// which they are met, the fields of records included.
pub open spec fn type_filetypes(ty: TypeView) -> Seq<Seq<char>>
    decreases ty, 0int,
{
    match ty {
        TypeView::Primary(PrimaryView::FileType(extension)) => seq![extension],
        TypeView::Primary(PrimaryView::Struct(def)) => fields_filetypes(
            def.fields,
            def.fields.len(),
        ),
        TypeView::Primary(_) => Seq::empty(),
        TypeView::Array(item) => type_filetypes(*item),
        TypeView::TypedMap(value) => type_filetypes(*value),
    }
}

/// The extensions of the file types that the first `n` of `fields` mention.
pub open spec fn fields_filetypes(fields: Seq<FieldView>, n: nat) -> Seq<Seq<char>>
    decreases fields, n,
{
    if n == 0 || n > fields.len() {
        Seq::empty()
    } else {
        fields_filetypes(fields, (n - 1) as nat) + type_filetypes(fields[n - 1].ty)
    }
}

/// The extensions of the file types that a schema mentions.
pub open spec fn schema_filetypes(fields: Seq<FieldView>) -> Seq<Seq<char>> {
    fields_filetypes(fields, fields.len())
}

/// The records that a type mentions, in the order in which they are met: a
/// record before the records among its fields.
pub open spec fn type_structs(ty: TypeView) -> Seq<StructView>
    decreases ty, 0int,
{
    match ty {
        TypeView::Primary(PrimaryView::Struct(def)) => seq![def] + fields_structs(
            def.fields,
            def.fields.len(),
        ),
        TypeView::Primary(_) => Seq::empty(),
        TypeView::Array(item) => type_structs(*item),
        TypeView::TypedMap(value) => type_structs(*value),
    }
}

/// The records that the first `n` of `fields` mention.
pub open spec fn fields_structs(fields: Seq<FieldView>, n: nat) -> Seq<StructView>
    decreases fields, n,
{
    if n == 0 || n > fields.len() {
        Seq::empty()
    } else {
        fields_structs(fields, (n - 1) as nat) + type_structs(fields[n - 1].ty)
    }
}

/// The records that a schema mentions.
pub open spec fn schema_structs(fields: Seq<FieldView>) -> Seq<StructView> {
    fields_structs(fields, fields.len())
}

/// The views of the records in `defs`.
pub open spec fn struct_views(defs: Seq<StructDef>) -> Seq<StructView> {
    defs.map_values(|d: StructDef| d@)
}

impl MartianPrimaryType {
    /// A copy of this type.
    pub fn duplicate(&self) -> (copy: MartianPrimaryType)
        ensures
            copy@ == self@,
        decreases *self, 1int,
    {
        match self {
            MartianPrimaryType::Int => MartianPrimaryType::Int,
            MartianPrimaryType::Float => MartianPrimaryType::Float,
            MartianPrimaryType::Str => MartianPrimaryType::Str,
            MartianPrimaryType::Bool => MartianPrimaryType::Bool,
            MartianPrimaryType::UntypedMap => MartianPrimaryType::UntypedMap,
            MartianPrimaryType::Path => MartianPrimaryType::Path,
            MartianPrimaryType::FileType(extension) => MartianPrimaryType::FileType(
                extension.clone(),
            ),
            MartianPrimaryType::Struct(def) => MartianPrimaryType::Struct(def.duplicate()),
        }
    }

    /// How the declaration language writes this type.
    pub fn to_string(&self) -> (text: String)
        ensures
            text@ == primary_text(self@),
    {
        match self {
            MartianPrimaryType::Int => String::from_str("int"),
            MartianPrimaryType::Float => String::from_str("float"),
            MartianPrimaryType::Str => String::from_str("string"),
            MartianPrimaryType::Bool => String::from_str("bool"),
            MartianPrimaryType::UntypedMap => String::from_str("map"),
            MartianPrimaryType::Path => String::from_str("path"),
            MartianPrimaryType::FileType(extension) => extension.clone(),
            MartianPrimaryType::Struct(def) => def.name.clone(),
        }
    }
}

/// Looks for the first field of `fields` that has the name of a field
/// before it.
pub fn find_repeat(fields: &Vec<MroField>) -> (r: Option<usize>)
    ensures
        match r {
            Some(j) => first_repeat(field_names(schema_view(fields@))) == Some(j as int),
            None => first_repeat(field_names(schema_view(fields@))) is None,
        },
        r matches Some(j) ==> j < fields.len(),
{
    let ghost names = field_names(schema_view(fields@));
    proof {
        lemma_schema_view(fields@);
    }
    let mut j: usize = 0;
    while j < fields.len()
        invariant
            j <= fields.len(),
            names == field_names(schema_view(fields@)),
            names.len() == fields.len(),
            forall|i: int| 0 <= i < fields.len() ==> names[i] == (#[trigger] fields@[i]).name@,
            first_repeat(names.take(j as int)) is None,
        decreases fields.len() - j,
    {
        let mut i: usize = 0;
        let mut seen: bool = false;
        while i < j
            invariant
                i <= j,
                j < fields.len(),
                names.len() == fields.len(),
                forall|i: int| 0 <= i < fields.len() ==> names[i] == (#[trigger] fields@[i]).name@,
                seen <==> exists|k: int| 0 <= k < i && names[k] == names[j as int],
            decreases j - i,
        {
            if crate::text::same_text(fields[i].name.as_str(), fields[j].name.as_str()) {
                seen = true;
            }
            i = i + 1;
        }
        proof {
            let longer = names.take(j + 1);
            assert(longer.drop_last() =~= names.take(j as int));
            assert(longer.last() == names[j as int]);
            if seen {
                let k = choose|k: int| 0 <= k < j && names[k] == names[j as int];
                assert(names.take(j as int)[k] == names[j as int]);
                assert(first_repeat(longer) == Some(j as int));
                lemma_first_repeat_extends(names, j + 1);
            } else {
                if names.take(j as int).contains(names[j as int]) {
                    let k = choose|k: int|
                        0 <= k < j && names.take(j as int)[k] == names[j as int];
                    assert(names[k] == names[j as int]);
                }
                assert(first_repeat(longer) is None);
            }
        }
        if seen {
            return Some(j);
        }
        j = j + 1;
    }
    assert(names.take(j as int) =~= names);
    None
}

/// Checks that no two of `fields` have the same name.
pub fn check_names(role: SchemaRole, fields: &Vec<MroField>) -> (r: Result<(), SchemaError>)
    ensures
        checked(r) == schema_fault(role, schema_view(fields@)),
{
    proof {
        lemma_schema_view(fields@);
    }
    match find_repeat(fields) {
        Some(j) => Err(SchemaError::DuplicateField { schema: role, name: fields[j].name.clone() }),
        None => Ok(()),
    }
}

/// Checks that no record in the types of the first `n` of `fields` has two
/// fields of one name.
pub fn check_field_types(fields: &Vec<MroField>, n: usize) -> (r: Result<(), SchemaError>)
    requires
        n <= fields.len(),
    ensures
        checked(r) == fields_fault(schema_view(fields@), n as nat),
    decreases fields@, n,
{
    proof {
        lemma_schema_view(fields@);
    }
    if n == 0 {
        Ok(())
    } else {
        match check_field_types(fields, n - 1) {
            Err(e) => Err(e),
            Ok(()) => fields[n - 1].ty.check(),
        }
    }
}

/// Checks a schema in the given role: no two of its fields have the same
/// name, and neither have two fields of any record among their types.
pub fn check_schema(role: SchemaRole, fields: &Vec<MroField>) -> (r: Result<(), SchemaError>)
    ensures
        checked(r) == deep_schema_fault(role, schema_view(fields@)),
{
    proof {
        lemma_schema_view(fields@);
    }
    match check_names(role, fields) {
        Err(e) => Err(e),
        Ok(()) => check_field_types(fields, fields.len()),
    }
}

impl StructDef {
    /// A record type with the given name and fields.
    pub fn new(name: &str, fields: Vec<MroField>) -> (def: StructDef)
        ensures
            def@ == (StructView { name: name@, fields: schema_view(fields@) }),
    {
        StructDef { name: String::from_str(name), fields }
    }

    /// A copy of this record type.
    pub fn duplicate(&self) -> (copy: StructDef)
        ensures
            copy@ == self@,
        decreases *self, 0int,
    {
        let fields = copy_fields(&self.fields, self.fields.len());
        StructDef { name: self.name.clone(), fields }
    }
}

/// A copy of the first `n` of `fields`.
pub fn copy_fields(fields: &Vec<MroField>, n: usize) -> (copy: Vec<MroField>)
    requires
        n <= fields.len(),
    ensures
        copy@.len() == n,
        schema_view(copy@) == fields_view(fields@, n as nat),
    decreases fields@, n,
{
    if n == 0 {
        Vec::new()
    } else {
        let mut copy = copy_fields(fields, n - 1);
        let ghost shorter = copy@;
        let field = MroField {
            name: fields[n - 1].name.clone(),
            ty: fields[n - 1].ty.duplicate(),
        };
        copy.push(field);
        proof {
            lemma_schema_view(shorter);
            lemma_schema_view(copy@);
            lemma_fields_view(fields@, (n - 1) as nat);
            lemma_fields_view(fields@, n as nat);
            assert(schema_view(copy@) =~= fields_view(fields@, n as nat));
        }
        copy
    }
}

impl MroField {
    /// The field `name` of type `ty`.
    pub fn new(name: &str, ty: MartianBlanketType) -> (field: MroField)
        ensures
            field@ == (FieldView { name: name@, ty: ty@ }),
    {
        MroField { name: String::from_str(name), ty }
    }

    /// A copy of this field.
    pub fn duplicate(&self) -> (copy: MroField)
        ensures
            copy@ == self@,
    {
        MroField { name: self.name.clone(), ty: self.ty.duplicate() }
    }
}

impl MartianBlanketType {
    /// A copy of this type.
    pub fn duplicate(&self) -> (copy: MartianBlanketType)
        ensures
            copy@ == self@,
        decreases *self, 2int,
    {
        match self {
            MartianBlanketType::Primary(p) => MartianBlanketType::Primary(p.duplicate()),
            MartianBlanketType::Array(item) => MartianBlanketType::Array(
                Box::new(item.duplicate()),
            ),
            MartianBlanketType::TypedMap(value) => MartianBlanketType::TypedMap(
                Box::new(value.duplicate()),
            ),
        }
    }

    /// Checks that no record in this type has two fields of one name.
    pub fn check(&self) -> (r: Result<(), SchemaError>)
        ensures
            checked(r) == type_fault(self@),
        decreases *self, 0int,
    {
        match self {
            MartianBlanketType::Primary(MartianPrimaryType::Struct(def)) => {
                proof {
                    lemma_schema_view(def.fields@);
                }
                match check_names(SchemaRole::Record, &def.fields) {
                    Err(e) => Err(e),
                    Ok(()) => check_field_types(&def.fields, def.fields.len()),
                }
            },
            MartianBlanketType::Primary(_) => Ok(()),
            MartianBlanketType::Array(item) => item.check(),
            MartianBlanketType::TypedMap(value) => value.check(),
        }
    }

    /// Appends to `out` how the declaration language writes this type.
    pub fn push_to(&self, out: &mut String)
        ensures
            final(out)@ == old(out)@ + type_text(self@),
        decreases *self,
    {
        match self {
            MartianBlanketType::Primary(p) => {
                let word = p.to_string();
                out.append(word.as_str());
            },
            MartianBlanketType::Array(item) => {
                item.push_to(out);
                out.append("[]");
                assert(old(out)@ + type_text(item@) + "[]"@ =~= old(out)@ + (type_text(item@)
                    + "[]"@));
            },
            MartianBlanketType::TypedMap(value) => {
                out.append("map<");
                value.push_to(out);
                out.append(">");
                assert(old(out)@ + "map<"@ + type_text(value@) + ">"@ =~= old(out)@ + ("map<"@
                    + type_text(value@) + ">"@));
            },
        }
    }

    /// How the declaration language writes this type.
    pub fn to_string(&self) -> (text: String)
        ensures
            text@ == type_text(self@),
    {
        let mut text = String::new();
        self.push_to(&mut text);
        assert(Seq::<char>::empty() + type_text(self@) =~= type_text(self@));
        text
    }

    /// Appends to `out` the extensions of the file types that this type
    /// mentions.
    pub fn collect_filetypes(&self, out: &mut Vec<String>)
        ensures
            words(final(out)@) == words(old(out)@) + type_filetypes(self@),
        decreases *self, 0int,
    {
        match self {
            MartianBlanketType::Primary(MartianPrimaryType::FileType(extension)) => {
                out.push(extension.clone());
                assert(words(out@) =~= words(old(out)@) + seq![extension@]);
            },
            MartianBlanketType::Primary(MartianPrimaryType::Struct(def)) => {
                proof {
                    lemma_schema_view(def.fields@);
                }
                collect_fields_filetypes(&def.fields, def.fields.len(), out);
            },
            MartianBlanketType::Primary(_) => {
                assert(words(out@) =~= words(old(out)@) + Seq::<Seq<char>>::empty());
            },
            MartianBlanketType::Array(item) => {
                item.collect_filetypes(out);
            },
            MartianBlanketType::TypedMap(value) => {
                value.collect_filetypes(out);
            },
        }
    }

    /// Appends to `out` a copy of each record that this type mentions.
    pub fn collect_structs(&self, out: &mut Vec<StructDef>)
        ensures
            struct_views(final(out)@) == struct_views(old(out)@) + type_structs(self@),
        decreases *self, 0int,
    {
        match self {
            MartianBlanketType::Primary(MartianPrimaryType::Struct(def)) => {
                proof {
                    lemma_schema_view(def.fields@);
                }
                out.push(def.duplicate());
                assert(struct_views(out@) =~= struct_views(old(out)@) + seq![def@]);
                collect_fields_structs(&def.fields, def.fields.len(), out);
                assert(struct_views(old(out)@) + seq![def@] + fields_structs(
                    def@.fields,
                    def@.fields.len(),
                ) =~= struct_views(old(out)@) + (seq![def@] + fields_structs(
                    def@.fields,
                    def@.fields.len(),
                )));
            },
            MartianBlanketType::Primary(_) => {
                assert(struct_views(out@) =~= struct_views(old(out)@) + Seq::<
                    StructView,
                >::empty());
            },
            MartianBlanketType::Array(item) => {
                item.collect_structs(out);
            },
            MartianBlanketType::TypedMap(value) => {
                value.collect_structs(out);
            },
        }
    }
}

/// Appends to `out` the extensions of the file types that the first `n` of
/// `fields` mention.
pub fn collect_fields_filetypes(fields: &Vec<MroField>, n: usize, out: &mut Vec<String>)
    requires
        n <= fields.len(),
    ensures
        words(final(out)@) == words(old(out)@) + fields_filetypes(
            schema_view(fields@),
            n as nat,
        ),
    decreases fields@, n,
{
    proof {
        lemma_schema_view(fields@);
    }
    if n == 0 {
        assert(words(out@) =~= words(old(out)@) + Seq::<Seq<char>>::empty());
    } else {
        collect_fields_filetypes(fields, n - 1, out);
        fields[n - 1].ty.collect_filetypes(out);
        assert(words(old(out)@) + fields_filetypes(schema_view(fields@), (n - 1) as nat)
            + type_filetypes(fields@[n - 1].ty@) =~= words(old(out)@) + fields_filetypes(
            schema_view(fields@),
            n as nat,
        ));
    }
}

/// Appends to `out` a copy of each record that the first `n` of `fields`
/// mention.
pub fn collect_fields_structs(fields: &Vec<MroField>, n: usize, out: &mut Vec<StructDef>)
    requires
        n <= fields.len(),
    ensures
        struct_views(final(out)@) == struct_views(old(out)@) + fields_structs(
            schema_view(fields@),
            n as nat,
        ),
    decreases fields@, n,
{
    proof {
        lemma_schema_view(fields@);
    }
    if n == 0 {
        assert(struct_views(out@) =~= struct_views(old(out)@) + Seq::<StructView>::empty());
    } else {
        collect_fields_structs(fields, n - 1, out);
        fields[n - 1].ty.collect_structs(out);
        assert(struct_views(old(out)@) + fields_structs(schema_view(fields@), (n - 1) as nat)
            + type_structs(fields@[n - 1].ty@) =~= struct_views(old(out)@) + fields_structs(
            schema_view(fields@),
            n as nat,
        ));
    }
}

} // verus!
