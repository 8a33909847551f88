//! What a document declares before its stages: the file types and the
//! records that the stages mention, each once, in the listing order.

use crate::names::{
    ascending, insert_all, insert_names, insert_sorted, lemma_before_asymmetric,
    lemma_before_transitive, lemma_insert_sorted, lemma_not_before_itself,
    rank, sorts_before, Rank,
};
use crate::schema::{
    lemma_schema_view, schema_view, struct_views, type_text, FieldView, MroField, StructDef,
    StructView,
};
use crate::stage::{stage_filetypes, stage_structs, widest_type, StageMro};
use crate::text::{concat, lemma_concat_push, padded, push_padded, words};
use vstd::prelude::*;
use vstd::string::*;

verus! {

/// The line that declares a file type.
pub open spec fn filetype_line(extension: Seq<char>) -> Seq<char> {
    "filetype "@ + extension + ";\n"@
}

/// The lines that declare file types, one for each.
pub open spec fn filetype_lines(entries: Seq<Seq<char>>) -> Seq<Seq<char>> {
    entries.map_values(|e: Seq<char>| filetype_line(e))
}

/// The part of a document that declares file types: a line for each, then
/// an empty line; nothing where there is no file type.
pub open spec fn filetype_header_text(entries: Seq<Seq<char>>) -> Seq<char> {
    if entries.len() == 0 {
        Seq::empty()
    } else {
        concat(filetype_lines(entries)) + "\n"@
    }
}

/// The line that declares one field of a record: four spaces, the type in
/// a column of `width`, the name, a comma.
pub open spec fn member_line(field: FieldView, width: nat) -> Seq<char> {
    "    "@ + padded(type_text(field.ty), width) + " "@ + field.name + ",\n"@
}

/// The lines that declare the fields of a record, in their order.
pub open spec fn member_lines(fields: Seq<FieldView>, width: nat) -> Seq<Seq<char>> {
    fields.map_values(|f: FieldView| member_line(f, width))
}

/// The declaration of a record: its name, its fields in their order with
/// the types in one column, and an empty line.
pub open spec fn struct_text(def: StructView) -> Seq<char> {
    "struct "@ + def.name + "(\n"@ + concat(member_lines(def.fields, widest_type(def.fields)))
        + ")\n\n"@
}

/// The declarations of records, one after the other.
pub open spec fn struct_texts(entries: Seq<StructView>) -> Seq<Seq<char>> {
    entries.map_values(|d: StructView| struct_text(d))
}

/// The part of a document that declares records.
pub open spec fn struct_header_text(entries: Seq<StructView>) -> Seq<char> {
    concat(struct_texts(entries))
}

/// The names of records.
pub open spec fn struct_names(entries: Seq<StructView>) -> Seq<Seq<char>> {
    entries.map_values(|d: StructView| d.name)
}

/// `entries` with `def` put in the place of its name in the listing order,
/// unless a record of this name is there already: the first record of a
/// name stays.
pub open spec fn insert_struct(entries: Seq<StructView>, def: StructView) -> Seq<StructView>
    decreases entries.len(),
{
    if entries.len() == 0 {
        seq![def]
    } else if entries.last().name == def.name {
        entries
    } else if sorts_before(entries.last().name, def.name) {
        entries.push(def)
    } else {
        insert_struct(entries.drop_last(), def).push(entries.last())
    }
}

/// `entries` with each of `defs` put in its place, in their order.
pub open spec fn insert_structs(entries: Seq<StructView>, defs: Seq<StructView>) -> Seq<
    StructView,
>
    decreases defs.len(),
{
    if defs.len() == 0 {
        entries
    } else {
        insert_struct(insert_structs(entries, defs.drop_last()), defs.last())
    }
}

/// The names of a list of records with one more put in are the names of
/// the list with the name of that one put in.
pub proof fn lemma_insert_struct_names(entries: Seq<StructView>, def: StructView)
    ensures
        struct_names(insert_struct(entries, def)) == insert_sorted(
            struct_names(entries),
            def.name,
        ),
    decreases entries.len(),
{
    let names = struct_names(entries);
    if entries.len() == 0 {
        assert(struct_names(seq![def]) =~= seq![def.name]);
    } else if entries.last().name == def.name {
    } else if sorts_before(entries.last().name, def.name) {
        assert(struct_names(entries.push(def)) =~= names.push(def.name));
    } else {
        lemma_insert_struct_names(entries.drop_last(), def);
        assert(struct_names(entries.drop_last()) =~= names.drop_last());
        assert(struct_names(insert_struct(entries.drop_last(), def).push(entries.last()))
            =~= struct_names(insert_struct(entries.drop_last(), def)).push(names.last()));
    }
}

/// The names of a list of records with more put in are the names of the
/// list with the names of those put in.
pub proof fn lemma_insert_structs_names(entries: Seq<StructView>, defs: Seq<StructView>)
    ensures
        struct_names(insert_structs(entries, defs)) == insert_all(
            struct_names(entries),
            struct_names(defs),
        ),
    decreases defs.len(),
{
    if defs.len() > 0 {
        lemma_insert_structs_names(entries, defs.drop_last());
        lemma_insert_struct_names(insert_structs(entries, defs.drop_last()), defs.last());
        assert(struct_names(defs).drop_last() =~= struct_names(defs.drop_last()));
    }
}

/// Where the records before index `p` are listed before `def` and the one
/// at `p`, if there is one, after it, putting `def` in means inserting it
/// at `p`.
pub proof fn lemma_insert_struct_at(entries: Seq<StructView>, def: StructView, p: int)
    requires
        ascending(struct_names(entries)),
        0 <= p <= entries.len(),
        forall|i: int| 0 <= i < p ==> sorts_before(entries[i].name, def.name),
        p < entries.len() ==> sorts_before(def.name, entries[p].name),
    ensures
        insert_struct(entries, def) == entries.take(p).push(def) + entries.skip(p),
    decreases entries.len(),
{
    let names = struct_names(entries);
    if entries.len() == 0 {
        assert(entries.take(p).push(def) + entries.skip(p) =~= seq![def]);
    } else {
        let last = entries.last();
        if p == entries.len() {
            assert(sorts_before(entries[p - 1].name, def.name));
            lemma_not_before_itself(def.name);
            assert(entries.take(p).push(def) + entries.skip(p) =~= entries.push(def));
        } else {
            if p < entries.len() - 1 {
                assert(sorts_before(names[p], names[entries.len() - 1]));
                lemma_before_transitive(def.name, entries[p].name, last.name);
            }
            assert(sorts_before(def.name, last.name));
            lemma_before_asymmetric(def.name, last.name);
            lemma_not_before_itself(def.name);
            let shorter = entries.drop_last();
            assert(ascending(struct_names(shorter))) by {
                assert forall|a: int, b: int| 0 <= a < b < shorter.len() implies sorts_before(
                    #[trigger] struct_names(shorter)[a],
                    #[trigger] struct_names(shorter)[b],
                ) by {
                    assert(sorts_before(names[a], names[b]));
                }
            }
            lemma_insert_struct_at(shorter, def, p);
            assert((shorter.take(p).push(def) + shorter.skip(p)).push(last) =~= entries.take(
                p,
            ).push(def) + entries.skip(p));
        }
    }
}

/// Where a record of the name of `def` is listed, putting `def` in
/// changes nothing.
pub proof fn lemma_insert_struct_known(entries: Seq<StructView>, def: StructView, p: int)
    requires
        ascending(struct_names(entries)),
        0 <= p < entries.len(),
        entries[p].name == def.name,
    ensures
        insert_struct(entries, def) == entries,
    decreases entries.len(),
{
    let names = struct_names(entries);
    let last = entries.last();
    if last.name != def.name {
        assert(sorts_before(names[p], names[entries.len() - 1]));
        lemma_before_asymmetric(def.name, last.name);
        let shorter = entries.drop_last();
        assert(ascending(struct_names(shorter))) by {
            assert forall|a: int, b: int| 0 <= a < b < shorter.len() implies sorts_before(
                #[trigger] struct_names(shorter)[a],
                #[trigger] struct_names(shorter)[b],
            ) by {
                assert(sorts_before(names[a], names[b]));
            }
        }
        lemma_insert_struct_known(shorter, def, p);
        assert(shorter.push(last) =~= entries);
    }
}

/// Putting a record in takes none out: every record that is listed stays
/// listed, so that of two records of one name the first stays.
pub proof fn lemma_insert_struct_keeps(entries: Seq<StructView>, def: StructView, k: int)
    requires
        0 <= k < entries.len(),
    ensures
        insert_struct(entries, def).contains(entries[k]),
    decreases entries.len(),
{
    let after = insert_struct(entries, def);
    if entries.last().name == def.name {
    } else if sorts_before(entries.last().name, def.name) {
        assert(after[k] == entries[k]);
    } else {
        let inner = insert_struct(entries.drop_last(), def);
        if k < entries.len() - 1 {
            lemma_insert_struct_keeps(entries.drop_last(), def, k);
            let i = choose|i: int| 0 <= i < inner.len() && inner[i] == entries.drop_last()[k];
            assert(after[i] == entries[k]);
        } else {
            assert(after[after.len() - 1] == entries[k]);
        }
    }
}

/// The file types that a document declares.
pub struct FiletypeHeader {
    entries: Vec<String>,
}

impl View for FiletypeHeader {
    type V = Seq<Seq<char>>;

    closed spec fn view(&self) -> Seq<Seq<char>> {
        words(self.entries@)
    }
}

impl FiletypeHeader {
    /// The invariant of the type: the extensions are in the listing order,
    /// so that none stands twice.
    pub open spec fn wf(&self) -> bool {
        ascending(self@)
    }

    /// A header that declares no file type.
    pub fn new() -> (header: FiletypeHeader)
        ensures
            header.wf(),
            header@ == Seq::<Seq<char>>::empty(),
    {
        let header = FiletypeHeader { entries: Vec::new() };
        assert(header@ =~= Seq::<Seq<char>>::empty());
        header
    }

    /// Adds the file types that the schemas of `stage_mro` mention and that
    /// are not declared yet.
    pub fn add_stage(&mut self, stage_mro: &StageMro)
        requires
            old(self).wf(),
        ensures
            final(self).wf(),
            final(self)@ == insert_all(old(self)@, stage_filetypes(stage_mro@)),
    {
        let found = stage_mro.filetypes();
        insert_names(&mut self.entries, &found);
    }

    /// The number of file types that are declared.
    pub fn len(&self) -> (n: usize)
        ensures
            n == self@.len(),
    {
        self.entries.len()
    }

    /// Appends the part of a document that declares the file types.
    pub fn push_to(&self, out: &mut String)
        ensures
            final(out)@ == old(out)@ + filetype_header_text(self@),
    {
        let ghost lines = filetype_lines(self@);
        if self.entries.len() == 0 {
            assert(out@ =~= old(out)@ + filetype_header_text(self@));
            return ;
        }
        let mut i: usize = 0;
        assert(old(out)@ + concat(lines.take(0)) =~= old(out)@);
        while i < self.entries.len()
            invariant
                i <= self.entries.len(),
                lines == filetype_lines(self@),
                out@ == old(out)@ + concat(lines.take(i as int)),
            decreases self.entries.len() - i,
        {
            let ghost before = out@;
            out.append("filetype ");
            out.append(self.entries[i].as_str());
            out.append(";\n");
            proof {
                assert(lines[i as int] == filetype_line(self.entries@[i as int]@));
                assert(lines.take(i + 1) =~= lines.take(i as int).push(lines[i as int]));
                lemma_concat_push(lines.take(i as int), lines[i as int]);
                assert(out@ =~= old(out)@ + (concat(lines.take(i as int)) + lines[i as int]));
            }
            i = i + 1;
        }
        assert(lines.take(i as int) =~= lines);
        out.append("\n");
        assert(out@ =~= old(out)@ + filetype_header_text(self@));
    }

    /// The part of a document that declares the file types.
    pub fn to_string(&self) -> (text: String)
        ensures
            text@ == filetype_header_text(self@),
    {
        let mut text = String::new();
        self.push_to(&mut text);
        assert(Seq::<char>::empty() + filetype_header_text(self@) =~= filetype_header_text(
            self@,
        ));
        text
    }
}

impl Default for FiletypeHeader {
    fn default() -> (header: FiletypeHeader)
        ensures
            header.wf(),
            header@ == Seq::<Seq<char>>::empty(),
    {
        FiletypeHeader::new()
    }
}

/// Appends the declaration of a record.
pub fn push_struct(out: &mut String, def: &StructDef)
    ensures
        final(out)@ == old(out)@ + struct_text(def@),
{
    let width: usize = crate::stage::max_type_width(&def.fields);
    let ghost view = schema_view(def.fields@);
    let ghost lines = member_lines(view, width as nat);
    proof {
        lemma_schema_view(def.fields@);
    }
    out.append("struct ");
    out.append(def.name.as_str());
    out.append("(\n");
    let ghost opened = out@;
    assert(opened + concat(lines.take(0)) =~= opened);
    let mut i: usize = 0;
    while i < def.fields.len()
        invariant
            i <= def.fields.len(),
            view == schema_view(def.fields@),
            view.len() == def.fields.len(),
            forall|k: int| 0 <= k < def.fields.len() ==> #[trigger] view[k] == def.fields@[k]@,
            lines == member_lines(view, width as nat),
            out@ == opened + concat(lines.take(i as int)),
        decreases def.fields.len() - i,
    {
        let field: &MroField = &def.fields[i];
        out.append("    ");
        let text = field.ty.to_string();
        push_padded(out, text.as_str(), width);
        out.append(" ");
        out.append(field.name.as_str());
        out.append(",\n");
        proof {
            assert(view[i as int] == def.fields@[i as int]@);
            assert(lines[i as int] == member_line(view[i as int], width as nat));
            assert(lines.take(i + 1) =~= lines.take(i as int).push(lines[i as int]));
            lemma_concat_push(lines.take(i as int), lines[i as int]);
            assert(out@ =~= opened + (concat(lines.take(i as int)) + lines[i as int]));
        }
        i = i + 1;
    }
    assert(lines.take(i as int) =~= lines);
    out.append(")\n\n");
    assert(out@ =~= old(out)@ + struct_text(def@));
}

/// The records that a document declares.
pub struct StructHeader {
    entries: Vec<StructDef>,
}

impl View for StructHeader {
    type V = Seq<StructView>;

    closed spec fn view(&self) -> Seq<StructView> {
        struct_views(self.entries@)
    }
}

impl StructHeader {
    /// The invariant of the type: the records are in the listing order of
    /// their names, so that no name stands twice.
    pub open spec fn wf(&self) -> bool {
        ascending(struct_names(self@))
    }

    /// A header that declares no record.
    pub fn new() -> (header: StructHeader)
        ensures
            header.wf(),
            header@ == Seq::<StructView>::empty(),
    {
        let header = StructHeader { entries: Vec::new() };
        assert(header@ =~= Seq::<StructView>::empty());
        header
    }

    /// Puts a copy of `def` in its place, unless a record of its name is
    /// declared already.
    pub fn add(&mut self, def: &StructDef)
        requires
            old(self).wf(),
        ensures
            final(self).wf(),
            final(self)@ == insert_struct(old(self)@, def@),
    {
        let ghost before = self@;
        let ghost names = struct_names(before);
        let ghost x = def@.name;
        let mut p: usize = 0;
        let mut found: bool = false;
        while p < self.entries.len()
            invariant_except_break
                !found,
            invariant
                p <= self.entries.len(),
                self@ == before,
                x == def@.name,
                forall|i: int| 0 <= i < p ==> sorts_before(before[i].name, x),
            ensures
                found ==> p < self.entries.len() && before[p as int].name == x,
                !found && p < self.entries.len() ==> sorts_before(x, before[p as int].name),
            decreases self.entries.len() - p,
        {
            assert(before[p as int] == self.entries@[p as int]@);
            match rank(self.entries[p].name.as_str(), def.name.as_str()) {
                Rank::Same => {
                    found = true;
                    break ;
                },
                Rank::After => {
                    break ;
                },
                Rank::Before => {
                    p = p + 1;
                },
            }
        }
        if found {
            proof {
                lemma_insert_struct_known(before, def@, p as int);
            }
        } else {
            self.entries.insert(p, def.duplicate());
            proof {
                lemma_insert_struct_at(before, def@, p as int);
                assert(self@ =~= before.take(p as int).push(def@) + before.skip(p as int));
            }
        }
        proof {
            lemma_insert_struct_names(before, def@);
            lemma_insert_sorted(names, x);
        }
    }

    /// Adds the records that the schemas of `stage_mro` mention and that
    /// are not declared yet.
    pub fn add_stage(&mut self, stage_mro: &StageMro)
        requires
            old(self).wf(),
        ensures
            final(self).wf(),
            final(self)@ == insert_structs(old(self)@, stage_structs(stage_mro@)),
    {
        let found = stage_mro.structs();
        let ghost start = self@;
        let ghost all = struct_views(found@);
        let mut i: usize = 0;
        assert(all.take(0) =~= Seq::<StructView>::empty());
        while i < found.len()
            invariant
                i <= found.len(),
                all == struct_views(found@),
                self.wf(),
                self@ == insert_structs(start, all.take(i as int)),
            decreases found.len() - i,
        {
            self.add(&found[i]);
            proof {
                assert(all.take(i + 1).drop_last() =~= all.take(i as int));
                assert(all.take(i + 1).last() == found@[i as int]@);
            }
            i = i + 1;
        }
        assert(all.take(i as int) =~= all);
    }

    /// The number of records that are declared.
    pub fn len(&self) -> (n: usize)
        ensures
            n == self@.len(),
    {
        self.entries.len()
    }

    /// Appends the part of a document that declares the records.
    pub fn push_to(&self, out: &mut String)
        ensures
            final(out)@ == old(out)@ + struct_header_text(self@),
    {
        let ghost texts = struct_texts(self@);
        let mut i: usize = 0;
        assert(old(out)@ + concat(texts.take(0)) =~= old(out)@);
        while i < self.entries.len()
            invariant
                i <= self.entries.len(),
                texts == struct_texts(self@),
                out@ == old(out)@ + concat(texts.take(i as int)),
            decreases self.entries.len() - i,
        {
            push_struct(out, &self.entries[i]);
            proof {
                assert(texts[i as int] == struct_text(self.entries@[i as int]@));
                assert(texts.take(i + 1) =~= texts.take(i as int).push(texts[i as int]));
                lemma_concat_push(texts.take(i as int), texts[i as int]);
                assert(out@ =~= old(out)@ + (concat(texts.take(i as int)) + texts[i as int]));
            }
            i = i + 1;
        }
        assert(texts.take(i as int) =~= texts);
    }

    /// The part of a document that declares the records.
    pub fn to_string(&self) -> (text: String)
        ensures
            text@ == struct_header_text(self@),
    {
        let mut text = String::new();
        self.push_to(&mut text);
        assert(Seq::<char>::empty() + struct_header_text(self@) =~= struct_header_text(self@));
        text
    }
}

impl Default for StructHeader {
    fn default() -> (header: StructHeader)
        ensures
            header.wf(),
            header@ == Seq::<StructView>::empty(),
    {
        StructHeader::new()
    }
}

} // verus!
