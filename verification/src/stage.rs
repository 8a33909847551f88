//! The declaration of one stage: what it takes and gives, how it is
//! called, and what it needs to run.

use crate::schema::{
    check_schema, deep_schema_fault, lemma_schema_view, schema_view, type_text, FieldView,
    MroField, SchemaError, SchemaRole,
};
use crate::text::{concat, decimal, lemma_concat_push, padded, push_padded};
use vstd::prelude::*;
use vstd::string::*;

verus! {

/// A mark that tells the orchestrator how to treat the files of a stage
/// once nothing needs them any more. It is written out as it is given.
#[derive(Clone, Copy, Debug, PartialEq, Eq, Structural)]
pub enum Volatile {
    Strict,
}

/// What a stage needs to run: memory in gigabytes, the number of threads
/// where it asks for some, and the `volatile` mark where it has one.
#[derive(Clone, Copy, Debug, PartialEq, Eq, Structural)]
pub struct MroUsing {
    pub mem_gb: i16,
    pub threads: Option<i16>,
    pub volatile: Option<Volatile>,
}

/// What each chunk of a stage takes and gives.
#[derive(Debug)]
pub struct ChunkSchemas {
    pub inputs: Vec<MroField>,
    pub outputs: Vec<MroField>,
}

/// The declaration of a stage. In none of its schemas, nor in a record
/// among their types, do two fields have the same name.
#[derive(Debug)]
pub struct StageMro {
    name: String,
    adapter_name: String,
    stage_key: String,
    inputs: Vec<MroField>,
    outputs: Vec<MroField>,
    chunk: Option<ChunkSchemas>,
    using_attrs: MroUsing,
}

/// The schemas of the chunks of a stage as plain values.
pub struct ChunkView {
    pub inputs: Seq<FieldView>,
    pub outputs: Seq<FieldView>,
}

/// A [`StageMro`] as plain values.
pub struct StageView {
    pub name: Seq<char>,
    pub adapter_name: Seq<char>,
    pub stage_key: Seq<char>,
    pub inputs: Seq<FieldView>,
    pub outputs: Seq<FieldView>,
    pub chunk: Option<ChunkView>,
    pub using_attrs: MroUsing,
}

/// The view of the schemas of the chunks, where a stage has chunks.
pub open spec fn chunk_view(chunk: Option<ChunkSchemas>) -> Option<ChunkView> {
    match chunk {
        Some(c) => Some(
            ChunkView { inputs: schema_view(c.inputs@), outputs: schema_view(c.outputs@) },
        ),
        None => None,
    }
}

impl View for StageMro {
    type V = StageView;

    closed spec fn view(&self) -> StageView {
        StageView {
            name: self.name@,
            adapter_name: self.adapter_name@,
            stage_key: self.stage_key@,
            inputs: schema_view(self.inputs@),
            outputs: schema_view(self.outputs@),
            chunk: chunk_view(self.chunk),
            using_attrs: self.using_attrs,
        }
    }
}

/// The larger of two lengths.
pub open spec fn larger(a: nat, b: nat) -> nat {
    if a >= b {
        a
    } else {
        b
    }
}

/// The length of the longest text that the declaration language writes for
/// the type of one of `fields`; 0 where there is no field.
pub open spec fn widest_type(fields: Seq<FieldView>) -> nat
    decreases fields.len(),
{
    if fields.len() == 0 {
        0
    } else {
        larger(widest_type(fields.drop_last()), type_text(fields.last().ty).len())
    }
}

/// The width of the column of types in the declaration of a stage: that of
/// the widest type of any of its fields, and at least that of the word
/// `comp`, which stands in this column too.
pub open spec fn type_column(stage: StageView) -> nat {
    let stage_width = larger(
        4,
        larger(widest_type(stage.inputs), widest_type(stage.outputs)),
    );
    match stage.chunk {
        Some(chunk) => larger(
            stage_width,
            larger(widest_type(chunk.inputs), widest_type(chunk.outputs)),
        ),
        None => stage_width,
    }
}

/// The line that declares one field: four spaces, the keyword `in` or
/// `out` in a column of three, the type in a column of `width`, the name, a
/// comma.
pub open spec fn field_line(keyword: Seq<char>, field: FieldView, width: nat) -> Seq<char> {
    "    "@ + padded(keyword, 3) + " "@ + padded(type_text(field.ty), width) + " "@ + field.name
        + ",\n"@
}

/// The lines that declare the fields of a schema, in the order of the
/// schema.
pub open spec fn field_lines(keyword: Seq<char>, fields: Seq<FieldView>, width: nat) -> Seq<
    Seq<char>,
> {
    fields.map_values(|f: FieldView| field_line(keyword, f, width))
}

/// The text that declares the fields of a schema.
pub open spec fn block_text(keyword: Seq<char>, fields: Seq<FieldView>, width: nat) -> Seq<
    char,
> {
    concat(field_lines(keyword, fields, width))
}

/// The width of the column of keys in the `using` block: that of the
/// longest key that it holds.
pub open spec fn key_column(using_attrs: MroUsing) -> nat {
    if using_attrs.volatile is Some {
        8
    } else if using_attrs.threads is Some {
        7
    } else {
        6
    }
}

/// One line of the `using` block.
pub open spec fn using_line(key: Seq<char>, value: Seq<char>, width: nat) -> Seq<char> {
    "    "@ + padded(key, width) + " = "@ + value + ",\n"@
}

/// The text of the `threads` line, where threads are asked for.
pub open spec fn threads_text(using_attrs: MroUsing) -> Seq<char> {
    match using_attrs.threads {
        Some(threads) => using_line("threads"@, decimal(threads as int), key_column(using_attrs)),
        None => Seq::empty(),
    }
}

/// The text of the `volatile` line, where the stage has the mark.
pub open spec fn volatile_text(using_attrs: MroUsing) -> Seq<char> {
    match using_attrs.volatile {
        Some(Volatile::Strict) => using_line("volatile"@, "strict"@, key_column(using_attrs)),
        None => Seq::empty(),
    }
}

/// The lines of the `using` block: memory, then threads, then the
/// `volatile` mark, the keys in one column.
pub open spec fn using_text(using_attrs: MroUsing) -> Seq<char> {
    using_line("mem_gb"@, decimal(using_attrs.mem_gb as int), key_column(using_attrs))
        + threads_text(using_attrs) + volatile_text(using_attrs)
}

/// The line that says how the stage is called.
pub open spec fn source_line(stage: StageView) -> Seq<char> {
    "    src "@ + padded("comp"@, type_column(stage)) + " \""@ + stage.adapter_name
        + " martian "@ + stage.stage_key + "\",\n"@
}

/// The `split using` block, where the stage has chunks: what each chunk
/// takes and gives. It is there, without fields, where the chunks have
/// none.
pub open spec fn split_text(stage: StageView) -> Seq<char> {
    match stage.chunk {
        Some(chunk) => ") split using (\n"@ + block_text(
            "in"@,
            chunk.inputs,
            type_column(stage),
        ) + block_text("out"@, chunk.outputs, type_column(stage)),
        None => Seq::empty(),
    }
}

/// The opening of the declaration of a stage: its name, then its inputs
/// and its outputs in the order of their schemas.
pub open spec fn head_text(stage: StageView) -> Seq<char> {
    "stage "@ + stage.name + "(\n"@ + block_text("in"@, stage.inputs, type_column(stage))
        + block_text("out"@, stage.outputs, type_column(stage))
}

/// The end of the declaration of a stage: the `using` block.
pub open spec fn tail_text(stage: StageView) -> Seq<char> {
    ") using (\n"@ + using_text(stage.using_attrs) + ")\n"@
}

/// The declaration of a stage in the declaration language: its name, its
/// inputs and outputs in the order of their schemas, how it is called, the
/// `split using` block where it has chunks, and the `using` block.
pub open spec fn stage_text(stage: StageView) -> Seq<char> {
    head_text(stage) + source_line(stage) + split_text(stage) + tail_text(stage)
}

/// What building a stage of the given values gives: the stage, or the
/// first fault of its schemas.
pub open spec fn built(stage: StageView) -> Result<StageView, (SchemaRole, Seq<char>)> {
    match stage_fault(stage) {
        Some(fault) => Err(fault),
        None => Ok(stage),
    }
}

/// The view of a stage that was built, or of the fault in its place.
pub open spec fn built_view(r: Result<StageMro, SchemaError>) -> Result<
    StageView,
    (SchemaRole, Seq<char>),
> {
    match r {
        Ok(stage) => Ok(stage@),
        Err(e) => Err(crate::schema::fault_view(e)),
    }
}

/// The extensions of the file types that the schemas of a stage mention,
/// in the order in which they are met.
pub open spec fn stage_filetypes(stage: StageView) -> Seq<Seq<char>> {
    let own = crate::schema::schema_filetypes(stage.inputs) + crate::schema::schema_filetypes(
        stage.outputs,
    );
    match stage.chunk {
        Some(chunk) => own + crate::schema::schema_filetypes(chunk.inputs)
            + crate::schema::schema_filetypes(chunk.outputs),
        None => own,
    }
}

/// The records that the schemas of a stage mention, in the order in which
/// they are met.
pub open spec fn stage_structs(stage: StageView) -> Seq<crate::schema::StructView> {
    let own = crate::schema::schema_structs(stage.inputs) + crate::schema::schema_structs(
        stage.outputs,
    );
    match stage.chunk {
        Some(chunk) => own + crate::schema::schema_structs(chunk.inputs)
            + crate::schema::schema_structs(chunk.outputs),
        None => own,
    }
}

/// What is wrong with the schemas of a stage: the first fault among its
/// inputs, its outputs, the inputs of its chunks and their outputs, in
/// this order.
pub open spec fn stage_fault(stage: StageView) -> Option<(SchemaRole, Seq<char>)> {
    match deep_schema_fault(SchemaRole::StageInputs, stage.inputs) {
        Some(fault) => Some(fault),
        None => match deep_schema_fault(SchemaRole::StageOutputs, stage.outputs) {
            Some(fault) => Some(fault),
            None => match stage.chunk {
                None => None,
                Some(chunk) => match deep_schema_fault(SchemaRole::ChunkInputs, chunk.inputs) {
                    Some(fault) => Some(fault),
                    None => deep_schema_fault(SchemaRole::ChunkOutputs, chunk.outputs),
                },
            },
        },
    }
}

/// The widest type of the first `i + 1` fields is the wider of the widest
/// type of the first `i` and the type of the field at `i`.
proof fn lemma_widest_take(fields: Seq<FieldView>, i: int)
    requires
        0 <= i < fields.len(),
    ensures
        widest_type(fields.take(i + 1)) == larger(
            widest_type(fields.take(i)),
            type_text(fields[i].ty).len(),
        ),
{
    assert(fields.take(i + 1).drop_last() =~= fields.take(i));
}

/// The length of the longest text of the type of one of `fields`.
pub fn max_type_width(fields: &Vec<MroField>) -> (width: usize)
    ensures
        width == widest_type(schema_view(fields@)),
{
    let ghost view = schema_view(fields@);
    proof {
        lemma_schema_view(fields@);
    }
    let mut width: usize = 0;
    let mut i: usize = 0;
    while i < fields.len()
        invariant
            i <= fields.len(),
            view == schema_view(fields@),
            view.len() == fields.len(),
            forall|k: int| 0 <= k < fields.len() ==> #[trigger] view[k] == fields@[k]@,
            width == widest_type(view.take(i as int)),
        decreases fields.len() - i,
    {
        let text = fields[i].ty.to_string();
        let len: usize = text.as_str().unicode_len();
        proof {
            lemma_widest_take(view, i as int);
            assert(view[i as int] == fields@[i as int]@);
        }
        if len > width {
            width = len;
        }
        i = i + 1;
    }
    assert(view.take(i as int) =~= view);
    width
}

/// Appends the line that declares `field`.
pub fn push_field_line(out: &mut String, keyword: &str, field: &MroField, width: usize)
    ensures
        final(out)@ == old(out)@ + field_line(keyword@, field@, width as nat),
{
    out.append("    ");
    push_padded(out, keyword, 3);
    out.append(" ");
    let text = field.ty.to_string();
    push_padded(out, text.as_str(), width);
    out.append(" ");
    out.append(field.name.as_str());
    out.append(",\n");
    assert(out@ =~= old(out)@ + field_line(keyword@, field@, width as nat));
}

/// Appends the lines that declare `fields`, in their order.
pub fn push_block(out: &mut String, keyword: &str, fields: &Vec<MroField>, width: usize)
    ensures
        final(out)@ == old(out)@ + block_text(keyword@, schema_view(fields@), width as nat),
{
    let ghost view = schema_view(fields@);
    let ghost lines = field_lines(keyword@, view, width as nat);
    proof {
        lemma_schema_view(fields@);
        assert(old(out)@ + concat(lines.take(0)) =~= old(out)@);
    }
    let mut i: usize = 0;
    while i < fields.len()
        invariant
            i <= fields.len(),
            view == schema_view(fields@),
            view.len() == fields.len(),
            forall|k: int| 0 <= k < fields.len() ==> #[trigger] view[k] == fields@[k]@,
            lines == field_lines(keyword@, view, width as nat),
            out@ == old(out)@ + concat(lines.take(i as int)),
        decreases fields.len() - i,
    {
        let ghost before = out@;
        push_field_line(out, keyword, &fields[i], width);
        proof {
            assert(view[i as int] == fields@[i as int]@);
            assert(lines[i as int] == field_line(keyword@, view[i as int], width as nat));
            assert(lines.take(i + 1) =~= lines.take(i as int).push(lines[i as int]));
            lemma_concat_push(lines.take(i as int), lines[i as int]);
            assert(before + lines[i as int] =~= old(out)@ + (concat(lines.take(i as int))
                + lines[i as int]));
        }
        i = i + 1;
    }
    assert(lines.take(i as int) =~= lines);
}

/// Appends one line of the `using` block.
pub fn push_using_line(out: &mut String, key: &str, value: &str, width: usize)
    ensures
        final(out)@ == old(out)@ + using_line(key@, value@, width as nat),
{
    out.append("    ");
    push_padded(out, key, width);
    out.append(" = ");
    out.append(value);
    out.append(",\n");
    assert(out@ =~= old(out)@ + using_line(key@, value@, width as nat));
}

impl MroUsing {
    /// The width of the column of keys.
    pub fn key_width(&self) -> (width: usize)
        ensures
            width == key_column(*self),
    {
        if self.volatile.is_some() {
            8
        } else if self.threads.is_some() {
            7
        } else {
            6
        }
    }

    /// Appends the lines of the `using` block.
    pub fn push_to(&self, out: &mut String)
        ensures
            final(out)@ == old(out)@ + using_text(*self),
    {
        let width: usize = self.key_width();
        let mem = crate::text::decimal_string(self.mem_gb as i64);
        push_using_line(out, "mem_gb", mem.as_str(), width);
        let ghost with_mem = out@;
        match self.threads {
            Some(threads) => {
                let text = crate::text::decimal_string(threads as i64);
                push_using_line(out, "threads", text.as_str(), width);
            },
            None => {
                assert(out@ =~= with_mem + threads_text(*self));
            },
        }
        let ghost with_threads = out@;
        match self.volatile {
            Some(Volatile::Strict) => {
                push_using_line(out, "volatile", "strict", width);
            },
            None => {
                assert(out@ =~= with_threads + volatile_text(*self));
            },
        }
        assert(out@ =~= old(out)@ + using_text(*self));
    }

    /// The lines of the `using` block.
    pub fn to_string(&self) -> (text: String)
        ensures
            text@ == using_text(*self),
    {
        let mut text = String::new();
        self.push_to(&mut text);
        assert(Seq::<char>::empty() + using_text(*self) =~= using_text(*self));
        text
    }
}

impl StageMro {
    #[verifier::type_invariant]
    spec fn sound(self) -> bool {
        stage_fault(self@) is None
    }

    /// The declaration of the stage `name`, which the adapter
    /// `adapter_name` runs under the key `stage_key`; `chunk` holds the
    /// schemas of its chunks where it has chunks.
    ///
    /// Fails where two fields of one schema, or of one record among the
    /// types, have the same name, with the first such schema and name.
    pub fn new(
        name: &str,
        adapter_name: &str,
        stage_key: &str,
        inputs: Vec<MroField>,
        outputs: Vec<MroField>,
        chunk: Option<ChunkSchemas>,
        using_attrs: MroUsing,
    ) -> (r: Result<StageMro, SchemaError>)
        ensures
            built_view(r) == built(
                StageView {
                    name: name@,
                    adapter_name: adapter_name@,
                    stage_key: stage_key@,
                    inputs: schema_view(inputs@),
                    outputs: schema_view(outputs@),
                    chunk: chunk_view(chunk),
                    using_attrs,
                },
            ),
    {
        match check_schema(SchemaRole::StageInputs, &inputs) {
            Err(e) => {
                return Err(e);
            },
            Ok(()) => {},
        }
        match check_schema(SchemaRole::StageOutputs, &outputs) {
            Err(e) => {
                return Err(e);
            },
            Ok(()) => {},
        }
        match &chunk {
            Some(c) => {
                match check_schema(SchemaRole::ChunkInputs, &c.inputs) {
                    Err(e) => {
                        return Err(e);
                    },
                    Ok(()) => {},
                }
                match check_schema(SchemaRole::ChunkOutputs, &c.outputs) {
                    Err(e) => {
                        return Err(e);
                    },
                    Ok(()) => {},
                }
            },
            None => {},
        }
        Ok(
            StageMro {
                name: String::from_str(name),
                adapter_name: String::from_str(adapter_name),
                stage_key: String::from_str(stage_key),
                inputs,
                outputs,
                chunk,
                using_attrs,
            },
        )
    }

    /// The same stage under another name.
    pub fn with_stage_name(self, name: &str) -> (stage: StageMro)
        ensures
            stage@ == (StageView { name: name@, ..self@ }),
    {
        proof {
            use_type_invariant(&self);
        }
        StageMro {
            name: String::from_str(name),
            adapter_name: self.adapter_name,
            stage_key: self.stage_key,
            inputs: self.inputs,
            outputs: self.outputs,
            chunk: self.chunk,
            using_attrs: self.using_attrs,
        }
    }

    /// The width of the column of types.
    pub fn type_width(&self) -> (width: usize)
        ensures
            width == type_column(self@),
    {
        let mut width: usize = 4;
        let w_in: usize = max_type_width(&self.inputs);
        if w_in > width {
            width = w_in;
        }
        let w_out: usize = max_type_width(&self.outputs);
        if w_out > width {
            width = w_out;
        }
        match &self.chunk {
            Some(c) => {
                let c_in: usize = max_type_width(&c.inputs);
                if c_in > width {
                    width = c_in;
                }
                let c_out: usize = max_type_width(&c.outputs);
                if c_out > width {
                    width = c_out;
                }
            },
            None => {},
        }
        width
    }

    /// Appends the opening of the declaration: the name, the inputs and
    /// the outputs.
    fn push_head(&self, out: &mut String, width: usize)
        requires
            width == type_column(self@),
        ensures
            final(out)@ == old(out)@ + head_text(self@),
    {
        out.append("stage ");
        out.append(self.name.as_str());
        out.append("(\n");
        push_block(out, "in", &self.inputs, width);
        push_block(out, "out", &self.outputs, width);
        assert(out@ =~= old(out)@ + head_text(self@));
    }

    /// Appends the line that says how the stage is called.
    fn push_source(&self, out: &mut String, width: usize)
        requires
            width == type_column(self@),
        ensures
            final(out)@ == old(out)@ + source_line(self@),
    {
        out.append("    src ");
        push_padded(out, "comp", width);
        out.append(" \"");
        out.append(self.adapter_name.as_str());
        out.append(" martian ");
        out.append(self.stage_key.as_str());
        out.append("\",\n");
        assert(out@ =~= old(out)@ + source_line(self@));
    }

    /// Appends the `split using` block, where the stage has chunks.
    fn push_split(&self, out: &mut String, width: usize)
        requires
            width == type_column(self@),
        ensures
            final(out)@ == old(out)@ + split_text(self@),
    {
        match &self.chunk {
            Some(c) => {
                out.append(") split using (\n");
                push_block(out, "in", &c.inputs, width);
                push_block(out, "out", &c.outputs, width);
                assert(out@ =~= old(out)@ + split_text(self@));
            },
            None => {
                assert(out@ =~= old(out)@ + split_text(self@));
            },
        }
    }

    /// Appends the `using` block, which ends the declaration.
    fn push_tail(&self, out: &mut String)
        ensures
            final(out)@ == old(out)@ + tail_text(self@),
    {
        out.append(") using (\n");
        self.using_attrs.push_to(out);
        out.append(")\n");
        assert(out@ =~= old(out)@ + tail_text(self@));
    }

    /// Appends the declaration of the stage.
    pub fn push_to(&self, out: &mut String)
        ensures
            final(out)@ == old(out)@ + stage_text(self@),
    {
        let width: usize = self.type_width();
        self.push_head(out, width);
        self.push_source(out, width);
        self.push_split(out, width);
        self.push_tail(out);
        assert(out@ =~= old(out)@ + stage_text(self@));
    }

    /// The declaration of the stage in the declaration language. A stage
    /// that can be written out has no fault in its schemas.
    pub fn to_string(&self) -> (text: String)
        ensures
            text@ == stage_text(self@),
            stage_fault(self@) is None,
    {
        proof {
            use_type_invariant(self);
        }
        let mut text = String::new();
        self.push_to(&mut text);
        assert(Seq::<char>::empty() + stage_text(self@) =~= stage_text(self@));
        text
    }

    /// The extensions of the file types that the schemas of the stage
    /// mention.
    pub fn filetypes(&self) -> (found: Vec<String>)
        ensures
            crate::text::words(found@) == stage_filetypes(self@),
    {
        let mut found: Vec<String> = Vec::new();
        assert(crate::text::words(found@) =~= Seq::<Seq<char>>::empty());
        crate::schema::collect_fields_filetypes(&self.inputs, self.inputs.len(), &mut found);
        crate::schema::collect_fields_filetypes(&self.outputs, self.outputs.len(), &mut found);
        proof {
            lemma_schema_view(self.inputs@);
            lemma_schema_view(self.outputs@);
        }
        match &self.chunk {
            Some(c) => {
                crate::schema::collect_fields_filetypes(&c.inputs, c.inputs.len(), &mut found);
                crate::schema::collect_fields_filetypes(&c.outputs, c.outputs.len(), &mut found);
                proof {
                    lemma_schema_view(c.inputs@);
                    lemma_schema_view(c.outputs@);
                }
            },
            None => {},
        }
        assert(crate::text::words(found@) =~= stage_filetypes(self@));
        found
    }

    /// A copy of each record that the schemas of the stage mention.
    pub fn structs(&self) -> (found: Vec<crate::schema::StructDef>)
        ensures
            crate::schema::struct_views(found@) == stage_structs(self@),
    {
        let mut found: Vec<crate::schema::StructDef> = Vec::new();
        assert(crate::schema::struct_views(found@) =~= Seq::<crate::schema::StructView>::empty());
        crate::schema::collect_fields_structs(&self.inputs, self.inputs.len(), &mut found);
        crate::schema::collect_fields_structs(&self.outputs, self.outputs.len(), &mut found);
        proof {
            lemma_schema_view(self.inputs@);
            lemma_schema_view(self.outputs@);
        }
        match &self.chunk {
            Some(c) => {
                crate::schema::collect_fields_structs(&c.inputs, c.inputs.len(), &mut found);
                crate::schema::collect_fields_structs(&c.outputs, c.outputs.len(), &mut found);
                proof {
                    lemma_schema_view(c.inputs@);
                    lemma_schema_view(c.outputs@);
                }
            },
            None => {},
        }
        assert(crate::schema::struct_views(found@) =~= stage_structs(self@));
        found
    }

    /// What the stage takes.
    pub fn inputs(&self) -> (fields: &Vec<MroField>)
        ensures
            schema_view(fields@) == self@.inputs,
    {
        &self.inputs
    }

    /// What the stage gives.
    pub fn outputs(&self) -> (fields: &Vec<MroField>)
        ensures
            schema_view(fields@) == self@.outputs,
    {
        &self.outputs
    }

    /// What each chunk takes and gives, where the stage has chunks.
    pub fn chunk(&self) -> (chunk: &Option<ChunkSchemas>)
        ensures
            chunk_view(*chunk) == self@.chunk,
    {
        &self.chunk
    }
}

} // verus!
