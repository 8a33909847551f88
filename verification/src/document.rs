//! The document that declares the stages of a binary: a comment of the
//! caller, a banner, the file types and records that the stages mention,
//! and the declarations of the stages.

use crate::headers::{
    filetype_header_text, insert_structs, lemma_insert_structs_names, struct_header_text,
    struct_names, FiletypeHeader, StructHeader,
};
use crate::names::{ascending, insert_all, lemma_ascending_distinct, lemma_insert_all};
use crate::schema::{FieldView, StructView};
use crate::schema::type_text;
use crate::stage::{
    field_line, field_lines, stage_filetypes, stage_structs, stage_text, type_column,
    widest_type, StageMro, StageView,
};
use crate::text::{chars_of, concat};
use vstd::prelude::*;
use vstd::string::*;

verus! {

/// Why a document cannot be built or written.
#[derive(Clone, Copy, Debug, PartialEq, Eq, Structural)]
pub enum MroError {
    /// The document is to be written to a path that is a directory.
    IsDirectory,
    /// The document is to be written to a file that exists, and was not
    /// asked to replace it.
    FileExists,
}

/// What stands at the path to which a document is to be written.
#[derive(Clone, Copy, Debug, PartialEq, Eq, Structural)]
pub enum PathState {
    /// Nothing.
    Vacant,
    /// A file, or anything else that is no directory.
    File,
    /// A directory.
    Directory,
}

/// Whether a document may be written to a target: always to the standard
/// output, which is the target where no path is given; never to a
/// directory; to an existing file only where `rewrite` holds.
pub open spec fn target_fault(target: Option<PathState>, rewrite: bool) -> Result<(), MroError> {
    match target {
        Some(PathState::Directory) => Err(MroError::IsDirectory),
        Some(PathState::File) => if rewrite {
            Ok(())
        } else {
            Err(MroError::FileExists)
        },
        _ => Ok(()),
    }
}

/// The document to write to a target, or the fault of the target that
/// forbids it.
pub open spec fn planned_text(
    header_comment: Seq<char>,
    target: Option<PathState>,
    rewrite: bool,
    generator: Seq<char>,
    stages: Seq<StageView>,
) -> Result<Seq<char>, MroError> {
    match target_fault(target, rewrite) {
        Err(e) => Err(e),
        Ok(_) => Ok(mro_text(header_comment, generator, stages)),
    }
}

/// The view of a document or the fault in its place.
pub open spec fn text_view(r: Result<String, MroError>) -> Result<Seq<char>, MroError> {
    match r {
        Ok(text) => Ok(text@),
        Err(e) => Err(e),
    }
}

/// Whether a character is white space: a character with the Unicode
/// property `White_Space`.
pub open spec fn is_blank(c: char) -> bool {
    ||| c == ' '
    ||| ('\t' <= c && c <= '\r')
    ||| c == '\u{85}'
    ||| c == '\u{a0}'
    ||| c == '\u{1680}'
    ||| ('\u{2000}' <= c && c <= '\u{200a}')
    ||| c == '\u{2028}'
    ||| c == '\u{2029}'
    ||| c == '\u{202f}'
    ||| c == '\u{205f}'
    ||| c == '\u{3000}'
}

/// The lines of a text: what stands between its line feeds, before the
/// first and after the last. A text without line feed is one line.
pub open spec fn split_lines(s: Seq<char>) -> Seq<Seq<char>>
    decreases s.len(),
{
    if s.len() == 0 {
        seq![Seq::empty()]
    } else {
        let before = split_lines(s.drop_last());
        if s.last() == '\n' {
            before.push(Seq::empty())
        } else {
            before.drop_last().push(before.last().push(s.last()))
        }
    }
}

/// Whether a line may stand in the caller's comment: it starts with `#`,
/// or holds nothing but white space.
pub open spec fn line_ok(line: Seq<char>) -> bool {
    (line.len() > 0 && line[0] == '#') || (forall|j: int| 0 <= j < line.len() ==> is_blank(line[j]))
}

/// Whether a text may stand as the caller's comment: each of its lines
/// starts with `#` or is blank. The empty text may.
pub open spec fn header_ok(s: Seq<char>) -> bool {
    forall|k: int| 0 <= k < split_lines(s).len() ==> line_ok(#[trigger] split_lines(s)[k])
}

/// The banner that marks a document as generated, naming the program that
/// generated it.
pub open spec fn banner(generator: Seq<char>) -> Seq<char> {
    "#\n# Code generated by "@ + generator + ".  DO NOT EDIT.\n#\n"@
}

/// The caller's comment as it opens a document: the comment and a line
/// feed; nothing for an empty comment.
pub open spec fn comment_text(header_comment: Seq<char>) -> Seq<char> {
    if header_comment.len() == 0 {
        Seq::empty()
    } else {
        header_comment + "\n"@
    }
}

/// The views of stages.
pub open spec fn stage_views(stages: Seq<StageMro>) -> Seq<StageView> {
    stages.map_values(|s: StageMro| s@)
}

/// The file types that a document of `stages` declares: those that the
/// stages mention, each once, in the listing order.
pub open spec fn filetype_entries(stages: Seq<StageView>) -> Seq<Seq<char>>
    decreases stages.len(),
{
    if stages.len() == 0 {
        Seq::empty()
    } else {
        insert_all(filetype_entries(stages.drop_last()), stage_filetypes(stages.last()))
    }
}

/// The records that a document of `stages` declares: those that the stages
/// mention, one of each name, in the listing order of the names.
pub open spec fn struct_entries(stages: Seq<StageView>) -> Seq<StructView>
    decreases stages.len(),
{
    if stages.len() == 0 {
        Seq::empty()
    } else {
        insert_structs(struct_entries(stages.drop_last()), stage_structs(stages.last()))
    }
}

/// The declarations of `stages` in their order, an empty line between one
/// and the next.
pub open spec fn stages_text(stages: Seq<StageView>) -> Seq<char>
    decreases stages.len(),
{
    if stages.len() == 0 {
        Seq::empty()
    } else if stages.len() == 1 {
        stage_text(stages[0])
    } else {
        stages_text(stages.drop_last()) + "\n"@ + stage_text(stages.last())
    }
}

/// What a document holds below its banner: where it declares stages, an
/// empty line, the file types, the records and the stages; else nothing.
pub open spec fn body_text(stages: Seq<StageView>) -> Seq<char> {
    if stages.len() == 0 {
        Seq::empty()
    } else {
        "\n"@ + filetype_header_text(filetype_entries(stages)) + struct_header_text(
            struct_entries(stages),
        ) + stages_text(stages)
    }
}

/// The document that declares `stages`: the caller's comment, the banner,
/// and below an empty line the file types, the records and the stages. It
/// ends with one line feed, whether it declares a stage or none.
pub open spec fn mro_text(
    header_comment: Seq<char>,
    generator: Seq<char>,
    stages: Seq<StageView>,
) -> Seq<char> {
    comment_text(header_comment) + banner(generator) + body_text(stages)
}

/// The parts of a document one after the other, each ended by its own
/// line feeds: the comment, the banner, an empty line, the file types,
/// the records, and each stage with the empty line after it.
pub open spec fn untrimmed_text(
    header_comment: Seq<char>,
    generator: Seq<char>,
    stages: Seq<StageView>,
) -> Seq<char> {
    comment_text(header_comment) + banner(generator) + "\n"@ + filetype_header_text(
        filetype_entries(stages),
    ) + struct_header_text(struct_entries(stages)) + concat(stage_paragraphs(stages))
}

/// The declaration of each stage followed by a line feed.
pub open spec fn stage_paragraphs(stages: Seq<StageView>) -> Seq<Seq<char>> {
    stages.map_values(|s: StageView| stage_text(s) + "\n"@)
}

/// The declarations of the stages are their paragraphs, one after the
/// other, less the one line feed that ends the last.
pub proof fn lemma_stages_text_drops_one_line_feed(stages: Seq<StageView>)
    requires
        stages.len() > 0,
    ensures
        stages_text(stages) + "\n"@ == concat(stage_paragraphs(stages)),
    decreases stages.len(),
{
    let paragraphs = stage_paragraphs(stages);
    assert(paragraphs.drop_last() =~= stage_paragraphs(stages.drop_last()));
    if stages.len() == 1 {
        assert(concat(paragraphs.drop_last()) =~= Seq::<char>::empty());
        assert(Seq::<char>::empty() + paragraphs.last() =~= paragraphs.last());
    } else {
        lemma_stages_text_drops_one_line_feed(stages.drop_last());
        assert(stages_text(stages.drop_last()) + "\n"@ + stage_text(stages.last()) + "\n"@
            =~= (stages_text(stages.drop_last()) + "\n"@) + (stage_text(stages.last()) + "\n"@));
    }
}

/// The declaration of a stage ends with a closing bracket and one line
/// feed.
pub proof fn lemma_stage_text_ends(stage: StageView)
    ensures
        crate::text::ends_with(stage_text(stage), ")\n"@),
{
    let text = stage_text(stage);
    let end = ")\n"@;
    let before = crate::stage::head_text(stage) + crate::stage::source_line(stage)
        + crate::stage::split_text(stage) + ") using (\n"@ + crate::stage::using_text(
        stage.using_attrs,
    );
    assert(text =~= before + end);
    assert(text.subrange(text.len() - end.len(), text.len() as int) =~= end);
}

/// A document is its parts one after the other, less exactly one line
/// feed at its end.
pub proof fn lemma_document_drops_one_line_feed(
    header_comment: Seq<char>,
    generator: Seq<char>,
    stages: Seq<StageView>,
)
    ensures
        mro_text(header_comment, generator, stages) + "\n"@ == untrimmed_text(
            header_comment,
            generator,
            stages,
        ),
{
    let opening = comment_text(header_comment) + banner(generator);
    let types = filetype_header_text(filetype_entries(stages));
    let records = struct_header_text(struct_entries(stages));
    if stages.len() == 0 {
        assert(filetype_entries(stages) =~= Seq::<Seq<char>>::empty());
        assert(struct_entries(stages) =~= Seq::<StructView>::empty());
        assert(crate::headers::struct_texts(struct_entries(stages)) =~= Seq::<
            Seq<char>,
        >::empty());
        assert(stage_paragraphs(stages) =~= Seq::<Seq<char>>::empty());
        assert(opening + Seq::<char>::empty() + "\n"@ =~= opening + "\n"@ + Seq::<
            char,
        >::empty() + Seq::<char>::empty() + Seq::<char>::empty());
    } else {
        lemma_stages_text_drops_one_line_feed(stages);
        assert(opening + ("\n"@ + types + records + stages_text(stages)) + "\n"@ =~= opening
            + "\n"@ + types + records + (stages_text(stages) + "\n"@));
    }
}

/// Every document, whether it declares a stage or none, ends with exactly
/// one line feed: its last character is a line feed and the one before is
/// none.
pub proof fn lemma_document_ends_with_one_line_feed(
    header_comment: Seq<char>,
    generator: Seq<char>,
    stages: Seq<StageView>,
)
    ensures
        ({
            let text = mro_text(header_comment, generator, stages);
            text.len() >= 2 && text[text.len() - 1] == '\n' && text[text.len() - 2] != '\n'
        }),
{
    let text = mro_text(header_comment, generator, stages);
    if stages.len() == 0 {
        reveal_strlit(".  DO NOT EDIT.\n#\n");
        let end = ".  DO NOT EDIT.\n#\n"@;
        let before = comment_text(header_comment) + "#\n# Code generated by "@ + generator;
        assert(text =~= before + end);
        assert(text[text.len() - 1] == end[end.len() - 1]);
        assert(text[text.len() - 2] == end[end.len() - 2]);
    } else {
        reveal_strlit(")\n");
        let last = stage_text(stages.last());
        let end = ")\n"@;
        lemma_stage_text_ends(stages.last());
        let before = comment_text(header_comment) + banner(generator) + "\n"@
            + filetype_header_text(filetype_entries(stages)) + struct_header_text(
            struct_entries(stages),
        );
        let body = stages_text(stages);
        assert(body.len() >= last.len() && body.subrange(
            body.len() - last.len(),
            body.len() as int,
        ) =~= last) by {
            if stages.len() > 1 {
                assert(body == stages_text(stages.drop_last()) + "\n"@ + last);
            } else {
                assert(stages.last() == stages[0]);
            }
        }
        assert(text =~= before + body);
        assert(last.subrange(last.len() - end.len(), last.len() as int) == end);
        let tail = text.subrange(text.len() - end.len(), text.len() as int);
        assert(tail =~= last.subrange(last.len() - end.len(), last.len() as int));
        assert(tail[0] == text[text.len() - 2]);
        assert(tail[1] == text[text.len() - 1]);
    }
}

/// The file types of a document are in the listing order, and they are
/// the file types that its stages mention.
pub proof fn lemma_filetype_entries(stages: Seq<StageView>)
    ensures
        ascending(filetype_entries(stages)),
        filetype_entries(stages).no_duplicates(),
        forall|i: int, extension: Seq<char>|
            0 <= i < stages.len() && stage_filetypes(stages[i]).contains(extension)
                ==> filetype_entries(stages).contains(extension),
        forall|extension: Seq<char>| #[trigger]
            filetype_entries(stages).contains(extension) ==> exists|i: int|
                0 <= i < stages.len() && stage_filetypes(stages[i]).contains(extension),
    decreases stages.len(),
{
    let entries = filetype_entries(stages);
    if stages.len() == 0 {
    } else {
        let shorter = stages.drop_last();
        let before = filetype_entries(shorter);
        let found = stage_filetypes(stages.last());
        lemma_filetype_entries(shorter);
        lemma_insert_all(before, found);
        assert(entries.to_set() == before.to_set() + found.to_set());
        assert forall|i: int, extension: Seq<char>|
            0 <= i < stages.len() && stage_filetypes(stages[i]).contains(
                extension,
            ) implies entries.contains(extension) by {
            if i < shorter.len() {
                assert(shorter[i] == stages[i]);
                assert(before.contains(extension));
                assert(before.to_set().contains(extension));
            } else {
                assert(found.to_set().contains(extension));
            }
            assert(entries.to_set().contains(extension));
        }
        assert forall|extension: Seq<char>| #[trigger]
            entries.contains(extension) implies exists|i: int|
            0 <= i < stages.len() && stage_filetypes(stages[i]).contains(extension) by {
            assert(entries.to_set().contains(extension));
            if before.to_set().contains(extension) {
                assert(before.contains(extension));
                let i = choose|i: int|
                    0 <= i < shorter.len() && stage_filetypes(shorter[i]).contains(extension);
                assert(shorter[i] == stages[i]);
            } else {
                assert(found.contains(extension));
                assert(stage_filetypes(stages[stages.len() - 1]).contains(extension));
            }
        }
    }
    lemma_ascending_distinct(entries);
}

/// A file type that several stages mention is declared exactly once: it
/// stands at one index of the file types of the document, and at no
/// other.
pub proof fn lemma_filetype_declared_once(
    stages: Seq<StageView>,
    i: int,
    extension: Seq<char>,
)
    requires
        0 <= i < stages.len(),
        stage_filetypes(stages[i]).contains(extension),
    ensures
        exists|k: int|
            0 <= k < filetype_entries(stages).len() && filetype_entries(stages)[k] == extension
                && forall|m: int|
                0 <= m < filetype_entries(stages).len() && filetype_entries(stages)[m]
                    == extension ==> m == k,
{
    lemma_filetype_entries(stages);
    let entries = filetype_entries(stages);
    assert(entries.contains(extension));
    let k = choose|k: int| 0 <= k < entries.len() && entries[k] == extension;
    assert forall|m: int| 0 <= m < entries.len() && entries[m] == extension implies m == k by {
        if m != k {
            assert(entries[m] != entries[k]);
        }
    }
}

/// The records of a document are in the listing order of their names, no
/// name stands twice, and the names are those of the records that its
/// stages mention.
pub proof fn lemma_struct_entries(stages: Seq<StageView>)
    ensures
        ascending(struct_names(struct_entries(stages))),
        struct_names(struct_entries(stages)).no_duplicates(),
        forall|i: int, name: Seq<char>|
            0 <= i < stages.len() && struct_names(stage_structs(stages[i])).contains(name)
                ==> struct_names(struct_entries(stages)).contains(name),
    decreases stages.len(),
{
    let entries = struct_entries(stages);
    let names = struct_names(entries);
    if stages.len() == 0 {
        assert(names =~= Seq::<Seq<char>>::empty());
    } else {
        let shorter = stages.drop_last();
        let before = struct_entries(shorter);
        let found = stage_structs(stages.last());
        lemma_struct_entries(shorter);
        lemma_insert_structs_names(before, found);
        lemma_insert_all(struct_names(before), struct_names(found));
        assert(names.to_set() == struct_names(before).to_set() + struct_names(found).to_set());
        assert forall|i: int, name: Seq<char>|
            0 <= i < stages.len() && struct_names(stage_structs(stages[i])).contains(
                name,
            ) implies names.contains(name) by {
            if i < shorter.len() {
                assert(shorter[i] == stages[i]);
                assert(struct_names(before).contains(name));
                assert(struct_names(before).to_set().contains(name));
            } else {
                assert(struct_names(found).to_set().contains(name));
            }
            assert(names.to_set().contains(name));
        }
    }
    lemma_ascending_distinct(names);
}

/// A record that several stages mention is declared exactly once: its
/// name stands at one index of the records of the document, and at no
/// other.
pub proof fn lemma_struct_declared_once(stages: Seq<StageView>, i: int, name: Seq<char>)
    requires
        0 <= i < stages.len(),
        struct_names(stage_structs(stages[i])).contains(name),
    ensures
        exists|k: int|
            0 <= k < struct_entries(stages).len() && struct_entries(stages)[k].name == name
                && forall|m: int|
                0 <= m < struct_entries(stages).len() && struct_entries(stages)[m].name == name
                    ==> m == k,
{
    lemma_struct_entries(stages);
    let names = struct_names(struct_entries(stages));
    assert(names.contains(name));
    let k = choose|k: int| 0 <= k < names.len() && names[k] == name;
    assert(struct_entries(stages)[k].name == name);
    assert forall|m: int|
        0 <= m < struct_entries(stages).len() && struct_entries(stages)[m].name
            == name implies m == k by {
        if m != k {
            assert(names[m] != names[k]);
        }
    }
}

/// `p` and `q` are permutations of the indices below `n`, each the inverse
/// of the other.
pub open spec fn inverse_permutations(p: Seq<int>, q: Seq<int>, n: nat) -> bool {
    &&& p.len() == n
    &&& q.len() == n
    &&& forall|i: int| 0 <= i < n ==> 0 <= #[trigger] p[i] < n && q[p[i]] == i
    &&& forall|j: int| 0 <= j < n ==> 0 <= #[trigger] q[j] < n && p[q[j]] == j
}

/// `s` in the order that `p` gives: at index `i` stands what stood at
/// `p[i]`.
pub open spec fn permuted<A>(s: Seq<A>, p: Seq<int>) -> Seq<A> {
    Seq::new(p.len(), |i: int| s[p[i]])
}

/// The widest type of a schema is at least as wide as the type of each
/// field, and as wide as that of one of them.
pub proof fn lemma_widest_type(fields: Seq<FieldView>)
    ensures
        forall|i: int|
            0 <= i < fields.len() ==> type_text(#[trigger] fields[i].ty).len() <= widest_type(
                fields,
            ),
        fields.len() > 0 ==> exists|i: int|
            0 <= i < fields.len() && type_text(#[trigger] fields[i].ty).len() == widest_type(
                fields,
            ),
        fields.len() == 0 ==> widest_type(fields) == 0,
    decreases fields.len(),
{
    if fields.len() > 0 {
        let shorter = fields.drop_last();
        lemma_widest_type(shorter);
        assert forall|i: int| 0 <= i < fields.len() implies type_text(
            #[trigger] fields[i].ty,
        ).len() <= widest_type(fields) by {
            if i < shorter.len() {
                assert(shorter[i] == fields[i]);
            }
        }
        if widest_type(fields) == type_text(fields.last().ty).len() {
            assert(type_text(fields[fields.len() - 1].ty).len() == widest_type(fields));
        } else {
            let i = choose|i: int|
                0 <= i < shorter.len() && type_text(#[trigger] shorter[i].ty).len()
                    == widest_type(shorter);
            assert(shorter[i] == fields[i]);
            assert(type_text(fields[i].ty).len() == widest_type(fields));
        }
    }
}

/// The order of the fields of a schema is the order of their lines:
/// putting the fields in another order puts the lines in that order and
/// changes nothing else, neither a line nor the width of the column of
/// types.
pub proof fn lemma_fields_keep_their_order(
    keyword: Seq<char>,
    fields: Seq<FieldView>,
    width: nat,
    p: Seq<int>,
    q: Seq<int>,
)
    requires
        inverse_permutations(p, q, fields.len()),
    ensures
        field_lines(keyword, permuted(fields, p), width) == permuted(
            field_lines(keyword, fields, width),
            p,
        ),
        forall|i: int|
            0 <= i < fields.len() ==> #[trigger] field_lines(keyword, fields, width)[i]
                == field_line(keyword, fields[i], width),
        widest_type(permuted(fields, p)) == widest_type(fields),
{
    let moved = permuted(fields, p);
    assert(field_lines(keyword, moved, width) =~= permuted(
        field_lines(keyword, fields, width),
        p,
    ));
    lemma_widest_type(fields);
    lemma_widest_type(moved);
    if fields.len() > 0 {
        let i = choose|i: int|
            0 <= i < fields.len() && type_text(#[trigger] fields[i].ty).len() == widest_type(
                fields,
            );
        assert(moved[q[i]] == fields[i]);
        assert(type_text(moved[q[i]].ty).len() <= widest_type(moved));
        let j = choose|j: int|
            0 <= j < moved.len() && type_text(#[trigger] moved[j].ty).len() == widest_type(
                moved,
            );
        assert(moved[j] == fields[p[j]]);
        assert(type_text(fields[p[j]].ty).len() <= widest_type(fields));
    }
}

/// Putting the inputs of a stage in another order leaves the width of the
/// column of types as it is and puts the lines of the inputs in that
/// order.
pub proof fn lemma_inputs_keep_their_order(stage: StageView, p: Seq<int>, q: Seq<int>)
    requires
        inverse_permutations(p, q, stage.inputs.len()),
    ensures
        ({
            let moved = StageView { inputs: permuted(stage.inputs, p), ..stage };
            &&& type_column(moved) == type_column(stage)
            &&& field_lines("in"@, moved.inputs, type_column(moved)) == permuted(
                field_lines("in"@, stage.inputs, type_column(stage)),
                p,
            )
            &&& field_lines("out"@, moved.outputs, type_column(moved)) == field_lines(
                "out"@,
                stage.outputs,
                type_column(stage),
            )
        }),
{
    lemma_fields_keep_their_order("in"@, stage.inputs, type_column(stage), p, q);
}

/// The declaration of one stage under the file types and records that it
/// mentions.
pub open spec fn stage_with_headers(stage: StageView) -> Seq<char> {
    filetype_header_text(filetype_entries(seq![stage])) + struct_header_text(
        struct_entries(seq![stage]),
    ) + stage_text(stage)
}

/// The declaration of `stage_mro` under the file types and records that
/// it mentions: what a document of this one stage holds below its banner.
pub fn stage_mro_string(stage_mro: &StageMro) -> (text: String)
    ensures
        text@ == stage_with_headers(stage_mro@),
{
    let mut filetype_header = FiletypeHeader::new();
    let mut struct_header = StructHeader::new();
    filetype_header.add_stage(stage_mro);
    struct_header.add_stage(stage_mro);
    proof {
        let one = seq![stage_mro@];
        assert(one.drop_last() =~= Seq::<StageView>::empty());
        assert(one.last() == stage_mro@);
        assert(filetype_entries(one.drop_last()) =~= Seq::<Seq<char>>::empty());
        assert(struct_entries(one.drop_last()) =~= Seq::<StructView>::empty());
        assert(filetype_entries(one) == insert_all(
            Seq::<Seq<char>>::empty(),
            stage_filetypes(stage_mro@),
        ));
        assert(struct_entries(one) == insert_structs(
            Seq::<StructView>::empty(),
            stage_structs(stage_mro@),
        ));
    }
    let mut text = String::new();
    filetype_header.push_to(&mut text);
    struct_header.push_to(&mut text);
    stage_mro.push_to(&mut text);
    assert(text@ =~= stage_with_headers(stage_mro@));
    text
}

/// Whether a character is white space.
pub fn is_whitespace(c: char) -> (r: bool)
    ensures
        r == is_blank(c),
{
    c == ' ' || ('\t' <= c && c <= '\r') || c == '\u{85}' || c == '\u{a0}' || c == '\u{1680}' || (
    '\u{2000}' <= c && c <= '\u{200a}') || c == '\u{2028}' || c == '\u{2029}' || c == '\u{202f}'
        || c == '\u{205f}' || c == '\u{3000}'
}

/// Whether `header_comment` may stand as the caller's comment.
pub fn header_comment_ok(header_comment: &str) -> (r: bool)
    ensures
        r == header_ok(header_comment@),
{
    let chars = chars_of(header_comment);
    let ghost s = header_comment@;
    let mut done_ok: bool = true;
    let mut cur_empty: bool = true;
    let mut cur_hash: bool = false;
    let mut cur_blank: bool = true;
    let mut i: usize = 0;
    assert(s.take(0) =~= Seq::<char>::empty());
    while i < chars.len()
        invariant
            i <= chars.len(),
            chars@ == s,
            split_lines(s.take(i as int)).len() >= 1,
            done_ok <==> forall|k: int|
                0 <= k < split_lines(s.take(i as int)).len() - 1 ==> line_ok(
                    #[trigger] split_lines(s.take(i as int))[k],
                ),
            cur_empty <==> split_lines(s.take(i as int)).last().len() == 0,
            cur_hash <==> split_lines(s.take(i as int)).last().len() > 0 && split_lines(
                s.take(i as int),
            ).last()[0] == '#',
            cur_blank <==> forall|j: int|
                0 <= j < split_lines(s.take(i as int)).last().len() ==> is_blank(
                    #[trigger] split_lines(s.take(i as int)).last()[j],
                ),
        decreases chars.len() - i,
    {
        let c = chars[i];
        let ghost lines = split_lines(s.take(i as int));
        let ghost next = split_lines(s.take(i + 1));
        let ghost cur = lines.last();
        proof {
            assert(s.take(i + 1).drop_last() =~= s.take(i as int));
            assert(s.take(i + 1).last() == c);
        }
        if c == '\n' {
            proof {
                assert(next == lines.push(Seq::<char>::empty()));
                assert(line_ok(cur) <==> (cur_hash || cur_blank));
                assert forall|k: int| 0 <= k < next.len() - 1 implies (#[trigger] next[k])
                    == lines[k] by {}
                if done_ok && (cur_hash || cur_blank) {
                    assert forall|k: int| 0 <= k < next.len() - 1 implies line_ok(
                        #[trigger] next[k],
                    ) by {
                        if k < lines.len() - 1 {
                            assert(line_ok(lines[k]));
                        } else {
                            assert(next[k] == cur);
                        }
                    }
                } else if !done_ok {
                    let k = choose|k: int| 0 <= k < lines.len() - 1 && !line_ok(lines[k]);
                    assert(next[k] == lines[k]);
                } else {
                    assert(next[lines.len() - 1] == cur);
                }
            }
            done_ok = done_ok && (cur_hash || cur_blank);
            cur_empty = true;
            cur_hash = false;
            cur_blank = true;
        } else {
            proof {
                let grown = cur.push(c);
                assert(next == lines.drop_last().push(grown));
                assert(next.last() == grown);
                assert forall|k: int| 0 <= k < next.len() - 1 implies (#[trigger] next[k])
                    == lines[k] by {}
                if done_ok {
                    assert forall|k: int| 0 <= k < next.len() - 1 implies line_ok(
                        #[trigger] next[k],
                    ) by {
                        assert(line_ok(lines[k]));
                    }
                } else {
                    let k = choose|k: int| 0 <= k < lines.len() - 1 && !line_ok(lines[k]);
                    assert(next[k] == lines[k]);
                }
                if cur.len() > 0 {
                    assert(grown[0] == cur[0]);
                }
                if cur_blank && is_blank(c) {
                    assert forall|j: int| 0 <= j < grown.len() implies is_blank(
                        #[trigger] grown[j],
                    ) by {
                        if j < cur.len() {
                            assert(grown[j] == cur[j]);
                            assert(is_blank(cur[j]));
                        }
                    }
                } else if !cur_blank {
                    let j = choose|j: int| 0 <= j < cur.len() && !is_blank(cur[j]);
                    assert(grown[j] == cur[j]);
                } else {
                    assert(grown[grown.len() - 1] == c);
                }
            }
            if cur_empty {
                cur_hash = c == '#';
            }
            cur_blank = cur_blank && is_whitespace(c);
            cur_empty = false;
        }
        i = i + 1;
    }
    proof {
        assert(s.take(i as int) =~= s);
        let lines = split_lines(s);
        if done_ok && (cur_hash || cur_blank) {
            assert forall|k: int| 0 <= k < lines.len() implies line_ok(#[trigger] lines[k]) by {
                if k == lines.len() - 1 {
                    assert(lines[k] == lines.last());
                }
            }
        } else if !done_ok {
        } else {
            assert(!line_ok(lines[lines.len() - 1]));
        }
    }
    done_ok && (cur_hash || cur_blank)
}

/// Appends the banner that names `generator_name`.
pub fn push_banner(out: &mut String, generator_name: &str)
    ensures
        final(out)@ == old(out)@ + banner(generator_name@),
{
    out.append("#\n# Code generated by ");
    out.append(generator_name);
    out.append(".  DO NOT EDIT.\n#\n");
    assert(out@ =~= old(out)@ + banner(generator_name@));
}

/// The document that declares the stages of `mro_registry`, under the
/// caller's comment `header_comment` and a banner that names
/// `generator_name`. The document depends on nothing but the arguments.
///
/// The comment must be one that [`header_comment_ok`] accepts: each of its
/// lines blank or starting with `#`.
pub fn make_mro_string(header_comment: &str, mro_registry: &[StageMro], generator_name: &str) -> (text:
    String)
    requires
        header_ok(header_comment@),
    ensures
        text@ == mro_text(header_comment@, generator_name@, stage_views(mro_registry@)),
{
    let ghost stages = stage_views(mro_registry@);
    let mut filetype_header = FiletypeHeader::new();
    let mut struct_header = StructHeader::new();
    let mut mro_string = String::new();
    let mut i: usize = 0;
    assert(stages.take(0) =~= Seq::<StageView>::empty());
    while i < mro_registry.len()
        invariant
            i <= mro_registry.len(),
            stages == stage_views(mro_registry@),
            filetype_header.wf(),
            struct_header.wf(),
            filetype_header@ == filetype_entries(stages.take(i as int)),
            struct_header@ == struct_entries(stages.take(i as int)),
            mro_string@ == stages_text(stages.take(i as int)),
        decreases mro_registry.len() - i,
    {
        let stage_mro = &mro_registry[i];
        proof {
            assert(stages.take(i + 1).drop_last() =~= stages.take(i as int));
            assert(stages.take(i + 1).last() == stage_mro@);
        }
        filetype_header.add_stage(stage_mro);
        struct_header.add_stage(stage_mro);
        if i > 0 {
            mro_string.append("\n");
        }
        stage_mro.push_to(&mut mro_string);
        proof {
            if i == 0 {
                assert(stages.take(1)[0] == stage_mro@);
                assert(Seq::<char>::empty() + stage_text(stage_mro@) =~= stage_text(stage_mro@));
            }
        }
        i = i + 1;
    }
    assert(stages.take(i as int) =~= stages);
    let mut text = String::new();
    if header_comment.unicode_len() > 0 {
        text.append(header_comment);
        text.append("\n");
    }
    assert(text@ =~= comment_text(header_comment@));
    push_banner(&mut text, generator_name);
    if mro_registry.len() > 0 {
        let ghost opening = text@;
        text.append("\n");
        filetype_header.push_to(&mut text);
        struct_header.push_to(&mut text);
        text.append(mro_string.as_str());
        assert(text@ =~= opening + body_text(stages));
    } else {
        assert(text@ =~= text@ + body_text(stages));
    }
    text
}

/// Whether a document may be written to `target`.
pub fn check_target(target: Option<PathState>, rewrite: bool) -> (r: Result<(), MroError>)
    ensures
        r == target_fault(target, rewrite),
{
    match target {
        Some(PathState::Directory) => Err(MroError::IsDirectory),
        Some(PathState::File) => if rewrite {
            Ok(())
        } else {
            Err(MroError::FileExists)
        },
        _ => Ok(()),
    }
}

/// The document to write to `target`, which is the state of the path to
/// write to, or nothing where the document goes to the standard output.
///
/// Fails, so that nothing is written, where the path is a directory and
/// where it is a file and `rewrite` does not hold. What comes back is the
/// whole document or nothing.
///
/// Where the target is in order, the comment must be one that
/// [`header_comment_ok`] accepts.
pub fn martian_make_mro(
    header_comment: &str,
    target: Option<PathState>,
    rewrite: bool,
    mro_registry: &[StageMro],
    generator_name: &str,
) -> (r: Result<String, MroError>)
    requires
        target_fault(target, rewrite) is Ok ==> header_ok(header_comment@),
    ensures
        text_view(r) == planned_text(
            header_comment@,
            target,
            rewrite,
            generator_name@,
            stage_views(mro_registry@),
        ),
{
    match check_target(target, rewrite) {
        Err(e) => Err(e),
        Ok(()) => Ok(make_mro_string(header_comment, mro_registry, generator_name)),
    }
}

} // verus!
