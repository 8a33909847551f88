use martian::{
    array_of, check_target, field_of, file_type, header_comment_ok, make_mro_string,
    martian_make_mro,
    stage_mro_string, AsMartianBlanketType, ChunkSchemas, FiletypeHeader, MartianBlanketType,
    MartianPrimaryType, MroError, MroField, MroUsing, PathState, SchemaError, SchemaRole,
    StageMro, StructDef, StructHeader, Volatile,
};
use std::collections::HashMap;

fn primary(ty: MartianPrimaryType) -> MartianBlanketType {
    MartianBlanketType::Primary(ty)
}

fn array(ty: MartianBlanketType) -> MartianBlanketType {
    MartianBlanketType::Array(Box::new(ty))
}

fn float_type() -> MartianBlanketType {
    primary(MartianPrimaryType::Float)
}

fn int_type() -> MartianBlanketType {
    primary(MartianPrimaryType::Int)
}

fn file(extension: &str) -> MartianBlanketType {
    primary(MartianPrimaryType::FileType(extension.to_string()))
}

fn using(mem_gb: i16, threads: Option<i16>, volatile: Option<Volatile>) -> MroUsing {
    MroUsing { mem_gb, threads, volatile }
}

const MAIN_ONLY: &str = "stage SUM_SQUARES(
    in  float[] values,
    out float   sum_sq,
    src comp    \"adapter martian sum_squares\",
) using (
    mem_gb  = 4,
    threads = 2,
)
";

/// A type that stands for a real number.
struct Real;

impl AsMartianBlanketType for Real {
    fn as_martian_blanket_type() -> MartianBlanketType {
        MartianBlanketType::Primary(MartianPrimaryType::Float)
    }
}

fn sum_squares(values: MartianBlanketType) -> StageMro {
    StageMro::new(
        "SUM_SQUARES",
        "adapter",
        "sum_squares",
        vec![MroField::new("values", values)],
        vec![MroField::new("sum_sq", float_type())],
        None,
        using(4, Some(2), None),
    )
    .unwrap()
}

fn generic_inputs<T: AsMartianBlanketType>() -> Vec<MroField> {
    vec![MroField::new("values", T::as_martian_blanket_type())]
}

fn generic_sum_squares<T: AsMartianBlanketType>() -> StageMro {
    StageMro::new(
        "SUM_SQUARES",
        "adapter",
        "sum_squares",
        generic_inputs::<T>(),
        vec![MroField::new("sum_sq", float_type())],
        None,
        using(4, Some(2), None),
    )
    .unwrap()
}

#[test]
fn test_main_only() {
    let stage = sum_squares(array(float_type()));
    assert_eq!(stage_mro_string(&stage), MAIN_ONLY);
}

#[test]
fn test_main_only_generic_associated_type() {
    let stage = sum_squares(<Vec<Real>>::as_martian_blanket_type());
    assert_eq!(stage_mro_string(&stage), MAIN_ONLY);
}

#[test]
fn test_main_only_generic_stage_struct() {
    let stage = generic_sum_squares::<Vec<Real>>();
    assert_eq!(stage_mro_string(&stage), MAIN_ONLY);
}

fn chunk_stage_fields() -> (Vec<MroField>, Vec<MroField>) {
    let read_chunk = <HashMap<String, i32>>::as_martian_blanket_type();
    let inputs = vec![
        MroField::new("chunks", array(read_chunk)),
        MroField::new("reads_per_file", <i64>::as_martian_blanket_type()),
    ];
    let outputs =
        vec![MroField::new("out_chunks", <Vec<HashMap<String, i32>>>::as_martian_blanket_type())];
    (inputs, outputs)
}

#[test]
fn test_empty_split() {
    let (inputs, outputs) = chunk_stage_fields();
    let stage = StageMro::new(
        "CHUNK_READS",
        "my_adapter",
        "chunker",
        inputs,
        outputs,
        Some(ChunkSchemas { inputs: vec![], outputs: vec![] }),
        using(1, None, Some(Volatile::Strict)),
    )
    .unwrap();
    let expected = "stage CHUNK_READS(
    in  map[] chunks,
    in  int   reads_per_file,
    out map[] out_chunks,
    src comp  \"my_adapter martian chunker\",
) split using (
) using (
    mem_gb   = 1,
    volatile = strict,
)
";
    assert_eq!(stage_mro_string(&stage), expected)
}

#[test]
fn test_non_empty_split() {
    let (inputs, outputs) = chunk_stage_fields();
    let stage = StageMro::new(
        "CHUNKER_STAGE",
        "my_adapter",
        "chunker",
        inputs,
        outputs,
        Some(ChunkSchemas {
            inputs: vec![MroField::new(
                "read_chunk",
                <HashMap<String, i32>>::as_martian_blanket_type(),
            )],
            outputs: vec![],
        }),
        using(2, None, None),
    )
    .unwrap()
    .with_stage_name("CHUNK_READS");
    let expected = "stage CHUNK_READS(
    in  map[] chunks,
    in  int   reads_per_file,
    out map[] out_chunks,
    src comp  \"my_adapter martian chunker\",
) split using (
    in  map   read_chunk,
) using (
    mem_gb = 2,
)
";
    assert_eq!(stage_mro_string(&stage), expected)
}

fn with_filetype() -> StageMro {
    StageMro::new(
        "SUM_SQUARES",
        "adapter",
        "sum_squares",
        vec![MroField::new("values", array(float_type())), MroField::new("config", file("txt"))],
        vec![
            MroField::new("sum_sq", float_type()),
            MroField::new("summary", file("json")),
            MroField::new("log", file("txt")),
        ],
        None,
        using(4, Some(2), None),
    )
    .unwrap()
}

const WITH_FILETYPE: &str = "filetype json;
filetype txt;

stage SUM_SQUARES(
    in  float[] values,
    in  txt     config,
    out float   sum_sq,
    out json    summary,
    out txt     log,
    src comp    \"adapter martian sum_squares\",
) using (
    mem_gb  = 4,
    threads = 2,
)
";

#[test]
fn test_with_filetype() {
    assert_eq!(stage_mro_string(&with_filetype()), WITH_FILETYPE);
}

#[test]
fn empty_split_differs_from_split_with_fields() {
    let (inputs, outputs) = chunk_stage_fields();
    let empty = StageMro::new(
        "CHUNK_READS",
        "my_adapter",
        "chunker",
        inputs,
        outputs,
        Some(ChunkSchemas { inputs: vec![], outputs: vec![] }),
        using(2, None, None),
    )
    .unwrap();
    let (inputs, outputs) = chunk_stage_fields();
    let full = StageMro::new(
        "CHUNK_READS",
        "my_adapter",
        "chunker",
        inputs,
        outputs,
        Some(ChunkSchemas {
            inputs: vec![MroField::new("read_chunk", primary(MartianPrimaryType::UntypedMap))],
            outputs: vec![MroField::new("count", int_type())],
        }),
        using(2, None, None),
    )
    .unwrap();
    let empty_text = empty.to_string();
    let full_text = full.to_string();
    assert_ne!(empty_text, full_text);
    assert!(empty_text.contains(") split using (\n) using (\n"));
    assert!(full_text
        .contains(") split using (\n    in  map   read_chunk,\n    out int   count,\n) using (\n"));
}

#[test]
fn main_only_stage_has_no_split_block() {
    let text = sum_squares(array(float_type())).to_string();
    assert!(!text.contains("split"));
    assert_eq!(text.matches("\n    in  ").count(), 1);
    assert_eq!(text.matches("\n    out ").count(), 1);
}

#[test]
fn types_are_written_in_the_declaration_language() {
    assert_eq!(int_type().to_string(), "int");
    assert_eq!(float_type().to_string(), "float");
    assert_eq!(primary(MartianPrimaryType::Str).to_string(), "string");
    assert_eq!(primary(MartianPrimaryType::Bool).to_string(), "bool");
    assert_eq!(primary(MartianPrimaryType::UntypedMap).to_string(), "map");
    assert_eq!(primary(MartianPrimaryType::Path).to_string(), "path");
    assert_eq!(file("bam").to_string(), "bam");
    assert_eq!(array(array(int_type())).to_string(), "int[][]");
    assert_eq!(MartianBlanketType::TypedMap(Box::new(array(file("txt")))).to_string(), "map<txt[]>");
    let record = StructDef::new("SAMPLE", vec![MroField::new("id", int_type())]);
    assert_eq!(primary(MartianPrimaryType::Struct(record)).to_string(), "SAMPLE");
}

#[test]
fn value_types_map_to_declared_types() {
    assert_eq!(<u8>::as_martian_blanket_type().to_string(), "int");
    assert_eq!(<usize>::as_martian_blanket_type().to_string(), "int");
    assert_eq!(<bool>::as_martian_blanket_type().to_string(), "bool");
    assert_eq!(<String>::as_martian_blanket_type().to_string(), "string");
    assert_eq!(<char>::as_martian_blanket_type().to_string(), "string");
    assert_eq!(<Option<Vec<i32>>>::as_martian_blanket_type().to_string(), "int[]");
    assert_eq!(<Vec<Vec<bool>>>::as_martian_blanket_type().to_string(), "bool[][]");
}

#[test]
fn using_block_aligns_its_keys() {
    assert_eq!(using(2, None, None).to_string(), "    mem_gb = 2,\n");
    assert_eq!(using(4, Some(2), None).to_string(), "    mem_gb  = 4,\n    threads = 2,\n");
    assert_eq!(
        using(16, Some(-4), Some(Volatile::Strict)).to_string(),
        "    mem_gb   = 16,\n    threads  = -4,\n    volatile = strict,\n"
    );
    assert_eq!(
        using(i16::MIN, Some(i16::MAX), None).to_string(),
        "    mem_gb  = -32768,\n    threads = 32767,\n"
    );
}

#[test]
fn type_column_is_never_narrower_than_comp() {
    let stage = StageMro::new(
        "TINY",
        "bin",
        "tiny",
        vec![MroField::new("n", int_type())],
        vec![],
        None,
        using(1, None, None),
    )
    .unwrap();
    assert_eq!(
        stage.to_string(),
        "stage TINY(\n    in  int  n,\n    src comp \"bin martian tiny\",\n) using (\n    mem_gb = 1,\n)\n"
    );
}

fn duplicate_name(result: Result<StageMro, SchemaError>) -> (SchemaRole, String) {
    match result {
        Err(SchemaError::DuplicateField { schema, name }) => (schema, name),
        Ok(_) => panic!("the schema was accepted"),
    }
}

#[test]
fn duplicate_field_names_are_rejected() {
    let twice = || vec![MroField::new("a", int_type()), MroField::new("b", int_type()), MroField::new("a", float_type())];
    let ok = || vec![MroField::new("a", int_type())];
    let u = using(1, None, None);
    assert_eq!(
        duplicate_name(StageMro::new("S", "x", "s", twice(), ok(), None, u)),
        (SchemaRole::StageInputs, "a".to_string())
    );
    assert_eq!(
        duplicate_name(StageMro::new("S", "x", "s", ok(), twice(), None, u)),
        (SchemaRole::StageOutputs, "a".to_string())
    );
    assert_eq!(
        duplicate_name(StageMro::new(
            "S",
            "x",
            "s",
            ok(),
            ok(),
            Some(ChunkSchemas { inputs: twice(), outputs: twice() }),
            u
        )),
        (SchemaRole::ChunkInputs, "a".to_string())
    );
    assert_eq!(
        duplicate_name(StageMro::new(
            "S",
            "x",
            "s",
            ok(),
            ok(),
            Some(ChunkSchemas { inputs: ok(), outputs: twice() }),
            u
        )),
        (SchemaRole::ChunkOutputs, "a".to_string())
    );
    let record = StructDef::new("R", vec![MroField::new("x", int_type()), MroField::new("x", int_type())]);
    let nested = vec![MroField::new("r", array(primary(MartianPrimaryType::Struct(record))))];
    assert_eq!(
        duplicate_name(StageMro::new("S", "x", "s", nested, ok(), None, u)),
        (SchemaRole::Record, "x".to_string())
    );
    // The same name in two schemas of one stage is no fault.
    assert!(StageMro::new("S", "x", "s", ok(), ok(), None, u).is_ok());
}

#[test]
fn first_repeated_name_is_reported() {
    let fields = vec![
        MroField::new("a", int_type()),
        MroField::new("b", int_type()),
        MroField::new("c", int_type()),
        MroField::new("c", int_type()),
        MroField::new("a", int_type()),
    ];
    assert_eq!(
        duplicate_name(StageMro::new("S", "x", "s", fields, vec![], None, using(1, None, None))),
        (SchemaRole::StageInputs, "c".to_string())
    );
}

fn sample_record() -> StructDef {
    StructDef::new(
        "SAMPLE",
        vec![
            MroField::new("id", int_type()),
            MroField::new("reads", array(file("fastq"))),
            MroField::new("library", primary(MartianPrimaryType::Struct(library_record()))),
        ],
    )
}

fn library_record() -> StructDef {
    StructDef::new("LIBRARY", vec![MroField::new("name", primary(MartianPrimaryType::Str))])
}

fn stage_with_records(name: &str) -> StageMro {
    StageMro::new(
        name,
        "adapter",
        "count",
        vec![MroField::new("samples", array(primary(MartianPrimaryType::Struct(sample_record()))))],
        vec![MroField::new("summary", file("json"))],
        None,
        using(1, None, None),
    )
    .unwrap()
}

#[test]
fn records_are_declared_with_the_records_among_their_fields() {
    let text = stage_mro_string(&stage_with_records("COUNT"));
    let expected = "filetype fastq;
filetype json;

struct LIBRARY(
    string name,
)

struct SAMPLE(
    int     id,
    fastq[] reads,
    LIBRARY library,
)

stage COUNT(
    in  SAMPLE[] samples,
    out json     summary,
    src comp     \"adapter martian count\",
) using (
    mem_gb = 1,
)
";
    assert_eq!(text, expected);
}

#[test]
fn headers_list_each_entry_once_in_order() {
    let mut filetypes = FiletypeHeader::default();
    let mut records = StructHeader::default();
    assert_eq!(filetypes.to_string(), "");
    assert_eq!(records.to_string(), "");
    for stage in [with_filetype(), stage_with_records("A"), with_filetype(), stage_with_records("B")] {
        filetypes.add_stage(&stage);
        records.add_stage(&stage);
    }
    assert_eq!(filetypes.len(), 3);
    assert_eq!(records.len(), 2);
    assert_eq!(filetypes.to_string(), "filetype fastq;\nfiletype json;\nfiletype txt;\n\n");
    let text = records.to_string();
    assert_eq!(text.matches("struct SAMPLE(").count(), 1);
    assert_eq!(text.matches("struct LIBRARY(").count(), 1);
    assert!(text.find("struct LIBRARY(").unwrap() < text.find("struct SAMPLE(").unwrap());
}

#[test]
fn first_record_of_a_name_stays() {
    let mut records = StructHeader::new();
    records.add(&StructDef::new("R", vec![MroField::new("first", int_type())]));
    records.add(&StructDef::new("R", vec![MroField::new("second", int_type())]));
    assert_eq!(records.len(), 1);
    assert_eq!(records.to_string(), "struct R(\n    int first,\n)\n\n");
}

const BANNER: &str = "#\n# Code generated by maker.  DO NOT EDIT.\n#\n";

#[test]
fn document_is_comment_banner_headers_and_stages() {
    let stages = vec![with_filetype(), sum_squares(array(float_type()))];
    let text = make_mro_string("# Copyright", &stages, "maker");
    let expected = format!("# Copyright\n{}\n{}\n{}", BANNER, WITH_FILETYPE, MAIN_ONLY);
    assert_eq!(text, expected);
    assert!(text.ends_with(")\n"));
    assert!(!text.ends_with("\n\n"));
}

#[test]
fn document_without_comment_starts_with_the_banner() {
    let stages = vec![sum_squares(array(float_type()))];
    let text = make_mro_string("", &stages, "maker");
    assert_eq!(text, format!("{}\n{}", BANNER, MAIN_ONLY));
}

#[test]
fn document_of_no_stage_is_the_banner() {
    assert_eq!(make_mro_string("", &[], "maker"), BANNER);
    assert_eq!(make_mro_string("# c", &[], "maker"), format!("# c\n{}", BANNER));
}

#[test]
fn every_document_ends_with_one_line_feed() {
    let registries: Vec<Vec<StageMro>> = vec![
        vec![],
        vec![sum_squares(array(float_type()))],
        vec![with_filetype(), stage_with_records("A")],
    ];
    for stages in &registries {
        for comment in ["", "# c", "# c\n", "#\n\n"] {
            let text = make_mro_string(comment, stages, "maker");
            assert!(text.ends_with('\n'));
            assert!(!text.ends_with("\n\n"));
        }
    }
}

#[test]
fn building_twice_gives_the_same_text() {
    let build = || {
        let stages = vec![stage_with_records("A"), with_filetype(), stage_with_records("B")];
        make_mro_string("# header\n#\n", &stages, "maker")
    };
    assert_eq!(build(), build());
}

#[test]
fn shared_filetypes_and_records_are_declared_once() {
    let stages = vec![with_filetype(), stage_with_records("A"), with_filetype(), stage_with_records("B")];
    let text = make_mro_string("", &stages, "maker");
    assert_eq!(text.matches("filetype txt;").count(), 1);
    assert_eq!(text.matches("filetype json;").count(), 1);
    assert_eq!(text.matches("filetype fastq;").count(), 1);
    assert_eq!(text.matches("struct SAMPLE(").count(), 1);
    assert_eq!(text.matches("struct LIBRARY(").count(), 1);
    assert_eq!(text.matches("stage SUM_SQUARES(").count(), 2);
}

#[test]
fn filetypes_are_listed_in_order_whatever_the_order_of_stages() {
    let a = make_mro_string("", &[with_filetype(), stage_with_records("A")], "maker");
    let b = make_mro_string("", &[stage_with_records("A"), with_filetype()], "maker");
    let header = "filetype fastq;\nfiletype json;\nfiletype txt;\n\n";
    assert!(a.contains(header));
    assert!(b.contains(header));
}

#[test]
fn fields_keep_the_order_of_the_schema() {
    let stage = |names: [&str; 3]| {
        let types = |name: &str| match name {
            "zeta" => int_type(),
            "alpha" => array(float_type()),
            _ => file("txt"),
        };
        StageMro::new(
            "ORDER",
            "adapter",
            "order",
            names.iter().map(|n| MroField::new(n, types(n))).collect(),
            vec![],
            None,
            using(1, None, None),
        )
        .unwrap()
        .to_string()
    };
    let lines = |text: String| -> Vec<String> {
        text.lines().filter(|l| l.starts_with("    in ")).map(String::from).collect()
    };
    let first = lines(stage(["zeta", "alpha", "mid"]));
    let second = lines(stage(["mid", "zeta", "alpha"]));
    assert_eq!(
        first,
        vec!["    in  int     zeta,", "    in  float[] alpha,", "    in  txt     mid,"]
    );
    assert_eq!(second, vec![first[2].clone(), first[0].clone(), first[1].clone()]);
}

#[test]
fn header_comment_must_be_comment_lines() {
    assert!(!header_comment_ok("not a comment"));
    assert!(!header_comment_ok("# ok\nbad"));
    assert!(!header_comment_ok("# ok\nstage FOO"));
    assert!(!header_comment_ok(" # indented"));
    assert!(!header_comment_ok("\r#"));
    assert!(header_comment_ok(""));
    assert!(header_comment_ok("# ok\n\n   \n#also\n"));
    assert!(header_comment_ok("\n"));
    assert!(header_comment_ok("#\r\n\t\r\n# x"));
    assert!(header_comment_ok("\u{a0}\u{3000}"));
    let stages = vec![sum_squares(array(float_type()))];
    let text = make_mro_string("# ok\n\n   \n#also\n", &stages, "maker");
    assert!(text.starts_with("# ok\n\n   \n#also\n\n#\n# Code generated by maker."));
}

#[test]
fn document_is_written_only_where_it_may_be() {
    let stages = vec![sum_squares(array(float_type()))];
    let text = make_mro_string("# c", &stages, "maker");
    let plan = |target, rewrite| martian_make_mro("# c", target, rewrite, &stages, "maker");
    assert_eq!(plan(None, false), Ok(text.clone()));
    assert_eq!(plan(Some(PathState::Vacant), false), Ok(text.clone()));
    assert_eq!(plan(Some(PathState::File), true), Ok(text.clone()));
    assert_eq!(plan(Some(PathState::File), false), Err(MroError::FileExists));
    assert_eq!(plan(Some(PathState::Directory), false), Err(MroError::IsDirectory));
    assert_eq!(plan(Some(PathState::Directory), true), Err(MroError::IsDirectory));
    // The target is looked at before the comment.
    let bad = |target, rewrite| martian_make_mro("no comment", target, rewrite, &stages, "maker");
    assert_eq!(bad(Some(PathState::File), false), Err(MroError::FileExists));
    assert_eq!(bad(Some(PathState::Directory), true), Err(MroError::IsDirectory));
    assert_eq!(check_target(None, false), Ok(()));
    assert_eq!(check_target(Some(PathState::Vacant), false), Ok(()));
    assert_eq!(check_target(Some(PathState::File), true), Ok(()));
    assert_eq!(check_target(Some(PathState::File), false), Err(MroError::FileExists));
    assert_eq!(check_target(Some(PathState::Directory), true), Err(MroError::IsDirectory));
}

#[test]
fn fields_are_made_from_value_types() {
    let field = field_of::<Vec<Option<u32>>>("counts");
    assert_eq!(field.name, "counts");
    assert_eq!(field.ty.to_string(), "int[]");
    assert_eq!(array_of(file_type("bam".to_string())).to_string(), "bam[]");
    let by_hand = StageMro::new(
        "S",
        "a",
        "s",
        vec![MroField::new("counts", array(int_type()))],
        vec![],
        None,
        using(1, None, None),
    )
    .unwrap();
    let generic =
        StageMro::new("S", "a", "s", vec![field], vec![], None, using(1, None, None)).unwrap();
    assert_eq!(generic.to_string(), by_hand.to_string());
}
