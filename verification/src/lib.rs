//! Building blocks for running a computation stage under a pipeline
//! orchestrator and for publishing its declaration.
//!
//! A stage is run one phase at a time, each phase in a process of its own:
//! [`MartianAdapter`] reads the command line, finds the stage, runs the
//! phase and says what the orchestrator is to be told. The declaration of
//! the stages of a binary is a text in the orchestrator's declaration
//! language, which [`make_mro_string`] builds from their schemas.

pub mod adapter;
pub mod delimited_file;
pub mod document;
pub mod error;
pub mod filetypes;
pub mod headers;
pub mod metadata;
pub mod names;
pub mod registry;
pub mod schema;
pub mod stage;
pub mod text;

pub use adapter::{
    conclude, dispatch, initialization_failed, invoke, martian_entry_point, panic_report,
    report_error, succeeded, unknown_stage, Dispatched, LevelFilter, MartianAdapter,
    PanicLocation, RawMartianStage, RunReport, SideFile,
};
pub use delimited_file::{
    extension_of, read_rows, round_trip_check, round_trip_rows, rows_from_records, same_records,
    write_rows, CommaDelimiter, Csv,
    CsvFile, CsvFormat, DelimitedError, DelimitedFormat, Delimiter, FileTypeIO, NamedValue,
    Record, TabDelimiter, Tsv, TsvFile, TsvFormat,
};
pub use document::{
    check_target, header_comment_ok, is_whitespace, make_mro_string, martian_make_mro,
    stage_mro_string, MroError, PathState,
};
pub use error::{format_error, AssertRule, ErrorClass, FaultKind, StageError};
pub use filetypes::{
    array_of, field_of, file_type, file_type_of, join_path, make_file_path, set_extension,
    AsMartianBlanketType, MartianFileType,
};
pub use headers::{FiletypeHeader, StructHeader};
pub use metadata::{initialization_error, initialize, Metadata, StageType};
pub use names::{rank, Rank};
pub use registry::StageRegistry;
pub use schema::{
    MartianBlanketType, MartianPrimaryType, MroField, SchemaError, SchemaRole, StructDef,
};
pub use stage::{ChunkSchemas, MroUsing, StageMro, Volatile};
