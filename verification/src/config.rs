//! Process-wide decoder configuration: the snapshot type with its defaults,
//! single-key updates by dotted path, and the validators for enumerated
//! fields.
//!
//! The snapshot is an immutable value. Callers that want one shared snapshot
//! hold it in a cell of their own and read it by cloning through
//! [`get_config`]; every update goes through [`set_config`], one dotted key
//! at a time.

use vstd::prelude::*;
use crate::strutil::{str_eq, ascii_lowercase, lower_seq, split_on_char, is_dec_seq, dec_val};

verus! {

/// Which dataframe flavour a language binding should prefer.
#[derive(Clone, Copy, Debug, PartialEq, Eq, Structural)]
pub enum PreferedDataframeType {
    Polars,
    Pandas,
}

/// Which ABI items a catalog scan extracts.
#[derive(Clone, Copy, Debug, PartialEq, Eq, Structural)]
pub enum AbiReadMode {
    Events,
    Functions,
    Both,
}

/// How raw rows are matched against the catalog.
#[derive(Clone, Copy, Debug, PartialEq, Eq, Structural)]
pub enum DecoderAlgorithm {
    HashAddress,
    Hash,
}

/// Stored representation of a payload column: raw bytes or `0x`-prefixed hex.
#[derive(Clone, Copy, Debug, PartialEq, Eq, Structural)]
pub enum DataType {
    Binary,
    HexString,
}

/// Tunables of the top-level component.
#[derive(Clone, Copy, Debug)]
pub struct GlaciersConfig {
    pub preferred_dataframe_type: PreferedDataframeType,
    pub unnesting_hex_string_encoding: bool,
}

/// Default file locations.
#[derive(Clone, Debug)]
pub struct MainConfig {
    pub events_abi_db_file_path: String,
    pub functions_abi_db_file_path: String,
    pub abi_folder_path: String,
    pub raw_logs_folder_path: String,
    pub raw_traces_folder_path: String,
}

/// Tunables of the ABI catalog builder.
#[derive(Clone, Debug)]
pub struct AbiReaderConfig {
    pub abi_read_mode: AbiReadMode,
    pub unique_key: Vec<String>,
    pub output_hex_string_encoding: bool,
}

/// Tunables of the decoder orchestrator.
#[derive(Clone, Debug)]
pub struct DecoderConfig {
    pub algorithm: DecoderAlgorithm,
    pub output_hex_string_encoding: bool,
    pub output_file_format: String,
    pub max_concurrent_files_decoding: usize,
    pub max_chunk_threads_per_file: usize,
    pub decoded_chunk_size: usize,
}

/// Column names of a raw log table.
#[derive(Clone, Debug)]
pub struct LogAliasConfig {
    pub topic0: String,
    pub topic1: String,
    pub topic2: String,
    pub topic3: String,
    pub data: String,
    pub address: String,
}

/// Stored representation of each raw log column.
#[derive(Clone, Copy, Debug)]
pub struct LogDatatypeConfig {
    pub topic0: DataType,
    pub topic1: DataType,
    pub topic2: DataType,
    pub topic3: DataType,
    pub data: DataType,
    pub address: DataType,
}

/// Schema of a raw log table: aliases and representations.
#[derive(Clone, Debug)]
pub struct LogSchemaConfig {
    pub log_alias: LogAliasConfig,
    pub log_datatype: LogDatatypeConfig,
}

/// Tunables of the log decoder.
#[derive(Clone, Debug)]
pub struct LogDecoderConfig {
    pub log_schema: LogSchemaConfig,
}

/// Column names of a raw trace table.
#[derive(Clone, Debug)]
pub struct TraceAliasConfig {
    pub selector: String,
    pub action_input: String,
    pub result_output: String,
    pub action_to: String,
}

/// Stored representation of each raw trace column.
#[derive(Clone, Copy, Debug)]
pub struct TraceDatatypeConfig {
    pub selector: DataType,
    pub action_input: DataType,
    pub result_output: DataType,
    pub action_to: DataType,
}

/// Schema of a raw trace table: aliases and representations.
#[derive(Clone, Debug)]
pub struct TraceSchemaConfig {
    pub trace_alias: TraceAliasConfig,
    pub trace_datatype: TraceDatatypeConfig,
}

/// Tunables of the trace decoder.
#[derive(Clone, Debug)]
pub struct TraceDecoderConfig {
    pub trace_schema: TraceSchemaConfig,
}

/// The whole configuration snapshot.
#[derive(Clone, Debug)]
pub struct Config {
    pub glaciers: GlaciersConfig,
    pub main: MainConfig,
    pub abi_reader: AbiReaderConfig,
    pub decoder: DecoderConfig,
    pub log_decoder: LogDecoderConfig,
    pub trace_decoder: TraceDecoderConfig,
}

/// Abstract value of [`MainConfig`].
pub ghost struct MainConfigV {
    pub events_abi_db_file_path: Seq<char>,
    pub functions_abi_db_file_path: Seq<char>,
    pub abi_folder_path: Seq<char>,
    pub raw_logs_folder_path: Seq<char>,
    pub raw_traces_folder_path: Seq<char>,
}

/// Abstract value of [`AbiReaderConfig`].
pub ghost struct AbiReaderConfigV {
    pub abi_read_mode: AbiReadMode,
    pub unique_key: Seq<Seq<char>>,
    pub output_hex_string_encoding: bool,
}

/// Abstract value of [`DecoderConfig`].
pub ghost struct DecoderConfigV {
    pub algorithm: DecoderAlgorithm,
    pub output_hex_string_encoding: bool,
    pub output_file_format: Seq<char>,
    pub max_concurrent_files_decoding: usize,
    pub max_chunk_threads_per_file: usize,
    pub decoded_chunk_size: usize,
}

/// Abstract value of [`LogAliasConfig`].
pub ghost struct LogAliasConfigV {
    pub topic0: Seq<char>,
    pub topic1: Seq<char>,
    pub topic2: Seq<char>,
    pub topic3: Seq<char>,
    pub data: Seq<char>,
    pub address: Seq<char>,
}

/// Abstract value of [`LogSchemaConfig`].
pub ghost struct LogSchemaConfigV {
    pub log_alias: LogAliasConfigV,
    pub log_datatype: LogDatatypeConfig,
}

/// Abstract value of [`TraceAliasConfig`].
pub ghost struct TraceAliasConfigV {
    pub selector: Seq<char>,
    pub action_input: Seq<char>,
    pub result_output: Seq<char>,
    pub action_to: Seq<char>,
}

/// Abstract value of [`TraceSchemaConfig`].
pub ghost struct TraceSchemaConfigV {
    pub trace_alias: TraceAliasConfigV,
    pub trace_datatype: TraceDatatypeConfig,
}

/// Abstract value of [`Config`].
pub ghost struct ConfigV {
    pub glaciers: GlaciersConfig,
    pub main: MainConfigV,
    pub abi_reader: AbiReaderConfigV,
    pub decoder: DecoderConfigV,
    pub log_schema: LogSchemaConfigV,
    pub trace_schema: TraceSchemaConfigV,
}

impl View for MainConfig {
    type V = MainConfigV;

    open spec fn view(&self) -> MainConfigV {
        MainConfigV {
            events_abi_db_file_path: self.events_abi_db_file_path@,
            functions_abi_db_file_path: self.functions_abi_db_file_path@,
            abi_folder_path: self.abi_folder_path@,
            raw_logs_folder_path: self.raw_logs_folder_path@,
            raw_traces_folder_path: self.raw_traces_folder_path@,
        }
    }
}

impl View for AbiReaderConfig {
    type V = AbiReaderConfigV;

    open spec fn view(&self) -> AbiReaderConfigV {
        AbiReaderConfigV {
            abi_read_mode: self.abi_read_mode,
            unique_key: self.unique_key.deep_view(),
            output_hex_string_encoding: self.output_hex_string_encoding,
        }
    }
}

impl View for DecoderConfig {
    type V = DecoderConfigV;

    open spec fn view(&self) -> DecoderConfigV {
        DecoderConfigV {
            algorithm: self.algorithm,
            output_hex_string_encoding: self.output_hex_string_encoding,
            output_file_format: self.output_file_format@,
            max_concurrent_files_decoding: self.max_concurrent_files_decoding,
            max_chunk_threads_per_file: self.max_chunk_threads_per_file,
            decoded_chunk_size: self.decoded_chunk_size,
        }
    }
}

impl View for LogAliasConfig {
    type V = LogAliasConfigV;

    open spec fn view(&self) -> LogAliasConfigV {
        LogAliasConfigV {
            topic0: self.topic0@,
            topic1: self.topic1@,
            topic2: self.topic2@,
            topic3: self.topic3@,
            data: self.data@,
            address: self.address@,
        }
    }
}

impl View for LogSchemaConfig {
    type V = LogSchemaConfigV;

    open spec fn view(&self) -> LogSchemaConfigV {
        LogSchemaConfigV { log_alias: self.log_alias@, log_datatype: self.log_datatype }
    }
}

impl View for TraceAliasConfig {
    type V = TraceAliasConfigV;

    open spec fn view(&self) -> TraceAliasConfigV {
        TraceAliasConfigV {
            selector: self.selector@,
            action_input: self.action_input@,
            result_output: self.result_output@,
            action_to: self.action_to@,
        }
    }
}

impl View for TraceSchemaConfig {
    type V = TraceSchemaConfigV;

    open spec fn view(&self) -> TraceSchemaConfigV {
        TraceSchemaConfigV {
            trace_alias: self.trace_alias@,
            trace_datatype: self.trace_datatype,
        }
    }
}

impl View for Config {
    type V = ConfigV;

    open spec fn view(&self) -> ConfigV {
        ConfigV {
            glaciers: self.glaciers,
            main: self.main@,
            abi_reader: self.abi_reader@,
            decoder: self.decoder@,
            log_schema: self.log_decoder.log_schema@,
            trace_schema: self.trace_decoder.trace_schema@,
        }
    }
}

impl LogAliasConfig {
    /// The column names handed to the log kernel, in kernel order; the
    /// address column is not part of the kernel input.
    pub fn as_array(&self) -> (r: Vec<String>)
        ensures
            r.deep_view() =~= seq![
                self.topic0@,
                self.topic1@,
                self.topic2@,
                self.topic3@,
                self.data@,
            ],
    {
        let mut r: Vec<String> = Vec::new();
        r.push(self.topic0.clone());
        r.push(self.topic1.clone());
        r.push(self.topic2.clone());
        r.push(self.topic3.clone());
        r.push(self.data.clone());
        r
    }
}

impl LogDatatypeConfig {
    /// The stored representations of all log columns, in schema order.
    pub fn as_array(&self) -> (r: Vec<DataType>)
        ensures
            r@ =~= seq![
                self.topic0,
                self.topic1,
                self.topic2,
                self.topic3,
                self.data,
                self.address,
            ],
    {
        let mut r: Vec<DataType> = Vec::new();
        r.push(self.topic0);
        r.push(self.topic1);
        r.push(self.topic2);
        r.push(self.topic3);
        r.push(self.data);
        r.push(self.address);
        r
    }
}

impl TraceAliasConfig {
    /// The column names handed to the trace kernel, in kernel order.
    pub fn as_array(&self) -> (r: Vec<String>)
        ensures
            r.deep_view() =~= seq![self.action_input@, self.result_output@],
    {
        let mut r: Vec<String> = Vec::new();
        r.push(self.action_input.clone());
        r.push(self.result_output.clone());
        r
    }
}

impl TraceDatatypeConfig {
    /// The stored representations of all trace columns, in schema order.
    pub fn as_array(&self) -> (r: Vec<DataType>)
        ensures
            r@ =~= seq![self.selector, self.action_input, self.result_output, self.action_to],
    {
        let mut r: Vec<DataType> = Vec::new();
        r.push(self.selector);
        r.push(self.action_input);
        r.push(self.result_output);
        r.push(self.action_to);
        r
    }
}

/// The built-in default snapshot.
pub open spec fn spec_default_config() -> ConfigV {
    ConfigV {
        glaciers: GlaciersConfig {
            preferred_dataframe_type: PreferedDataframeType::Polars,
            unnesting_hex_string_encoding: false,
        },
        main: MainConfigV {
            events_abi_db_file_path: "ABIs/ethereum__events__abis.parquet"@,
            functions_abi_db_file_path: "ABIs/ethereum__functions__abis.parquet"@,
            abi_folder_path: "ABIs/abi_database"@,
            raw_logs_folder_path: "data/logs"@,
            raw_traces_folder_path: "data/traces"@,
        },
        abi_reader: AbiReaderConfigV {
            abi_read_mode: AbiReadMode::Events,
            unique_key: seq!["hash"@, "full_signature"@, "address"@],
            output_hex_string_encoding: false,
        },
        decoder: DecoderConfigV {
            algorithm: DecoderAlgorithm::Hash,
            output_hex_string_encoding: false,
            output_file_format: "parquet"@,
            max_concurrent_files_decoding: 16,
            max_chunk_threads_per_file: 16,
            decoded_chunk_size: 500000,
        },
        log_schema: LogSchemaConfigV {
            log_alias: LogAliasConfigV {
                topic0: "topic0"@,
                topic1: "topic1"@,
                topic2: "topic2"@,
                topic3: "topic3"@,
                data: "data"@,
                address: "address"@,
            },
            log_datatype: LogDatatypeConfig {
                topic0: DataType::Binary,
                topic1: DataType::Binary,
                topic2: DataType::Binary,
                topic3: DataType::Binary,
                data: DataType::Binary,
                address: DataType::Binary,
            },
        },
        trace_schema: TraceSchemaConfigV {
            trace_alias: TraceAliasConfigV {
                selector: "selector"@,
                action_input: "action_input"@,
                result_output: "result_output"@,
                action_to: "action_to"@,
            },
            trace_datatype: TraceDatatypeConfig {
                selector: DataType::Binary,
                action_input: DataType::Binary,
                result_output: DataType::Binary,
                action_to: DataType::Binary,
            },
        },
    }
}

impl Config {
    /// Builds the built-in default snapshot.
    pub fn new() -> (c: Config)
        ensures
            c@ == spec_default_config(),
            c.wf(),
    {
        let c = Config {
            glaciers: GlaciersConfig {
                preferred_dataframe_type: PreferedDataframeType::Polars,
                unnesting_hex_string_encoding: false,
            },
            main: MainConfig {
                events_abi_db_file_path: String::from_str("ABIs/ethereum__events__abis.parquet"),
                functions_abi_db_file_path: String::from_str(
                    "ABIs/ethereum__functions__abis.parquet",
                ),
                abi_folder_path: String::from_str("ABIs/abi_database"),
                raw_logs_folder_path: String::from_str("data/logs"),
                raw_traces_folder_path: String::from_str("data/traces"),
            },
            abi_reader: AbiReaderConfig {
                abi_read_mode: AbiReadMode::Events,
                unique_key: make_default_unique_key(),
                output_hex_string_encoding: false,
            },
            decoder: DecoderConfig {
                algorithm: DecoderAlgorithm::Hash,
                output_hex_string_encoding: false,
                output_file_format: String::from_str("parquet"),
                max_concurrent_files_decoding: 16,
                max_chunk_threads_per_file: 16,
                decoded_chunk_size: 500000,
            },
            log_decoder: LogDecoderConfig {
                log_schema: LogSchemaConfig {
                    log_alias: LogAliasConfig {
                        topic0: String::from_str("topic0"),
                        topic1: String::from_str("topic1"),
                        topic2: String::from_str("topic2"),
                        topic3: String::from_str("topic3"),
                        data: String::from_str("data"),
                        address: String::from_str("address"),
                    },
                    log_datatype: LogDatatypeConfig {
                        topic0: DataType::Binary,
                        topic1: DataType::Binary,
                        topic2: DataType::Binary,
                        topic3: DataType::Binary,
                        data: DataType::Binary,
                        address: DataType::Binary,
                    },
                },
            },
            trace_decoder: TraceDecoderConfig {
                trace_schema: TraceSchemaConfig {
                    trace_alias: TraceAliasConfig {
                        selector: String::from_str("selector"),
                        action_input: String::from_str("action_input"),
                        result_output: String::from_str("result_output"),
                        action_to: String::from_str("action_to"),
                    },
                    trace_datatype: TraceDatatypeConfig {
                        selector: DataType::Binary,
                        action_input: DataType::Binary,
                        result_output: DataType::Binary,
                        action_to: DataType::Binary,
                    },
                },
            },
        };
        proof {
            reveal_strlit("parquet");
            reveal_strlit("csv");
        }
        assert(c@ == spec_default_config()) by {
            assert(c@.abi_reader.unique_key =~= spec_default_config().abi_reader.unique_key);
            assert(c@ =~= spec_default_config());
        }
        c
    }

    /// A snapshot is well formed when its enumerated string fields hold
    /// allowed values and its concurrency and chunking limits are positive.
    pub open spec fn wf(&self) -> bool {
        &&& self@.decoder.output_file_format == "csv"@ || self@.decoder.output_file_format
            == "parquet"@
        &&& self@.decoder.max_concurrent_files_decoding >= 1
        &&& self@.decoder.max_chunk_threads_per_file >= 1
        &&& self@.decoder.decoded_chunk_size >= 1
        &&& forall|i: int|
            0 <= i < self@.abi_reader.unique_key.len() ==> allowed_unique_key(
                #[trigger] self@.abi_reader.unique_key[i],
            )
    }
}

/// Builds the default `unique_key` list.
fn make_default_unique_key() -> (r: Vec<String>)
    ensures
        r.deep_view() =~= seq!["hash"@, "full_signature"@, "address"@],
        forall|i: int| 0 <= i < r.deep_view().len() ==> allowed_unique_key(#[trigger] r.deep_view()[i]),
{
    proof {
        reveal_strlit("hash");
        reveal_strlit("full_signature");
        reveal_strlit("address");
    }
    let mut r: Vec<String> = Vec::new();
    r.push(String::from_str("hash"));
    r.push(String::from_str("full_signature"));
    r.push(String::from_str("address"));
    assert(r.deep_view() =~= seq!["hash"@, "full_signature"@, "address"@]);
    r
}

/// Whether a string may appear in `unique_key`.
pub open spec fn allowed_unique_key(s: Seq<char>) -> bool {
    s == "hash"@ || s == "full_signature"@ || s == "address"@
}

/// Returns a value copy of the given snapshot, field for field.
pub fn get_config(config: &Config) -> (r: Config)
    ensures
        r@ == config@,
{
    let r = Config {
        glaciers: config.glaciers,
        main: MainConfig {
            events_abi_db_file_path: config.main.events_abi_db_file_path.clone(),
            functions_abi_db_file_path: config.main.functions_abi_db_file_path.clone(),
            abi_folder_path: config.main.abi_folder_path.clone(),
            raw_logs_folder_path: config.main.raw_logs_folder_path.clone(),
            raw_traces_folder_path: config.main.raw_traces_folder_path.clone(),
        },
        abi_reader: AbiReaderConfig {
            abi_read_mode: config.abi_reader.abi_read_mode,
            unique_key: clone_string_vec(&config.abi_reader.unique_key),
            output_hex_string_encoding: config.abi_reader.output_hex_string_encoding,
        },
        decoder: DecoderConfig {
            algorithm: config.decoder.algorithm,
            output_hex_string_encoding: config.decoder.output_hex_string_encoding,
            output_file_format: config.decoder.output_file_format.clone(),
            max_concurrent_files_decoding: config.decoder.max_concurrent_files_decoding,
            max_chunk_threads_per_file: config.decoder.max_chunk_threads_per_file,
            decoded_chunk_size: config.decoder.decoded_chunk_size,
        },
        log_decoder: LogDecoderConfig {
            log_schema: LogSchemaConfig {
                log_alias: LogAliasConfig {
                    topic0: config.log_decoder.log_schema.log_alias.topic0.clone(),
                    topic1: config.log_decoder.log_schema.log_alias.topic1.clone(),
                    topic2: config.log_decoder.log_schema.log_alias.topic2.clone(),
                    topic3: config.log_decoder.log_schema.log_alias.topic3.clone(),
                    data: config.log_decoder.log_schema.log_alias.data.clone(),
                    address: config.log_decoder.log_schema.log_alias.address.clone(),
                },
                log_datatype: config.log_decoder.log_schema.log_datatype,
            },
        },
        trace_decoder: TraceDecoderConfig {
            trace_schema: TraceSchemaConfig {
                trace_alias: TraceAliasConfig {
                    selector: config.trace_decoder.trace_schema.trace_alias.selector.clone(),
                    action_input: config.trace_decoder.trace_schema.trace_alias.action_input.clone(),
                    result_output: config
                        .trace_decoder
                        .trace_schema
                        .trace_alias
                        .result_output
                        .clone(),
                    action_to: config.trace_decoder.trace_schema.trace_alias.action_to.clone(),
                },
                trace_datatype: config.trace_decoder.trace_schema.trace_datatype,
            },
        },
    };
    assert(r@ =~= config@);
    r
}

/// A value handed to [`set_config`]: the kinds a configuration key can take.
#[derive(Clone, Debug)]
pub enum ConfigValue {
    String(String),
    Number(usize),
    List(Vec<String>),
    Boolean(bool),
}

/// Failures of configuration loading and updating.
#[derive(Debug)]
pub enum ConfiggerError {
    IOError(String),
    ParseError(String),
    InvalidTomlFormat,
    UnsupportedValueType(String),
    InvalidFieldOrValue(String),
}

/// Abstract value of [`ConfigValue`].
pub ghost enum ConfigValueV {
    Str(Seq<char>),
    Num(usize),
    List(Seq<Seq<char>>),
    Bool(bool),
}

impl View for ConfigValue {
    type V = ConfigValueV;

    open spec fn view(&self) -> ConfigValueV {
        match self {
            ConfigValue::String(s) => ConfigValueV::Str(s@),
            ConfigValue::Number(n) => ConfigValueV::Num(*n),
            ConfigValue::List(l) => ConfigValueV::List(l.deep_view()),
            ConfigValue::Boolean(b) => ConfigValueV::Bool(*b),
        }
    }
}

/// The boolean a configuration value denotes: booleans themselves, and the
/// numbers one and zero.
pub open spec fn bool_of_value(v: ConfigValueV) -> Option<bool> {
    match v {
        ConfigValueV::Bool(b) => Some(b),
        ConfigValueV::Num(n) => if n == 1 {
            Some(true)
        } else if n == 0 {
            Some(false)
        } else {
            None
        },
        _ => None,
    }
}

/// The column representation a string denotes, case-insensitively.
pub open spec fn datatype_of(s: Seq<char>) -> Option<DataType> {
    if lower_seq(s) == "binary"@ {
        Some(DataType::Binary)
    } else if lower_seq(s) == "hexstring"@ {
        Some(DataType::HexString)
    } else {
        None
    }
}

/// Effect of one `set_config` call on the `glaciers` group.
#[verifier::opaque]
pub open spec fn apply_glaciers(c: ConfigV, f: Seq<char>, v: ConfigValueV) -> Option<ConfigV> {
    if f == "preferred_dataframe_type"@ {
        match v {
            ConfigValueV::Str(s) => if lower_seq(s) == "polars"@ {
                Some(
                    ConfigV {
                        glaciers: GlaciersConfig {
                            preferred_dataframe_type: PreferedDataframeType::Polars,
                            ..c.glaciers
                        },
                        ..c
                    },
                )
            } else if lower_seq(s) == "pandas"@ {
                Some(
                    ConfigV {
                        glaciers: GlaciersConfig {
                            preferred_dataframe_type: PreferedDataframeType::Pandas,
                            ..c.glaciers
                        },
                        ..c
                    },
                )
            } else {
                None
            },
            _ => None,
        }
    } else if f == "unnesting_hex_string_encoding"@ {
        match bool_of_value(v) {
            Some(b) => Some(
                ConfigV {
                    glaciers: GlaciersConfig { unnesting_hex_string_encoding: b, ..c.glaciers },
                    ..c
                },
            ),
            None => None,
        }
    } else {
        None
    }
}

/// Effect of one `set_config` call on the `main` group.
#[verifier::opaque]
pub open spec fn apply_main(c: ConfigV, f: Seq<char>, v: ConfigValueV) -> Option<ConfigV> {
    match v {
        ConfigValueV::Str(s) => if f == "events_abi_db_file_path"@ {
            Some(ConfigV { main: MainConfigV { events_abi_db_file_path: s, ..c.main }, ..c })
        } else if f == "functions_abi_db_file_path"@ {
            Some(ConfigV { main: MainConfigV { functions_abi_db_file_path: s, ..c.main }, ..c })
        } else if f == "abi_folder_path"@ {
            Some(ConfigV { main: MainConfigV { abi_folder_path: s, ..c.main }, ..c })
        } else if f == "raw_logs_folder_path"@ {
            Some(ConfigV { main: MainConfigV { raw_logs_folder_path: s, ..c.main }, ..c })
        } else if f == "raw_traces_folder_path"@ {
            Some(ConfigV { main: MainConfigV { raw_traces_folder_path: s, ..c.main }, ..c })
        } else {
            None
        },
        _ => None,
    }
}

/// Whether every entry of a key list is one of the allowed `unique_key`
/// member names.
pub open spec fn all_allowed_unique_keys(l: Seq<Seq<char>>) -> bool {
    forall|i: int| 0 <= i < l.len() ==> allowed_unique_key(#[trigger] l[i])
}

/// Effect of one `set_config` call on the `abi_reader` group.
#[verifier::opaque]
pub open spec fn apply_abi_reader(c: ConfigV, f: Seq<char>, v: ConfigValueV) -> Option<ConfigV> {
    if f == "abi_read_mode"@ {
        match v {
            ConfigValueV::Str(s) => {
                let m = if lower_seq(s) == "events"@ {
                    Some(AbiReadMode::Events)
                } else if lower_seq(s) == "functions"@ {
                    Some(AbiReadMode::Functions)
                } else if lower_seq(s) == "both"@ {
                    Some(AbiReadMode::Both)
                } else {
                    None
                };
                match m {
                    Some(m) => Some(
                        ConfigV {
                            abi_reader: AbiReaderConfigV { abi_read_mode: m, ..c.abi_reader },
                            ..c
                        },
                    ),
                    None => None,
                }
            },
            _ => None,
        }
    } else if f == "output_hex_string_encoding"@ {
        match bool_of_value(v) {
            Some(b) => Some(
                ConfigV {
                    abi_reader: AbiReaderConfigV {
                        output_hex_string_encoding: b,
                        ..c.abi_reader
                    },
                    ..c
                },
            ),
            None => None,
        }
    } else if f == "unique_key"@ {
        let lowered = match v {
            ConfigValueV::List(l) => Some(l.map_values(|s: Seq<char>| lower_seq(s))),
            ConfigValueV::Str(s) => Some(seq![lower_seq(s)]),
            _ => None,
        };
        match lowered {
            Some(l) => if all_allowed_unique_keys(l) {
                Some(
                    ConfigV {
                        abi_reader: AbiReaderConfigV { unique_key: l, ..c.abi_reader },
                        ..c
                    },
                )
            } else {
                None
            },
            None => None,
        }
    } else {
        None
    }
}

/// Effect of one `set_config` call on the `decoder` group. The three worker
/// and chunking limits must stay positive.
#[verifier::opaque]
pub open spec fn apply_decoder(c: ConfigV, f: Seq<char>, v: ConfigValueV) -> Option<ConfigV> {
    if f == "algorithm"@ {
        match v {
            ConfigValueV::Str(s) => if lower_seq(s) == "hash_address"@ {
                Some(
                    ConfigV {
                        decoder: DecoderConfigV {
                            algorithm: DecoderAlgorithm::HashAddress,
                            ..c.decoder
                        },
                        ..c
                    },
                )
            } else if lower_seq(s) == "hash"@ {
                Some(
                    ConfigV {
                        decoder: DecoderConfigV { algorithm: DecoderAlgorithm::Hash, ..c.decoder },
                        ..c
                    },
                )
            } else {
                None
            },
            _ => None,
        }
    } else if f == "output_hex_string_encoding"@ {
        match bool_of_value(v) {
            Some(b) => Some(
                ConfigV {
                    decoder: DecoderConfigV { output_hex_string_encoding: b, ..c.decoder },
                    ..c
                },
            ),
            None => None,
        }
    } else if f == "output_file_format"@ {
        match v {
            ConfigValueV::Str(s) => if lower_seq(s) == "csv"@ || lower_seq(s) == "parquet"@ {
                Some(
                    ConfigV {
                        decoder: DecoderConfigV {
                            output_file_format: lower_seq(s),
                            ..c.decoder
                        },
                        ..c
                    },
                )
            } else {
                None
            },
            _ => None,
        }
    } else if f == "max_concurrent_files_decoding"@ {
        match v {
            ConfigValueV::Num(n) => if n >= 1 {
                Some(
                    ConfigV {
                        decoder: DecoderConfigV {
                            max_concurrent_files_decoding: n,
                            ..c.decoder
                        },
                        ..c
                    },
                )
            } else {
                None
            },
            _ => None,
        }
    } else if f == "max_chunk_threads_per_file"@ {
        match v {
            ConfigValueV::Num(n) => if n >= 1 {
                Some(
                    ConfigV {
                        decoder: DecoderConfigV { max_chunk_threads_per_file: n, ..c.decoder },
                        ..c
                    },
                )
            } else {
                None
            },
            _ => None,
        }
    } else if f == "decoded_chunk_size"@ {
        match v {
            ConfigValueV::Num(n) => if n >= 1 {
                Some(
                    ConfigV {
                        decoder: DecoderConfigV { decoded_chunk_size: n, ..c.decoder },
                        ..c
                    },
                )
            } else {
                None
            },
            _ => None,
        }
    } else {
        None
    }
}

/// Effect of one `set_config` call on a log schema alias.
#[verifier::opaque]
pub open spec fn apply_log_alias(c: ConfigV, leaf: Seq<char>, s: Seq<char>) -> Option<ConfigV> {
    let a = c.log_schema.log_alias;
    let updated = if leaf == "topic0"@ {
        Some(LogAliasConfigV { topic0: s, ..a })
    } else if leaf == "topic1"@ {
        Some(LogAliasConfigV { topic1: s, ..a })
    } else if leaf == "topic2"@ {
        Some(LogAliasConfigV { topic2: s, ..a })
    } else if leaf == "topic3"@ {
        Some(LogAliasConfigV { topic3: s, ..a })
    } else if leaf == "data"@ {
        Some(LogAliasConfigV { data: s, ..a })
    } else if leaf == "address"@ {
        Some(LogAliasConfigV { address: s, ..a })
    } else {
        None
    };
    match updated {
        Some(a) => Some(
            ConfigV { log_schema: LogSchemaConfigV { log_alias: a, ..c.log_schema }, ..c },
        ),
        None => None,
    }
}

/// Effect of one `set_config` call on a log schema datatype.
#[verifier::opaque]
pub open spec fn apply_log_datatype(c: ConfigV, leaf: Seq<char>, s: Seq<char>) -> Option<ConfigV> {
    let d = c.log_schema.log_datatype;
    match datatype_of(s) {
        Some(dt) => {
            let updated = if leaf == "topic0"@ {
                Some(LogDatatypeConfig { topic0: dt, ..d })
            } else if leaf == "topic1"@ {
                Some(LogDatatypeConfig { topic1: dt, ..d })
            } else if leaf == "topic2"@ {
                Some(LogDatatypeConfig { topic2: dt, ..d })
            } else if leaf == "topic3"@ {
                Some(LogDatatypeConfig { topic3: dt, ..d })
            } else if leaf == "data"@ {
                Some(LogDatatypeConfig { data: dt, ..d })
            } else if leaf == "address"@ {
                Some(LogDatatypeConfig { address: dt, ..d })
            } else {
                None
            };
            match updated {
                Some(d) => Some(
                    ConfigV {
                        log_schema: LogSchemaConfigV { log_datatype: d, ..c.log_schema },
                        ..c
                    },
                ),
                None => None,
            }
        },
        None => None,
    }
}

/// Effect of one `set_config` call on a trace schema alias.
#[verifier::opaque]
pub open spec fn apply_trace_alias(c: ConfigV, leaf: Seq<char>, s: Seq<char>) -> Option<ConfigV> {
    let a = c.trace_schema.trace_alias;
    let updated = if leaf == "selector"@ {
        Some(TraceAliasConfigV { selector: s, ..a })
    } else if leaf == "action_input"@ {
        Some(TraceAliasConfigV { action_input: s, ..a })
    } else if leaf == "result_output"@ {
        Some(TraceAliasConfigV { result_output: s, ..a })
    } else if leaf == "action_to"@ {
        Some(TraceAliasConfigV { action_to: s, ..a })
    } else {
        None
    };
    match updated {
        Some(a) => Some(
            ConfigV { trace_schema: TraceSchemaConfigV { trace_alias: a, ..c.trace_schema }, ..c },
        ),
        None => None,
    }
}

/// Effect of one `set_config` call on a trace schema datatype.
#[verifier::opaque]
pub open spec fn apply_trace_datatype(c: ConfigV, leaf: Seq<char>, s: Seq<char>) -> Option<
    ConfigV,
> {
    let d = c.trace_schema.trace_datatype;
    match datatype_of(s) {
        Some(dt) => {
            let updated = if leaf == "selector"@ {
                Some(TraceDatatypeConfig { selector: dt, ..d })
            } else if leaf == "action_input"@ {
                Some(TraceDatatypeConfig { action_input: dt, ..d })
            } else if leaf == "result_output"@ {
                Some(TraceDatatypeConfig { result_output: dt, ..d })
            } else if leaf == "action_to"@ {
                Some(TraceDatatypeConfig { action_to: dt, ..d })
            } else {
                None
            };
            match updated {
                Some(d) => Some(
                    ConfigV {
                        trace_schema: TraceSchemaConfigV { trace_datatype: d, ..c.trace_schema },
                        ..c
                    },
                ),
                None => None,
            }
        },
        None => None,
    }
}

/// Effect of one `set_config` call under `log_decoder.log_schema`.
pub open spec fn apply_log_schema(c: ConfigV, group: Seq<char>, leaf: Seq<char>, s: Seq<char>)
    -> Option<ConfigV> {
    if group == "log_alias"@ {
        apply_log_alias(c, leaf, s)
    } else if group == "log_datatype"@ {
        apply_log_datatype(c, leaf, s)
    } else {
        None
    }
}

/// Effect of one `set_config` call under `trace_decoder.trace_schema`.
pub open spec fn apply_trace_schema(c: ConfigV, group: Seq<char>, leaf: Seq<char>, s: Seq<char>)
    -> Option<ConfigV> {
    if group == "trace_alias"@ {
        apply_trace_alias(c, leaf, s)
    } else if group == "trace_datatype"@ {
        apply_trace_datatype(c, leaf, s)
    } else {
        None
    }
}

/// Effect of one `set_config` call on the whole snapshot: `Some` with the new
/// snapshot when the dotted path and the value kind are recognized, `None`
/// otherwise. Segments past the ones a path consults are ignored: the
/// lookup reads only as many segments as the key needs.
pub open spec fn apply_set(c: ConfigV, path: Seq<char>, v: ConfigValueV) -> Option<ConfigV> {
    let segs = crate::strutil::split_char(path, '.');
    if segs[0] == "glaciers"@ && segs.len() >= 2 {
        apply_glaciers(c, segs[1], v)
    } else if segs[0] == "main"@ && segs.len() >= 2 {
        apply_main(c, segs[1], v)
    } else if segs[0] == "abi_reader"@ && segs.len() >= 2 {
        apply_abi_reader(c, segs[1], v)
    } else if segs[0] == "decoder"@ && segs.len() >= 2 {
        apply_decoder(c, segs[1], v)
    } else if segs[0] == "log_decoder"@ && segs.len() >= 4 && segs[1] == "log_schema"@ {
        match v {
            ConfigValueV::Str(s) => apply_log_schema(c, segs[2], segs[3], s),
            _ => None,
        }
    } else if segs[0] == "trace_decoder"@ && segs.len() >= 4 && segs[1] == "trace_schema"@ {
        match v {
            ConfigValueV::Str(s) => apply_trace_schema(c, segs[2], segs[3], s),
            _ => None,
        }
    } else {
        None
    }
}

/// Copies a vector of strings, preserving its abstract value.
pub fn clone_string_vec(v: &Vec<String>) -> (r: Vec<String>)
    ensures
        r.deep_view() == v.deep_view(),
{
    let r = v.clone();
    assert forall|i: int| 0 <= i < r@.len() implies r@[i]@ == v@[i]@ by {
        assert(vstd::pervasive::cloned::<String>(v@[i], r@[i]));
    }
    assert(r.deep_view() =~= v.deep_view());
    r
}

/// The boolean a configuration value denotes, as executable code.
fn bool_from_value(value: &ConfigValue) -> (r: Option<bool>)
    ensures
        r == bool_of_value((*value)@),
{
    match value {
        ConfigValue::Boolean(b) => Some(*b),
        ConfigValue::Number(n) => if *n == 1 {
            Some(true)
        } else if *n == 0 {
            Some(false)
        } else {
            None
        },
        _ => None,
    }
}

/// Parses a column representation name, case-insensitively.
fn datatype_from_str(s: &str) -> (r: Option<DataType>)
    ensures
        r == datatype_of(s@),
{
    let lv = ascii_lowercase(s);
    if str_eq(lv.as_str(), "binary") {
        Some(DataType::Binary)
    } else if str_eq(lv.as_str(), "hexstring") {
        Some(DataType::HexString)
    } else {
        None
    }
}

/// Checks that every entry is an allowed `unique_key` member name.
pub fn validate_unique_key(unique_key: &Vec<String>) -> (r: Result<(), ConfiggerError>)
    ensures
        r is Ok <==> all_allowed_unique_keys(unique_key.deep_view()),
        r is Err ==> r->Err_0 is InvalidFieldOrValue,
{
    let mut i: usize = 0;
    while i < unique_key.len()
        invariant
            i <= unique_key@.len(),
            forall|j: int|
                0 <= j < i ==> allowed_unique_key(#[trigger] unique_key.deep_view()[j]),
        decreases unique_key@.len() - i,
    {
        let ok = str_eq(unique_key[i].as_str(), "hash") || str_eq(
            unique_key[i].as_str(),
            "full_signature",
        ) || str_eq(unique_key[i].as_str(), "address");
        if !ok {
            assert(!allowed_unique_key(unique_key.deep_view()[i as int]));
            return Err(ConfiggerError::InvalidFieldOrValue(unique_key[i].clone()));
        }
        assert(allowed_unique_key(unique_key.deep_view()[i as int]));
        i = i + 1;
    }
    Ok(())
}

/// Checks that an output file format is `csv` or `parquet`.
pub fn validate_output_file_format(output_file_format: &String) -> (r: Result<
    (),
    ConfiggerError,
>)
    ensures
        r is Ok <==> (output_file_format@ == "csv"@ || output_file_format@ == "parquet"@),
        r is Err ==> r->Err_0 is InvalidFieldOrValue,
{
    if str_eq(output_file_format.as_str(), "csv") || str_eq(
        output_file_format.as_str(),
        "parquet",
    ) {
        Ok(())
    } else {
        Err(ConfiggerError::InvalidFieldOrValue(output_file_format.clone()))
    }
}

/// Folds every entry of a list of strings to ASCII lower case.
fn lower_string_vec(v: &Vec<String>) -> (r: Vec<String>)
    ensures
        r.deep_view() == v.deep_view().map_values(|s: Seq<char>| lower_seq(s)),
{
    let mut r: Vec<String> = Vec::new();
    let mut i: usize = 0;
    while i < v.len()
        invariant
            i <= v@.len(),
            r.deep_view() =~= v.deep_view().map_values(|s: Seq<char>| lower_seq(s)).take(i as int),
        decreases v@.len() - i,
    {
        let lw = ascii_lowercase(v[i].as_str());
        proof {
            assert(v.deep_view()[i as int] == v@[i as int]@);
        }
        let ghost pre = r@;
        let ghost pre_deep = r.deep_view();
        r.push(lw);
        proof {
            assert(r@ == pre.push(lw));
            assert(pre_deep.len() == pre.len());
            assert(pre.len() == i);
            let m = v.deep_view().map_values(|s: Seq<char>| lower_seq(s));
            assert forall|j: int| 0 <= j < i + 1 implies r.deep_view()[j] == m.take(
                i + 1 as int,
            )[j] by {
                if j < i {
                    assert(r@[j] == pre[j]);
                    assert(pre_deep[j] == pre[j]@);
                    assert(pre_deep[j] == m.take(i as int)[j]);
                } else {
                    assert(r@[j] == lw);
                }
            }
            assert(r.deep_view() =~= m.take(i + 1 as int));
        }
        i = i + 1;
    }
    assert(r.deep_view() =~= v.deep_view().map_values(|s: Seq<char>| lower_seq(s)));
    r
}

/// Applies one `set_config` update inside the `glaciers` group.
fn set_config_glaciers(config: &mut Config, field: &String, value: ConfigValue) -> (r: Result<
    (),
    ConfiggerError,
>)
    ensures
        r is Ok <==> apply_glaciers(old(config)@, field@, value@) is Some,
        r is Ok ==> final(config)@ == apply_glaciers(old(config)@, field@, value@).unwrap(),
        r is Err ==> final(config)@ == old(config)@ && r->Err_0 is InvalidFieldOrValue,
        old(config).wf() ==> final(config).wf(),
{
    proof {
        reveal(apply_glaciers);
    }
    if str_eq(field.as_str(), "preferred_dataframe_type") {
        match value {
            ConfigValue::String(s) => {
                let lv = ascii_lowercase(s.as_str());
                if str_eq(lv.as_str(), "polars") {
                    config.glaciers.preferred_dataframe_type = PreferedDataframeType::Polars;
                    Ok(())
                } else if str_eq(lv.as_str(), "pandas") {
                    config.glaciers.preferred_dataframe_type = PreferedDataframeType::Pandas;
                    Ok(())
                } else {
                    Err(ConfiggerError::InvalidFieldOrValue(field.clone()))
                }
            },
            _ => Err(ConfiggerError::InvalidFieldOrValue(field.clone())),
        }
    } else if str_eq(field.as_str(), "unnesting_hex_string_encoding") {
        match bool_from_value(&value) {
            Some(b) => {
                config.glaciers.unnesting_hex_string_encoding = b;
                Ok(())
            },
            None => Err(ConfiggerError::InvalidFieldOrValue(field.clone())),
        }
    } else {
        Err(ConfiggerError::InvalidFieldOrValue(field.clone()))
    }
}

/// Applies one `set_config` update inside the `main` group.
fn set_config_main(config: &mut Config, field: &String, value: ConfigValue) -> (r: Result<
    (),
    ConfiggerError,
>)
    ensures
        r is Ok <==> apply_main(old(config)@, field@, value@) is Some,
        r is Ok ==> final(config)@ == apply_main(old(config)@, field@, value@).unwrap(),
        r is Err ==> final(config)@ == old(config)@ && r->Err_0 is InvalidFieldOrValue,
        old(config).wf() ==> final(config).wf(),
{
    proof {
        reveal(apply_main);
    }
    match value {
        ConfigValue::String(s) => {
            if str_eq(field.as_str(), "events_abi_db_file_path") {
                config.main.events_abi_db_file_path = s;
                Ok(())
            } else if str_eq(field.as_str(), "functions_abi_db_file_path") {
                config.main.functions_abi_db_file_path = s;
                Ok(())
            } else if str_eq(field.as_str(), "abi_folder_path") {
                config.main.abi_folder_path = s;
                Ok(())
            } else if str_eq(field.as_str(), "raw_logs_folder_path") {
                config.main.raw_logs_folder_path = s;
                Ok(())
            } else if str_eq(field.as_str(), "raw_traces_folder_path") {
                config.main.raw_traces_folder_path = s;
                Ok(())
            } else {
                Err(ConfiggerError::InvalidFieldOrValue(field.clone()))
            }
        },
        _ => Err(ConfiggerError::InvalidFieldOrValue(field.clone())),
    }
}

/// Applies one `set_config` update inside the `abi_reader` group.
fn set_config_abi_reader(config: &mut Config, field: &String, value: ConfigValue) -> (r: Result<
    (),
    ConfiggerError,
>)
    ensures
        r is Ok <==> apply_abi_reader(old(config)@, field@, value@) is Some,
        r is Ok ==> final(config)@ == apply_abi_reader(old(config)@, field@, value@).unwrap(),
        r is Err ==> final(config)@ == old(config)@ && r->Err_0 is InvalidFieldOrValue,
        old(config).wf() ==> final(config).wf(),
{
    proof {
        reveal(apply_abi_reader);
    }
    if str_eq(field.as_str(), "abi_read_mode") {
        match value {
            ConfigValue::String(s) => {
                let lv = ascii_lowercase(s.as_str());
                if str_eq(lv.as_str(), "events") {
                    config.abi_reader.abi_read_mode = AbiReadMode::Events;
                    Ok(())
                } else if str_eq(lv.as_str(), "functions") {
                    config.abi_reader.abi_read_mode = AbiReadMode::Functions;
                    Ok(())
                } else if str_eq(lv.as_str(), "both") {
                    config.abi_reader.abi_read_mode = AbiReadMode::Both;
                    Ok(())
                } else {
                    Err(ConfiggerError::InvalidFieldOrValue(field.clone()))
                }
            },
            _ => Err(ConfiggerError::InvalidFieldOrValue(field.clone())),
        }
    } else if str_eq(field.as_str(), "output_hex_string_encoding") {
        match bool_from_value(&value) {
            Some(b) => {
                config.abi_reader.output_hex_string_encoding = b;
                Ok(())
            },
            None => Err(ConfiggerError::InvalidFieldOrValue(field.clone())),
        }
    } else if str_eq(field.as_str(), "unique_key") {
        match value {
            ConfigValue::List(l) => {
                let lowered = lower_string_vec(&l);
                match validate_unique_key(&lowered) {
                    Ok(_) => {
                        config.abi_reader.unique_key = lowered;
                        Ok(())
                    },
                    Err(e) => Err(e),
                }
            },
            ConfigValue::String(s) => {
                let mut lowered: Vec<String> = Vec::new();
                lowered.push(ascii_lowercase(s.as_str()));
                assert(lowered.deep_view() =~= seq![lower_seq(s@)]);
                match validate_unique_key(&lowered) {
                    Ok(_) => {
                        config.abi_reader.unique_key = lowered;
                        Ok(())
                    },
                    Err(e) => Err(e),
                }
            },
            _ => Err(ConfiggerError::InvalidFieldOrValue(field.clone())),
        }
    } else {
        Err(ConfiggerError::InvalidFieldOrValue(field.clone()))
    }
}

/// Applies one `set_config` update inside the `decoder` group.
fn set_config_decoder(config: &mut Config, field: &String, value: ConfigValue) -> (r: Result<
    (),
    ConfiggerError,
>)
    ensures
        r is Ok <==> apply_decoder(old(config)@, field@, value@) is Some,
        r is Ok ==> final(config)@ == apply_decoder(old(config)@, field@, value@).unwrap(),
        r is Err ==> final(config)@ == old(config)@ && r->Err_0 is InvalidFieldOrValue,
        old(config).wf() ==> final(config).wf(),
{
    proof {
        reveal(apply_decoder);
    }
    if str_eq(field.as_str(), "algorithm") {
        match value {
            ConfigValue::String(s) => {
                let lv = ascii_lowercase(s.as_str());
                if str_eq(lv.as_str(), "hash_address") {
                    config.decoder.algorithm = DecoderAlgorithm::HashAddress;
                    Ok(())
                } else if str_eq(lv.as_str(), "hash") {
                    config.decoder.algorithm = DecoderAlgorithm::Hash;
                    Ok(())
                } else {
                    Err(ConfiggerError::InvalidFieldOrValue(field.clone()))
                }
            },
            _ => Err(ConfiggerError::InvalidFieldOrValue(field.clone())),
        }
    } else if str_eq(field.as_str(), "output_hex_string_encoding") {
        match bool_from_value(&value) {
            Some(b) => {
                config.decoder.output_hex_string_encoding = b;
                Ok(())
            },
            None => Err(ConfiggerError::InvalidFieldOrValue(field.clone())),
        }
    } else if str_eq(field.as_str(), "output_file_format") {
        match value {
            ConfigValue::String(s) => {
                let lv = ascii_lowercase(s.as_str());
                match validate_output_file_format(&lv) {
                    Ok(_) => {
                        config.decoder.output_file_format = lv;
                        Ok(())
                    },
                    Err(e) => Err(e),
                }
            },
            _ => Err(ConfiggerError::InvalidFieldOrValue(field.clone())),
        }
    } else if str_eq(field.as_str(), "max_concurrent_files_decoding") {
        match value {
            ConfigValue::Number(n) => if n >= 1 {
                config.decoder.max_concurrent_files_decoding = n;
                Ok(())
            } else {
                Err(ConfiggerError::InvalidFieldOrValue(field.clone()))
            },
            _ => Err(ConfiggerError::InvalidFieldOrValue(field.clone())),
        }
    } else if str_eq(field.as_str(), "max_chunk_threads_per_file") {
        match value {
            ConfigValue::Number(n) => if n >= 1 {
                config.decoder.max_chunk_threads_per_file = n;
                Ok(())
            } else {
                Err(ConfiggerError::InvalidFieldOrValue(field.clone()))
            },
            _ => Err(ConfiggerError::InvalidFieldOrValue(field.clone())),
        }
    } else if str_eq(field.as_str(), "decoded_chunk_size") {
        match value {
            ConfigValue::Number(n) => if n >= 1 {
                config.decoder.decoded_chunk_size = n;
                Ok(())
            } else {
                Err(ConfiggerError::InvalidFieldOrValue(field.clone()))
            },
            _ => Err(ConfiggerError::InvalidFieldOrValue(field.clone())),
        }
    } else {
        Err(ConfiggerError::InvalidFieldOrValue(field.clone()))
    }
}

/// Applies one `set_config` update inside the log schema.
fn set_config_log_schema(config: &mut Config, group: &String, leaf: &String, s: String) -> (r:
    Result<(), ConfiggerError>)
    ensures
        r is Ok <==> apply_log_schema(old(config)@, group@, leaf@, s@) is Some,
        r is Ok ==> final(config)@ == apply_log_schema(old(config)@, group@, leaf@, s@).unwrap(),
        r is Err ==> final(config)@ == old(config)@ && r->Err_0 is InvalidFieldOrValue,
        old(config).wf() ==> final(config).wf(),
{
    proof {
        reveal(apply_log_alias);
        reveal(apply_log_datatype);
    }
    if str_eq(group.as_str(), "log_alias") {
        if str_eq(leaf.as_str(), "topic0") {
            config.log_decoder.log_schema.log_alias.topic0 = s;
            Ok(())
        } else if str_eq(leaf.as_str(), "topic1") {
            config.log_decoder.log_schema.log_alias.topic1 = s;
            Ok(())
        } else if str_eq(leaf.as_str(), "topic2") {
            config.log_decoder.log_schema.log_alias.topic2 = s;
            Ok(())
        } else if str_eq(leaf.as_str(), "topic3") {
            config.log_decoder.log_schema.log_alias.topic3 = s;
            Ok(())
        } else if str_eq(leaf.as_str(), "data") {
            config.log_decoder.log_schema.log_alias.data = s;
            Ok(())
        } else if str_eq(leaf.as_str(), "address") {
            config.log_decoder.log_schema.log_alias.address = s;
            Ok(())
        } else {
            Err(ConfiggerError::InvalidFieldOrValue(leaf.clone()))
        }
    } else if str_eq(group.as_str(), "log_datatype") {
        match datatype_from_str(s.as_str()) {
            Some(dt) => {
                if str_eq(leaf.as_str(), "topic0") {
                    config.log_decoder.log_schema.log_datatype.topic0 = dt;
                    Ok(())
                } else if str_eq(leaf.as_str(), "topic1") {
                    config.log_decoder.log_schema.log_datatype.topic1 = dt;
                    Ok(())
                } else if str_eq(leaf.as_str(), "topic2") {
                    config.log_decoder.log_schema.log_datatype.topic2 = dt;
                    Ok(())
                } else if str_eq(leaf.as_str(), "topic3") {
                    config.log_decoder.log_schema.log_datatype.topic3 = dt;
                    Ok(())
                } else if str_eq(leaf.as_str(), "data") {
                    config.log_decoder.log_schema.log_datatype.data = dt;
                    Ok(())
                } else if str_eq(leaf.as_str(), "address") {
                    config.log_decoder.log_schema.log_datatype.address = dt;
                    Ok(())
                } else {
                    Err(ConfiggerError::InvalidFieldOrValue(leaf.clone()))
                }
            },
            None => Err(ConfiggerError::InvalidFieldOrValue(leaf.clone())),
        }
    } else {
        Err(ConfiggerError::InvalidFieldOrValue(group.clone()))
    }
}

/// Applies one `set_config` update inside the trace schema.
fn set_config_trace_schema(config: &mut Config, group: &String, leaf: &String, s: String) -> (r:
    Result<(), ConfiggerError>)
    ensures
        r is Ok <==> apply_trace_schema(old(config)@, group@, leaf@, s@) is Some,
        r is Ok ==> final(config)@ == apply_trace_schema(old(config)@, group@, leaf@, s@).unwrap(),
        r is Err ==> final(config)@ == old(config)@ && r->Err_0 is InvalidFieldOrValue,
        old(config).wf() ==> final(config).wf(),
{
    proof {
        reveal(apply_trace_alias);
        reveal(apply_trace_datatype);
    }
    if str_eq(group.as_str(), "trace_alias") {
        if str_eq(leaf.as_str(), "selector") {
            config.trace_decoder.trace_schema.trace_alias.selector = s;
            Ok(())
        } else if str_eq(leaf.as_str(), "action_input") {
            config.trace_decoder.trace_schema.trace_alias.action_input = s;
            Ok(())
        } else if str_eq(leaf.as_str(), "result_output") {
            config.trace_decoder.trace_schema.trace_alias.result_output = s;
            Ok(())
        } else if str_eq(leaf.as_str(), "action_to") {
            config.trace_decoder.trace_schema.trace_alias.action_to = s;
            Ok(())
        } else {
            Err(ConfiggerError::InvalidFieldOrValue(leaf.clone()))
        }
    } else if str_eq(group.as_str(), "trace_datatype") {
        match datatype_from_str(s.as_str()) {
            Some(dt) => {
                if str_eq(leaf.as_str(), "selector") {
                    config.trace_decoder.trace_schema.trace_datatype.selector = dt;
                    Ok(())
                } else if str_eq(leaf.as_str(), "action_input") {
                    config.trace_decoder.trace_schema.trace_datatype.action_input = dt;
                    Ok(())
                } else if str_eq(leaf.as_str(), "result_output") {
                    config.trace_decoder.trace_schema.trace_datatype.result_output = dt;
                    Ok(())
                } else if str_eq(leaf.as_str(), "action_to") {
                    config.trace_decoder.trace_schema.trace_datatype.action_to = dt;
                    Ok(())
                } else {
                    Err(ConfiggerError::InvalidFieldOrValue(leaf.clone()))
                }
            },
            None => Err(ConfiggerError::InvalidFieldOrValue(leaf.clone())),
        }
    } else {
        Err(ConfiggerError::InvalidFieldOrValue(group.clone()))
    }
}

/// Sets one configuration entry named by a dotted path.
///
/// Succeeds exactly when [`apply_set`] recognizes the path and the value
/// kind; on failure the snapshot is unchanged and the error is
/// `InvalidFieldOrValue`. A successful update never breaks well-formedness.
#[verifier::rlimit(100)]
pub fn set_config(config: &mut Config, config_path: &str, value: ConfigValue) -> (r: Result<
    (),
    ConfiggerError,
>)
    ensures
        r is Ok <==> apply_set(old(config)@, config_path@, value@) is Some,
        r is Ok ==> final(config)@ == apply_set(old(config)@, config_path@, value@).unwrap(),
        r is Err ==> final(config)@ == old(config)@ && r->Err_0 is InvalidFieldOrValue,
        old(config).wf() ==> final(config).wf(),
{
    let segs = split_on_char(config_path, '.');
    proof {
        crate::strutil::lemma_split_char_len(config_path@, '.');
        assert(segs@.len() == segs.deep_view().len());
        assert(segs.deep_view() == crate::strutil::split_char(config_path@, '.'));
    }
    let nsegs = segs.len();
    proof {
        assert forall|k: int| 0 <= k < segs@.len() implies segs.deep_view()[k] == segs@[k]@ by {}
    }
    if str_eq(segs[0].as_str(), "glaciers") && nsegs >= 2 {
        let res = set_config_glaciers(config, &segs[1], value);
        proof {
            assert(apply_set(old(config)@, config_path@, value@) == apply_glaciers(
                old(config)@,
                segs@[1]@,
                value@,
            ));
        }
        res
    } else if str_eq(segs[0].as_str(), "main") && nsegs >= 2 {
        let res = set_config_main(config, &segs[1], value);
        proof {
            assert(apply_set(old(config)@, config_path@, value@) == apply_main(
                old(config)@,
                segs@[1]@,
                value@,
            ));
        }
        res
    } else if str_eq(segs[0].as_str(), "abi_reader") && nsegs >= 2 {
        let res = set_config_abi_reader(config, &segs[1], value);
        proof {
            assert(apply_set(old(config)@, config_path@, value@) == apply_abi_reader(
                old(config)@,
                segs@[1]@,
                value@,
            ));
        }
        res
    } else if str_eq(segs[0].as_str(), "decoder") && nsegs >= 2 {
        let res = set_config_decoder(config, &segs[1], value);
        proof {
            assert(apply_set(old(config)@, config_path@, value@) == apply_decoder(
                old(config)@,
                segs@[1]@,
                value@,
            ));
        }
        res
    } else if str_eq(segs[0].as_str(), "log_decoder") && nsegs >= 4 && str_eq(
        segs[1].as_str(),
        "log_schema",
    ) {
        match value {
            ConfigValue::String(s) => {
                let res = set_config_log_schema(config, &segs[2], &segs[3], s);
                proof {
                    assert(apply_set(old(config)@, config_path@, value@) == apply_log_schema(
                        old(config)@,
                        segs@[2]@,
                        segs@[3]@,
                        s@,
                    ));
                }
                res
            },
            _ => Err(ConfiggerError::InvalidFieldOrValue(segs[1].clone())),
        }
    } else if str_eq(segs[0].as_str(), "trace_decoder") && nsegs >= 4 && str_eq(
        segs[1].as_str(),
        "trace_schema",
    ) {
        match value {
            ConfigValue::String(s) => {
                let res = set_config_trace_schema(config, &segs[2], &segs[3], s);
                proof {
                    assert(apply_set(old(config)@, config_path@, value@) == apply_trace_schema(
                        old(config)@,
                        segs@[2]@,
                        segs@[3]@,
                        s@,
                    ));
                }
                res
            },
            _ => Err(ConfiggerError::InvalidFieldOrValue(segs[1].clone())),
        }
    } else {
        Err(ConfiggerError::InvalidFieldOrValue(segs[0].clone()))
    }
}

/// Whether a character is ASCII whitespace for trimming list elements.
pub open spec fn is_trim_space(c: char) -> bool {
    c == ' ' || c == '\t' || c == '\n' || c == '\r'
}

/// A character sequence with leading and trailing ASCII whitespace removed.
pub open spec fn trim_spaces(s: Seq<char>) -> Seq<char>
    decreases s.len(),
{
    if s.len() == 0 {
        s
    } else if is_trim_space(s[0]) {
        trim_spaces(s.drop_first())
    } else if is_trim_space(s.last()) {
        trim_spaces(s.drop_last())
    } else {
        s
    }
}

/// Trims ASCII whitespace from both ends of a string.
pub fn trim_str(s: &str) -> (r: String)
    ensures
        r@ == trim_spaces(s@),
{
    let n: usize = s.unicode_len();
    let mut lo: usize = 0;
    let mut hi: usize = n;
    assert(s@.subrange(0, n as int) =~= s@);
    while lo < hi && is_space_char(s.get_char(lo))
        invariant
            0 <= lo <= hi <= n,
            n == s@.len(),
            trim_spaces(s@) == trim_spaces(s@.subrange(lo as int, hi as int)),
        decreases hi - lo,
    {
        assert(s@.subrange(lo as int, hi as int)[0] == s@[lo as int]);
        assert(s@.subrange(lo as int, hi as int).drop_first() =~= s@.subrange(
            lo + 1 as int,
            hi as int,
        ));
        lo = lo + 1;
    }
    while lo < hi && is_space_char(s.get_char(hi - 1))
        invariant
            0 <= lo <= hi <= n,
            n == s@.len(),
            trim_spaces(s@) == trim_spaces(s@.subrange(lo as int, hi as int)),
            lo < hi ==> !is_trim_space(s@[lo as int]),
        decreases hi - lo,
    {
        assert(s@.subrange(lo as int, hi as int)[0] == s@[lo as int]);
        assert(s@.subrange(lo as int, hi as int).last() == s@[hi - 1 as int]);
        assert(s@.subrange(lo as int, hi as int).drop_last() =~= s@.subrange(
            lo as int,
            hi - 1 as int,
        ));
        hi = hi - 1;
    }
    let piece = s.substring_char(lo, hi);
    let r = String::from_str(piece);
    proof {
        let sub = s@.subrange(lo as int, hi as int);
        if sub.len() > 0 {
            assert(!is_trim_space(sub[0]));
            assert(!is_trim_space(sub.last()));
        }
        assert(trim_spaces(sub) == sub);
    }
    r
}

/// Whether a character is ASCII whitespace, as executable code.
fn is_space_char(c: char) -> (r: bool)
    ensures
        r == is_trim_space(c),
{
    c == ' ' || c == '\t' || c == '\n' || c == '\r'
}

/// A character sequence with every `[` and `]` removed.
pub open spec fn strip_brackets(s: Seq<char>) -> Seq<char> {
    s.filter(|c: char| c != '[' && c != ']')
}

/// The list elements a comma-separated value denotes: brackets stripped,
/// split at commas, every element trimmed.
pub open spec fn list_elements(s: Seq<char>) -> Seq<Seq<char>> {
    crate::strutil::split_char(strip_brackets(s), ',').map_values(
        |e: Seq<char>| trim_spaces(e),
    )
}

/// How a textual command-line value is read: `true`/`false` become booleans,
/// decimal numerals that fit in `usize` become numbers, values with a comma
/// become lists (brackets stripped, elements trimmed), all else stays a
/// string.
pub fn parse_config_value(value: &str) -> (r: ConfigValue)
    ensures
        lower_seq(value@) == "true"@ ==> r == ConfigValue::Boolean(true),
        lower_seq(value@) == "false"@ ==> r == ConfigValue::Boolean(false),
        lower_seq(value@) != "true"@ && lower_seq(value@) != "false"@ && is_dec_seq(value@)
            && dec_val(value@) <= usize::MAX ==> (r matches ConfigValue::Number(n) && n == dec_val(value@)),
        lower_seq(value@) != "true"@ && lower_seq(value@) != "false"@ && !(is_dec_seq(value@)
            && dec_val(value@) <= usize::MAX) && value@.contains(',') ==> (r matches ConfigValue::List(l)
            && l.deep_view() == list_elements(value@)),
        lower_seq(value@) != "true"@ && lower_seq(value@) != "false"@ && !(is_dec_seq(value@)
            && dec_val(value@) <= usize::MAX) && !value@.contains(',') ==> (r matches ConfigValue::String(s)
            && s@ == value@),
{
    proof {
        reveal_strlit("true");
        reveal_strlit("false");
        assert("true"@.len() == 4 && "false"@.len() == 5);
    }
    let lv = ascii_lowercase(value);
    if str_eq(lv.as_str(), "true") {
        return ConfigValue::Boolean(true);
    }
    if str_eq(lv.as_str(), "false") {
        return ConfigValue::Boolean(false);
    }
    match crate::strutil::parse_usize(value) {
        Some(n) => ConfigValue::Number(n),
        None => {
            if contains_char(value, ',') {
                let stripped = remove_brackets(value);
                let pieces = split_on_char(stripped.as_str(), ',');
                let mut out: Vec<String> = Vec::new();
                let mut i: usize = 0;
                while i < pieces.len()
                    invariant
                        i <= pieces@.len(),
                        out.deep_view() =~= pieces.deep_view().map_values(
                            |e: Seq<char>| trim_spaces(e),
                        ).take(i as int),
                    decreases pieces@.len() - i,
                {
                    let t = trim_str(pieces[i].as_str());
                    proof {
                        assert(pieces.deep_view()[i as int] == pieces@[i as int]@);
                    }
                    let ghost pre = out@;
                    let ghost pre_deep = out.deep_view();
                    out.push(t);
                    proof {
                        assert(out@ == pre.push(t));
                        assert(pre_deep.len() == pre.len());
                        assert(pre.len() == i);
                        let m = pieces.deep_view().map_values(|e: Seq<char>| trim_spaces(e));
                        assert forall|j: int| 0 <= j < i + 1 implies out.deep_view()[j] == m.take(
                            i + 1 as int,
                        )[j] by {
                            if j < i {
                                assert(out@[j] == pre[j]);
                                assert(pre_deep[j] == pre[j]@);
                                assert(pre_deep[j] == m.take(i as int)[j]);
                            } else {
                                assert(out@[j] == t);
                            }
                        }
                        assert(out.deep_view() =~= m.take(i + 1 as int));
                    }
                    i = i + 1;
                }
                assert(out.deep_view() =~= list_elements(value@));
                ConfigValue::List(out)
            } else {
                ConfigValue::String(String::from_str(value))
            }
        },
    }
}

/// Whether a string contains a character.
fn contains_char(s: &str, c: char) -> (r: bool)
    ensures
        r == s@.contains(c),
{
    let n: usize = s.unicode_len();
    let mut i: usize = 0;
    while i < n
        invariant
            i <= n,
            n == s@.len(),
            forall|j: int| 0 <= j < i ==> s@[j] != c,
        decreases n - i,
    {
        if s.get_char(i) == c {
            assert(s@.contains(c));
            return true;
        }
        i = i + 1;
    }
    assert(!s@.contains(c));
    false
}

/// Removes every `[` and `]` from a string.
fn remove_brackets(s: &str) -> (r: String)
    ensures
        r@ == strip_brackets(s@),
{
    let n: usize = s.unicode_len();
    let mut r = String::new();
    let mut i: usize = 0;
    while i < n
        invariant
            i <= n,
            n == s@.len(),
            r@ =~= s@.subrange(0, i as int).filter(|c: char| c != '[' && c != ']'),
        decreases n - i,
    {
        let c = s.get_char(i);
        proof {
            reveal(Seq::filter);
            let nxt = s@.subrange(0, i + 1 as int);
            assert(nxt.drop_last() =~= s@.subrange(0, i as int));
            assert(nxt.last() == s@[i as int]);
            assert(nxt.len() == i + 1);
        }
        if !(c == '[' || c == ']') {
            push_char_local(&mut r, c);
        }
        i = i + 1;
    }
    assert(s@.subrange(0, n as int) =~= s@);
    r
}

/// Appends one character; thin layer over the string helper.
fn push_char_local(s: &mut String, c: char)
    ensures
        final(s)@ == old(s)@.push(c),
{
    crate::strutil::push_char(s, c)
}

} // verus!
