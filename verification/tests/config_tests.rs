use glaciers::config::{
    parse_config_value, get_config, set_config, validate_output_file_format, validate_unique_key,
    AbiReadMode, Config, ConfigValue, ConfiggerError, DataType, DecoderAlgorithm,
};
use glaciers::tomlcfg::{set_config_toml, TomlValue, process_table};

#[test]
fn defaults_match_the_documented_baseline() {
    let c = Config::new();
    assert_eq!(c.main.events_abi_db_file_path, "ABIs/ethereum__events__abis.parquet");
    assert_eq!(c.main.functions_abi_db_file_path, "ABIs/ethereum__functions__abis.parquet");
    assert_eq!(c.main.abi_folder_path, "ABIs/abi_database");
    assert_eq!(c.main.raw_logs_folder_path, "data/logs");
    assert_eq!(c.main.raw_traces_folder_path, "data/traces");
    assert!(matches!(c.abi_reader.abi_read_mode, AbiReadMode::Events));
    assert_eq!(c.abi_reader.unique_key, vec!["hash", "full_signature", "address"]);
    assert!(matches!(c.decoder.algorithm, DecoderAlgorithm::Hash));
    assert_eq!(c.decoder.output_file_format, "parquet");
    assert_eq!(c.decoder.max_concurrent_files_decoding, 16);
    assert_eq!(c.decoder.max_chunk_threads_per_file, 16);
    assert_eq!(c.decoder.decoded_chunk_size, 500000);
    assert_eq!(c.log_decoder.log_schema.log_alias.topic0, "topic0");
    assert!(matches!(c.log_decoder.log_schema.log_datatype.data, DataType::Binary));
    assert_eq!(c.trace_decoder.trace_schema.trace_alias.selector, "selector");
}

#[test]
fn get_config_returns_an_equal_copy() {
    let c = Config::new();
    let copy = get_config(&c);
    assert_eq!(copy.main.abi_folder_path, c.main.abi_folder_path);
    assert_eq!(copy.abi_reader.unique_key, c.abi_reader.unique_key);
    assert_eq!(copy.decoder.output_file_format, c.decoder.output_file_format);
}

#[test]
fn set_config_updates_recognized_keys() {
    let mut c = Config::new();
    set_config(&mut c, "decoder.output_file_format", ConfigValue::String("CSV".to_string()))
        .unwrap();
    assert_eq!(c.decoder.output_file_format, "csv");
    set_config(&mut c, "decoder.algorithm", ConfigValue::String("HASH_ADDRESS".to_string()))
        .unwrap();
    assert!(matches!(c.decoder.algorithm, DecoderAlgorithm::HashAddress));
    set_config(&mut c, "decoder.decoded_chunk_size", ConfigValue::Number(1000)).unwrap();
    assert_eq!(c.decoder.decoded_chunk_size, 1000);
    set_config(&mut c, "abi_reader.abi_read_mode", ConfigValue::String("both".to_string()))
        .unwrap();
    assert!(matches!(c.abi_reader.abi_read_mode, AbiReadMode::Both));
    set_config(&mut c, "abi_reader.output_hex_string_encoding", ConfigValue::Number(1)).unwrap();
    assert!(c.abi_reader.output_hex_string_encoding);
    set_config(&mut c, "glaciers.unnesting_hex_string_encoding", ConfigValue::Boolean(true))
        .unwrap();
    assert!(c.glaciers.unnesting_hex_string_encoding);
    set_config(
        &mut c,
        "log_decoder.log_schema.log_alias.topic0",
        ConfigValue::String("t0".to_string()),
    )
    .unwrap();
    assert_eq!(c.log_decoder.log_schema.log_alias.topic0, "t0");
    set_config(
        &mut c,
        "log_decoder.log_schema.log_datatype.data",
        ConfigValue::String("HexString".to_string()),
    )
    .unwrap();
    assert!(matches!(c.log_decoder.log_schema.log_datatype.data, DataType::HexString));
    set_config(
        &mut c,
        "trace_decoder.trace_schema.trace_alias.action_to",
        ConfigValue::String("to".to_string()),
    )
    .unwrap();
    assert_eq!(c.trace_decoder.trace_schema.trace_alias.action_to, "to");
    set_config(
        &mut c,
        "abi_reader.unique_key",
        ConfigValue::String("HASH".to_string()),
    )
    .unwrap();
    assert_eq!(c.abi_reader.unique_key, vec!["hash"]);
}

#[test]
fn set_config_rejects_unknown_keys_and_bad_values() {
    let mut c = Config::new();
    let r = set_config(&mut c, "nonsense.key", ConfigValue::Boolean(true));
    assert!(matches!(r, Err(ConfiggerError::InvalidFieldOrValue(_))));
    let r = set_config(&mut c, "decoder.output_file_format", ConfigValue::String("json".into()));
    assert!(matches!(r, Err(ConfiggerError::InvalidFieldOrValue(_))));
    let r = set_config(&mut c, "decoder.decoded_chunk_size", ConfigValue::Number(0));
    assert!(matches!(r, Err(ConfiggerError::InvalidFieldOrValue(_))));
    let r = set_config(&mut c, "glaciers.unnesting_hex_string_encoding", ConfigValue::Number(2));
    assert!(matches!(r, Err(ConfiggerError::InvalidFieldOrValue(_))));
    let r = set_config(
        &mut c,
        "abi_reader.unique_key",
        ConfigValue::List(vec!["hash".to_string(), "color".to_string()]),
    );
    assert!(matches!(r, Err(ConfiggerError::InvalidFieldOrValue(_))));
    // the failed updates left the snapshot as it was
    assert_eq!(c.decoder.output_file_format, "parquet");
    assert_eq!(c.decoder.decoded_chunk_size, 500000);
    assert_eq!(c.abi_reader.unique_key, vec!["hash", "full_signature", "address"]);
}

#[test]
fn parse_config_value_reads_each_kind() {
    assert!(matches!(parse_config_value("TRUE"), ConfigValue::Boolean(true)));
    assert!(matches!(parse_config_value("false"), ConfigValue::Boolean(false)));
    assert!(matches!(parse_config_value("42"), ConfigValue::Number(42)));
    match parse_config_value("[hash, full_signature]") {
        ConfigValue::List(l) => assert_eq!(l, vec!["hash", "full_signature"]),
        other => panic!("expected a list, got {:?}", other),
    }
    match parse_config_value("parquet") {
        ConfigValue::String(s) => assert_eq!(s, "parquet"),
        other => panic!("expected a string, got {:?}", other),
    }
}

#[test]
fn validators_accept_exactly_the_allowed_values() {
    assert!(validate_output_file_format(&"csv".to_string()).is_ok());
    assert!(validate_output_file_format(&"parquet".to_string()).is_ok());
    assert!(validate_output_file_format(&"json".to_string()).is_err());
    assert!(validate_unique_key(&vec!["hash".to_string(), "address".to_string()]).is_ok());
    assert!(validate_unique_key(&vec!["topic".to_string()]).is_err());
}

#[test]
fn toml_text_applies_depth_first() {
    let mut c = Config::new();
    let text = "[decoder]\noutput_file_format = \"csv\"\ndecoded_chunk_size = 7\n\n[abi_reader]\nunique_key = [\"hash\"]\n";
    set_config_toml(&mut c, text).unwrap();
    assert_eq!(c.decoder.output_file_format, "csv");
    assert_eq!(c.decoder.decoded_chunk_size, 7);
    assert_eq!(c.abi_reader.unique_key, vec!["hash"]);
}

#[test]
fn toml_rejects_unsupported_leaves_and_bad_documents() {
    let mut c = Config::new();
    let r = set_config_toml(&mut c, "[decoder]\noutput_file_format = 1.5\n");
    assert!(matches!(r, Err(ConfiggerError::UnsupportedValueType(_))));
    let r = set_config_toml(&mut c, "not toml at all ===");
    assert!(matches!(r, Err(ConfiggerError::ParseError(_))));
    let r = set_config_toml(&mut c, "[decoder]\nalgorithm = \"sorting-hat\"\n");
    assert!(matches!(r, Err(ConfiggerError::InvalidFieldOrValue(_))));
    assert_eq!(c.decoder.output_file_format, "parquet");
}

#[test]
fn process_table_flattens_nested_tables() {
    let tree = vec![
        (
            "decoder".to_string(),
            TomlValue::Table(vec![
                ("output_file_format".to_string(), TomlValue::Str("csv".to_string())),
                ("decoded_chunk_size".to_string(), TomlValue::Int(9)),
            ]),
        ),
        ("flag".to_string(), TomlValue::Bool(true)),
    ];
    let pairs = process_table("", &tree).unwrap();
    assert_eq!(pairs.len(), 3);
    assert_eq!(pairs[0].0, "decoder.output_file_format");
    assert_eq!(pairs[1].0, "decoder.decoded_chunk_size");
    assert_eq!(pairs[2].0, "flag");
    assert!(matches!(pairs[2].1, ConfigValue::Boolean(true)));
}

#[test]
fn cli_override_wins_over_toml() {
    // a TOML document sets the output format, a later single-key update
    // overrides it, as a command line flag does
    let mut c = Config::new();
    set_config_toml(&mut c, "[decoder]\noutput_file_format = \"csv\"\n").unwrap();
    assert_eq!(c.decoder.output_file_format, "csv");
    let v = parse_config_value("parquet");
    set_config(&mut c, "decoder.output_file_format", v).unwrap();
    assert_eq!(c.decoder.output_file_format, "parquet");
    let path = glaciers::decoder::decoded_save_path(
        "data/logs/ethereum__logs__1.parquet",
        glaciers::decoder::DecoderType::Log,
        &c.decoder.output_file_format,
    );
    assert!(path.ends_with(".parquet"));
}
