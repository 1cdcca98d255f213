use glaciers::abi::{read_new_abi_file, update_abi_db, extract_address_from_file_name, AbiItemRow};
use glaciers::config::Config;
use glaciers::decoder::{decode_logs_with_abi_df, decode_traces_with_abi_df};
use glaciers::hexutil::hex_string_to_bytes;
use glaciers::log_decoder::decode_log_row;
use glaciers::matcher::{match_logs_by_topic0, match_logs_by_topic0_address};
use glaciers::rows::{CellValue, LogRow, TraceRow};
use glaciers::trace_decoder::decode_trace_row;
use glaciers::matcher::match_traces_by_4bytes_address;

const ERC20_ABI: &str = r#"[
  {"type":"event","name":"Transfer","inputs":[
     {"name":"from","type":"address","indexed":true},
     {"name":"to","type":"address","indexed":true},
     {"name":"value","type":"uint256","indexed":false}],
   "anonymous":false},
  {"type":"function","name":"transfer","stateMutability":"nonpayable",
   "inputs":[{"name":"_to","type":"address"},{"name":"_value","type":"uint256"}],
   "outputs":[{"name":"","type":"bool"}]}
]"#;

const TRANSFER_TOPIC0: &str = "0xddf252ad1be2c89b69c2b068fc378daa952ba7f163c4a11628f55a4df523b3ef";

fn addr(last: u8) -> Vec<u8> {
    let mut a = vec![0u8; 20];
    a[19] = last;
    a
}

fn padded(bytes: &[u8]) -> Vec<u8> {
    let mut w = vec![0u8; 32 - bytes.len()];
    w.extend_from_slice(bytes);
    w
}

fn word(last: u8) -> Vec<u8> {
    let mut w = vec![0u8; 32];
    w[31] = last;
    w
}

fn erc20_catalog(mode: &str) -> Vec<AbiItemRow> {
    let mut config = Config::new();
    glaciers::config::set_config(
        &mut config,
        "abi_reader.abi_read_mode",
        glaciers::config::ConfigValue::String(mode.to_string()),
    )
    .unwrap();
    read_new_abi_file(
        "0x0000000000000000000000000000000000000001.json",
        ERC20_ABI,
        &config.abi_reader,
    )
    .unwrap()
}

#[test]
fn file_names_must_carry_an_address() {
    assert!(extract_address_from_file_name(
        "0x0000000000000000000000000000000000000001.json"
    )
    .is_some());
    assert!(extract_address_from_file_name("0000000000000000000000000000000000000001.json")
        .is_some());
    assert!(extract_address_from_file_name("readme.json").is_none());
    assert!(extract_address_from_file_name("0x0000000000000000000000000000000000000001.txt")
        .is_none());
    assert!(extract_address_from_file_name("0x01.json").is_none());
}

#[test]
fn the_catalog_row_of_the_transfer_event_is_exact() {
    let rows = erc20_catalog("events");
    assert_eq!(rows.len(), 1);
    let row = &rows[0];
    assert_eq!(row.hash, hex_string_to_bytes(TRANSFER_TOPIC0).unwrap());
    assert_eq!(
        row.full_signature,
        "event Transfer(address indexed from, address indexed to, uint256 value)"
    );
    assert_eq!(row.name, "Transfer");
    assert_eq!(row.anonymous, Some(false));
    assert_eq!(row.num_indexed_args, Some(3));
    assert_eq!(row.state_mutability, None);
    assert_eq!(row.address, addr(1));
    assert_eq!(
        row.id,
        format!(
            "{} - event Transfer(address indexed from, address indexed to, uint256 value) - 0x0000000000000000000000000000000000000001",
            TRANSFER_TOPIC0
        )
    );
}

#[test]
fn the_catalog_row_of_the_transfer_function_is_exact() {
    let rows = erc20_catalog("functions");
    assert_eq!(rows.len(), 1);
    let row = &rows[0];
    assert_eq!(row.hash, vec![0xa9, 0x05, 0x9c, 0xbb]);
    assert_eq!(
        row.full_signature,
        "function transfer(address _to, uint256 _value) returns (bool)"
    );
    assert_eq!(row.name, "transfer");
    assert_eq!(row.anonymous, None);
    assert_eq!(row.num_indexed_args, None);
    assert_eq!(row.state_mutability, Some("nonpayable".to_string()));
}

#[test]
fn catalog_updates_deduplicate_and_are_idempotent() {
    let rows = erc20_catalog("both");
    assert_eq!(rows.len(), 2);
    let once = update_abi_db(Vec::new(), rows);
    let ids_once: Vec<String> = once.iter().map(|r| r.id.clone()).collect();
    let again = erc20_catalog("both");
    let twice = update_abi_db(once, again);
    let ids_twice: Vec<String> = twice.iter().map(|r| r.id.clone()).collect();
    assert_eq!(ids_once, ids_twice);
    for i in 0..ids_twice.len() {
        for j in 0..i {
            assert_ne!(ids_twice[i], ids_twice[j]);
        }
    }
}

fn transfer_log_row() -> LogRow {
    LogRow {
        address: Some(addr(1)),
        topic0: Some(hex_string_to_bytes(TRANSFER_TOPIC0).unwrap()),
        topic1: Some(padded(&addr(1))),
        topic2: Some(padded(&addr(2))),
        topic3: None,
        data: Some(word(100)),
        extra: vec![CellValue::UInt(12)],
    }
}

#[test]
fn an_erc20_transfer_decodes_into_named_parameters() {
    let catalog = erc20_catalog("events");
    let config = Config::new();
    let decoded = decode_logs_with_abi_df(&vec![transfer_log_row()], &catalog, &config);
    assert_eq!(decoded.len(), 1);
    let row = &decoded[0];
    assert_eq!(
        row.event_keys,
        Some(vec!["from".to_string(), "to".to_string(), "value".to_string()])
    );
    assert_eq!(
        row.event_values,
        Some(vec![
            "0x0000000000000000000000000000000000000001".to_string(),
            "0x0000000000000000000000000000000000000002".to_string(),
            "100".to_string(),
        ])
    );
    assert_eq!(
        row.event_json,
        Some(
            "[{\"name\":\"from\",\"index\":0,\"value_type\":\"address\",\"value\":\"0x0000000000000000000000000000000000000001\"},{\"name\":\"to\",\"index\":1,\"value_type\":\"address\",\"value\":\"0x0000000000000000000000000000000000000002\"},{\"name\":\"value\",\"index\":2,\"value_type\":\"uint256\",\"value\":\"100\"}]"
                .to_string()
        )
    );
    // the raw row rode along unchanged
    assert_eq!(row.matched.log.extra, vec![CellValue::UInt(12)]);
}

#[test]
fn an_anonymous_event_still_matches_and_decodes() {
    let abi = r#"[
      {"type":"event","name":"Ping","inputs":[
         {"name":"a","type":"uint256","indexed":true}],
       "anonymous":true}
    ]"#;
    let config = Config::new();
    let catalog =
        read_new_abi_file("0x0000000000000000000000000000000000000003.json", abi, &config.abi_reader)
            .unwrap();
    assert_eq!(catalog[0].num_indexed_args, Some(1));
    assert_eq!(catalog[0].hash.len(), 32);
    let log = LogRow {
        address: Some(addr(3)),
        topic0: Some(word(5)),
        topic1: None,
        topic2: None,
        topic3: None,
        data: None,
        extra: vec![],
    };
    let matched = match_logs_by_topic0_address(&vec![log], &catalog);
    // the anonymous event's catalog hash is still the canonical keccak, so
    // the hash key cannot match an argument topic; the frequency pass can
    assert!(matched[0].sig.is_none());
    let matched2 = match_logs_by_topic0(
        &vec![LogRow {
            address: Some(addr(3)),
            topic0: Some(catalog[0].hash.clone()),
            topic1: None,
            topic2: None,
            topic3: None,
            data: None,
            extra: vec![],
        }],
        &catalog,
    );
    // with topic0 equal to the catalog hash the row matches, and the kernel
    // decodes the topics as given: for an anonymous event the first topic is
    // an argument
    assert!(matched2[0].sig.is_some());
    let decoded = decode_log_row(&matched2[0]);
    assert_eq!(decoded.event_keys, Some(vec!["a".to_string()]));
    let expected = format!("{}", alloy::primitives::U256::from_be_slice(&catalog[0].hash));
    assert_eq!(decoded.event_values, Some(vec![expected]));
}

#[test]
fn an_unknown_topic0_keeps_the_row_with_null_columns() {
    let catalog = erc20_catalog("events");
    let config = Config::new();
    let stranger = LogRow {
        address: Some(addr(9)),
        topic0: Some(word(0x11)),
        topic1: None,
        topic2: None,
        topic3: None,
        data: Some(vec![1, 2, 3]),
        extra: vec![CellValue::Str("kept".to_string())],
    };
    let decoded = decode_logs_with_abi_df(&vec![stranger], &catalog, &config);
    assert_eq!(decoded.len(), 1);
    let row = &decoded[0];
    assert_eq!(row.event_values, None);
    assert_eq!(row.event_keys, None);
    assert_eq!(row.event_json, None);
    assert_eq!(row.matched.sig.as_ref().map(|s| s.id.clone()), None);
    assert_eq!(row.matched.log.data, Some(vec![1, 2, 3]));
    assert_eq!(row.matched.log.extra, vec![CellValue::Str("kept".to_string())]);
}

#[test]
fn an_overloaded_signature_resolves_by_topic_count() {
    // two catalog entries share the transfer topic0: the usual two-indexed
    // form and a fully indexed form, as an NFT contract declares it
    let nft_abi = r#"[
      {"type":"event","name":"Transfer","inputs":[
         {"name":"from","type":"address","indexed":true},
         {"name":"to","type":"address","indexed":true},
         {"name":"tokenId","type":"uint256","indexed":true}],
       "anonymous":false}
    ]"#;
    let config = Config::new();
    let mut catalog = erc20_catalog("events");
    let mut nft = read_new_abi_file(
        "0x0000000000000000000000000000000000000007.json",
        nft_abi,
        &config.abi_reader,
    )
    .unwrap();
    catalog.append(&mut nft);
    assert_eq!(catalog[0].hash, catalog[1].hash);
    // the row's address matches no catalog address, so only the frequency
    // pass of the hash algorithm can match it, by topic count
    let mut log = transfer_log_row();
    log.address = Some(addr(9));
    let matched = match_logs_by_topic0(&vec![log], &catalog);
    assert_eq!(matched.len(), 1);
    let sig = matched[0].sig.as_ref().unwrap();
    assert_eq!(
        sig.full_signature,
        "event Transfer(address indexed from, address indexed to, uint256 value)"
    );
}

#[test]
fn a_transfer_call_round_trips_inputs_and_outputs() {
    let catalog = erc20_catalog("functions");
    let mut input = padded(&addr(2));
    input.extend_from_slice(&word(1));
    let trace = TraceRow {
        selector: Some(vec![0xa9, 0x05, 0x9c, 0xbb]),
        action_input: Some(input),
        result_output: Some(word(1)),
        action_to: Some(addr(1)),
        extra: vec![],
    };
    let config = Config::new();
    let decoded = decode_traces_with_abi_df(&vec![trace], &catalog, &config);
    assert_eq!(decoded.len(), 1);
    let row = &decoded[0];
    assert_eq!(row.input_keys, Some(vec!["_to".to_string(), "_value".to_string()]));
    assert_eq!(
        row.input_values,
        Some(vec![
            "0x0000000000000000000000000000000000000002".to_string(),
            "1".to_string(),
        ])
    );
    assert_eq!(row.output_keys, Some(vec!["".to_string()]));
    assert_eq!(row.output_values, Some(vec!["true".to_string()]));
    assert_eq!(
        row.output_json,
        Some(
            "[{\"name\":\"\",\"index\":0,\"value_type\":\"bool\",\"value\":\"true\"}]".to_string()
        )
    );
}

#[test]
fn a_call_that_does_not_decode_keeps_the_row_with_null_columns() {
    let catalog = erc20_catalog("functions");
    let trace = TraceRow {
        selector: Some(vec![0xa9, 0x05, 0x9c, 0xbb]),
        action_input: Some(vec![1, 2, 3]),
        result_output: Some(word(1)),
        action_to: Some(addr(1)),
        extra: vec![],
    };
    let matched = match_traces_by_4bytes_address(&vec![trace], &catalog);
    assert!(matched[0].sig.is_some());
    let decoded = decode_trace_row(&matched[0]);
    assert_eq!(decoded.input_values, None);
    assert_eq!(decoded.output_values, None);
    assert_eq!(decoded.input_json, None);
}

#[test]
fn shuffling_the_input_rows_permutes_the_output_rows() {
    let catalog = erc20_catalog("events");
    let config = Config::new();
    let a = transfer_log_row();
    let mut b = transfer_log_row();
    b.topic2 = Some(padded(&addr(8)));
    let one = decode_logs_with_abi_df(&vec![a, b], &catalog, &config);
    let mut b2 = transfer_log_row();
    b2.topic2 = Some(padded(&addr(8)));
    let two = decode_logs_with_abi_df(&vec![b2, transfer_log_row()], &catalog, &config);
    assert_eq!(one.len(), 2);
    assert_eq!(two.len(), 2);
    let mut names_one: Vec<String> =
        one.iter().map(|r| r.event_json.clone().unwrap()).collect();
    let mut names_two: Vec<String> =
        two.iter().map(|r| r.event_json.clone().unwrap()).collect();
    names_one.sort();
    names_two.sort();
    assert_eq!(names_one, names_two);
}

#[test]
fn chunk_size_does_not_change_the_output() {
    let catalog = erc20_catalog("events");
    let mut small = Config::new();
    glaciers::config::set_config(
        &mut small,
        "decoder.decoded_chunk_size",
        glaciers::config::ConfigValue::Number(1),
    )
    .unwrap();
    let big = Config::new();
    let rows = vec![transfer_log_row(), transfer_log_row(), transfer_log_row()];
    let out_small = decode_logs_with_abi_df(&rows, &catalog, &small);
    let rows2 = vec![transfer_log_row(), transfer_log_row(), transfer_log_row()];
    let out_big = decode_logs_with_abi_df(&rows2, &catalog, &big);
    assert_eq!(out_small.len(), out_big.len());
    for i in 0..out_small.len() {
        assert_eq!(out_small[i].event_json, out_big[i].event_json);
    }
}

#[test]
fn an_unreadable_abi_document_is_reported_as_invalid() {
    let config = Config::new();
    let r = read_new_abi_file(
        "0x0000000000000000000000000000000000000001.json",
        "this is not json",
        &config.abi_reader,
    );
    assert!(matches!(r, Err(glaciers::abi::AbiReaderError::InvalidAbiFile(_))));
    let r = read_new_abi_file("notes.txt", ERC20_ABI, &config.abi_reader);
    assert!(matches!(r, Err(glaciers::abi::AbiReaderError::InvalidAbiFile(_))));
}

#[test]
fn duplicate_catalog_entries_duplicate_the_joined_row() {
    let mut catalog = erc20_catalog("events");
    let mut again = erc20_catalog("events");
    catalog.append(&mut again);
    let matched = match_logs_by_topic0_address(&vec![transfer_log_row()], &catalog);
    assert_eq!(matched.len(), 2);
    assert!(matched[0].sig.is_some());
    assert!(matched[1].sig.is_some());
}

#[test]
fn equal_signature_counts_fall_back_to_first_occurrence() {
    // two groups under the same topic0 and topic count, one member each: the
    // earlier catalog row wins
    let abi_a = r#"[
      {"type":"event","name":"Transfer","inputs":[
         {"name":"from","type":"address","indexed":true},
         {"name":"to","type":"address","indexed":true},
         {"name":"value","type":"uint256","indexed":false}],
       "anonymous":false}
    ]"#;
    let config = Config::new();
    let mut catalog = read_new_abi_file(
        "0x0000000000000000000000000000000000000011.json",
        abi_a,
        &config.abi_reader,
    )
    .unwrap();
    // the same event with other parameter names forms a different group
    // with the same hash and the same topic count
    let abi_b = r#"[
      {"type":"event","name":"Transfer","inputs":[
         {"name":"src","type":"address","indexed":true},
         {"name":"dst","type":"address","indexed":true},
         {"name":"wad","type":"uint256","indexed":false}],
       "anonymous":false}
    ]"#;
    let mut other = read_new_abi_file(
        "0x0000000000000000000000000000000000000012.json",
        abi_b,
        &config.abi_reader,
    )
    .unwrap();
    assert_eq!(catalog[0].hash, other[0].hash);
    assert_eq!(catalog[0].num_indexed_args, other[0].num_indexed_args);
    assert_ne!(catalog[0].full_signature, other[0].full_signature);
    catalog.append(&mut other);
    let mut log = transfer_log_row();
    log.address = Some(addr(9));
    let matched = match_logs_by_topic0(&vec![log], &catalog);
    let sig = matched[0].sig.as_ref().unwrap();
    assert_eq!(
        sig.full_signature,
        "event Transfer(address indexed from, address indexed to, uint256 value)"
    );
}
