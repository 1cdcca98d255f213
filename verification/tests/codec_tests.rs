use glaciers::hexutil::{bytes_to_hex, bytes_to_hex_prefixed, hex_string_to_bytes, hex_to_bytes};
use glaciers::strutil::{ascii_lowercase, parse_usize, split_on_char, usize_to_dec_string};
use glaciers::rows::{CellValue, DecodedLogRow, LogRow, MatchedLogRow};
use glaciers::utils::{
    binary_columns_to_hex_string, hex_string_columns_to_binary, CellKind, Table,
};
use glaciers::value::{params_to_json, DynValue, StrDynSolValue, StructuredParam};
use glaciers::decoder::{decoded_save_path, replace_str, set_extension, DecoderType};

#[test]
fn hex_encoding_is_prefixed_lower_case() {
    assert_eq!(bytes_to_hex(&vec![]), "");
    assert_eq!(bytes_to_hex(&vec![0x00, 0xab, 0xff]), "00abff");
    assert_eq!(bytes_to_hex_prefixed(&vec![]), "0x");
    assert_eq!(bytes_to_hex_prefixed(&vec![0xde, 0xad]), "0xdead");
}

#[test]
fn hex_decoding_round_trips_and_rejects_bad_text() {
    assert_eq!(hex_to_bytes("00abff").unwrap(), vec![0x00, 0xab, 0xff]);
    assert_eq!(hex_string_to_bytes("0xDEAD").unwrap(), vec![0xde, 0xad]);
    assert_eq!(hex_string_to_bytes("0Xdead").unwrap(), vec![0xde, 0xad]);
    assert_eq!(hex_string_to_bytes("dead").unwrap(), vec![0xde, 0xad]);
    assert!(hex_string_to_bytes("0xdea").is_none());
    assert!(hex_string_to_bytes("0xzz").is_none());
    let bytes = vec![1u8, 2, 3, 255];
    assert_eq!(hex_string_to_bytes(&bytes_to_hex_prefixed(&bytes)).unwrap(), bytes);
}

#[test]
fn string_helpers_behave_like_std() {
    assert_eq!(ascii_lowercase("AbC-09"), "abc-09");
    assert_eq!(parse_usize("907"), Some(907));
    assert_eq!(parse_usize(""), None);
    assert_eq!(parse_usize("12a"), None);
    assert_eq!(usize_to_dec_string(0), "0");
    assert_eq!(usize_to_dec_string(90417), "90417");
    assert_eq!(split_on_char("a.b..c", '.'), vec!["a", "b", "", "c"]);
    assert_eq!(split_on_char("", '.'), vec![""]);
}

#[test]
fn binary_columns_become_hex_strings_and_nothing_else_changes() {
    let t = Table {
        names: vec!["payload".to_string(), "count".to_string()],
        kinds: vec![CellKind::Bin, CellKind::UInt],
        rows: vec![
            vec![CellValue::Bin(vec![0xab, 0x01]), CellValue::UInt(7)],
            vec![CellValue::Null, CellValue::UInt(8)],
        ],
    };
    let out = binary_columns_to_hex_string(&t);
    assert!(matches!(out.kinds[0], CellKind::Str));
    assert!(matches!(out.kinds[1], CellKind::UInt));
    match &out.rows[0][0] {
        CellValue::Str(s) => assert_eq!(s, "0xab01"),
        other => panic!("expected a hex string, got {:?}", other),
    }
    match &out.rows[1][0] {
        CellValue::Str(s) => assert_eq!(s, "0x"),
        other => panic!("expected the bare prefix, got {:?}", other),
    }
    assert!(matches!(out.rows[0][1], CellValue::UInt(7)));
}

#[test]
fn hex_string_columns_decode_and_round_trip() {
    let t = Table {
        names: vec!["topic0".to_string(), "note".to_string()],
        kinds: vec![CellKind::Str, CellKind::Str],
        rows: vec![vec![
            CellValue::Str("0x61ff".to_string()),
            CellValue::Str("keep me".to_string()),
        ]],
    };
    let bin = hex_string_columns_to_binary(&t, &vec!["topic0".to_string()]).unwrap();
    match &bin.rows[0][0] {
        CellValue::Bin(b) => assert_eq!(b, &vec![0x61, 0xff]),
        other => panic!("expected bytes, got {:?}", other),
    }
    match &bin.rows[0][1] {
        CellValue::Str(s) => assert_eq!(s, "keep me"),
        other => panic!("expected the untouched column, got {:?}", other),
    }
    // encoding the decoded table gives the original hex cell back
    let back = binary_columns_to_hex_string(&bin);
    match &back.rows[0][0] {
        CellValue::Str(s) => assert_eq!(s, "0x61ff"),
        other => panic!("expected the original cell, got {:?}", other),
    }
}

#[test]
fn hex_string_columns_fail_on_text_that_is_not_hex() {
    let t = Table {
        names: vec!["topic0".to_string()],
        kinds: vec![CellKind::Str],
        rows: vec![vec![CellValue::Str("0xnope".to_string())]],
    };
    assert!(hex_string_columns_to_binary(&t, &vec!["topic0".to_string()]).is_err());
}

#[test]
fn values_render_in_canonical_form() {
    assert_eq!(StrDynSolValue(DynValue::Bool(true)).to_string().unwrap(), "true");
    assert_eq!(StrDynSolValue(DynValue::Bytes(vec![])).to_string().unwrap(), "0x");
    assert_eq!(StrDynSolValue(DynValue::Bytes(vec![0x0a])).to_string().unwrap(), "0x0a");
    assert_eq!(
        StrDynSolValue(DynValue::Str("plain".to_string())).to_string().unwrap(),
        "plain"
    );
    let mut hundred = vec![0u8; 32];
    hundred[31] = 100;
    assert_eq!(StrDynSolValue(DynValue::Uint(hundred)).to_string().unwrap(), "100");
    let minus_two = vec![0xffu8; 31].into_iter().chain(vec![0xfeu8]).collect::<Vec<u8>>();
    assert_eq!(StrDynSolValue(DynValue::Int(minus_two)).to_string().unwrap(), "-2");
    let arr = DynValue::Array(vec![DynValue::Bool(true), DynValue::Bool(false)]);
    assert_eq!(StrDynSolValue(arr).to_string().unwrap(), "[true, false]");
    let tup = DynValue::Tuple(vec![
        DynValue::Str("a".to_string()),
        DynValue::Bytes(vec![0x01]),
    ]);
    assert_eq!(StrDynSolValue(tup).to_string().unwrap(), "(a, 0x01)");
    let addr = vec![
        0u8, 0, 0, 0, 0, 0, 0, 0, 0, 0, 0, 0, 0, 0, 0, 0, 0, 0, 0, 1,
    ];
    assert_eq!(
        StrDynSolValue(DynValue::Address(addr)).to_string().unwrap(),
        "0x0000000000000000000000000000000000000001"
    );
}

#[test]
fn params_serialize_as_compact_escaped_json() {
    let ps = vec![
        StructuredParam {
            name: "from".to_string(),
            index: 0,
            value_type: "address".to_string(),
            value: "0x01".to_string(),
        },
        StructuredParam {
            name: "no\"te".to_string(),
            index: 1,
            value_type: "string".to_string(),
            value: "line\nbreak".to_string(),
        },
    ];
    let json = params_to_json(&ps);
    assert_eq!(
        json,
        "[{\"name\":\"from\",\"index\":0,\"value_type\":\"address\",\"value\":\"0x01\"},{\"name\":\"no\\\"te\",\"index\":1,\"value_type\":\"string\",\"value\":\"line\\nbreak\"}]"
    );
    assert_eq!(params_to_json(&vec![]), "[]");
}

#[test]
fn save_paths_follow_the_decoded_layout() {
    assert_eq!(replace_str("raw_logs_v2_logs", "logs", "decoded_logs"), "raw_decoded_logs_v2_decoded_logs");
    assert_eq!(set_extension("a.parquet", "csv"), "a.csv");
    assert_eq!(set_extension("noext", "csv"), "noext.csv");
    assert_eq!(
        decoded_save_path("data/logs/ethereum__logs__1.parquet", DecoderType::Log, "parquet"),
        "data/decoded/ethereum__decoded_logs__1.parquet"
    );
    assert_eq!(
        decoded_save_path("data/traces/batch.parquet", DecoderType::Trace, "csv"),
        "data/decoded/decoded_traces_batch.csv"
    );
    assert_eq!(
        decoded_save_path("one.parquet", DecoderType::Log, "csv"),
        "decoded/decoded_logs_one.csv"
    );
}

#[test]
fn a_catalog_table_honours_the_hex_flag() {
    let row = glaciers::abi::AbiItemRow {
        address: vec![0u8; 20],
        hash: vec![0xab, 0xcd, 0xef, 0x01],
        full_signature: "function transfer(address _to, uint256 _value) returns (bool)"
            .to_string(),
        name: "transfer".to_string(),
        anonymous: None,
        num_indexed_args: None,
        state_mutability: Some("nonpayable".to_string()),
        id: "0xabcdef01".to_string(),
    };
    let plain = glaciers::utils::catalog_rows_to_table(&vec![row], false);
    assert!(matches!(plain.kinds[1], CellKind::Bin));
    assert!(matches!(&plain.rows[0][1], CellValue::Bin(b) if *b == vec![0xab, 0xcd, 0xef, 0x01]));
    assert!(matches!(&plain.rows[0][4], CellValue::Null));
    let row2 = glaciers::abi::AbiItemRow {
        address: vec![0u8; 20],
        hash: vec![0xab, 0xcd, 0xef, 0x01],
        full_signature: "f".to_string(),
        name: "f".to_string(),
        anonymous: None,
        num_indexed_args: None,
        state_mutability: None,
        id: "x".to_string(),
    };
    let hexed = glaciers::utils::catalog_rows_to_table(&vec![row2], true);
    assert!(matches!(hexed.kinds[1], CellKind::Str));
    assert!(matches!(&hexed.rows[0][1], CellValue::Str(s) if s == "0xabcdef01"));
}

#[test]
fn a_decoded_log_table_honours_the_hex_flag() {
    let row = DecodedLogRow {
        matched: MatchedLogRow {
            log: LogRow {
                address: Some(vec![0x0a; 20]),
                topic0: Some(vec![0x01; 32]),
                topic1: None,
                topic2: None,
                topic3: None,
                data: None,
                extra: vec![CellValue::Str("kept".to_string())],
            },
            num_indexed_args: 1,
            sig: None,
        },
        event_values: None,
        event_keys: None,
        event_json: None,
    };
    let config = glaciers::config::Config::new();
    let alias = &config.log_decoder.log_schema.log_alias;
    let extra_names = vec!["note".to_string()];
    let extra_kinds = vec![CellKind::Str];
    let plain =
        glaciers::utils::decoded_logs_to_table(&vec![row], alias, &extra_names, &extra_kinds, false);
    assert_eq!(plain.names[0], "address");
    assert_eq!(plain.names[6], "note");
    assert_eq!(plain.names[7], "num_indexed_args");
    assert!(matches!(&plain.rows[0][0], CellValue::Bin(b) if b.len() == 20));
    assert!(matches!(&plain.rows[0][2], CellValue::Null));
    assert!(matches!(&plain.rows[0][7], CellValue::UInt(1)));
    let row2 = DecodedLogRow {
        matched: MatchedLogRow {
            log: LogRow {
                address: Some(vec![0x0a; 20]),
                topic0: Some(vec![0x01; 32]),
                topic1: None,
                topic2: None,
                topic3: None,
                data: None,
                extra: vec![CellValue::Str("kept".to_string())],
            },
            num_indexed_args: 1,
            sig: None,
        },
        event_values: None,
        event_keys: None,
        event_json: None,
    };
    let hexed =
        glaciers::utils::decoded_logs_to_table(&vec![row2], alias, &extra_names, &extra_kinds, true);
    // the binary columns become hex strings, absent cells the bare prefix,
    // and the passthrough column is untouched
    assert!(matches!(&hexed.rows[0][0], CellValue::Str(s) if s == "0x0a0a0a0a0a0a0a0a0a0a0a0a0a0a0a0a0a0a0a0a"));
    assert!(matches!(&hexed.rows[0][2], CellValue::Str(s) if s == "0x"));
    assert!(matches!(&hexed.rows[0][6], CellValue::Str(s) if s == "kept"));
}
