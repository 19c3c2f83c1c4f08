use artemis_core::strategy::parse_pool_records;

fn table(rows: &[&str]) -> Vec<u8> {
    let mut text = String::from("token_address,v3_pool,v2_pool,weth_token0\n");
    for row in rows {
        text.push_str(row);
        text.push('\n');
    }
    text.into_bytes()
}

const TOKEN: &str = "0x0000000000000000000000000000000000000001";
const V3: &str = "0x00000000000000000000000000000000000000aB";
const V2: &str = "0x00000000000000000000000000000000000000CD";

#[test]
fn parses_rows_after_header() {
    let text = table(&[
        &format!("{TOKEN},{V3},{V2},true"),
        &format!("{TOKEN},{V2},{V3},false"),
    ]);
    let records = parse_pool_records(text).unwrap();
    assert_eq!(records.len(), 2);
    let mut v3 = vec![0u8; 20];
    v3[19] = 0xab;
    let mut v2 = vec![0u8; 20];
    v2[19] = 0xcd;
    assert_eq!(records[0].v3_pool, v3);
    assert_eq!(records[0].v2_pool, v2);
    assert!(records[0].weth_token0);
    assert_eq!(records[1].v3_pool, v2);
    assert_eq!(records[1].v2_pool, v3);
    assert!(!records[1].weth_token0);
}

#[test]
fn header_only_is_empty() {
    assert_eq!(parse_pool_records(table(&[])).unwrap().len(), 0);
}

#[test]
fn blank_lines_are_skipped() {
    let text = table(&["", &format!("{TOKEN},{V3},{V2},true"), ""]);
    assert_eq!(parse_pool_records(text).unwrap().len(), 1);
}

#[test]
fn crlf_rows_parse() {
    let mut text = b"token_address,v3_pool,v2_pool,weth_token0\r\n".to_vec();
    text.extend_from_slice(format!("{TOKEN},{V3},{V2},false\r\n").as_bytes());
    let records = parse_pool_records(text).unwrap();
    assert_eq!(records.len(), 1);
    assert!(!records[0].weth_token0);
}

#[test]
fn malformed_rows_are_rejected() {
    // Too few fields.
    assert!(parse_pool_records(table(&["a,b,c"])).is_err());
    // A non-hex address.
    let bad = format!("{TOKEN},0xzz00000000000000000000000000000000000000,{V2},true");
    assert!(parse_pool_records(table(&[&bad])).is_err());
    // A wrong-length address.
    let short = format!("{TOKEN},0x1234,{V2},true");
    assert!(parse_pool_records(table(&[&short])).is_err());
    // A malformed boolean.
    let flag = format!("{TOKEN},{V3},{V2},yes");
    assert!(parse_pool_records(table(&[&flag])).is_err());
}

#[test]
fn empty_table_is_empty() {
    assert_eq!(parse_pool_records(Vec::new()).unwrap().len(), 0);
}
