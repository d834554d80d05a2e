use papyrus_consensus::cli::{Command, CommitterCliArgs, GlobalOptions, IoArgs};
use papyrus_consensus::header_sync::{
    header_latency, header_marker_after, parse_data_for_block, BlockSignature, HeaderSyncError,
    SignedBlockHeader,
};
use papyrus_consensus::types::BlockHash;

fn signature(n: u128) -> BlockSignature {
    BlockSignature { r: BlockHash { high: 0, low: n }, s: BlockHash { high: n, low: 0 } }
}

fn header(block_number: u64, n_signatures: usize) -> SignedBlockHeader {
    SignedBlockHeader {
        block_number,
        timestamp: 1_700_000_000,
        signatures: (0..n_signatures as u128).map(signature).collect(),
    }
}

#[test]
fn header_for_expected_block_is_accepted() {
    let h = header(10, 1);
    match parse_data_for_block(10, Some(h.clone())) {
        Ok(Some(g)) => {
            assert_eq!(g.block_number, 10);
            assert_eq!(g.signatures, h.signatures);
        }
        _ => panic!("expected the header back"),
    }
}

#[test]
fn end_of_headers_is_none() {
    assert!(matches!(parse_data_for_block(10, None), Ok(None)));
}

#[test]
fn header_out_of_order_is_refused() {
    assert!(matches!(
        parse_data_for_block(10, Some(header(11, 1))),
        Err(HeaderSyncError::HeadersUnordered { expected_block_number: 10, actual_block_number: 11 })
    ));
}

#[test]
fn header_with_two_signatures_is_refused() {
    match parse_data_for_block(10, Some(header(10, 2))) {
        Err(HeaderSyncError::WrongSignaturesLength { signatures }) => {
            assert_eq!(signatures, vec![signature(0), signature(1)]);
        }
        _ => panic!("expected a signatures error"),
    }
    assert!(matches!(
        parse_data_for_block(10, Some(header(10, 0))),
        Err(HeaderSyncError::WrongSignaturesLength { .. })
    ));
}

#[test]
fn marker_moves_past_stored_block() {
    assert_eq!(header_marker_after(0), Some(1));
    assert_eq!(header_marker_after(41), Some(42));
    assert_eq!(header_marker_after(u64::MAX), None);
}

#[test]
fn latency_is_reported_when_not_negative() {
    assert_eq!(header_latency(1_700_000_030, 1_700_000_000), Some(30));
    assert_eq!(header_latency(1_700_000_000, 1_700_000_000), Some(0));
    assert_eq!(header_latency(1_699_999_999, 1_700_000_000), None);
    assert_eq!(header_latency(-5, 0), None);
    assert_eq!(header_latency(i64::MAX, 0), Some(i64::MAX));
    assert_eq!(header_latency(i64::MAX, u64::MAX), None);
}

#[test]
fn output_path_of_each_command() {
    let io = IoArgs { input_path: "in.json".to_string(), output_path: "out.json".to_string() };
    let args = |command| CommitterCliArgs { global_options: GlobalOptions {}, command };
    assert_eq!(args(Command::BlockHash { io_args: io.clone() }).output_path(), "out.json");
    assert_eq!(
        args(Command::BlockHashCommitments { io_args: io.clone() }).output_path(),
        "out.json"
    );
    assert_eq!(args(Command::Commit { output_path: "stdout".to_string() }).output_path(), "stdout");
    assert_eq!(
        args(Command::PythonTest { io_args: io, test_name: "t".to_string(), inputs: None })
            .output_path(),
        "out.json"
    );
}
