use ql_link_lab::mcp::McpState;
use ql_link_lab::session_id::endpoint;

#[test]
fn a_path_names_its_session() {
    assert_eq!(
        endpoint(0x67e55044_10b1_426f_9247_bb680e5fe0c8),
        "/messages?id=67e55044-10b1-426f-9247-bb680e5fe0c8"
    );
    assert_eq!(
        endpoint(0),
        "/messages?id=00000000-0000-0000-0000-000000000000"
    );
    assert_eq!(
        endpoint(u128::MAX),
        "/messages?id=ffffffff-ffff-ffff-ffff-ffffffffffff"
    );
}

#[test]
fn a_path_reads_back_as_its_session() {
    for id in [1, 0xabc, u128::MAX / 3] {
        let path = endpoint(id);
        let text = path.strip_prefix("/messages?id=").unwrap();
        assert_eq!(uuid::Uuid::parse_str(text).unwrap().as_u128(), id);
    }
}

#[test]
fn session_ids_are_random() {
    let mut state: McpState<u8, u8> = McpState::new(true, "0.1.0".to_string());
    let (a, frame) = state.sse_handler(1);
    let (b, _) = state.sse_handler(2);
    assert_ne!(a, b);
    assert_eq!(frame.event, "endpoint");
    assert_eq!(frame.data, endpoint(a));
    for id in [a, b] {
        assert_eq!(uuid::Uuid::from_u128(id).get_version_num(), 4);
        assert_eq!(id >> 62 & 3, 2);
    }
}
