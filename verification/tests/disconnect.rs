use ironrdp_core::encode_vec;
use ironrdp_pdu::mcs::{
    DisconnectProviderUltimatum, DisconnectReason, McsMessage, SendDataIndication,
};
use ironrdp_pdu::rdp::headers::{ShareControlHeader, ShareControlPdu, ShareDataPdu};
use ironrdp_pdu::rdp::server_error_info::{
    ErrorInfo, ProtocolIndependentCode, ServerSetErrorInfoPdu,
};
use ironrdp_pdu::x224::X224;
use macrdp::disconnect::{
    deactivate_all, send_disconnect_ultimatum, send_error_info, send_graceful_disconnect, ErrorCode,
};
use macrdp::errors::ServerError;

#[test]
fn error_info_pdu_encodes_correctly() {
    let error_info = ErrorInfo::ProtocolIndependentCode(
        ProtocolIndependentCode::ServerInsufficientPrivileges,
    );
    let pdu = ServerSetErrorInfoPdu(error_info);
    let encoded = encode_vec(&pdu).unwrap();
    // ErrorInfo is a u32 = 0x00000009
    assert_eq!(encoded, [0x09, 0x00, 0x00, 0x00]);
}

#[test]
fn error_info_description_is_meaningful() {
    let error_info = ErrorInfo::ProtocolIndependentCode(
        ProtocolIndependentCode::ServerInsufficientPrivileges,
    );
    let desc = error_info.description();
    assert!(
        desc.contains("insufficient") || desc.contains("privileges"),
        "description should mention privileges: {desc}"
    );
}

#[test]
fn send_disconnect_ultimatum_encodes_mcs_pdu() {
    let data = send_disconnect_ultimatum().unwrap();
    // Should contain X224 header + MCS Disconnect Provider Ultimatum
    assert!(!data.is_empty());
    assert!(data.len() >= 7, "disconnect PDU should be at least 7 bytes, got {}", data.len());
}

#[test]
fn send_graceful_disconnect_sends_three_pdus() {
    let chunks = send_graceful_disconnect(1004, 1003, ErrorCode::DisconnectedByOtherConnection);
    // Should send 3 PDUs: error info, deactivate all, disconnect ultimatum
    assert_eq!(chunks.len(), 3, "graceful disconnect should send 3 PDUs");
}

#[test]
fn send_graceful_disconnect_for_tcc_sends_three_pdus() {
    let chunks = send_graceful_disconnect(1004, 1003, ErrorCode::ServerInsufficientPrivileges);
    assert_eq!(chunks.len(), 3, "graceful disconnect should send 3 PDUs");
}

#[test]
fn send_graceful_disconnect_error_info_is_first_pdu() {
    let chunks = send_graceful_disconnect(1004, 1003, ErrorCode::DisconnectedByOtherConnection);
    // First PDU should contain the error code 0x05 (DisconnectedByOtherconnection)
    let first_pdu = &chunks[0];
    assert!(
        first_pdu.windows(4).any(|w| w == [0x05, 0x00, 0x00, 0x00]),
        "first PDU should contain error code 0x05"
    );
}

#[test]
fn send_graceful_disconnect_ultimatum_is_last_pdu() {
    let chunks = send_graceful_disconnect(1004, 1003, ErrorCode::ServerInsufficientPrivileges);
    // Last PDU should be the disconnect ultimatum (same as standalone)
    assert_eq!(
        chunks[2],
        send_disconnect_ultimatum().unwrap(),
        "last PDU should be the MCS Disconnect Provider Ultimatum"
    );
}

#[test]
fn goodbye_has_these_bytes() {
    let chunks = send_graceful_disconnect(1004, 1003, ErrorCode::RpcInitiatedDisconnect);
    assert_eq!(
        chunks[0],
        vec![
            3, 0, 0, 36, 2, 0xF0, 0x80, 0x68, 0, 2, 0x03, 0xEC, 0x70, 22, 22, 0, 0x17, 0, 0xEC,
            0x03, 0, 0, 0, 0, 0, 1, 8, 0, 0x2F, 0, 0, 0, 1, 0, 0, 0
        ]
    );
    assert_eq!(
        chunks[1],
        vec![
            3, 0, 0, 27, 2, 0xF0, 0x80, 0x68, 0, 2, 0x03, 0xEC, 0x70, 13, 13, 0, 0x16, 0, 0xEC,
            0x03, 0, 0, 0, 0, 1, 0, 0
        ]
    );
    assert_eq!(chunks[2], vec![3, 0, 0, 9, 2, 0xF0, 0x80, 0x20, 0x80]);
}

#[test]
fn goodbye_reads_back() {
    for (code, number) in [
        (ErrorCode::RpcInitiatedDisconnect, ProtocolIndependentCode::RpcInitiatedDisconnect),
        (
            ErrorCode::DisconnectedByOtherConnection,
            ProtocolIndependentCode::DisconnectedByOtherconnection,
        ),
        (
            ErrorCode::ServerInsufficientPrivileges,
            ProtocolIndependentCode::ServerInsufficientPrivileges,
        ),
    ] {
        let message = send_error_info(1004, 1003, code).unwrap();
        let indication: X224<SendDataIndication<'_>> = ironrdp_core::decode(&message).unwrap();
        assert_eq!((indication.0.initiator_id, indication.0.channel_id), (1003, 1004));
        let header: ShareControlHeader = ironrdp_core::decode(&indication.0.user_data).unwrap();
        assert_eq!(header.pdu_source, 1004);
        match header.share_control_pdu {
            ShareControlPdu::Data(data) => assert_eq!(
                data.share_data_pdu,
                ShareDataPdu::ServerSetErrorInfo(ServerSetErrorInfoPdu(
                    ErrorInfo::ProtocolIndependentCode(number)
                ))
            ),
            other => panic!("{:?}", other),
        }
    }
    let message = deactivate_all(1004, 1003).unwrap();
    let indication: X224<SendDataIndication<'_>> = ironrdp_core::decode(&message).unwrap();
    let header: ShareControlHeader = ironrdp_core::decode(&indication.0.user_data).unwrap();
    assert!(matches!(header.share_control_pdu, ShareControlPdu::ServerDeactivateAll(_)));
    let message = send_disconnect_ultimatum().unwrap();
    let ultimatum: X224<McsMessage<'_>> = ironrdp_core::decode(&message).unwrap();
    assert_eq!(
        ultimatum.0,
        McsMessage::DisconnectProviderUltimatum(DisconnectProviderUltimatum::from_reason(
            DisconnectReason::ProviderInitiated
        ))
    );
}

#[test]
fn user_channels_start_at_1001() {
    assert_eq!(
        send_error_info(1004, 1000, ErrorCode::RpcInitiatedDisconnect).unwrap_err(),
        ServerError::Encode
    );
    assert_eq!(deactivate_all(1004, 1000).unwrap_err(), ServerError::Encode);
    assert!(deactivate_all(1004, 1001).is_ok());
    let chunks = send_graceful_disconnect(1004, 1000, ErrorCode::RpcInitiatedDisconnect);
    assert_eq!(chunks, vec![send_disconnect_ultimatum().unwrap()]);
}
