use ntp_client::codec;
use ntp_client::decode_reply;
use ntp_client::error::NtpError;

/// A 48-byte server reply whose transmit timestamp holds the given seconds
/// and fraction fields, big-endian, at bytes 40..47.
fn make_reply(seconds: u32, fraction: u32) -> Vec<u8> {
    let mut reply = vec![0u8; 48];
    reply[0] = 0b00_100_100; // LI=0, VN=4, Mode=4 (server)
    reply[40..44].copy_from_slice(&seconds.to_be_bytes());
    reply[44..48].copy_from_slice(&fraction.to_be_bytes());
    reply
}

#[test]
fn encode_request_is_48_bytes_with_header_byte() {
    let packet = ntp_client::codec::encode_request();
    assert_eq!(packet.len(), 48);
    assert_eq!(packet[0], 0x1b);
    // Leap Indicator 0, Version Number 3, Mode 3 (client).
    assert_eq!(packet[0] >> 6, 0);
    assert_eq!((packet[0] >> 3) & 0b111, 3);
    assert_eq!(packet[0] & 0b111, 3);
    for i in 1..48 {
        assert_eq!(packet[i], 0);
    }
}

#[test]
fn decode_extracts_big_endian_fields() {
    let reply = make_reply(0xE93B7880, 0x00000001);
    assert_eq!(
        codec::decode_transmit_timestamp(&reply),
        Ok((3912988800, 1))
    );
}

#[test]
fn decode_rejects_short_buffer() {
    let reply = vec![0u8; 47];
    assert_eq!(codec::decode_transmit_timestamp(&reply), Err(NtpError::Decode));
    assert_eq!(codec::decode_transmit_timestamp(&Vec::new()), Err(NtpError::Decode));
}

#[test]
fn to_unix_seconds_subtracts_epoch_offset() {
    assert_eq!(codec::to_unix_seconds(3912988800), Ok(1704000000));
    assert_eq!(codec::to_unix_seconds(2208988800), Ok(0));
    assert_eq!(codec::to_unix_seconds(u32::MAX), Ok(u32::MAX - 2208988800));
}

#[test]
fn to_unix_seconds_rejects_pre_unix_epoch() {
    assert_eq!(codec::to_unix_seconds(2208988799), Err(NtpError::Decode));
    assert_eq!(codec::to_unix_seconds(0), Err(NtpError::Decode));
}

#[test]
fn known_reference_round_trip() {
    // NTP seconds 3,912,988,800 (bytes E9 44 41 80), fraction 0: Unix time
    // 1,704,000,000 = 2023-12-31T05:20:00.000Z.
    let reply = make_reply(3912988800, 0);
    let time = decode_reply(&reply).unwrap();
    assert_eq!(time.year, 2023);
    assert_eq!(time.month, 12);
    assert_eq!(time.day, 31);
    assert_eq!(time.hour, 5);
    assert_eq!(time.minute, 20);
    assert_eq!(time.second, 0);
    assert_eq!(time.millisecond, 0);
}

#[test]
fn crafted_server_reply_decodes_to_expected_instant() {
    // Transmit timestamp for 2025-01-01T00:00:00.250Z: Unix 1,735,689,600,
    // NTP seconds 3,944,678,400, fraction 2^30 (a quarter second).
    let reply = make_reply(3944678400, 0x40000000);
    let time = decode_reply(&reply).unwrap();
    assert_eq!(time.year, 2025);
    assert_eq!(time.month, 1);
    assert_eq!(time.day, 1);
    assert_eq!(time.hour, 0);
    assert_eq!(time.minute, 0);
    assert_eq!(time.second, 0);
    assert_eq!(time.millisecond, 250);
}

#[test]
fn server_reply_check_reads_mode_and_length() {
    let reply = make_reply(3944678400, 0); // mode 4 set by make_reply
    assert!(codec::is_server_reply(&reply));
    let mut client_mode = make_reply(3944678400, 0);
    client_mode[0] = 0x1b; // mode 3 (client)
    assert!(!codec::is_server_reply(&client_mode));
    assert!(!codec::is_server_reply(&vec![0u8; 47]));
}

#[test]
fn decode_reply_rejects_pre_unix_epoch_timestamp() {
    let reply = make_reply(2208988799, 0);
    assert_eq!(decode_reply(&reply), Err(NtpError::Decode));
}

#[test]
fn decode_reply_rejects_short_reply() {
    let reply = vec![0u8; 20];
    assert_eq!(decode_reply(&reply), Err(NtpError::Decode));
}
