use vectornav::codec::VectornavData;
use vectornav::resolver::get_groups;
use vectornav::resolver::get_payload_length;
use vectornav::scanner::VNPacket;
use vectornav::VN_GROUP_FIELD_1;
use vectornav::VN_GROUP_FIELD_2;
use vectornav::VN_GROUP_FIELD_3;
use vectornav::VN_GROUP_FIELD_4;
use vectornav::VN_OUTPUT_GROUP;

#[test]
fn checksum() {
    // prepare sending packet
    let mut tx = VNPacket::new();
    tx.fill_header();
    tx.fill_data();
    tx.fill_crc();

    // prepare receiver
    let mut rx = VNPacket::new();
    rx.vn_data = VectornavData::clean(); // clean data

    // copy data
    rx.parse_data(&tx.buf);

    assert_eq!(tx.calc_chk, rx.calc_chk);
}

#[test]
fn groups() {
    // get output group
    let groups = get_groups(VN_OUTPUT_GROUP);

    let group_bytes: Vec<u8> = vec![
        (VN_GROUP_FIELD_1 >> 8) as u8,
        VN_GROUP_FIELD_1 as u8,
        (VN_GROUP_FIELD_2 >> 8) as u8,
        VN_GROUP_FIELD_2 as u8,
        (VN_GROUP_FIELD_3 >> 8) as u8,
        VN_GROUP_FIELD_3 as u8,
        (VN_GROUP_FIELD_4 >> 8) as u8,
        VN_GROUP_FIELD_4 as u8,
    ];
    println!("Gruop bytes: {:?}", group_bytes);

    let payload_len = get_payload_length(&groups, &group_bytes);

    println!("Payload len = {}", payload_len);
    assert_eq!(payload_len, 144);
}
