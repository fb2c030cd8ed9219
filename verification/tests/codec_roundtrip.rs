use chess_core::codec::{
    encode_attack_masks_bin, encode_magic_hash_table_bin, load_attack_masks_bin,
    load_magic_hash_table_bin, push_u64_le, read_u64_le,
};
use chess_core::magic::MagicHashTable;

#[test]
fn word_codec_is_little_endian() {
    let mut out: Vec<u8> = Vec::new();
    push_u64_le(&mut out, 0x0102_0304_0506_0708);
    assert_eq!(out, vec![0x08, 0x07, 0x06, 0x05, 0x04, 0x03, 0x02, 0x01]);
    assert_eq!(read_u64_le(&out, 0), 0x0102_0304_0506_0708);
}

#[test]
fn mask_table_serialises_then_reloads_byte_for_byte() {
    let mut masks: Vec<u64> = Vec::new();
    for i in 0..64u64 {
        masks.push(i.wrapping_mul(0x9E37_79B9_7F4A_7C15) ^ (1 << (i % 64)));
    }
    let bytes = encode_attack_masks_bin(&masks);
    assert_eq!(bytes.len(), 512);
    let reloaded = load_attack_masks_bin(&bytes).expect("a 512-byte table must load");
    assert_eq!(reloaded, masks);
}

#[test]
fn mask_table_load_rejects_wrong_sizes() {
    assert!(load_attack_masks_bin(&vec![0u8; 511]).is_none());
    assert!(load_attack_masks_bin(&vec![0u8; 513]).is_none());
    assert!(load_attack_masks_bin(&Vec::new()).is_none());
    assert!(load_attack_masks_bin(&vec![0u8; 512]).is_some());
}

fn sample_tables() -> Vec<MagicHashTable> {
    let mut ts: Vec<MagicHashTable> = Vec::new();
    for i in 0..64u64 {
        let mut table: Vec<u64> = Vec::new();
        for j in 0..(1 + (i % 5)) {
            table.push(i * 1000 + j * 17);
        }
        ts.push(MagicHashTable { magic: 0x8000_0000_0000_0001 ^ i, shift: 1 + (i % 5), table });
    }
    ts
}

#[test]
fn magic_table_serialises_then_reloads_field_for_field() {
    let ts = sample_tables();
    let bytes = encode_magic_hash_table_bin(&ts);
    let reloaded = load_magic_hash_table_bin(&bytes).expect("a well-formed file must load");
    assert_eq!(reloaded.len(), 64);
    for i in 0..64 {
        assert_eq!(reloaded[i].magic, ts[i].magic);
        assert_eq!(reloaded[i].shift, ts[i].shift);
        assert_eq!(reloaded[i].table, ts[i].table);
    }
    // and the reloaded tables re-encode to the identical bytes
    assert_eq!(encode_magic_hash_table_bin(&reloaded), bytes);
}

#[test]
fn magic_table_load_rejects_truncation_and_trailing_bytes() {
    let ts = sample_tables();
    let bytes = encode_magic_hash_table_bin(&ts);
    let mut truncated = bytes.clone();
    truncated.pop();
    assert!(load_magic_hash_table_bin(&truncated).is_none());
    let mut padded = bytes.clone();
    padded.push(0);
    assert!(load_magic_hash_table_bin(&padded).is_none());
    assert!(load_magic_hash_table_bin(&Vec::new()).is_none());
    // a length prefix pointing past the end of the file is rejected
    let mut lying = vec![0u8; 8];
    lying[0] = 200;
    assert!(load_magic_hash_table_bin(&lying).is_none());
}
