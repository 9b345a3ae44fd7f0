use tinycrypt::container::{container_len, FRAME_LEN, NONCE_LEN, PREFIX_LEN, SALT_LEN};
use tinycrypt::{pack, unpack, CryptographyError, EncryptedFile};

fn sample(data: Vec<u8>) -> EncryptedFile {
    let mut nonce = [0u8; 12];
    for (i, byte) in nonce.iter_mut().enumerate() {
        *byte = 0xa0 + i as u8;
    }
    let mut salt = [0u8; 32];
    for (i, byte) in salt.iter_mut().enumerate() {
        *byte = 0x40 + i as u8;
    }
    EncryptedFile { data, nonce, salt }
}

#[test]
fn frame_is_prefix_nonce_and_salt() {
    assert_eq!(PREFIX_LEN, 8);
    assert_eq!(NONCE_LEN, 12);
    assert_eq!(SALT_LEN, 32);
    assert_eq!(FRAME_LEN, PREFIX_LEN + NONCE_LEN + SALT_LEN);
}

#[test]
fn container_length_adds_the_frame() {
    assert_eq!(container_len(0), Ok(52));
    assert_eq!(container_len(28), Ok(80));
    assert_eq!(container_len(usize::MAX - 52), Ok(usize::MAX));
}

#[test]
fn container_length_beyond_usize_is_an_encoding_failure() {
    assert_eq!(
        container_len(usize::MAX - 51),
        Err(CryptographyError::EncodingFailure)
    );
    assert_eq!(
        container_len(usize::MAX),
        Err(CryptographyError::EncodingFailure)
    );
}

#[test]
fn pack_lays_out_length_data_nonce_salt() {
    let file = sample(vec![1, 2, 3]);
    let bytes = pack(&file).unwrap();
    let mut expected = vec![3u8, 0, 0, 0, 0, 0, 0, 0, 1, 2, 3];
    expected.extend_from_slice(&file.nonce);
    expected.extend_from_slice(&file.salt);
    assert_eq!(bytes, expected);
}

#[test]
fn pack_of_empty_data_is_the_frame() {
    let file = sample(Vec::new());
    let bytes = pack(&file).unwrap();
    assert_eq!(bytes.len(), 52);
    assert_eq!(&bytes[..8], &[0u8; 8][..]);
    assert_eq!(&bytes[8..20], &file.nonce[..]);
    assert_eq!(&bytes[20..], &file.salt[..]);
}

#[test]
fn pack_writes_the_length_least_significant_byte_first() {
    let file = sample(vec![0x5a; 0x01_02_03]);
    let bytes = pack(&file).unwrap();
    assert_eq!(&bytes[..8], &[0x03u8, 0x02, 0x01, 0, 0, 0, 0, 0][..]);
    assert_eq!(bytes.len(), 0x01_02_03 + 52);
}

#[test]
fn unpack_inverts_pack() {
    for len in [0usize, 1, 16, 255, 256, 257, 70_000] {
        let data: Vec<u8> = (0..len).map(|i| (i * 7 % 256) as u8).collect();
        let file = sample(data);
        let read = unpack(&pack(&file).unwrap()).unwrap();
        assert_eq!(read.data, file.data);
        assert_eq!(read.nonce, file.nonce);
        assert_eq!(read.salt, file.salt);
    }
}

#[test]
fn pack_inverts_unpack() {
    let mut bytes = vec![2u8, 0, 0, 0, 0, 0, 0, 0, 0xde, 0xad];
    bytes.extend_from_slice(&[0x11; 12]);
    bytes.extend_from_slice(&[0x22; 32]);
    let file = unpack(&bytes).unwrap();
    assert_eq!(file.data, vec![0xde, 0xad]);
    assert_eq!(file.nonce, [0x11; 12]);
    assert_eq!(file.salt, [0x22; 32]);
    assert_eq!(pack(&file).unwrap(), bytes);
}

#[test]
fn unpack_ignores_what_follows_the_container() {
    let file = sample(vec![5, 6, 7, 8]);
    let mut bytes = pack(&file).unwrap();
    bytes.extend_from_slice(&[0xee; 9]);
    let read = unpack(&bytes).unwrap();
    assert_eq!(read.data, file.data);
    assert_eq!(read.nonce, file.nonce);
    assert_eq!(read.salt, file.salt);
}

#[test]
fn unpack_rejects_every_proper_prefix() {
    let bytes = pack(&sample(vec![9; 20])).unwrap();
    for kept in 0..bytes.len() {
        assert_eq!(
            unpack(&bytes[..kept]).err(),
            Some(CryptographyError::DecodingFailure)
        );
    }
    assert!(unpack(&bytes).is_ok());
}

#[test]
fn unpack_rejects_a_length_beyond_the_input() {
    let mut bytes = pack(&sample(vec![9; 20])).unwrap();
    bytes[0] = 21;
    assert_eq!(
        unpack(&bytes).err(),
        Some(CryptographyError::DecodingFailure)
    );
    bytes[0] = 20;
    bytes[7] = 1;
    assert_eq!(
        unpack(&bytes).err(),
        Some(CryptographyError::DecodingFailure)
    );
    assert_eq!(
        unpack(&[0xff; 60]).err(),
        Some(CryptographyError::DecodingFailure)
    );
}

#[test]
fn unpack_reads_a_shorter_announced_length() {
    let mut bytes = pack(&sample(vec![1, 2, 3, 4])).unwrap();
    bytes[0] = 2;
    let read = unpack(&bytes).unwrap();
    assert_eq!(read.data, vec![1, 2]);
    assert_eq!(&read.nonce[..2], &[3u8, 4][..]);
}

#[test]
fn pack_agrees_with_bincode() {
    for len in [0usize, 1, 28, 300, 65_536] {
        let data: Vec<u8> = (0..len).map(|i| (i % 253) as u8).collect();
        let file = sample(data);
        let expected = bincode::serialize(&(file.data.clone(), file.nonce, file.salt)).unwrap();
        assert_eq!(pack(&file).unwrap(), expected);
    }
}

#[test]
fn unpack_agrees_with_bincode() {
    let whole = pack(&sample((0..40u8).collect())).unwrap();
    let mut inputs: Vec<Vec<u8>> = (0..=whole.len()).map(|kept| whole[..kept].to_vec()).collect();
    let mut trailing = whole.clone();
    trailing.extend_from_slice(&[1, 2, 3]);
    inputs.push(trailing);
    for first in [0u8, 1, 39, 41, 43, 200] {
        let mut altered = whole.clone();
        altered[0] = first;
        inputs.push(altered);
    }
    let mut high = whole.clone();
    high[5] = 1;
    inputs.push(high);
    inputs.push(vec![0u8; 52]);
    inputs.push(vec![0xffu8; 100]);
    for input in inputs {
        let expected: Result<(Vec<u8>, [u8; 12], [u8; 32]), _> = bincode::deserialize(&input);
        match (unpack(&input), expected) {
            (Ok(file), Ok((data, nonce, salt))) => {
                assert_eq!(file.data, data);
                assert_eq!(file.nonce, nonce);
                assert_eq!(file.salt, salt);
            }
            (Err(e), Err(_)) => assert_eq!(e, CryptographyError::DecodingFailure),
            (ours, theirs) => panic!(
                "unpack gave {:?} where bincode gave {:?} on {:?}",
                ours.map(|f| f.data),
                theirs.map(|t| t.0),
                input
            ),
        }
    }
}
