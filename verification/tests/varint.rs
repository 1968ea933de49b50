use termmux::varint::{read_u64, write_unsigned, VarintError};

#[test]
fn numbers_are_written_least_significant_group_first() {
    let cases: [(u64, &[u8]); 7] = [
        (0, &[0]),
        (2, &[2]),
        (127, &[127]),
        (128, &[0x80, 1]),
        (129, &[0x81, 1]),
        (12857, &[0xb9, 0x64]),
        (u64::MAX, &[0xff, 0xff, 0xff, 0xff, 0xff, 0xff, 0xff, 0xff, 0xff, 1]),
    ];
    for (value, bytes) in cases.iter() {
        let mut buf = vec![0xaa];
        let n = write_unsigned(&mut buf, *value);
        assert_eq!(n, bytes.len());
        assert_eq!(&buf[1..], *bytes);
        assert_eq!(buf[0], 0xaa);
    }
}

#[test]
fn what_was_written_reads_back() {
    let values = [0u64, 1, 127, 128, 300, 1 << 32, (1 << 63) - 1, 1 << 63, u64::MAX];
    let mut buf = Vec::new();
    let mut ends = Vec::new();
    for v in values.iter() {
        write_unsigned(&mut buf, *v);
        ends.push(buf.len());
    }
    let mut at = 0;
    for (v, end) in values.iter().zip(ends.iter()) {
        let (got, next) = read_u64(&buf, at).unwrap();
        assert_eq!(got, *v);
        assert_eq!(next, *end);
        at = next;
    }
    assert_eq!(read_u64(&buf, at), Err(VarintError::UnexpectedEof));
}

#[test]
fn the_writer_agrees_with_leb128() {
    for shift in 0..64 {
        for delta in [0u64, 1].iter() {
            let value = (1u64 << shift).wrapping_sub(*delta);
            let mut ours = Vec::new();
            write_unsigned(&mut ours, value);
            let mut theirs = Vec::new();
            leb128::write::unsigned(&mut theirs, value).unwrap();
            assert_eq!(ours, theirs);
        }
    }
}

#[test]
fn reading_starts_where_it_is_told_to() {
    let bytes = [0xff, 0x05, 0x80, 0x01];
    assert_eq!(read_u64(&bytes, 1), Ok((5, 2)));
    assert_eq!(read_u64(&bytes, 2), Ok((128, 4)));
    assert_eq!(read_u64(&bytes, 4), Err(VarintError::UnexpectedEof));
    assert_eq!(read_u64(&bytes, 9), Err(VarintError::UnexpectedEof));
    // a number may be written with more bytes than it needs
    assert_eq!(read_u64(&[0x80, 0x80, 0x00], 0), Ok((0, 3)));
}

#[test]
fn overflow_is_told_from_truncation() {
    let mut bytes = vec![0x80u8; 9];
    bytes.push(0x02);
    assert_eq!(read_u64(&bytes, 0), Err(VarintError::Overflow));
    let mut bytes = vec![0x80u8; 9];
    bytes.push(0x7f);
    assert_eq!(read_u64(&bytes, 0), Err(VarintError::Overflow));
    // the tenth byte asks for more, and more comes
    let mut bytes = vec![0x80u8; 10];
    bytes.push(0x00);
    assert_eq!(read_u64(&bytes, 0), Err(VarintError::Overflow));
    // the tenth byte asks for more, and nothing comes
    assert_eq!(read_u64(&[0x80; 10], 0), Err(VarintError::UnexpectedEof));
    let mut bytes = vec![0x80u8; 9];
    bytes.push(0x01);
    assert_eq!(read_u64(&bytes, 0), Ok((1 << 63, 10)));
}

/// What reading a number from the front of `s` is said to give: the number
/// and its length, or the error.
fn described(s: &[u8]) -> Result<(u64, usize), VarintError> {
    let stop = match s.iter().position(|b| *b < 128) {
        Some(k) => k,
        None => return Err(VarintError::UnexpectedEof),
    };
    if stop > 9 || (stop == 9 && s[9] > 1) {
        return Err(VarintError::Overflow);
    }
    let mut value = 0u128;
    for (i, b) in s[..=stop].iter().enumerate() {
        value += ((b % 128) as u128) << (7 * i);
    }
    Ok((value as u64, stop + 1))
}

#[test]
fn reading_agrees_with_its_description() {
    let mut seed = 0x2545f491u32;
    let mut next = move || {
        seed ^= seed << 13;
        seed ^= seed >> 17;
        seed ^= seed << 5;
        seed
    };
    for _ in 0..20000 {
        let len = (next() % 14) as usize;
        let bytes: Vec<u8> = (0..len)
            .map(|_| {
                let r = next();
                match r % 8 {
                    0 => 0x00,
                    1 => 0x01,
                    2 => 0x02,
                    3 => 0x7f,
                    4 => 0x80,
                    5 => 0x81,
                    6 => 0xff,
                    _ => (r >> 8) as u8 | 0x80,
                }
            })
            .collect();
        for start in 0..=len {
            let expected = described(&bytes[start..]).map(|(v, n)| (v, start + n));
            assert_eq!(read_u64(&bytes, start), expected, "{:?} at {}", bytes, start);
        }
    }
}
