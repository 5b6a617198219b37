use macrdp::bit_writer::BitWriter;
use macrdp::zgfx::{compress, hash3, uncompressed_segment, HISTORY_SIZE};
use macrdp::zgfx_codes::{literal_lookup_table, write_literal, write_match, write_match_length};


struct TokenEntry {
    prefix_len: u8,
    prefix_code: u32,
    value_bits: u8,
    token_type: u8,
    value_base: u32,
}

const TOKEN_TABLE: [TokenEntry; 40] = [
    TokenEntry { prefix_len: 1, prefix_code: 0,   value_bits: 8,  token_type: 0, value_base: 0 },
    TokenEntry { prefix_len: 5, prefix_code: 17,  value_bits: 5,  token_type: 1, value_base: 0 },
    TokenEntry { prefix_len: 5, prefix_code: 18,  value_bits: 7,  token_type: 1, value_base: 32 },
    TokenEntry { prefix_len: 5, prefix_code: 19,  value_bits: 9,  token_type: 1, value_base: 160 },
    TokenEntry { prefix_len: 5, prefix_code: 20,  value_bits: 10, token_type: 1, value_base: 672 },
    TokenEntry { prefix_len: 5, prefix_code: 21,  value_bits: 12, token_type: 1, value_base: 1696 },
    TokenEntry { prefix_len: 5, prefix_code: 24,  value_bits: 0,  token_type: 0, value_base: 0x00 },
    TokenEntry { prefix_len: 5, prefix_code: 25,  value_bits: 0,  token_type: 0, value_base: 0x01 },
    TokenEntry { prefix_len: 6, prefix_code: 44,  value_bits: 14, token_type: 1, value_base: 5792 },
    TokenEntry { prefix_len: 6, prefix_code: 45,  value_bits: 15, token_type: 1, value_base: 22176 },
    TokenEntry { prefix_len: 6, prefix_code: 52,  value_bits: 0,  token_type: 0, value_base: 0x02 },
    TokenEntry { prefix_len: 6, prefix_code: 53,  value_bits: 0,  token_type: 0, value_base: 0x03 },
    TokenEntry { prefix_len: 6, prefix_code: 54,  value_bits: 0,  token_type: 0, value_base: 0xFF },
    TokenEntry { prefix_len: 7, prefix_code: 92,  value_bits: 18, token_type: 1, value_base: 54944 },
    TokenEntry { prefix_len: 7, prefix_code: 93,  value_bits: 20, token_type: 1, value_base: 317088 },
    TokenEntry { prefix_len: 7, prefix_code: 110, value_bits: 0,  token_type: 0, value_base: 0x04 },
    TokenEntry { prefix_len: 7, prefix_code: 111, value_bits: 0,  token_type: 0, value_base: 0x05 },
    TokenEntry { prefix_len: 7, prefix_code: 112, value_bits: 0,  token_type: 0, value_base: 0x06 },
    TokenEntry { prefix_len: 7, prefix_code: 113, value_bits: 0,  token_type: 0, value_base: 0x07 },
    TokenEntry { prefix_len: 7, prefix_code: 114, value_bits: 0,  token_type: 0, value_base: 0x08 },
    TokenEntry { prefix_len: 7, prefix_code: 115, value_bits: 0,  token_type: 0, value_base: 0x09 },
    TokenEntry { prefix_len: 7, prefix_code: 116, value_bits: 0,  token_type: 0, value_base: 0x0A },
    TokenEntry { prefix_len: 7, prefix_code: 117, value_bits: 0,  token_type: 0, value_base: 0x0B },
    TokenEntry { prefix_len: 7, prefix_code: 118, value_bits: 0,  token_type: 0, value_base: 0x3A },
    TokenEntry { prefix_len: 7, prefix_code: 119, value_bits: 0,  token_type: 0, value_base: 0x3B },
    TokenEntry { prefix_len: 7, prefix_code: 120, value_bits: 0,  token_type: 0, value_base: 0x3C },
    TokenEntry { prefix_len: 7, prefix_code: 121, value_bits: 0,  token_type: 0, value_base: 0x3D },
    TokenEntry { prefix_len: 7, prefix_code: 122, value_bits: 0,  token_type: 0, value_base: 0x3E },
    TokenEntry { prefix_len: 7, prefix_code: 123, value_bits: 0,  token_type: 0, value_base: 0x3F },
    TokenEntry { prefix_len: 7, prefix_code: 124, value_bits: 0,  token_type: 0, value_base: 0x40 },
    TokenEntry { prefix_len: 7, prefix_code: 125, value_bits: 0,  token_type: 0, value_base: 0x80 },
    TokenEntry { prefix_len: 8, prefix_code: 188, value_bits: 20, token_type: 1, value_base: 1365664 },
    TokenEntry { prefix_len: 8, prefix_code: 189, value_bits: 21, token_type: 1, value_base: 2414240 },
    TokenEntry { prefix_len: 8, prefix_code: 252, value_bits: 0,  token_type: 0, value_base: 0x0C },
    TokenEntry { prefix_len: 8, prefix_code: 253, value_bits: 0,  token_type: 0, value_base: 0x38 },
    TokenEntry { prefix_len: 8, prefix_code: 254, value_bits: 0,  token_type: 0, value_base: 0x39 },
    TokenEntry { prefix_len: 8, prefix_code: 255, value_bits: 0,  token_type: 0, value_base: 0x66 },
    TokenEntry { prefix_len: 9, prefix_code: 380, value_bits: 22, token_type: 1, value_base: 4511392 },
    TokenEntry { prefix_len: 9, prefix_code: 381, value_bits: 23, token_type: 1, value_base: 8705696 },
    TokenEntry { prefix_len: 9, prefix_code: 382, value_bits: 24, token_type: 1, value_base: 17094304 },
];

struct BitReader<'a> {
    data: &'a [u8],
    pos: usize,
    end: usize,
    bits_remaining: usize,
    current: u32,
    bits_current: u8,
}

impl<'a> BitReader<'a> {
    fn new(encoded: &'a [u8]) -> Self {
        let end = encoded.len() - 1;
        let padding = encoded[end] as usize;
        Self {
            data: encoded,
            pos: 0,
            end,
            bits_remaining: 8 * end - padding,
            current: 0,
            bits_current: 0,
        }
    }

    fn get_bits(&mut self, count: u8) -> u32 {
        while self.bits_current < count {
            self.current <<= 8;
            if self.pos < self.end {
                self.current += self.data[self.pos] as u32;
                self.pos += 1;
            }
            self.bits_current += 8;
        }
        self.bits_remaining -= count as usize;
        self.bits_current -= count;
        let result = self.current >> self.bits_current;
        self.current &= (1 << self.bits_current) - 1;
        result
    }
}

fn decompress_segment(segment: &[u8]) -> Vec<u8> {
    if segment[0] & 0x20 == 0 {
        return segment[1..].to_vec();
    }
    let encoded = &segment[1..];
    let mut reader = BitReader::new(encoded);
    let mut history = vec![0u8; HISTORY_SIZE];
    let mut hist_idx = 0usize;
    let mut output = Vec::new();

    while reader.bits_remaining > 0 {
        let mut have_bits: u8 = 0;
        let mut prefix: u32 = 0;
        let mut found = false;

        for entry in TOKEN_TABLE.iter() {
            while have_bits < entry.prefix_len {
                prefix = (prefix << 1) + reader.get_bits(1);
                have_bits += 1;
            }
            if prefix == entry.prefix_code {
                if entry.token_type == 0 {
                    let c = (entry.value_base + reader.get_bits(entry.value_bits)) as u8;
                    history[hist_idx] = c;
                    hist_idx = (hist_idx + 1) % HISTORY_SIZE;
                    output.push(c);
                } else {
                    let distance = entry.value_base + reader.get_bits(entry.value_bits);
                    if distance != 0 {
                        let count = if reader.get_bits(1) == 0 {
                            3
                        } else {
                            let mut cnt = 4u32;
                            let mut extra = 2u8;
                            while reader.get_bits(1) == 1 {
                                cnt *= 2;
                                extra += 1;
                            }
                            cnt + reader.get_bits(extra)
                        };
                        let mut prev_idx = (hist_idx + HISTORY_SIZE - distance as usize) % HISTORY_SIZE;
                        for _ in 0..count {
                            let c = history[prev_idx];
                            prev_idx = (prev_idx + 1) % HISTORY_SIZE;
                            history[hist_idx] = c;
                            hist_idx = (hist_idx + 1) % HISTORY_SIZE;
                            output.push(c);
                        }
                    } else {
                        let count = reader.get_bits(15);
                        reader.bits_remaining -= reader.bits_current as usize;
                        reader.bits_current = 0;
                        reader.current = 0;
                        for _ in 0..count {
                            let c = reader.data[reader.pos];
                            reader.pos += 1;
                            reader.bits_remaining -= 8;
                            history[hist_idx] = c;
                            hist_idx = (hist_idx + 1) % HISTORY_SIZE;
                            output.push(c);
                        }
                    }
                }
                found = true;
                break;
            }
        }
        if !found {
            break;
        }
    }
    output
}

fn roundtrip(data: &[u8]) {
    let segment = compress(data);
    let decoded = decompress_segment(&segment);
    assert_eq!(data, decoded.as_slice(), "roundtrip failed for {} bytes (segment type 0x{:02x}, compressed {} bytes)", data.len(), segment[0], segment.len());
}

#[test]
fn test_compress_small() {
    let data = b"hello";
    let result = compress(data);
    assert_eq!(result[0], 0x04);
    assert_eq!(&result[1..], b"hello");
    roundtrip(data);
}

#[test]
fn test_compress_repetitive() {
    let data = vec![0u8; 1024];
    let result = compress(&data);
    assert_eq!(result[0], 0x24);
    assert!(result.len() < data.len() / 2);
    roundtrip(&data);
}

#[test]
fn test_compress_bgra_pattern() {
    let mut data = Vec::with_capacity(4096);
    for _ in 0..1024 {
        data.extend_from_slice(&[0x00, 0x80, 0xFF, 0xFF]);
    }
    let result = compress(&data);
    assert_eq!(result[0], 0x24);
    assert!(result.len() < data.len() / 2);
    roundtrip(&data);
}

#[test]
fn test_roundtrip_all_byte_values() {
    let data: Vec<u8> = (0..=255).collect();
    roundtrip(&data);
}

#[test]
fn test_roundtrip_random_like() {
    let mut data = vec![0u8; 4096];
    for (i, b) in data.iter_mut().enumerate() {
        *b = ((i * 7 + 13) % 256) as u8;
    }
    roundtrip(&data);
}

#[test]
fn test_roundtrip_mixed_matches() {
    let mut data = Vec::with_capacity(8192);
    for i in 0..100 {
        let val = (i % 4) as u8;
        data.extend_from_slice(&[val, val + 1, val + 2, val + 3]);
    }
    for _ in 0..50 {
        data.extend_from_slice(&data[..400].to_vec());
    }
    roundtrip(&data);
}

#[test]
fn test_compression_ratios() {
    let cases: Vec<(&str, Vec<u8>)> = vec![
        ("all_zeros_64k", vec![0u8; 65536]),
        ("bgra_uniform_64k", {
            let mut d = Vec::with_capacity(65536);
            for _ in 0..16384 { d.extend_from_slice(&[0x1A, 0x2B, 0x3C, 0xFF]); }
            d
        }),
        ("bgra_gradient_64k", {
            let mut d = Vec::with_capacity(65536);
            for i in 0..16384 {
                let v = (i % 256) as u8;
                d.extend_from_slice(&[v, v.wrapping_add(1), v.wrapping_add(2), 0xFF]);
            }
            d
        }),
    ];
    for (name, data) in &cases {
        let seg = compress(data);
        let ratio = seg.len() as f64 / data.len() as f64 * 100.0;
        println!("{name}: {} -> {} bytes ({ratio:.1}%)", data.len(), seg.len());
        roundtrip(data);
        assert!(seg[0] == 0x24, "{name} should compress");
    }
}

// --- Edge cases ---

#[test]
fn test_empty_data() {
    let data = b"";
    let result = compress(data);
    assert_eq!(result[0], 0x04);
    assert_eq!(result.len(), 1);
    roundtrip(data);
}

#[test]
fn test_one_byte() {
    let data = b"\x42";
    let result = compress(data);
    assert_eq!(result[0], 0x04);
    roundtrip(data);
}

#[test]
fn test_two_bytes() {
    let data = b"\xAB\xCD";
    let result = compress(data);
    assert_eq!(result[0], 0x04);
    roundtrip(data);
}

#[test]
fn test_exactly_three_bytes_no_match() {
    let data = b"\x10\x20\x30";
    roundtrip(data);
}

#[test]
fn test_exactly_min_match() {
    let data = b"abcabc";
    roundtrip(data);
}

// --- Segment format ---

#[test]
fn test_compressed_segment_format() {
    let data = vec![0u8; 256];
    let seg = compress(&data);
    assert_eq!(seg[0], 0x24, "first byte must be PACKET_COMPRESSED | PACKET_COMPR_TYPE_RDP8");
    let padding = seg[seg.len() - 1];
    assert!(padding < 8, "padding byte must be 0..7, got {padding}");
}

#[test]
fn test_uncompressed_segment_format() {
    let data = b"xy";
    let seg = compress(data);
    assert_eq!(seg[0], 0x04, "first byte must be PACKET_COMPR_TYPE_RDP8 (uncompressed)");
    assert_eq!(&seg[1..], data);
}

#[test]
fn test_incompressible_falls_back() {
    let data: Vec<u8> = (0..=255).cycle().take(256).collect();
    let seg = compress(&data);
    assert_eq!(seg[0], 0x04, "incompressible data should use uncompressed segment");
    assert_eq!(&seg[1..], data.as_slice());
}

// --- Literal shortcut codes ---

#[test]
fn test_literal_shortcut_bytes() {
    let shortcut_bytes: &[u8] = &[
        0x00, 0x01, 0x02, 0x03, 0xFF, 0x04, 0x05, 0x06, 0x07,
        0x08, 0x09, 0x0A, 0x0B, 0x3A, 0x3B, 0x3C, 0x3D, 0x3E,
        0x3F, 0x40, 0x80, 0x0C, 0x38, 0x39, 0x66,
    ];
    for &b in shortcut_bytes {
        let data = vec![b; 64];
        roundtrip(&data);
    }
}

#[test]
fn test_all_shortcut_bytes_mixed() {
    let data: Vec<u8> = vec![
        0x00, 0x01, 0x02, 0x03, 0xFF, 0x04, 0x05, 0x06, 0x07,
        0x08, 0x09, 0x0A, 0x0B, 0x3A, 0x3B, 0x3C, 0x3D, 0x3E,
        0x3F, 0x40, 0x80, 0x0C, 0x38, 0x39, 0x66,
    ];
    roundtrip(&data);
}

// --- Match lengths ---

#[test]
fn test_match_length_3() {
    let mut data = vec![0xAA, 0xBB, 0xCC, 0xDD];
    data.extend_from_slice(&[0xAA, 0xBB, 0xCC]);
    roundtrip(&data);
}

#[test]
fn test_match_length_4_to_7() {
    for len in 4..=7 {
        let mut data = vec![0u8; 32];
        for (i, b) in data.iter_mut().enumerate() {
            *b = (i % 11) as u8 + 0x30;
        }
        data.extend_from_slice(&data[5..5 + len].to_vec());
        roundtrip(&data);
    }
}

#[test]
fn test_match_length_8_to_15() {
    for len in 8..=15 {
        let pattern: Vec<u8> = (0..32).map(|i| (i * 3 + 7) as u8).collect();
        let mut data = pattern.clone();
        data.extend_from_slice(&pattern[..len]);
        roundtrip(&data);
    }
}

#[test]
fn test_match_length_powers_of_two() {
    for &len in &[16, 32, 64, 128, 256, 512] {
        let pattern: Vec<u8> = (0..len).map(|i| (i % 251) as u8).collect();
        let mut data = pattern.clone();
        data.extend_from_slice(&pattern);
        roundtrip(&data);
    }
}

#[test]
fn test_long_match() {
    let pattern: Vec<u8> = (0..1000).map(|i| (i % 199) as u8).collect();
    let mut data = pattern.clone();
    data.extend_from_slice(&pattern);
    roundtrip(&data);
}

// --- Match distances ---

#[test]
fn test_match_distance_ranges() {
    let distances: &[usize] = &[3, 10, 31, 32, 100, 160, 500, 672, 1000, 1696, 4000, 5792];
    for &dist in distances {
        let prefix_len = dist + 3;
        let mut data = Vec::with_capacity(prefix_len + 8);
        for i in 0..prefix_len {
            data.push((i % 251) as u8);
        }
        data.extend_from_slice(&data[0..3].to_vec());
        roundtrip(&data);
    }
}

// --- Realistic data patterns ---

#[test]
fn test_desktop_like_scanlines() {
    let width = 256;
    let mut data = Vec::with_capacity(width * 4 * 10);
    for row in 0..10u8 {
        let bg = if row < 3 { [0x2D, 0x2D, 0x2D, 0xFF] } else { [0xF0, 0xF0, 0xF0, 0xFF] };
        for col in 0..width {
            if col > 50 && col < 200 && row > 1 && row < 8 {
                data.extend_from_slice(&[0xFF, 0xFF, 0xFF, 0xFF]);
            } else {
                data.extend_from_slice(&bg);
            }
        }
    }
    roundtrip(&data);
    let seg = compress(&data);
    assert_eq!(seg[0], 0x24);
    assert!(seg.len() < data.len() / 3);
}

#[test]
fn test_text_like_sparse_changes() {
    let mut data = vec![0xFF_u8; 4096];
    for i in (0..4096).step_by(97) {
        data[i] = 0x00;
    }
    roundtrip(&data);
}

#[test]
fn test_alternating_pixels() {
    let mut data = Vec::with_capacity(4096);
    for i in 0..1024 {
        if i % 2 == 0 {
            data.extend_from_slice(&[0x00, 0x00, 0x00, 0xFF]);
        } else {
            data.extend_from_slice(&[0xFF, 0xFF, 0xFF, 0xFF]);
        }
    }
    roundtrip(&data);
}

// --- Bit writer ---

#[test]
fn test_bit_writer_byte_aligned() {
    let mut w = BitWriter::new(16);
    w.write_bits(0xAB, 8);
    w.write_bits(0xCD, 8);
    let bytes = w.finish();
    assert_eq!(bytes[0], 0xAB);
    assert_eq!(bytes[1], 0xCD);
    assert_eq!(bytes[2], 0);
}

#[test]
fn test_bit_writer_single_bits() {
    let mut w = BitWriter::new(16);
    w.write_bits(1, 1);
    w.write_bits(0, 1);
    w.write_bits(1, 1);
    w.write_bits(1, 1);
    w.write_bits(0, 1);
    w.write_bits(0, 1);
    w.write_bits(1, 1);
    w.write_bits(0, 1);
    let bytes = w.finish();
    assert_eq!(bytes[0], 0b10110010);
    assert_eq!(bytes[1], 0);
}

#[test]
fn test_bit_writer_roundtrip() {
    let mut w = BitWriter::new(16);
    w.write_bits(0b10110, 5);
    w.write_bits(0b111, 3);
    let bytes = w.finish();
    assert_eq!(bytes[0], 0b10110_111);
    assert_eq!(bytes[1], 0);
}

#[test]
fn test_bit_writer_padding() {
    let mut w = BitWriter::new(16);
    w.write_bits(0b101, 3);
    let bytes = w.finish();
    assert_eq!(bytes[0], 0b10100000);
    assert_eq!(bytes[1], 5);
}

// --- Match length encoding ---

#[test]
fn test_match_length_encoding() {
    let mut w = BitWriter::new(16);
    write_match_length(&mut w, 3);
    let bytes = w.finish();
    assert_eq!(bytes[0] >> 7, 0);

    let mut w = BitWriter::new(16);
    write_match_length(&mut w, 4);
    let bytes = w.finish();
    assert_eq!(bytes[0] >> 4, 0b1_0_00);
}

#[test]
fn test_match_length_boundary_values() {
    for len in [3, 4, 5, 7, 8, 15, 16, 31, 32, 63, 64, 127, 128] {
        let pattern: Vec<u8> = (0..200).map(|i| ((i * 7 + 3) % 251) as u8).collect();
        let mut data = pattern.clone();
        let actual_len = len.min(pattern.len());
        data.extend_from_slice(&pattern[..actual_len]);
        roundtrip(&data);
    }
}

// --- Larger data ---

#[test]
fn test_large_compressible() {
    let mut data = Vec::with_capacity(262144);
    let block: Vec<u8> = (0..256).map(|i| i as u8).collect();
    for _ in 0..1024 {
        data.extend_from_slice(&block);
    }
    let seg = compress(&data);
    assert_eq!(seg[0], 0x24);
    roundtrip(&data);
}

// --- Single codes ---

#[test]
fn literal_without_a_short_code_is_nine_bits() {
    let table = literal_lookup_table();
    let mut w = BitWriter::new(4);
    write_literal(&mut w, 0x41, &table);
    assert_eq!(w.finish(), vec![0b0_0100000, 0b1_0000000, 7]);
}

#[test]
fn literal_with_a_short_code_is_its_prefix() {
    let table = literal_lookup_table();
    assert_eq!(table[0], (5 << 9) | 0b11000);
    assert_eq!(table[0x66], (8 << 9) | 0b11111111);
    assert_eq!(table[0x41], 0);
    let mut w = BitWriter::new(4);
    write_literal(&mut w, 0x66, &table);
    assert_eq!(w.finish(), vec![0xFF, 0]);
}

#[test]
fn match_is_distance_then_length() {
    let mut w = BitWriter::new(4);
    // 10001 00100 0
    write_match(&mut w, 4, 3);
    assert_eq!(w.finish(), vec![0b1000_1001, 0b000_00000, 5]);
}

#[test]
fn match_beyond_the_longest_distance_writes_nothing() {
    let mut w = BitWriter::new(4);
    write_match(&mut w, 4_511_392, 3);
    assert_eq!(w.finish(), vec![0]);
}

#[test]
fn hash_is_the_upper_half_of_a_product() {
    assert_eq!(hash3(&[1, 0, 0], 0), 0x9E37);
    assert_eq!(hash3(&[9, 0, 0, 0], 1), 0);
}

#[test]
fn stored_segment_is_flag_and_data() {
    assert_eq!(uncompressed_segment(&[7, 8]), vec![4, 7, 8]);
}

// --- What holds of every segment ---

#[test]
fn segment_is_at_most_one_byte_longer() {
    let mut seed: u32 = 1;
    for len in 0..200usize {
        let data: Vec<u8> = (0..len)
            .map(|_| {
                seed = seed.wrapping_mul(1_103_515_245).wrapping_add(12345);
                (seed >> 16) as u8
            })
            .collect();
        let seg = compress(&data);
        assert!(seg.len() <= data.len() + 1);
        assert!(seg[0] == 0x04 || seg[0] == 0x24);
        assert_eq!(decompress_segment(&seg), data);
    }
}

#[test]
fn repeated_text_has_these_bytes() {
    // Three literals, then a match of 21 bytes at distance three.
    let data = b"abcabcabcabcabcabcabcabc";
    let seg = compress(data);
    assert_eq!(seg, vec![0x24, 0x30, 0x98, 0x8C, 0x71, 0x1F, 0x28, 3]);
    assert_eq!(decompress_segment(&seg), data);
}

#[test]
fn tokens_are_read_back_one_by_one() {
    let mut w = BitWriter::new(16);
    let table = literal_lookup_table();
    for b in [0x41u8, 0x00, 0xFF, 0x66] {
        write_literal(&mut w, b, &table);
    }
    write_match(&mut w, 4, 9);
    let mut seg = vec![0x24u8];
    seg.extend_from_slice(&w.finish());
    let expected: Vec<u8> = [0x41u8, 0x00, 0xFF, 0x66].iter().cycle().take(13).copied().collect();
    assert_eq!(decompress_segment(&seg), expected);
}

#[test]
fn matches_stay_within_the_history() {
    let data = vec![0u8; 5_111_731];
    let segment = compress(&data);
    assert_eq!(segment[0], 0x24);
    assert!(decompress_segment(&segment) == data);

    let mut far: Vec<u8> = b"far away".to_vec();
    far.resize(2_600_000, 0);
    far.extend_from_slice(b"far away");
    let segment = compress(&far);
    assert_eq!(segment[0], 0x24);
    assert!(decompress_segment(&segment) == far);
}
