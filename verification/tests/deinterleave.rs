use riff_wave::samples::load_wave_samples;
use riff_wave::ByteStream;
use riff_wave::WaveData;
use riff_wave::WaveError;

fn split(payload: Vec<u8>, num_chans: u16, bits_per_sample: u16) -> Result<WaveData, WaveError> {
    let mut stream = ByteStream::new(payload);
    load_wave_samples(&mut stream, num_chans, bits_per_sample)
}

#[test]
fn mono_8_bit_reads_bytes_as_signed() {
    assert_eq!(
        split(vec![0x01, 0xFF, 0x7F], 1, 8),
        Ok(WaveData::BytePerSample(vec![vec![1, -1, 127]]))
    );
}

#[test]
fn stereo_8_bit_alternates_channels() {
    assert_eq!(
        split(vec![1, 2, 3, 4], 2, 8),
        Ok(WaveData::BytePerSample(vec![vec![1, 3], vec![2, 4]]))
    );
}

#[test]
fn stereo_8_bit_cut_inside_a_frame_is_incomplete() {
    assert_eq!(split(vec![1, 2, 3], 2, 8), Err(WaveError::IncompleteData));
}

#[test]
fn mono_16_bit_joins_pairs_low_byte_first() {
    assert_eq!(
        split(vec![0x01, 0x02, 0x03, 0x04], 1, 16),
        Ok(WaveData::WordPerSample(vec![vec![0x0201, 0x0403]]))
    );
}

#[test]
fn signed_byte_boundaries() {
    assert_eq!(
        split(vec![0x00, 0x7F, 0x80, 0x81, 0xFE, 0xFF], 1, 8),
        Ok(WaveData::BytePerSample(vec![vec![0, 127, -128, -127, -2, -1]]))
    );
}

#[test]
fn words_are_unsigned() {
    assert_eq!(
        split(vec![0xFF, 0xFF, 0x00, 0x80, 0xFF, 0x00, 0x00, 0xFF], 1, 16),
        Ok(WaveData::WordPerSample(vec![vec![
            0xFFFF, 0x8000, 0x00FF, 0xFF00
        ]]))
    );
}

#[test]
fn stereo_16_bit_alternates_channels_by_word() {
    assert_eq!(
        split(vec![0x01, 0x00, 0x02, 0x00, 0x03, 0x00, 0x04, 0x00], 2, 16),
        Ok(WaveData::WordPerSample(vec![vec![1, 3], vec![2, 4]]))
    );
}

#[test]
fn three_channels_16_bit() {
    let payload: Vec<u8> = (0u8..12).collect();
    assert_eq!(
        split(payload, 3, 16),
        Ok(WaveData::WordPerSample(vec![
            vec![0x0100, 0x0706],
            vec![0x0302, 0x0908],
            vec![0x0504, 0x0B0A],
        ]))
    );
}

#[test]
fn whole_frames_give_channels_of_one_length() {
    for bits in [8u16, 16u16] {
        for chans in 1u16..=5 {
            for frames in 0usize..=4 {
                let frame = chans as usize * (bits as usize / 8);
                let len = frame * frames;
                let payload: Vec<u8> = (0..len).map(|i| i as u8).collect();
                let data = split(payload, chans, bits).unwrap();
                let lens: Vec<usize> = match &data {
                    WaveData::BytePerSample(c) => c.iter().map(|s| s.len()).collect(),
                    WaveData::WordPerSample(c) => c.iter().map(|s| s.len()).collect(),
                };
                assert_eq!(lens, vec![len / frame; chans as usize]);
                assert_eq!(matches!(data, WaveData::BytePerSample(_)), bits == 8);
            }
        }
    }
}

#[test]
fn every_sample_lands_in_its_frame_and_channel() {
    let chans = 3usize;
    let payload: Vec<u8> = (0u8..=254).collect();
    match split(payload.clone(), chans as u16, 8).unwrap() {
        WaveData::BytePerSample(out) => {
            assert_eq!(out.len(), chans);
            for c in 0..chans {
                assert_eq!(out[c].len(), 85);
                for f in 0..85 {
                    assert_eq!(out[c][f], payload[f * chans + c] as i8);
                }
            }
        }
        WaveData::WordPerSample(_) => panic!("8-bit payload gave words"),
    }
}

#[test]
fn payload_that_is_not_whole_frames_is_incomplete() {
    for bits in [8u16, 16u16] {
        for chans in 1u16..=5 {
            let frame = chans as usize * (bits as usize / 8);
            for len in 0usize..=3 * frame {
                if len % frame != 0 {
                    assert_eq!(
                        split(vec![0x5A; len], chans, bits),
                        Err(WaveError::IncompleteData)
                    );
                }
            }
        }
    }
}

#[test]
fn half_a_word_is_incomplete() {
    assert_eq!(split(vec![0x01], 1, 16), Err(WaveError::IncompleteData));
    assert_eq!(split(vec![1, 2, 3], 1, 16), Err(WaveError::IncompleteData));
}

#[test]
fn whole_words_but_half_a_frame_is_incomplete() {
    assert_eq!(split(vec![1, 2], 2, 16), Err(WaveError::IncompleteData));
    assert_eq!(
        split(vec![1, 2, 3, 4, 5, 6], 2, 16),
        Err(WaveError::IncompleteData)
    );
}

#[test]
fn other_bit_depths_are_unsupported() {
    for bits in [0u16, 1, 4, 7, 9, 12, 15, 17, 24, 32, 64, 0xFFFF] {
        assert_eq!(
            split(vec![1, 2, 3, 4, 5, 6], 2, bits),
            Err(WaveError::UnsupportedBitDepth)
        );
        assert_eq!(split(Vec::new(), 1, bits), Err(WaveError::UnsupportedBitDepth));
        assert_eq!(split(vec![9], 0, bits), Err(WaveError::UnsupportedBitDepth));
    }
}

#[test]
fn unsupported_bit_depth_leaves_the_payload_unread() {
    let mut stream = ByteStream::new(vec![1, 2, 3, 4]);
    assert_eq!(
        load_wave_samples(&mut stream, 2, 24),
        Err(WaveError::UnsupportedBitDepth)
    );
    assert_eq!(stream.remaining(), 4);
    assert_eq!(stream.next_byte(), Some(1));
}

#[test]
fn supported_bit_depths_read_the_payload_to_the_end() {
    let mut whole = ByteStream::new(vec![1, 2, 3, 4]);
    assert!(load_wave_samples(&mut whole, 2, 8).is_ok());
    assert_eq!(whole.remaining(), 0);
    let mut cut = ByteStream::new(vec![1, 2, 3]);
    assert_eq!(
        load_wave_samples(&mut cut, 2, 8),
        Err(WaveError::IncompleteData)
    );
    assert_eq!(cut.remaining(), 0);
}

#[test]
fn payload_starts_at_the_cursor() {
    let mut stream = ByteStream::new(vec![0xEE, 0xEE, 10, 20, 30, 40]);
    stream.next_byte();
    stream.next_byte();
    assert_eq!(
        load_wave_samples(&mut stream, 2, 8),
        Ok(WaveData::BytePerSample(vec![vec![10, 30], vec![20, 40]]))
    );
}

#[test]
fn empty_payload_gives_empty_channels() {
    assert_eq!(
        split(Vec::new(), 2, 8),
        Ok(WaveData::BytePerSample(vec![Vec::new(), Vec::new()]))
    );
    assert_eq!(
        split(Vec::new(), 1, 16),
        Ok(WaveData::WordPerSample(vec![Vec::new()]))
    );
}

#[test]
fn no_channels_is_incomplete_data() {
    assert_eq!(split(vec![1, 2], 0, 8), Err(WaveError::IncompleteData));
    assert_eq!(split(vec![1, 2], 0, 16), Err(WaveError::IncompleteData));
    assert_eq!(split(Vec::new(), 0, 8), Err(WaveError::IncompleteData));
    assert_eq!(split(Vec::new(), 0, 16), Err(WaveError::IncompleteData));
}

#[test]
fn many_channels() {
    let chans = 0xFFFFu16;
    let payload: Vec<u8> = (0..chans as usize * 2).map(|i| (i % 251) as u8).collect();
    match split(payload.clone(), chans, 8).unwrap() {
        WaveData::BytePerSample(out) => {
            assert_eq!(out.len(), chans as usize);
            assert_eq!(out[0], vec![payload[0] as i8, payload[chans as usize] as i8]);
            assert_eq!(
                out[chans as usize - 1],
                vec![
                    payload[chans as usize - 1] as i8,
                    payload[2 * chans as usize - 1] as i8
                ]
            );
        }
        WaveData::WordPerSample(_) => panic!("8-bit payload gave words"),
    }
}

#[test]
fn preview_is_the_head_of_the_first_channel() {
    let bytes = WaveData::BytePerSample(vec![vec![1, -2, 3, -4, 5, -6, 7], vec![9, 9, 9, 9, 9, 9, 9]]);
    assert_eq!(
        bytes.preview(5),
        WaveData::BytePerSample(vec![vec![1, -2, 3, -4, 5]])
    );
    let words = WaveData::WordPerSample(vec![vec![10, 20, 30], vec![40, 50, 60]]);
    assert_eq!(
        words.preview(2),
        WaveData::WordPerSample(vec![vec![10, 20]])
    );
}

#[test]
fn preview_of_a_short_channel_is_the_whole_channel() {
    let words = WaveData::WordPerSample(vec![vec![10, 20, 30], vec![40, 50, 60]]);
    assert_eq!(
        words.preview(3),
        WaveData::WordPerSample(vec![vec![10, 20, 30]])
    );
    assert_eq!(
        words.preview(5),
        WaveData::WordPerSample(vec![vec![10, 20, 30]])
    );
}

#[test]
fn preview_of_nothing_is_nothing() {
    let bytes = WaveData::BytePerSample(vec![vec![1, 2, 3]]);
    assert_eq!(bytes.preview(0), WaveData::BytePerSample(vec![Vec::new()]));
    let no_chans = WaveData::WordPerSample(Vec::new());
    assert_eq!(no_chans.preview(5), WaveData::WordPerSample(Vec::new()));
    let no_samples = WaveData::BytePerSample(vec![Vec::new(), Vec::new()]);
    assert_eq!(
        no_samples.preview(5),
        WaveData::BytePerSample(vec![Vec::new()])
    );
}
