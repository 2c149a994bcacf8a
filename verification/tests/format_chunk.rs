use riff_wave::format::load_format_chunk;
use riff_wave::format::load_wave_format;
use riff_wave::format::A_LAW;
use riff_wave::format::EXTENSIBLE;
use riff_wave::format::IEEE_FLOAT;
use riff_wave::format::MU_LAW;
use riff_wave::format::PCM;
use riff_wave::ByteStream;
use riff_wave::FormatChunk;
use riff_wave::FormatFault;
use riff_wave::FormatTag;
use riff_wave::WaveError;

fn all_tags() -> Vec<FormatTag> {
    vec![
        FormatTag::Pcm,
        FormatTag::IeeeFloat,
        FormatTag::ALaw,
        FormatTag::MuLaw,
        FormatTag::Extensible,
    ]
}

#[test]
fn tag_codes_are_the_registered_ones() {
    assert_eq!(PCM, 0x0001);
    assert_eq!(IEEE_FLOAT, 0x0003);
    assert_eq!(A_LAW, 0x0006);
    assert_eq!(MU_LAW, 0x0007);
    assert_eq!(EXTENSIBLE, 0xFFFE);
    assert_eq!(FormatTag::Pcm.code(), 0x0001);
    assert_eq!(FormatTag::IeeeFloat.code(), 0x0003);
    assert_eq!(FormatTag::ALaw.code(), 0x0006);
    assert_eq!(FormatTag::MuLaw.code(), 0x0007);
    assert_eq!(FormatTag::Extensible.code(), 0xFFFE);
}

#[test]
fn code_and_from_code_round_trip() {
    for tag in all_tags() {
        assert_eq!(FormatTag::from_code(tag.code()), Some(tag));
    }
}

#[test]
fn exactly_five_codes_have_a_tag() {
    let mut known = 0u32;
    for code in 0..=0xFFFFu16 {
        match FormatTag::from_code(code) {
            Some(tag) => {
                assert_eq!(tag.code(), code);
                known += 1;
            }
            None => {}
        }
    }
    assert_eq!(known, 5);
}

#[test]
fn unassigned_codes_have_no_tag() {
    assert_eq!(FormatTag::from_code(0x0000), None);
    assert_eq!(FormatTag::from_code(0x0002), None);
    assert_eq!(FormatTag::from_code(0x0004), None);
    assert_eq!(FormatTag::from_code(0x0100), None);
    assert_eq!(FormatTag::from_code(0xFFFF), None);
}

#[test]
fn format_tag_is_read_little_endian() {
    let mut stream = ByteStream::new(vec![0xFE, 0xFF, 0x55]);
    assert_eq!(load_wave_format(&mut stream), Ok(FormatTag::Extensible));
    assert_eq!(stream.remaining(), 1);
    let mut swapped = ByteStream::new(vec![0x00, 0x01]);
    assert_eq!(
        load_wave_format(&mut swapped),
        Err(WaveError::InvalidFormat(FormatFault::FormatTag {
            code: 0x0100
        }))
    );
}

#[test]
fn unknown_format_tag_is_invalid_format() {
    let mut stream = ByteStream::new(vec![0x02, 0x00, 0x55]);
    assert_eq!(
        load_wave_format(&mut stream),
        Err(WaveError::InvalidFormat(FormatFault::FormatTag {
            code: 0x0002
        }))
    );
    assert_eq!(stream.remaining(), 1);
}

#[test]
fn format_tag_cut_short_is_truncated_input() {
    let mut one = ByteStream::new(vec![0x01]);
    assert_eq!(load_wave_format(&mut one), Err(WaveError::TruncatedInput));
    assert_eq!(one.remaining(), 0);
    let mut none = ByteStream::new(Vec::new());
    assert_eq!(load_wave_format(&mut none), Err(WaveError::TruncatedInput));
}

fn cd_quality_chunk() -> Vec<u8> {
    vec![
        0x01, 0x00, // PCM
        0x02, 0x00, // 2 channels
        0x44, 0xAC, 0x00, 0x00, // 44100 Hz
        0x10, 0xB1, 0x02, 0x00, // 176400 bytes per second
        0x04, 0x00, // 4 bytes per frame
        0x10, 0x00, // 16 bits per sample
    ]
}

#[test]
fn format_chunk_fields_come_in_file_order() {
    let mut bytes = cd_quality_chunk();
    bytes.push(0x99);
    let mut stream = ByteStream::new(bytes);
    assert_eq!(
        load_format_chunk(&mut stream),
        Ok(FormatChunk {
            tag: FormatTag::Pcm,
            num_chans: 2,
            samples_per_sec: 44_100,
            avg_bytes_per_sec: 176_400,
            block_align: 4,
            bits_per_sample: 16,
        })
    );
    assert_eq!(stream.remaining(), 1);
}

#[test]
fn format_chunk_takes_numbers_as_they_stand() {
    let mut stream = ByteStream::new(vec![
        0x07, 0x00, 0x00, 0x00, 0x00, 0x00, 0x00, 0x00, 0xFF, 0xFF, 0xFF, 0xFF, 0x00, 0x00, 0x03,
        0x00,
    ]);
    assert_eq!(
        load_format_chunk(&mut stream),
        Ok(FormatChunk {
            tag: FormatTag::MuLaw,
            num_chans: 0,
            samples_per_sec: 0,
            avg_bytes_per_sec: 0xFFFF_FFFF,
            block_align: 0,
            bits_per_sample: 3,
        })
    );
}

#[test]
fn format_chunk_cut_short_is_truncated_input() {
    let whole = cd_quality_chunk();
    for len in 0..whole.len() {
        let mut stream = ByteStream::new(whole[..len].to_vec());
        assert_eq!(
            load_format_chunk(&mut stream),
            Err(WaveError::TruncatedInput)
        );
        assert_eq!(stream.remaining(), 0);
    }
}

#[test]
fn format_chunk_with_unknown_tag_stops_behind_the_tag() {
    let mut bytes = cd_quality_chunk();
    bytes[0] = 0x02;
    let mut stream = ByteStream::new(bytes);
    assert_eq!(
        load_format_chunk(&mut stream),
        Err(WaveError::InvalidFormat(FormatFault::FormatTag {
            code: 0x0002
        }))
    );
    assert_eq!(stream.remaining(), 14);
}

#[test]
fn unknown_tag_wins_over_a_short_chunk() {
    let mut stream = ByteStream::new(vec![0x02, 0x00, 0x01]);
    assert_eq!(
        load_format_chunk(&mut stream),
        Err(WaveError::InvalidFormat(FormatFault::FormatTag {
            code: 0x0002
        }))
    );
    assert_eq!(stream.remaining(), 1);
}
