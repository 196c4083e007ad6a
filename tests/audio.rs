use voice_to_taskwarrior::audio::{ingest_bytes, ingest_decoded, resample, IngestError, TARGET_SAMPLE_RATE};

fn wav_bytes(channels: u16, rate: u32, samples: &[i16]) -> Vec<u8> {
    let data_len = (samples.len() * 2) as u32;
    let mut b = Vec::new();
    b.extend_from_slice(b"RIFF");
    b.extend_from_slice(&(36 + data_len).to_le_bytes());
    b.extend_from_slice(b"WAVEfmt ");
    b.extend_from_slice(&16u32.to_le_bytes());
    b.extend_from_slice(&1u16.to_le_bytes());
    b.extend_from_slice(&channels.to_le_bytes());
    b.extend_from_slice(&rate.to_le_bytes());
    b.extend_from_slice(&(rate * channels as u32 * 2).to_le_bytes());
    b.extend_from_slice(&(channels * 2).to_le_bytes());
    b.extend_from_slice(&16u16.to_le_bytes());
    b.extend_from_slice(b"data");
    b.extend_from_slice(&data_len.to_le_bytes());
    for s in samples {
        b.extend_from_slice(&s.to_le_bytes());
    }
    b
}

#[test]
fn resample_doubles_rate_exactly() {
    assert_eq!(resample(&vec![0, 100], 8000), vec![0, 50, 100, 100]);
}

#[test]
fn resample_halves_rate() {
    assert_eq!(resample(&vec![10, 20, 30, 40], 32000), vec![10, 30]);
}

#[test]
fn resample_at_target_rate_is_identity() {
    let x: Vec<i16> = vec![-32768, -5, 0, 7, 32767, 12];
    assert_eq!(resample(&x, TARGET_SAMPLE_RATE), x);
}

#[test]
fn resample_empty_input() {
    assert_eq!(resample(&vec![], 44100), Vec::<i16>::new());
}

#[test]
fn resample_extreme_values_do_not_overflow() {
    let out = resample(&vec![-32768, 32767], 8000);
    assert_eq!(out, vec![-32768, -1, 32767, 32767]);
}

#[test]
fn resample_length_is_rounded_ratio() {
    for &rate in &[8000u32, 11025, 22050, 44100, 48000, 16000, 12345] {
        for n in [0usize, 1, 2, 7, 100, 441] {
            let x: Vec<i16> = (0..n).map(|i| (i as i16).wrapping_mul(37)).collect();
            let out = resample(&x, rate);
            let exact = n as f64 * 16000.0 / rate as f64;
            assert!((out.len() as f64 - exact).abs() <= 1.0, "rate {} n {}", rate, n);
            assert_eq!(out.len(), (exact + 0.5).floor() as usize);
        }
    }
}

#[test]
fn resample_never_overshoots() {
    let x: Vec<i16> = (0..500).map(|i: i32| ((i * 7919) % 65536 - 32768) as i16).collect();
    for &rate in &[8000u32, 11025, 44100, 48000] {
        let out = resample(&x, rate);
        for (j, v) in out.iter().enumerate() {
            let pos = j as u128 * rate as u128;
            let i = (pos / 16000) as usize;
            let k = if i + 1 < x.len() { i + 1 } else { i };
            let lo = x[i].min(x[k]);
            let hi = x[i].max(x[k]);
            assert!(lo <= *v && *v <= hi);
        }
    }
}

#[test]
fn one_second_at_8000_gives_16000_samples() {
    let x: Vec<i16> = (0..8000).map(|i: i32| (i % 200 - 100) as i16).collect();
    let out = ingest_decoded(1, 8000, x).unwrap();
    assert_eq!(out.len(), 16000);
}

#[test]
fn stereo_is_unsupported() {
    assert_eq!(ingest_decoded(2, 16000, vec![1, 2, 3, 4]), Err(IngestError::UnsupportedFormat));
    assert_eq!(ingest_decoded(6, 8000, vec![]), Err(IngestError::UnsupportedFormat));
}

#[test]
fn zero_rate_is_a_decode_error() {
    assert_eq!(ingest_decoded(1, 0, vec![1]), Err(IngestError::DecodeError));
}

#[test]
fn target_rate_passes_samples_through() {
    assert_eq!(ingest_decoded(1, 16000, vec![3, -4, 5]), Ok(vec![3, -4, 5]));
}

#[test]
fn garbage_bytes_are_a_decode_error() {
    assert_eq!(ingest_bytes(&b"not audio at all".to_vec()), Err(IngestError::DecodeError));
}

#[test]
fn wav_mono_8000_is_decoded_and_resampled() {
    let bytes = wav_bytes(1, 8000, &[0, 100, -100, 40]);
    assert_eq!(ingest_bytes(&bytes), Ok(vec![0, 50, 100, 0, -100, -30, 40, 40]));
}

#[test]
fn wav_mono_16000_is_copied() {
    let bytes = wav_bytes(1, 16000, &[5, -6, 7]);
    assert_eq!(ingest_bytes(&bytes), Ok(vec![5, -6, 7]));
}

#[test]
fn wav_stereo_is_unsupported() {
    let bytes = wav_bytes(2, 16000, &[1, 2, 3, 4]);
    assert_eq!(ingest_bytes(&bytes), Err(IngestError::UnsupportedFormat));
}

#[test]
fn caf_container_is_a_decode_error() {
    let mut bytes = vec![0x63, 0x61, 0x66, 0x66, 0x00, 0x01, 0x00, 0x00];
    bytes.extend_from_slice(b"desc");
    bytes.extend_from_slice(&(-1i64).to_be_bytes());
    assert_eq!(ingest_bytes(&bytes), Err(IngestError::DecodeError));
    assert_eq!(ingest_bytes(&b"caff".to_vec()), Err(IngestError::DecodeError));
}

#[test]
fn stereo_with_damaged_samples_is_unsupported() {
    let mut bytes = wav_bytes(2, 16000, &[1, 2, 3, 4]);
    bytes.truncate(bytes.len() - 3);
    assert_eq!(ingest_bytes(&bytes), Err(IngestError::UnsupportedFormat));
}

#[test]
fn mono_with_damaged_samples_is_a_decode_error() {
    let mut bytes = wav_bytes(1, 16000, &[1, 2, 3, 4]);
    bytes.truncate(bytes.len() - 1);
    assert_eq!(ingest_bytes(&bytes), Err(IngestError::DecodeError));
}

#[test]
fn ogg_container_is_a_decode_error() {
    let mut bytes = b"OggS".to_vec();
    bytes.extend_from_slice(&[0u8; 60]);
    assert_eq!(ingest_bytes(&bytes), Err(IngestError::DecodeError));
}
