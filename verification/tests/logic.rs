use opensprig_rs::bridge::{FMODE, LED_TYPE};
use opensprig_rs::button::{ButtonAction, ButtonEvent, ButtonType, HoldTracker};
use opensprig_rs::error::Error;
use opensprig_rs::loader::program_erase_length;
use opensprig_rs::mutex_device::{transaction_result, TransactionError};
use opensprig_rs::speaker::{
    fill_buf, pcm_is_safe, sine_samples, tone_is_safe, PcmPlayback, AUDIO_BUF_SAMPLES, BYTES_PER_BUF,
};
use opensprig_rs::storage::resolve_path;

#[test]
fn resolve_path_cuts_components() {
    let parts = resolve_path("  /audio/believer.pcm/ ").ok().unwrap();
    assert_eq!(parts, vec!["audio", "believer.pcm"]);
    let parts = resolve_path("sprig.1").ok().unwrap();
    assert_eq!(parts, vec!["sprig.1"]);
    let parts = resolve_path("a//b").ok().unwrap();
    assert_eq!(parts, vec!["a", "", "b"]);
    let parts = resolve_path("/").ok().unwrap();
    assert_eq!(parts, vec![""]);
}

#[test]
fn resolve_path_rejects_dot_segments() {
    let e = resolve_path("a/../b").err().unwrap();
    assert_eq!(e.message(), "Path cannot contain \"./\" or \"../\"");
    let e = resolve_path("./b").err().unwrap();
    assert_eq!(e.message(), "Path cannot contain \"./\" or \"../\"");
    assert!(resolve_path("a.b/c").is_ok());
}

#[test]
fn resolve_path_rejects_deep_paths() {
    let deep = vec!["d"; 257].join("/");
    assert_eq!(resolve_path(&deep).err().unwrap().message(), "Path too long");
    let ok = vec!["d"; 256].join("/");
    assert_eq!(resolve_path(&ok).ok().unwrap().len(), 256);
}

#[test]
fn erase_length_rounds_up_to_sectors() {
    assert_eq!(program_erase_length(1).ok().unwrap(), 4096);
    assert_eq!(program_erase_length(4096).ok().unwrap(), 4096);
    assert_eq!(program_erase_length(4097).ok().unwrap(), 8192);
    assert_eq!(program_erase_length(0x13_E000).ok().unwrap(), 0x13_E000);
}

#[test]
fn erase_length_errors() {
    assert_eq!(program_erase_length(0).err().unwrap().message(), "target is empty");
    assert_eq!(
        program_erase_length(0x13_E001).err().unwrap().message(),
        "target too large for PROGRAM partition"
    );
}

#[test]
fn sine_samples_walk_the_table() {
    let table: Vec<u32> = (0..256u32).map(|i| i * 100).collect();
    let buf = sine_samples(&table, 0x10000, 256);
    assert_eq!(buf.len(), AUDIO_BUF_SAMPLES);
    assert_eq!(buf[0], 0);
    assert_eq!(buf[1], 100);
    assert_eq!(buf[255], 25500);
    assert_eq!(buf[256], 0);
    let flat = sine_samples(&table, 0, 512);
    assert!(flat.iter().all(|&s| s == 0));
    let half = sine_samples(&table, 0x18000, 2);
    assert_eq!(half[1], 100 * 2 / 256);
    assert_eq!(half[2], 300 * 2 / 256);
}

#[test]
fn fill_buf_scales_pcm() {
    let mut bytes = vec![0u8; BYTES_PER_BUF];
    bytes[0] = 0x00;
    bytes[1] = 0x01;
    bytes[2] = 0xff;
    bytes[3] = 0xff;
    let (buf, done) = fill_buf(Some(&bytes), 32);
    assert!(!done);
    assert_eq!(buf[0], 256 * 32 / 256);
    assert_eq!(buf[1], 65535 * 32 / 256);
    assert_eq!(buf[2], 0);
}

#[test]
fn fill_buf_pads_short_data_and_ends() {
    let bytes = vec![0x10u8, 0x00, 0x20];
    let (buf, done) = fill_buf(Some(&bytes), 256);
    assert!(done);
    assert_eq!(buf.len(), AUDIO_BUF_SAMPLES);
    assert_eq!(buf[0], 16);
    assert_eq!(buf[1], 32768);
    assert_eq!(buf[AUDIO_BUF_SAMPLES - 1], 32768);
}

#[test]
fn fill_buf_after_a_failed_read_is_silent() {
    let (buf, done) = fill_buf(None, 256);
    assert!(done);
    assert!(buf.iter().all(|&s| s == 0));
}

#[test]
fn hold_needs_the_timer() {
    let mut t = HoldTracker::new();
    assert_eq!(t.step(ButtonEvent::Reading(false)), ButtonAction::ReadAfterDebounce);
    assert_eq!(t.step(ButtonEvent::Reading(true)), ButtonAction::StartHoldTimerAndRead);
    assert!(!t.is_held());
    assert_eq!(t.step(ButtonEvent::Reading(true)), ButtonAction::ReadAfterDebounceOrTimeout);
    assert_eq!(t.step(ButtonEvent::HoldTimeout), ButtonAction::ReadNow);
    assert!(t.is_held());
    assert_eq!(t.step(ButtonEvent::Reading(true)), ButtonAction::ReadAfterDebounce);
    assert!(t.is_held());
    assert_eq!(t.step(ButtonEvent::Reading(false)), ButtonAction::ReadNow);
    assert!(!t.is_held());
}

#[test]
fn release_before_timeout_is_no_hold() {
    let mut t = HoldTracker::new();
    t.step(ButtonEvent::Reading(true));
    assert_eq!(t.step(ButtonEvent::Reading(false)), ButtonAction::StopHoldTimerAndRead);
    t.step(ButtonEvent::HoldTimeout);
    assert!(!t.is_held());
}

#[test]
fn pins_and_flags() {
    assert_eq!(ButtonType::L_LEFT.pin(), 6);
    assert_eq!(ButtonType::R_RIGHT.pin(), 15);
    assert_eq!(ButtonType::BOOTSEL.pin(), 0);
    assert_eq!(LED_TYPE::STATUS.pin(), 28);
    assert_eq!(LED_TYPE::NETWORK.pin(), 4);
    assert_eq!(FMODE::FA_OPEN_APPEND.bits(), 0x30);
    assert_eq!(FMODE::FA_OPEN_EXISTING.bits(), 0);
}

#[test]
fn error_messages() {
    assert_eq!(Error::new("boom").message(), "boom");
    let e: Error = embedded_sdmmc::SdCardError::CardNotFound.into();
    assert_eq!(e.message(), "SD Card Error");
}

#[test]
fn transaction_reports_the_first_failure() {
    assert_eq!(transaction_result::<u8, u16>(Ok(()), Ok(()), Ok(())), Ok(()));
    assert_eq!(transaction_result::<u8, u16>(Err(1), Err(2), Err(3)), Err(TransactionError::Spi(1)));
    assert_eq!(transaction_result::<u8, u16>(Ok(()), Err(2), Err(3)), Err(TransactionError::Spi(2)));
    assert_eq!(transaction_result::<u8, u16>(Ok(()), Ok(()), Err(3)), Err(TransactionError::Cs(3)));
}

#[test]
fn playback_stops_after_the_last_buffer_played() {
    let mut p = PcmPlayback::new();
    assert_eq!(p.next_read(), 0);
    p.first_read(false);
    assert_eq!(p.next_read(), BYTES_PER_BUF);
    assert!(!p.buffer_played(true));
    assert_eq!(p.next_offset(), 2 * BYTES_PER_BUF);
    assert_eq!(p.next_read(), 2 * BYTES_PER_BUF);
    assert_eq!(p.next_offset(), 3 * BYTES_PER_BUF);
    assert!(p.buffer_played(false));
}

#[test]
fn safety_checks_of_the_audio_paths() {
    let table = vec![65534u32; 256];
    assert!(tone_is_safe(&table, 0x800000, 16));
    assert!(!tone_is_safe(&table, 0x800000, 70000));
    assert!(!tone_is_safe(&table, 0x0200_0000, 1));
    assert!(pcm_is_safe(&[0xff, 0xff], 65537));
    assert!(!pcm_is_safe(&[0xff, 0xff], 65538));
    assert!(pcm_is_safe(&[0xff], u32::MAX));
}
