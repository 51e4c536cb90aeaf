use slp_chat::avatar::{avatar_png_from_image, load_avatar, AVATAR_SIZE};
use slp_chat::voice::{
    capture_active, drain_frames, frame_transmits, peer_talking, playback_trim, upmix, FRAME_SIZE, GATE_HANGOVER_FRAMES,
    MAX_PLAYBACK_BUF, PEER_TALKING_MS, SAMPLE_RATE,
};

fn png_of_size(w: u32, h: u32) -> Vec<u8> {
    let img = image::RgbImage::from_pixel(w, h, image::Rgb([200, 10, 30]));
    let mut buf = Vec::new();
    image::DynamicImage::ImageRgb8(img)
        .write_to(&mut std::io::Cursor::new(&mut buf), image::ImageFormat::Png)
        .unwrap();
    buf
}

fn dims(png: &[u8]) -> (u32, u32) {
    let img = image::load_from_memory(png).unwrap();
    (img.width(), img.height())
}

#[test]
fn voice_constants() {
    assert_eq!(SAMPLE_RATE, 48000);
    assert_eq!(FRAME_SIZE, 960);
    assert_eq!(MAX_PLAYBACK_BUF, 48000);
    assert_eq!(GATE_HANGOVER_FRAMES, 12);
    assert_eq!(PEER_TALKING_MS, 300);
}

#[test]
fn capture_follows_mute_and_ptt() {
    assert!(!capture_active(false, false, true));
    assert!(capture_active(true, false, false));
    assert!(!capture_active(true, true, false));
    assert!(capture_active(true, true, true));
}

#[test]
fn push_to_talk_sends_every_frame() {
    assert_eq!(frame_transmits(true, false, 0), (true, 0));
    assert_eq!(frame_transmits(true, true, 5), (true, 5));
}

#[test]
fn open_mic_gate_hangover() {
    let mut hold = 0usize;
    let (sent, h) = frame_transmits(false, true, hold);
    assert!(sent);
    hold = h;
    assert_eq!(hold, GATE_HANGOVER_FRAMES);
    let mut sent_quiet = 0;
    for _ in 0..20 {
        let (s, h) = frame_transmits(false, false, hold);
        hold = h;
        if s {
            sent_quiet += 1;
        }
    }
    assert_eq!(sent_quiet, 12);
    assert_eq!(frame_transmits(false, false, 0), (false, 0));
}

#[test]
fn playback_is_trimmed_past_one_second() {
    assert_eq!(playback_trim(96000, 2), 0);
    assert_eq!(playback_trim(96001, 2), 96001 - 48000);
    assert_eq!(playback_trim(48001, 1), 48001 - 24000);
    assert_eq!(playback_trim(0, 0), 0);
}

#[test]
fn peers_talk_for_a_while() {
    assert!(peer_talking(0));
    assert!(peer_talking(299));
    assert!(!peer_talking(300));
}

#[test]
fn upmix_repeats_samples() {
    assert_eq!(upmix(&[1i16, 2], 2), vec![1, 1, 2, 2]);
    assert_eq!(upmix(&[0.5f32], 3), vec![0.5, 0.5, 0.5]);
    assert!(upmix(&[1u8, 2], 0).is_empty());
    assert_eq!(upmix(&[4u8, 5], 1), vec![4, 5]);
}

#[test]
fn frames_are_drained_whole() {
    let mut buf: Vec<u32> = (0..10).collect();
    let frames = drain_frames(&mut buf, 4);
    assert_eq!(frames, vec![vec![0, 1, 2, 3], vec![4, 5, 6, 7]]);
    assert_eq!(buf, vec![8, 9]);
    let mut small: Vec<u32> = vec![1, 2];
    assert!(drain_frames(&mut small, 4).is_empty());
    assert_eq!(small, vec![1, 2]);
}

#[test]
fn avatar_of_right_size_is_kept() {
    let png = png_of_size(AVATAR_SIZE, AVATAR_SIZE);
    let (out, rewritten) = load_avatar(png.clone()).unwrap();
    assert!(!rewritten);
    assert_eq!(out, png);
}

#[test]
fn avatar_of_other_size_is_reencoded() {
    let png = png_of_size(200, 100);
    let (out, rewritten) = load_avatar(png.clone()).unwrap();
    assert!(rewritten);
    assert_ne!(out, png);
    assert_eq!(dims(&out), (128, 128));
}

#[test]
fn bad_avatar_files() {
    assert!(load_avatar(vec![]).is_none());
    assert!(load_avatar(vec![1, 2, 3, 4]).is_none());
}

#[test]
fn picked_image_becomes_avatar() {
    let out = avatar_png_from_image(&png_of_size(64, 300)).unwrap();
    assert_eq!(dims(&out), (128, 128));
    assert!(avatar_png_from_image(b"not an image").is_none());
}

#[test]
fn gate_follows_the_last_loud_frame() {
    let louds = [false, true, false, false, true, false, false, false, false, false, false, false, false, false, false, false, false, false, false];
    for start in [0usize, 3, 20] {
        let mut hold = start;
        for (j, &loud) in louds.iter().enumerate() {
            let (sent, h) = frame_transmits(false, loud, hold);
            hold = h;
            let last_loud = louds[..j].iter().rposition(|&l| l);
            let expected = loud
                || last_loud.is_some_and(|k| j - k <= GATE_HANGOVER_FRAMES)
                || (j < start && last_loud.is_none());
            assert_eq!(sent, expected, "frame {j} from hold {start}");
        }
    }
}

#[test]
fn reencoded_avatar_is_kept_next_time() {
    let (out, rewritten) = load_avatar(png_of_size(300, 50)).unwrap();
    assert!(rewritten);
    assert_eq!(load_avatar(out.clone()), Some((out, false)));
}
