use esp_camera::{
    content_type, decimal_digits, Camera, CameraConfig, CameraDriver, CameraPins, FbLocation,
    Frame, FrameRequest, FrameSize, GrabMode, PixelFormat, Response, DRIVER_OK, STATUS_OK,
};
use std::collections::VecDeque;

fn config(fb_count: usize, pixel_format: PixelFormat, frame_size: FrameSize) -> CameraConfig {
    CameraConfig {
        pins: CameraPins {
            pwdn: 32,
            xclk: 0,
            d7: 35,
            d6: 34,
            d5: 39,
            d4: 36,
            d3: 21,
            d2: 19,
            d1: 18,
            d0: 5,
            vsync: 25,
            href: 23,
            pclk: 22,
            sda: 26,
            scl: 27,
        },
        xclk_freq_hz: 20_000_000,
        ledc_timer: 0,
        ledc_channel: 0,
        pixel_format,
        frame_size,
        jpeg_quality: 12,
        fb_count,
        fb_location: FbLocation::Psram,
        grab_mode: GrabMode::WhenEmpty,
    }
}

/// A stand-in for the driver's pool: filled buffers wait in `queued` with the
/// scene they hold; a buffer given back is filled again with the next scene.
struct Pool {
    queued: VecDeque<(u64, u8)>,
    out: Vec<u64>,
    scene: u8,
}

impl Pool {
    fn new() -> Pool {
        Pool { queued: VecDeque::new(), out: Vec::new(), scene: 0 }
    }

    fn preload(&mut self, token: u64) {
        self.queued.push_back((token, self.scene));
    }

    fn capture(&mut self) -> Option<Frame> {
        let (token, scene) = self.queued.pop_front()?;
        self.out.push(token);
        Some(Frame { token, bytes: vec![token as u8, scene] })
    }

    fn give_back(&mut self, token: u64, refill: bool) {
        let i = self.out.iter().position(|t| *t == token).expect("buffer given back twice");
        self.out.remove(i);
        if refill {
            self.scene += 1;
            self.queued.push_back((token, self.scene));
        }
    }
}

struct Served {
    response: Response,
    given_back: Vec<u64>,
    most_out: usize,
}

fn serve(cam: &mut Camera, pool: &mut Pool, refill: bool) -> Served {
    let mut given_back = Vec::new();
    let mut most_out = 0;
    let mut req = FrameRequest::new(cam);
    let stale = pool.capture();
    most_out = most_out.max(pool.out.len());
    if let Some(t) = req.stale(cam, stale) {
        pool.give_back(t, refill);
        given_back.push(t);
    }
    let fresh = pool.capture();
    most_out = most_out.max(pool.out.len());
    let response = req.fresh(cam, fresh);
    most_out = most_out.max(cam.outstanding());
    if let Some(t) = req.finish(cam) {
        pool.give_back(t, refill);
        given_back.push(t);
    }
    Served { response, given_back, most_out }
}

fn camera(fb_count: usize) -> Camera {
    let mut driver = CameraDriver::new();
    Camera::new(&mut driver, config(fb_count, PixelFormat::Jpeg, FrameSize::Qvga), DRIVER_OK).unwrap()
}

#[test]
fn decimal_of_zero() {
    assert_eq!(decimal_digits(0), b"0".to_vec());
}

#[test]
fn decimal_of_several_digits() {
    assert_eq!(decimal_digits(1234), b"1234".to_vec());
    assert_eq!(decimal_digits(10), b"10".to_vec());
}

#[test]
fn decimal_of_largest() {
    assert_eq!(decimal_digits(usize::MAX), usize::MAX.to_string().into_bytes());
}

#[test]
fn content_type_names_format() {
    assert_eq!(content_type(PixelFormat::Jpeg), "image/jpeg");
    assert_eq!(content_type(PixelFormat::Rgb565), "image/rgb565");
    assert_eq!(content_type(PixelFormat::Grayscale), "image/grayscale");
}

#[test]
fn stale_frame_discarded_fresh_kept() {
    let mut cam = camera(2);
    let mut pool = Pool::new();
    pool.preload(1);
    pool.preload(2);
    let served = serve(&mut cam, &mut pool, true);
    assert_eq!(served.response.status, STATUS_OK);
    assert_eq!(served.response.body, vec![2, 0]);
    assert_eq!(served.given_back, vec![1, 2]);
    assert_eq!(cam.outstanding(), 0);
    assert!(pool.out.is_empty());
}

#[test]
fn stale_buffer_released_before_fresh_capture() {
    let mut cam = camera(1);
    let mut pool = Pool::new();
    pool.preload(5);
    let served = serve(&mut cam, &mut pool, true);
    // the one buffer was given back and refilled, so the answer is the newer scene
    assert_eq!(served.response.body, vec![5, 1]);
    assert_eq!(served.given_back, vec![5, 5]);
    assert_eq!(served.most_out, 1);
    assert_eq!(cam.outstanding(), 0);
}

#[test]
fn empty_pool_gives_placeholder() {
    let mut cam = camera(1);
    let mut pool = Pool::new();
    let served = serve(&mut cam, &mut pool, true);
    assert_eq!(served.response.status, 200);
    assert!(!served.response.body.is_empty());
    assert_eq!(served.response.body, b"No frame available".to_vec());
    assert_eq!(served.response.content_type, "text/plain");
    assert_eq!(served.response.content_length, None);
    assert!(served.given_back.is_empty());
    assert_eq!(cam.outstanding(), 0);
}

#[test]
fn only_stale_frame_gives_placeholder() {
    let mut cam = camera(1);
    let mut pool = Pool::new();
    pool.preload(3);
    let served = serve(&mut cam, &mut pool, false);
    assert_eq!(served.response.body, b"No frame available".to_vec());
    assert_eq!(served.given_back, vec![3]);
    assert_eq!(cam.outstanding(), 0);
}

#[test]
fn content_length_matches_body() {
    let mut cam = camera(2);
    let mut req = FrameRequest::new(&cam);
    assert_eq!(req.stale(&mut cam, None), None);
    let bytes: Vec<u8> = (0..1234u32).map(|i| (i % 251) as u8).collect();
    let response = req.fresh(&mut cam, Some(Frame { token: 9, bytes: bytes.clone() }));
    assert_eq!(response.status, 200);
    assert_eq!(response.content_type, "image/jpeg");
    assert_eq!(response.content_length, Some(b"1234".to_vec()));
    let length: usize = String::from_utf8(response.content_length.clone().unwrap()).unwrap().parse().unwrap();
    assert_eq!(length, response.body.len());
    assert_eq!(response.body, bytes);
    assert_eq!(cam.outstanding(), 1);
    assert_eq!(req.finish(&mut cam), Some(9));
    assert_eq!(cam.outstanding(), 0);
}

#[test]
fn ended_early_gives_kept_buffer_back() {
    let mut cam = camera(2);
    let mut req = FrameRequest::new(&cam);
    assert_eq!(req.stale(&mut cam, Some(Frame { token: 4, bytes: vec![1] })), Some(4));
    assert_eq!(req.finish(&mut cam), None);
    assert_eq!(cam.outstanding(), 0);
}

#[test]
fn raw_format_content_type() {
    let mut driver = CameraDriver::new();
    let mut cam = Camera::new(&mut driver, config(1, PixelFormat::Rgb565, FrameSize::Qqvga), DRIVER_OK).unwrap();
    let mut req = FrameRequest::new(&cam);
    req.stale(&mut cam, None);
    let response = req.fresh(&mut cam, Some(Frame { token: 1, bytes: vec![0; 16] }));
    assert_eq!(response.content_type, "image/rgb565");
    assert_eq!(response.content_length, Some(b"16".to_vec()));
    assert_eq!(req.finish(&mut cam), Some(1));
}

#[test]
fn repeated_requests_never_exhaust_pool() {
    let n = 3;
    let mut cam = camera(n);
    let mut pool = Pool::new();
    for t in 0..n as u64 {
        pool.preload(t);
    }
    for _ in 0..20 {
        let served = serve(&mut cam, &mut pool, true);
        assert_eq!(served.response.status, 200);
        assert!(served.most_out <= n);
        assert_eq!(served.response.content_length, Some(b"2".to_vec()));
        assert_eq!(cam.outstanding(), 0);
        assert_eq!(pool.queued.len(), n);
    }
}

#[test]
fn single_buffer_uxga_first_request() {
    let mut driver = CameraDriver::new();
    let cfg = config(1, PixelFormat::Jpeg, FrameSize::Uxga);
    assert_eq!(driver.check_start(&cfg), Ok(()));
    let mut cam = Camera::new(&mut driver, cfg, DRIVER_OK).unwrap();
    let mut pool = Pool::new();
    let served = serve(&mut cam, &mut pool, true);
    assert_eq!(served.response.status, 200);
    assert!(cam.outstanding() <= 1);
    pool.preload(0);
    let served = serve(&mut cam, &mut pool, true);
    assert_eq!(served.response.status, 200);
    assert!(served.most_out <= 1);
    assert!(cam.outstanding() <= 1);
}
