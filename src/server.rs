use vstd::prelude::*;

use crate::camera::{Camera, Frame, FrameBuffer, FrameView};
use crate::config::PixelFormat;

verus! {

/// Status of every answer: an image, or the note that no frame was ready.
pub const STATUS_OK: u16 = 200;

/// An answer to a frame request, ready for the transport.
pub struct Response {
    pub status: u16,
    /// Value of the `Content-Type` header.
    pub content_type: &'static str,
    /// Value of the `Content-Length` header, in ASCII decimal digits; present
    /// only when the body is an image.
    pub content_length: Option<Vec<u8>>,
    pub body: Vec<u8>,
}

/// What an answer is.
pub struct ResponseView {
    pub status: u16,
    pub content_type: Seq<char>,
    pub content_length: Option<Seq<u8>>,
    pub body: Seq<u8>,
}

impl View for Response {
    type V = ResponseView;

    open spec fn view(&self) -> ResponseView {
        ResponseView {
            status: self.status,
            content_type: self.content_type@,
            content_length: match self.content_length {
                Some(v) => Some(v@),
                None => None,
            },
            body: self.body@,
        }
    }
}

/// The ASCII decimal digits of `n`, without leading zeros.
pub open spec fn decimal(n: nat) -> Seq<u8>
    decreases n,
{
    if n < 10 {
        seq![(48 + n) as u8]
    } else {
        decimal(n / 10).push((48 + n % 10) as u8)
    }
}

/// `image/<format>` for each pixel format.
pub open spec fn content_type_of(f: PixelFormat) -> Seq<char> {
    match f {
        PixelFormat::Rgb565 => "image/rgb565"@,
        PixelFormat::Yuv422 => "image/yuv422"@,
        PixelFormat::Yuv420 => "image/yuv420"@,
        PixelFormat::Grayscale => "image/grayscale"@,
        PixelFormat::Jpeg => "image/jpeg"@,
        PixelFormat::Rgb888 => "image/rgb888"@,
        PixelFormat::Raw => "image/raw"@,
        PixelFormat::Rgb444 => "image/rgb444"@,
        PixelFormat::Rgb555 => "image/rgb555"@,
    }
}

/// The text sent when no frame was ready: "No frame available".
pub open spec fn placeholder_text() -> Seq<u8> {
    seq![78u8, 111, 32, 102, 114, 97, 109, 101, 32, 97, 118, 97, 105, 108, 97, 98, 108, 101]
}

/// The answer that carries the image `bytes`, encoded in `f`.
pub open spec fn image_response(f: PixelFormat, bytes: Seq<u8>) -> ResponseView {
    ResponseView {
        status: STATUS_OK,
        content_type: content_type_of(f),
        content_length: Some(decimal(bytes.len())),
        body: bytes,
    }
}

/// The answer when no frame was ready.
pub open spec fn placeholder_response() -> ResponseView {
    ResponseView {
        status: STATUS_OK,
        content_type: "text/plain"@,
        content_length: None,
        body: placeholder_text(),
    }
}

/// The ASCII decimal digits of `n`.
pub fn decimal_digits(n: usize) -> (r: Vec<u8>)
    ensures
        r@ == decimal(n as nat),
    decreases n,
{
    if n < 10 {
        let r = vec![48u8 + n as u8];
        assert(r@ =~= decimal(n as nat));
        r
    } else {
        let mut r = decimal_digits(n / 10);
        r.push(48u8 + (n % 10) as u8);
        r
    }
}

/// The `Content-Type` of an image in the format `f`.
pub fn content_type(f: PixelFormat) -> (r: &'static str)
    ensures
        r@ == content_type_of(f),
{
    match f {
        PixelFormat::Rgb565 => "image/rgb565",
        PixelFormat::Yuv422 => "image/yuv422",
        PixelFormat::Yuv420 => "image/yuv420",
        PixelFormat::Grayscale => "image/grayscale",
        PixelFormat::Jpeg => "image/jpeg",
        PixelFormat::Rgb888 => "image/rgb888",
        PixelFormat::Raw => "image/raw",
        PixelFormat::Rgb444 => "image/rgb444",
        PixelFormat::Rgb555 => "image/rgb555",
    }
}

fn copy_bytes(s: &[u8]) -> (r: Vec<u8>)
    ensures
        r@ == s@,
{
    let mut r: Vec<u8> = Vec::new();
    let mut i: usize = 0;
    while i < s.len()
        invariant
            0 <= i <= s@.len(),
            r@ == s@.subrange(0, i as int),
        decreases s@.len() - i,
    {
        r.push(s[i]);
        i = i + 1;
        assert(r@ =~= s@.subrange(0, i as int));
    }
    assert(s@.subrange(0, s@.len() as int) =~= s@);
    r
}

/// The answer that carries the bytes of `fb`, encoded in `f`.
pub fn image(f: PixelFormat, fb: &FrameBuffer) -> (r: Response)
    ensures
        r@ == image_response(f, fb@.bytes),
{
    let body = copy_bytes(fb.data());
    let length = decimal_digits(body.len());
    Response { status: STATUS_OK, content_type: content_type(f), content_length: Some(length), body }
}

/// The answer when no frame was ready.
pub fn placeholder() -> (r: Response)
    ensures
        r@ == placeholder_response(),
{
    let body: Vec<u8> = vec![78u8, 111, 32, 102, 114, 97, 109, 101, 32, 97, 118, 97, 105, 108, 97, 98, 108, 101];
    assert(body@ =~= placeholder_text());
    Response { status: STATUS_OK, content_type: "text/plain", content_length: None, body }
}

/// What a capture call gave.
pub open spec fn view_of(captured: Option<Frame>) -> Option<FrameView> {
    match captured {
        Some(f) => Some(f@),
        None => None,
    }
}

/// The captured buffer, if any, is not among `held`.
pub open spec fn not_held(held: Set<u64>, captured: Option<FrameView>) -> bool {
    match captured {
        Some(f) => !held.contains(f.token),
        None => true,
    }
}

/// The token of a captured buffer, if there is one.
pub open spec fn token_of(captured: Option<FrameView>) -> Option<u64> {
    match captured {
        Some(f) => Some(f.token),
        None => None,
    }
}

/// The buffers held after the stale capture, and the one to give back: a
/// stale buffer is given back at once.
pub open spec fn after_stale(held: Set<u64>, captured: Option<FrameView>) -> (Set<u64>, Option<u64>) {
    (held, token_of(captured))
}

/// The buffers held after the fresh capture, and the one kept for the answer.
pub open spec fn after_fresh(held: Set<u64>, captured: Option<FrameView>) -> (Set<u64>, Option<u64>) {
    match captured {
        Some(f) => (held.insert(f.token), Some(f.token)),
        None => (held, None),
    }
}

/// The buffers held once the request is over, and the one to give back.
pub open spec fn after_finish(held: Set<u64>, kept: Option<u64>) -> (Set<u64>, Option<u64>) {
    match kept {
        Some(t) => (held.remove(t), Some(t)),
        None => (held, None),
    }
}

/// The answer to a request whose fresh capture gave `captured`.
pub open spec fn answer(f: PixelFormat, captured: Option<FrameView>) -> ResponseView {
    match captured {
        Some(fr) => image_response(f, fr.bytes),
        None => placeholder_response(),
    }
}

#[derive(Clone, Copy, PartialEq, Eq, Structural)]
enum Stage {
    Stale,
    Fresh,
    Answered,
}

/// One request for the current frame. Two captures are made: the first may
/// give a buffer filled before the request came, which is given back at once;
/// the second gives the frame that is answered with, kept until the answer has
/// been handed to the transport.
pub struct FrameRequest {
    stage: Stage,
    kept: Option<FrameBuffer>,
    start: Ghost<Set<u64>>,
}

impl FrameRequest {
    /// Waiting for the stale capture.
    pub closed spec fn awaits_stale(&self) -> bool {
        self.stage == Stage::Stale && self.kept is None
    }

    /// Waiting for the fresh capture.
    pub closed spec fn awaits_fresh(&self) -> bool {
        self.stage == Stage::Fresh && self.kept is None
    }

    /// The buffers held by the camera when the request began.
    pub closed spec fn start_held(&self) -> Set<u64> {
        self.start@
    }

    /// The token of the buffer kept for the answer, if any.
    pub closed spec fn kept_token(&self) -> Option<u64> {
        match self.kept {
            Some(fb) => Some(fb@.token),
            None => None,
        }
    }

    /// The camera holds what it held when the request began, and the kept
    /// buffer besides.
    pub closed spec fn tracks(&self, camera: &Camera) -> bool {
        match self.kept {
            Some(fb) => !self.start@.contains(fb@.token) && camera@.held == self.start@.insert(fb@.token),
            None => camera@.held == self.start@,
        }
    }

    /// A request on `camera`, waiting for the stale capture.
    pub fn new(camera: &Camera) -> (r: FrameRequest)
        ensures
            r.awaits_stale(),
            r.start_held() == camera@.held,
            r.kept_token() is None,
            r.tracks(camera),
    {
        FrameRequest { stage: Stage::Stale, kept: None, start: Ghost(camera@.held) }
    }

    /// Takes what the stale capture gave. The result is the token of the
    /// buffer to give back to the driver before the fresh capture.
    pub fn stale(&mut self, camera: &mut Camera, captured: Option<Frame>) -> (r: Option<u64>)
        requires
            old(self).awaits_stale(),
            old(camera).wf(),
            old(self).tracks(old(camera)),
            captured matches Some(f) ==> old(camera)@.can_accept(f.token),
        ensures
            final(self).awaits_fresh(),
            final(self).start_held() == old(self).start_held(),
            final(self).tracks(final(camera)),
            final(camera).wf(),
            final(camera)@.config == old(camera)@.config,
            (final(camera)@.held, r) == after_stale(
                old(camera)@.held,
                view_of(captured),
            ),
    {
        let ghost held = camera@.held;
        self.stage = Stage::Fresh;
        match camera.get_framebuffer(captured) {
            None => None,
            Some(fb) => {
                let t = fb.fb_return(camera);
                assert(held.insert(t).remove(t) =~= held);
                Some(t)
            },
        }
    }

    /// Takes what the fresh capture gave, and answers with it: with the image,
    /// or with the note that no frame was ready. A buffer is kept until
    /// `finish`.
    pub fn fresh(&mut self, camera: &mut Camera, captured: Option<Frame>) -> (r: Response)
        requires
            old(self).awaits_fresh(),
            old(camera).wf(),
            old(self).tracks(old(camera)),
            captured matches Some(f) ==> old(camera)@.can_accept(f.token),
        ensures
            final(self).start_held() == old(self).start_held(),
            final(self).tracks(final(camera)),
            final(camera).wf(),
            final(camera)@.config == old(camera)@.config,
            r@ == answer(
                old(camera)@.config.pixel_format,
                view_of(captured),
            ),
            (final(camera)@.held, final(self).kept_token()) == after_fresh(
                old(camera)@.held,
                view_of(captured),
            ),
    {
        self.stage = Stage::Answered;
        match camera.get_framebuffer(captured) {
            None => placeholder(),
            Some(fb) => {
                let r = image(camera.config().pixel_format, &fb);
                self.kept = Some(fb);
                r
            },
        }
    }

    /// Ends the request, at whatever point it stands: the kept buffer, if any,
    /// is given back, and the result is its token for the driver. The camera
    /// then holds what it held when the request began.
    pub fn finish(self, camera: &mut Camera) -> (r: Option<u64>)
        requires
            old(camera).wf(),
            self.tracks(old(camera)),
        ensures
            final(camera).wf(),
            final(camera)@.config == old(camera)@.config,
            (final(camera)@.held, r) == after_finish(old(camera)@.held, self.kept_token()),
            final(camera)@.held == self.start_held(),
    {
        match self.kept {
            None => None,
            Some(fb) => {
                let ghost t = fb@.token;
                let r = fb.fb_return(camera);
                assert(self.start@.insert(t).remove(t) =~= self.start@);
                Some(r)
            },
        }
    }
}

/// Every buffer that a request takes is given back exactly once, whether the
/// request runs to its end or is ended after the stale capture: the stale one
/// at once, the fresh one by `finish`, and the camera then holds what it held
/// before.
pub proof fn every_buffer_given_back_once(
    held: Set<u64>,
    stale: Option<FrameView>,
    fresh: Option<FrameView>,
)
    requires
        not_held(held, stale),
        not_held(held, fresh),
    ensures
        ({
            let (h1, given_back) = after_stale(held, stale);
            let (h2, kept) = after_fresh(h1, fresh);
            let (h3, released) = after_finish(h2, kept);
            &&& given_back == token_of(stale)
            &&& released == token_of(fresh)
            &&& h3 == held
            &&& after_finish(h1, None) == (held, None::<u64>)
        }),
{
    let (h1, given_back) = after_stale(held, stale);
    if let Some(f) = fresh {
        assert(held.insert(f.token).remove(f.token) =~= held);
    }
}

/// Discard, then keep: with a stale buffer queued, the request gives that one
/// back, and afterwards holds the fresh buffer and nothing else beyond what was
/// held before; the answer carries the fresh buffer's bytes.
pub proof fn discard_then_keep(
    held: Set<u64>,
    format: PixelFormat,
    stale: FrameView,
    fresh: FrameView,
)
    requires
        !held.contains(stale.token),
        !held.contains(fresh.token),
    ensures
        ({
            let (h1, given_back) = after_stale(held, Some(stale));
            let (h2, kept) = after_fresh(h1, Some(fresh));
            &&& given_back == Some(stale.token)
            &&& kept == Some(fresh.token)
            &&& h2 == held.insert(fresh.token)
            &&& answer(format, Some(fresh)).body == fresh.bytes
        }),
{
}

/// With no frame ready, the answer has status 200 and a non-empty body, and
/// the request keeps no buffer.
pub proof fn empty_pool_answer(held: Set<u64>, format: PixelFormat)
    ensures
        answer(format, None).status == STATUS_OK,
        answer(format, None).body.len() > 0,
        after_fresh(held, None) == (held, None::<u64>),
{
}

/// The `Content-Length` of an image answer is the decimal length of its body.
pub proof fn content_length_is_body_length(format: PixelFormat, fresh: FrameView)
    ensures
        answer(format, Some(fresh)).status == STATUS_OK,
        answer(format, Some(fresh)).content_length == Some(decimal(answer(format, Some(fresh)).body.len())),
{
}

/// The buffers held after a run of requests, each given by what its stale and
/// fresh captures gave.
pub open spec fn after_requests(held: Set<u64>, requests: Seq<(Option<FrameView>, Option<FrameView>)>) -> Set<u64>
    decreases requests.len(),
{
    if requests.len() == 0 {
        held
    } else {
        let (stale, fresh) = requests.last();
        let before = after_requests(held, requests.drop_last());
        let (h1, _) = after_stale(before, stale);
        let (h2, kept) = after_fresh(h1, fresh);
        after_finish(h2, kept).0
    }
}

/// Requests never use the pool up: after any run of them the camera holds what
/// it held before, and within one request at most one buffer more.
pub proof fn requests_never_exhaust_pool(
    held: Set<u64>,
    requests: Seq<(Option<FrameView>, Option<FrameView>)>,
)
    requires
        held.finite(),
        forall|i: int| 0 <= i < requests.len() ==> not_held(held, (#[trigger] requests[i]).0),
        forall|i: int| 0 <= i < requests.len() ==> not_held(held, (#[trigger] requests[i]).1),
    ensures
        after_requests(held, requests) == held,
        forall|fresh: Option<FrameView>| (#[trigger] after_fresh(held, fresh)).0.len() <= held.len() + 1,
    decreases requests.len(),
{
    if requests.len() > 0 {
        let rest = requests.drop_last();
        assert forall|i: int| 0 <= i < rest.len() implies not_held(held, (#[trigger] rest[i]).0) && not_held(held, rest[i].1) by {
            assert(rest[i] == requests[i]);
        }
        requests_never_exhaust_pool(held, rest);
        let last = requests[requests.len() - 1];
        every_buffer_given_back_once(held, last.0, last.1);
    }
    assert forall|fresh: Option<FrameView>| (#[trigger] after_fresh(held, fresh)).0.len() <= held.len() + 1 by {
        if let Some(f) = fresh {
            assert(held.insert(f.token).len() <= held.len() + 1);
        }
    }
}

} // verus!
