use vstd::prelude::*;

verus! {

/// Encoding of the pixels the sensor shifts out.
#[derive(Clone, Copy, Debug, PartialEq, Eq, Structural)]
pub enum PixelFormat {
    Rgb565,
    Yuv422,
    Yuv420,
    Grayscale,
    Jpeg,
    Rgb888,
    Raw,
    Rgb444,
    Rgb555,
}

/// Frame resolution.
#[derive(Clone, Copy, Debug, PartialEq, Eq, Structural)]
pub enum FrameSize {
    R96x96,
    Qqvga,
    Qcif,
    Hqvga,
    R240x240,
    Qvga,
    Cif,
    Hvga,
    Vga,
    Svga,
    Xga,
    Hd,
    Sxga,
    Uxga,
}

/// Memory that holds the frame buffer pool.
#[derive(Clone, Copy, Debug, PartialEq, Eq, Structural)]
pub enum FbLocation {
    Psram,
    Dram,
}

/// What the driver does when a capture is asked for and no free slot is ready.
#[derive(Clone, Copy, Debug, PartialEq, Eq, Structural)]
pub enum GrabMode {
    /// Fill a buffer only once one has been given back.
    WhenEmpty,
    /// Keep overwriting the oldest queued frame.
    Latest,
}

/// GPIO numbers of the sensor's pins.
#[derive(Clone, Copy, Debug, PartialEq, Eq, Structural)]
pub struct CameraPins {
    pub pwdn: u8,
    pub xclk: u8,
    pub d7: u8,
    pub d6: u8,
    pub d5: u8,
    pub d4: u8,
    pub d3: u8,
    pub d2: u8,
    pub d1: u8,
    pub d0: u8,
    pub vsync: u8,
    pub href: u8,
    pub pclk: u8,
    pub sda: u8,
    pub scl: u8,
}

/// Everything the driver is started with.
#[derive(Clone, Copy, Debug, PartialEq, Eq, Structural)]
pub struct CameraConfig {
    pub pins: CameraPins,
    pub xclk_freq_hz: u32,
    pub ledc_timer: u32,
    pub ledc_channel: u32,
    pub pixel_format: PixelFormat,
    pub frame_size: FrameSize,
    /// Compression quality; the driver ignores it for uncompressed formats.
    pub jpeg_quality: i32,
    pub fb_count: usize,
    pub fb_location: FbLocation,
    pub grab_mode: GrabMode,
}

/// Why a configuration is refused before the driver is asked.
#[derive(Clone, Copy, Debug, PartialEq, Eq, Structural)]
pub enum ConfigError {
    /// The pool must hold at least one buffer.
    NoBuffers,
    /// The number names no GPIO line of the chip.
    InvalidPin(u8),
    /// Two roles are assigned the same line.
    DuplicatePin(u8),
}

/// The chip's GPIO lines: 0 to 39, without 20, 24 and 28 to 31.
pub open spec fn is_gpio(p: u8) -> bool {
    p < 40 && p != 20 && p != 24 && !(28 <= p && p <= 31)
}

impl CameraPins {
    /// The assignments, role by role.
    pub open spec fn spec_list(&self) -> Seq<u8> {
        seq![
            self.pwdn, self.xclk, self.d7, self.d6, self.d5, self.d4, self.d3, self.d2,
            self.d1, self.d0, self.vsync, self.href, self.pclk, self.sda, self.scl,
        ]
    }

    /// The assignments in the order of `spec_list`.
    pub fn to_vec(&self) -> (r: Vec<u8>)
        ensures
            r@ == self.spec_list(),
    {
        let r = vec![
            self.pwdn, self.xclk, self.d7, self.d6, self.d5, self.d4, self.d3, self.d2,
            self.d1, self.d0, self.vsync, self.href, self.pclk, self.sda, self.scl,
        ];
        assert(r@ =~= self.spec_list());
        r
    }
}

/// `s[i]` is the first entry that names no GPIO line.
pub open spec fn first_invalid_at(s: Seq<u8>, i: int) -> bool {
    0 <= i < s.len() && !is_gpio(s[i]) && forall|k: int| 0 <= k < i ==> is_gpio(#[trigger] s[k])
}

/// `s[j]` repeats an earlier entry, and no entry before it does.
pub open spec fn first_repeat_at(s: Seq<u8>, j: int) -> bool {
    &&& 0 <= j < s.len()
    &&& exists|k: int| 0 <= k < j && s[k] == s[j]
    &&& forall|a: int, b: int| 0 <= a < b < j ==> s[a] != s[b]
}

/// What checking `c` may answer: the buffer count is looked at first, then
/// the first pin that is no GPIO line, then the first pin used twice.
pub open spec fn check_answer(c: CameraConfig, r: Result<(), ConfigError>) -> bool {
    let s = c.pins.spec_list();
    match r {
        Ok(()) => config_valid(c),
        Err(ConfigError::NoBuffers) => c.fb_count == 0,
        Err(ConfigError::InvalidPin(p)) => c.fb_count > 0 && exists|i: int|
            first_invalid_at(s, i) && s[i] == p,
        Err(ConfigError::DuplicatePin(p)) => {
            &&& c.fb_count > 0
            &&& forall|i: int| 0 <= i < s.len() ==> is_gpio(#[trigger] s[i])
            &&& exists|j: int| first_repeat_at(s, j) && s[j] == p
        },
    }
}

/// A configuration the driver may be started with: at least one buffer, and
/// distinct pins that all name GPIO lines.
pub open spec fn config_valid(c: CameraConfig) -> bool {
    &&& c.fb_count >= 1
    &&& forall|i: int| 0 <= i < c.pins.spec_list().len() ==> is_gpio(#[trigger] c.pins.spec_list()[i])
    &&& c.pins.spec_list().no_duplicates()
}

fn gpio(p: u8) -> (r: bool)
    ensures
        r == is_gpio(p),
{
    p < 40 && p != 20 && p != 24 && !(28 <= p && p <= 31)
}

impl CameraConfig {
    /// Checks the configuration before the driver sees it.
    pub fn validate(&self) -> (r: Result<(), ConfigError>)
        ensures
            check_answer(*self, r),
            r is Ok <==> config_valid(*self),
    {
        let ghost s = self.pins.spec_list();
        if self.fb_count == 0 {
            return Err(ConfigError::NoBuffers);
        }
        let pins = self.pins.to_vec();
        let n = pins.len();
        let mut i: usize = 0;
        while i < n
            invariant
                pins@ == s,
                s == self.pins.spec_list(),
                self.fb_count > 0,
                n == s.len(),
                0 <= i <= n,
                forall|k: int| 0 <= k < i ==> is_gpio(#[trigger] s[k]),
            decreases n - i,
        {
            if !gpio(pins[i]) {
                assert(!is_gpio(s[i as int]));
                assert(first_invalid_at(s, i as int));
                return Err(ConfigError::InvalidPin(pins[i]));
            }
            i = i + 1;
        }
        let mut j: usize = 0;
        while j < n
            invariant
                pins@ == s,
                s == self.pins.spec_list(),
                self.fb_count > 0,
                n == s.len(),
                0 <= j <= n,
                forall|a: int, b: int| 0 <= a < b < j ==> s[a] != s[b],
                forall|a: int| 0 <= a < s.len() ==> is_gpio(#[trigger] s[a]),
            decreases n - j,
        {
            let mut k: usize = 0;
            while k < j
                invariant
                    pins@ == s,
                    s == self.pins.spec_list(),
                    self.fb_count > 0,
                    forall|a: int, b: int| 0 <= a < b < j ==> s[a] != s[b],
                    forall|a: int| 0 <= a < s.len() ==> is_gpio(#[trigger] s[a]),
                    n == s.len(),
                    0 <= k <= j < n,
                    forall|a: int| 0 <= a < k ==> s[a] != s[j as int],
                decreases j - k,
            {
                if pins[k] == pins[j] {
                    assert(s[k as int] == s[j as int]);
                    assert(first_repeat_at(s, j as int));
                    return Err(ConfigError::DuplicatePin(pins[j]));
                }
                k = k + 1;
            }
            j = j + 1;
        }
        assert(s.no_duplicates());
        Ok(())
    }
}

} // verus!
