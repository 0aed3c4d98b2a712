use vstd::prelude::*;

use crate::config::{check_answer, config_valid, CameraConfig, ConfigError};

verus! {

/// Status code with which the driver reports success.
pub const DRIVER_OK: i32 = 0;

/// Why the sensor could not be started.
#[derive(Clone, Copy, Debug, PartialEq, Eq, Structural)]
pub enum InitError {
    /// A camera is live already; the driver is a process-wide singleton.
    AlreadyInitialized,
    /// The configuration was refused before the driver was asked.
    InvalidConfig(ConfigError),
    /// The driver refused to start, with this status code.
    Driver(i32),
}

/// Whether starting the sensor succeeds: no camera is live, the configuration
/// is valid, and the driver reports success.
pub open spec fn init_succeeds(live: bool, c: CameraConfig, status: i32) -> bool {
    !live && config_valid(c) && status == DRIVER_OK
}

/// Whether a camera is live after an attempt to start one.
pub open spec fn live_after_init(live: bool, c: CameraConfig, status: i32) -> bool {
    live || init_succeeds(live, c, status)
}

/// What an attempt to start the sensor answers, when it fails.
pub open spec fn init_failure(live: bool, c: CameraConfig, status: i32, e: InitError) -> bool {
    if live {
        e == InitError::AlreadyInitialized
    } else if !config_valid(c) {
        exists|ce: ConfigError| e == InitError::InvalidConfig(ce) && check_answer(c, Err(ce))
    } else {
        status != DRIVER_OK && e == InitError::Driver(status)
    }
}

/// The sensor is started at most once: after an attempt has succeeded, every
/// further attempt is refused as long as that camera is live.
pub proof fn initialize_at_most_once(
    live: bool,
    first: CameraConfig,
    first_status: i32,
    second: CameraConfig,
    second_status: i32,
)
    requires
        init_succeeds(live, first, first_status),
    ensures
        live_after_init(live, first, first_status),
        !init_succeeds(live_after_init(live, first, first_status), second, second_status),
        init_failure(
            live_after_init(live, first, first_status),
            second,
            second_status,
            InitError::AlreadyInitialized,
        ),
{
}

/// Ownership of the sensor driver for the whole process. One value of this
/// type is made at start-up; at most one `Camera` is live through it at a time.
pub struct CameraDriver {
    live: bool,
}

impl CameraDriver {
    /// Whether a camera is live.
    pub closed spec fn is_live(&self) -> bool {
        self.live
    }

    /// The driver, with no camera started.
    pub fn new() -> (r: CameraDriver)
        ensures
            !r.is_live(),
    {
        CameraDriver { live: false }
    }

    /// Whether a camera is live.
    pub fn live(&self) -> (r: bool)
        ensures
            r == self.is_live(),
    {
        self.live
    }

    /// Decides whether the driver may be asked to start with `config`; the
    /// driver must not be asked where this fails.
    pub fn check_start(&self, config: &CameraConfig) -> (r: Result<(), InitError>)
        ensures
            r is Ok <==> !self.is_live() && config_valid(*config),
            r matches Err(e) ==> init_failure(self.is_live(), *config, DRIVER_OK, e),
    {
        if self.live {
            return Err(InitError::AlreadyInitialized);
        }
        match config.validate() {
            Ok(()) => Ok(()),
            Err(e) => Err(InitError::InvalidConfig(e)),
        }
    }
}

/// What a camera is: its configuration and the tokens of the buffers that are
/// handed out and not yet given back.
pub struct CameraView {
    pub config: CameraConfig,
    pub held: Set<u64>,
}

impl CameraView {
    /// Whether the driver may hand out the buffer `token`: it is not out
    /// already, and the pool has a free slot.
    pub open spec fn can_accept(self, token: u64) -> bool {
        !self.held.contains(token) && self.held.len() < self.config.fb_count
    }
}

/// The started sensor: exclusive ownership of the peripheral, and the ledger
/// of the frame buffers handed out from its pool.
pub struct Camera {
    config: CameraConfig,
    held: Vec<u64>,
}

impl View for Camera {
    type V = CameraView;

    closed spec fn view(&self) -> CameraView {
        CameraView { config: self.config, held: self.held@.to_set() }
    }
}

proof fn lemma_remove_unique(s: Seq<u64>, i: int)
    requires
        s.no_duplicates(),
        0 <= i < s.len(),
    ensures
        s.remove(i).no_duplicates(),
        s.remove(i).to_set() =~= s.to_set().remove(s[i]),
        s.remove(i).len() == s.len() - 1,
{
    let r = s.remove(i);
    assert forall|x: u64| r.to_set().contains(x) <==> s.to_set().remove(s[i]).contains(x) by {
        if r.contains(x) {
            let k = choose|k: int| 0 <= k < r.len() && r[k] == x;
            if k < i {
                assert(s[k] == x);
            } else {
                assert(s[k + 1] == x);
            }
        }
        if s.contains(x) && x != s[i] {
            let k = choose|k: int| 0 <= k < s.len() && s[k] == x;
            if k < i {
                assert(r[k] == x);
            } else {
                assert(r[k - 1] == x);
            }
        }
    }
}

impl Camera {
    /// The ledger is consistent: no token twice, and no more than the pool holds.
    pub closed spec fn wf(&self) -> bool {
        &&& self.held@.no_duplicates()
        &&& self.held@.len() <= self.config.fb_count
    }

    /// The number of buffers out is finite and within the pool's size.
    pub proof fn lemma_within_pool(&self)
        requires
            self.wf(),
        ensures
            self@.held.finite(),
            self@.held.len() <= self@.config.fb_count,
    {
        self.held@.unique_seq_to_set();
    }

    /// Records the start of the sensor, given the status that the driver's
    /// start call reported. Call `CameraDriver::check_start` before the driver.
    pub fn new(driver: &mut CameraDriver, config: CameraConfig, init_status: i32) -> (r: Result<
        Camera,
        InitError,
    >)
        ensures
            r is Ok <==> init_succeeds(old(driver).is_live(), config, init_status),
            final(driver).is_live() == live_after_init(old(driver).is_live(), config, init_status),
            r matches Ok(cam) ==> cam.wf() && cam@.config == config && cam@.held.is_empty(),
            r matches Err(e) ==> init_failure(old(driver).is_live(), config, init_status, e),
    {
        if let Err(e) = driver.check_start(&config) {
            return Err(e);
        }
        if init_status != DRIVER_OK {
            return Err(InitError::Driver(init_status));
        }
        driver.live = true;
        let cam = Camera { config, held: Vec::new() };
        assert(cam.held@.to_set() =~= Set::empty());
        Ok(cam)
    }

    /// Records the end of the sensor, given the status that the driver's stop
    /// call reported. Every buffer must have been given back first. A failed
    /// stop is handed back for the caller to record; the camera is gone
    /// either way.
    pub fn deinit(self, driver: &mut CameraDriver, deinit_status: i32) -> (r: Result<(), i32>)
        requires
            self@.held.is_empty(),
        ensures
            !final(driver).is_live(),
            r is Ok <==> deinit_status == DRIVER_OK,
            r matches Err(s) ==> s == deinit_status,
    {
        driver.live = false;
        if deinit_status == DRIVER_OK {
            Ok(())
        } else {
            Err(deinit_status)
        }
    }

    /// The configuration the sensor was started with.
    pub fn config(&self) -> (r: &CameraConfig)
        ensures
            *r == self@.config,
    {
        &self.config
    }

    /// The number of buffers handed out and not given back.
    pub fn outstanding(&self) -> (r: usize)
        requires
            self.wf(),
        ensures
            r == self@.held.len(),
    {
        proof {
            self.held@.unique_seq_to_set();
        }
        self.held.len()
    }

    /// Whether the buffer `token` is handed out.
    pub fn holds(&self, token: u64) -> (r: bool)
        ensures
            r == self@.held.contains(token),
    {
        let mut i: usize = 0;
        while i < self.held.len()
            invariant
                0 <= i <= self.held@.len(),
                forall|k: int| 0 <= k < i ==> self.held@[k] != token,
            decreases self.held@.len() - i,
        {
            if self.held[i] == token {
                assert(self.held@.to_set().contains(self.held@[i as int]));
                return true;
            }
            i = i + 1;
        }
        false
    }

    /// Whether the driver may hand out the buffer `token` now.
    pub fn can_accept(&self, token: u64) -> (r: bool)
        requires
            self.wf(),
        ensures
            r == self@.can_accept(token),
    {
        !self.holds(token) && self.outstanding() < self.config.fb_count
    }

    /// Takes what one capture call of the driver gave: nothing when no frame
    /// was ready, which is no failure, or a buffer, which is held from now on
    /// until its handle is given back.
    pub fn get_framebuffer(&mut self, captured: Option<Frame>) -> (r: Option<FrameBuffer>)
        requires
            old(self).wf(),
            captured matches Some(f) ==> old(self)@.can_accept(f.token),
        ensures
            final(self).wf(),
            final(self)@.config == old(self)@.config,
            match captured {
                None => r is None && final(self)@.held == old(self)@.held,
                Some(f) => r matches Some(fb) && fb@ == f@ && final(self)@.held == old(self)@.held.insert(f.token),
            },
    {
        match captured {
            None => None,
            Some(f) => {
                proof {
                    self.held@.unique_seq_to_set();
                }
                self.held.push(f.token);
                assert forall|x: u64| #[trigger] self.held@.contains(x) <==> old(self).held@.contains(x) || x == f.token by {
                    if self.held@.contains(x) && x != f.token {
                        let k = choose|k: int| 0 <= k < self.held@.len() && self.held@[k] == x;
                        assert(old(self).held@[k] == x);
                    }
                    if old(self).held@.contains(x) {
                        let k = choose|k: int| 0 <= k < old(self).held@.len() && old(self).held@[k] == x;
                        assert(self.held@[k] == x);
                    }
                    if x == f.token {
                        assert(self.held@[self.held@.len() - 1] == x);
                    }
                }
                assert(self.held@.to_set() =~= old(self).held@.to_set().insert(f.token));
                assert(self.held@.no_duplicates()) by {
                    assert(!old(self).held@.contains(f.token)) by {
                        if old(self).held@.contains(f.token) {
                            assert(old(self).held@.to_set().contains(f.token));
                        }
                    }
                    assert forall|a: int, b: int| 0 <= a < b < self.held@.len() implies self.held@[a] != self.held@[b] by {
                        if b == self.held@.len() - 1 {
                            assert(old(self).held@[a] == self.held@[a]);
                        }
                    }
                }
                Some(FrameBuffer { frame: f })
            },
        }
    }

    fn release(&mut self, token: u64)
        requires
            old(self).wf(),
            old(self)@.held.contains(token),
        ensures
            final(self).wf(),
            final(self)@.config == old(self)@.config,
            final(self)@.held == old(self)@.held.remove(token),
    {
        let ghost s = self.held@;
        let mut i: usize = 0;
        while i < self.held.len()
            invariant
                self.held@ == s,
                s == old(self).held@,
                self.config == old(self).config,
                s.no_duplicates(),
                s.len() <= self.config.fb_count,
                0 <= i <= s.len(),
                s.to_set().contains(token),
                forall|k: int| 0 <= k < i ==> s[k] != token,
            decreases s.len() - i,
        {
            if self.held[i] == token {
                proof {
                    lemma_remove_unique(s, i as int);
                }
                self.held.remove(i);
                return;
            }
            i = i + 1;
        }
        assert(false);
    }
}

/// A buffer as the driver's capture call hands it out: the token that names
/// it in the return call, and its bytes.
pub struct Frame {
    pub token: u64,
    pub bytes: Vec<u8>,
}

/// What a frame is: its token and its bytes.
pub struct FrameView {
    pub token: u64,
    pub bytes: Seq<u8>,
}

impl View for Frame {
    type V = FrameView;

    open spec fn view(&self) -> FrameView {
        FrameView { token: self.token, bytes: self.bytes@ }
    }
}

/// Exclusive ownership of one buffer of the pool. Only a capture makes one,
/// and giving it back consumes it, so that its bytes cannot be read, nor the
/// buffer given back, a second time.
pub struct FrameBuffer {
    frame: Frame,
}

impl View for FrameBuffer {
    type V = FrameView;

    closed spec fn view(&self) -> FrameView {
        self.frame@
    }
}

impl FrameBuffer {
    /// The captured bytes.
    pub fn data(&self) -> (r: &[u8])
        ensures
            r@ == self@.bytes,
    {
        self.frame.bytes.as_slice()
    }

    /// The number of captured bytes.
    pub fn len(&self) -> (r: usize)
        ensures
            r == self@.bytes.len(),
    {
        self.frame.bytes.len()
    }

    /// The token that names the buffer in the driver's return call.
    pub fn token(&self) -> (r: u64)
        ensures
            r == self@.token,
    {
        self.frame.token
    }

    /// Gives the buffer back: the camera no longer holds it, and the result
    /// is the token to hand to the driver's return call.
    pub fn fb_return(self, camera: &mut Camera) -> (r: u64)
        requires
            old(camera).wf(),
            old(camera)@.held.contains(self@.token),
        ensures
            r == self@.token,
            final(camera).wf(),
            final(camera)@.config == old(camera)@.config,
            final(camera)@.held == old(camera)@.held.remove(self@.token),
    {
        camera.release(self.frame.token);
        self.frame.token
    }
}

} // verus!
