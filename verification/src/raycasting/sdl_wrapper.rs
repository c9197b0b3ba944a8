//! The configuration the SDL window is opened with.
use vstd::prelude::*;
use vstd::string::StringExecFns;

verus! {

/// The configuration to be used for initializing SDL.
pub struct SdlConfiguration {
    title: String,
    width: u32,
    height: u32,
    pixel_size: u32,
    should_sleep: bool,
    sleep_ms: u32,
}

impl SdlConfiguration {
    pub closed spec fn spec_title(&self) -> Seq<char> {
        self.title@
    }

    /// Width, height and pixel size.
    pub closed spec fn spec_size(&self) -> (u32, u32, u32) {
        (self.width, self.height, self.pixel_size)
    }

    /// Whether the loop sleeps between frames, and for how many milliseconds.
    pub closed spec fn spec_sleep(&self) -> (bool, u32) {
        (self.should_sleep, self.sleep_ms)
    }

    /// The loop sleeps between frames exactly when `sleep_ms` is not 0.
    pub fn new(title: &str, width: u32, height: u32, pixel_size: u32, sleep_ms: u32) -> (c: Self)
        ensures
            c.spec_title() == title@,
            c.spec_size() == (width, height, pixel_size),
            c.spec_sleep() == (sleep_ms > 0, sleep_ms),
    {
        SdlConfiguration {
            title: String::from_str(title),
            width,
            height,
            pixel_size,
            should_sleep: sleep_ms > 0,
            sleep_ms,
        }
    }

    pub fn title(&self) -> (t: &str)
        ensures
            t@ == self.spec_title(),
    {
        self.title.as_str()
    }

    pub fn width(&self) -> (w: u32)
        ensures
            w == self.spec_size().0,
    {
        self.width
    }

    pub fn height(&self) -> (h: u32)
        ensures
            h == self.spec_size().1,
    {
        self.height
    }

    pub fn pixel_size(&self) -> (p: u32)
        ensures
            p == self.spec_size().2,
    {
        self.pixel_size
    }

    pub fn should_sleep(&self) -> (b: bool)
        ensures
            b == self.spec_sleep().0,
    {
        self.should_sleep
    }

    pub fn sleep_ms(&self) -> (ms: u32)
        ensures
            ms == self.spec_sleep().1,
    {
        self.sleep_ms
    }
}

} // verus!
