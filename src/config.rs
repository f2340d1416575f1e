use vstd::prelude::*;

verus! {

/// Number of iterations after which a point counts as bounded.
pub const ITERATION_LIMIT: u8 = 50;

/// Image width used when none is given.
pub const DEFAULT_WIDTH: u32 = 512;

/// Image height used when none is given.
pub const DEFAULT_HEIGHT: u32 = 512;

/// Why a pair of dimensions cannot be rendered.
#[derive(Debug, Clone, Copy, PartialEq, Eq, Structural)]
pub enum ConfigError {
    ZeroWidth,
    ZeroHeight,
    /// Three bytes per pixel would not fit in the address space.
    TooLarge,
}

/// Whether an image of these dimensions can be held as a byte buffer.
pub open spec fn fits_in_memory(width: nat, height: nat) -> bool {
    3 * width * height <= usize::MAX
}

/// The dimensions of one render: both positive, and small enough to address.
#[derive(Debug, Clone, Copy, PartialEq, Eq, Structural)]
pub struct RenderConfig {
    width: u32,
    height: u32,
}

impl RenderConfig {
    pub closed spec fn spec_width(&self) -> nat {
        self.width as nat
    }

    pub closed spec fn spec_height(&self) -> nat {
        self.height as nat
    }

    pub closed spec fn wf(&self) -> bool {
        self.width > 0 && self.height > 0 && fits_in_memory(self.width as nat, self.height as nat)
    }

    /// What a valid configuration guarantees: positive dimensions whose bytes fit in memory.
    pub proof fn lemma_wf(&self)
        requires
            self.wf(),
        ensures
            self.spec_width() > 0,
            self.spec_height() > 0,
            3 * self.spec_width() <= usize::MAX,
            fits_in_memory(self.spec_width(), self.spec_height()),
    {
        assert(3 * self.spec_width() <= 3 * self.spec_width() * self.spec_height()) by (nonlinear_arith)
            requires
                self.spec_height() > 0,
        ;
    }

    /// Checks the dimensions; zero width is reported before zero height.
    pub fn new(width: u32, height: u32) -> (r: Result<RenderConfig, ConfigError>)
        ensures
            width == 0 ==> r == Err::<RenderConfig, ConfigError>(ConfigError::ZeroWidth),
            width > 0 && height == 0 ==> r == Err::<RenderConfig, ConfigError>(
                ConfigError::ZeroHeight,
            ),
            width > 0 && height > 0 && !fits_in_memory(width as nat, height as nat) ==> r
                == Err::<RenderConfig, ConfigError>(ConfigError::TooLarge),
            width > 0 && height > 0 && fits_in_memory(width as nat, height as nat) ==> (r matches Ok(
                c,
            ) && c.wf() && c.spec_width() == width && c.spec_height() == height),
    {
        if width == 0 {
            return Err(ConfigError::ZeroWidth);
        }
        if height == 0 {
            return Err(ConfigError::ZeroHeight);
        }
        assert(width as nat * height as nat <= u64::MAX) by (nonlinear_arith)
            requires
                width <= u32::MAX,
                height <= u32::MAX,
        ;
        let pixels: u64 = width as u64 * height as u64;
        if pixels > (usize::MAX / 3) as u64 {
            assert(3 * (width as nat) * (height as nat) > usize::MAX) by (nonlinear_arith)
                requires
                    pixels == width as nat * height as nat,
                    pixels > usize::MAX / 3,
            ;
            return Err(ConfigError::TooLarge);
        }
        assert(3 * (width as nat) * (height as nat) <= usize::MAX) by (nonlinear_arith)
            requires
                pixels == width as nat * height as nat,
                pixels <= usize::MAX / 3,
        ;
        Ok(RenderConfig { width, height })
    }

    pub fn width(&self) -> (r: u32)
        ensures
            r == self.spec_width(),
    {
        self.width
    }

    pub fn height(&self) -> (r: u32)
        ensures
            r == self.spec_height(),
    {
        self.height
    }
}

} // verus!
