//! The settings of the GPU histogram that tone mapping nodes share. The
//! radiance bounds are kept as the JSON numbers they are configured with and
//! converted to floats where the histogram is computed.
use crate::json_doc::JsonNumber;
use vstd::prelude::*;

verus! {

/// The JSON number zero.
pub open spec fn number_zero() -> JsonNumber {
    JsonNumber { positive: true, mantissa: 0, exponent: 0 }
}

/// The JSON number one.
pub open spec fn number_one() -> JsonNumber {
    JsonNumber { positive: true, mantissa: 1, exponent: 0 }
}

/// The configuration of a histogram: its number of bins and the radiance
/// range it covers.
#[derive(Clone, Copy)]
pub struct HistogramConfig {
    pub num_bins: u32,
    pub min_rad: JsonNumber,
    pub max_rad: JsonNumber,
}

impl Default for HistogramConfig {
    /// 64 bins over radiances from 0 to 1.
    fn default() -> (r: Self)
        ensures
            r.num_bins == 64,
            r.min_rad == number_zero(),
            r.max_rad == number_one(),
    {
        HistogramConfig {
            num_bins: 64,
            min_rad: JsonNumber { positive: true, mantissa: 0, exponent: 0 },
            max_rad: JsonNumber { positive: true, mantissa: 1, exponent: 0 },
        }
    }
}

/// A histogram: its configuration, and whether it has been computed. Its bin
/// buffer holds `num_bins` counts.
pub struct Histogram {
    pub config: HistogramConfig,
    pub calculated: bool,
}

impl Histogram {
    /// A histogram with configuration `cfg`, not computed yet.
    pub fn new(cfg: HistogramConfig) -> (r: Self)
        ensures
            r.config == cfg,
            !r.calculated,
    {
        Histogram { config: cfg, calculated: false }
    }

    /// Records that the histogram of an image is computed; from then on the
    /// number of bins is fixed.
    pub fn calculate(&mut self)
        ensures
            final(self).config == old(self).config,
            final(self).calculated,
    {
        self.calculated = true;
    }

    /// The configuration.
    pub fn config(&self) -> (r: &HistogramConfig)
        ensures
            *r == self.config,
    {
        &self.config
    }

    /// The number of counts in the bin buffer.
    pub fn histogram_len(&self) -> (r: usize)
        ensures
            r == self.config.num_bins,
    {
        self.config.num_bins as usize
    }

    /// Sets the number of bins, which reallocates the bin buffer; once the
    /// histogram is computed the request is ignored.
    pub fn set_num_bins(&mut self, num_bins: u32)
        ensures
            final(self).calculated == old(self).calculated,
            final(self).config == if old(self).calculated {
                old(self).config
            } else {
                HistogramConfig { num_bins, ..old(self).config }
            },
    {
        if !self.calculated {
            self.config.num_bins = num_bins;
        }
    }

    /// Sets the upper bound of the radiance range.
    pub fn set_max_rad(&mut self, max_rad: JsonNumber)
        ensures
            final(self).calculated == old(self).calculated,
            final(self).config == (HistogramConfig { max_rad, ..old(self).config }),
    {
        self.config.max_rad = max_rad;
    }

    /// Sets the lower bound of the radiance range.
    pub fn set_min_rad(&mut self, min_rad: JsonNumber)
        ensures
            final(self).calculated == old(self).calculated,
            final(self).config == (HistogramConfig { min_rad, ..old(self).config }),
    {
        self.config.min_rad = min_rad;
    }
}

} // verus!
