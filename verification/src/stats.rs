//! Run statistics: counters and byte sums per media kind, plus global totals.
//!
//! Every terminal entry outcome mutates the aggregator exactly once; the
//! reference-rewrite pass adds its count once at the end. Each mutator's
//! contract states the exact new value of the whole record.

use vstd::prelude::*;

verus! {

#[derive(Clone, Copy, Debug)]
pub struct CompressionStats {
    pub images_processed: u32,
    pub images_skipped: u32,
    pub images_kept_original: u32,
    pub image_original_size: u64,
    pub image_compressed_size: u64,
    pub audio_processed: u32,
    pub audio_skipped: u32,
    pub audio_kept_original: u32,
    pub audio_original_size: u64,
    pub audio_compressed_size: u64,
    pub video_processed: u32,
    pub video_skipped: u32,
    pub video_kept_original: u32,
    pub video_original_size: u64,
    pub video_compressed_size: u64,
    pub total_input_size: u64,
    pub total_output_size: u64,
    pub total_updated_refs: u32,
}

impl CompressionStats {
    pub open spec fn is_zero(self) -> bool {
        &&& self.images_processed == 0
        &&& self.images_skipped == 0
        &&& self.images_kept_original == 0
        &&& self.image_original_size == 0
        &&& self.image_compressed_size == 0
        &&& self.audio_processed == 0
        &&& self.audio_skipped == 0
        &&& self.audio_kept_original == 0
        &&& self.audio_original_size == 0
        &&& self.audio_compressed_size == 0
        &&& self.video_processed == 0
        &&& self.video_skipped == 0
        &&& self.video_kept_original == 0
        &&& self.video_original_size == 0
        &&& self.video_compressed_size == 0
        &&& self.total_input_size == 0
        &&& self.total_output_size == 0
        &&& self.total_updated_refs == 0
    }

    /// A fresh aggregator with every counter and sum at zero.
    pub fn new() -> (s: Self)
        ensures
            s.is_zero(),
    {
        CompressionStats {
            images_processed: 0,
            images_skipped: 0,
            images_kept_original: 0,
            image_original_size: 0,
            image_compressed_size: 0,
            audio_processed: 0,
            audio_skipped: 0,
            audio_kept_original: 0,
            audio_original_size: 0,
            audio_compressed_size: 0,
            video_processed: 0,
            video_skipped: 0,
            video_kept_original: 0,
            video_original_size: 0,
            video_compressed_size: 0,
            total_input_size: 0,
            total_output_size: 0,
            total_updated_refs: 0,
        }
    }

    /// An accepted image replacement: `original_size` bytes in,
    /// `compressed_size` bytes out.
    pub fn add_processed_image(&mut self, original_size: u64, compressed_size: u64)
        requires
            old(self).images_processed < u32::MAX,
            old(self).image_original_size + original_size <= u64::MAX,
            old(self).image_compressed_size + compressed_size <= u64::MAX,
            old(self).total_input_size + original_size <= u64::MAX,
            old(self).total_output_size + compressed_size <= u64::MAX,
        ensures
            *final(self) == (CompressionStats {
                images_processed: (old(self).images_processed + 1) as u32,
                image_original_size: (old(self).image_original_size + original_size) as u64,
                image_compressed_size: (old(self).image_compressed_size + compressed_size) as u64,
                total_input_size: (old(self).total_input_size + original_size) as u64,
                total_output_size: (old(self).total_output_size + compressed_size) as u64,
                ..*old(self)
            }),
    {
        self.images_processed = self.images_processed + 1;
        self.image_original_size = self.image_original_size + original_size;
        self.image_compressed_size = self.image_compressed_size + compressed_size;
        self.total_input_size = self.total_input_size + original_size;
        self.total_output_size = self.total_output_size + compressed_size;
    }

    /// An image kept as-is because its compressed form was rejected.
    pub fn add_kept_original_image(&mut self, size: u64)
        requires
            old(self).images_kept_original < u32::MAX,
            old(self).image_original_size + size <= u64::MAX,
            old(self).image_compressed_size + size <= u64::MAX,
            old(self).total_input_size + size <= u64::MAX,
            old(self).total_output_size + size <= u64::MAX,
        ensures
            *final(self) == (CompressionStats {
                images_kept_original: (old(self).images_kept_original + 1) as u32,
                image_original_size: (old(self).image_original_size + size) as u64,
                image_compressed_size: (old(self).image_compressed_size + size) as u64,
                total_input_size: (old(self).total_input_size + size) as u64,
                total_output_size: (old(self).total_output_size + size) as u64,
                ..*old(self)
            }),
    {
        self.images_kept_original = self.images_kept_original + 1;
        self.image_original_size = self.image_original_size + size;
        self.image_compressed_size = self.image_compressed_size + size;
        self.total_input_size = self.total_input_size + size;
        self.total_output_size = self.total_output_size + size;
    }

    /// An image whose compression failed; the original bytes were written.
    pub fn add_skipped_image(&mut self, size: u64)
        requires
            old(self).images_skipped < u32::MAX,
            old(self).image_original_size + size <= u64::MAX,
            old(self).image_compressed_size + size <= u64::MAX,
            old(self).total_input_size + size <= u64::MAX,
            old(self).total_output_size + size <= u64::MAX,
        ensures
            *final(self) == (CompressionStats {
                images_skipped: (old(self).images_skipped + 1) as u32,
                image_original_size: (old(self).image_original_size + size) as u64,
                image_compressed_size: (old(self).image_compressed_size + size) as u64,
                total_input_size: (old(self).total_input_size + size) as u64,
                total_output_size: (old(self).total_output_size + size) as u64,
                ..*old(self)
            }),
    {
        self.images_skipped = self.images_skipped + 1;
        self.image_original_size = self.image_original_size + size;
        self.image_compressed_size = self.image_compressed_size + size;
        self.total_input_size = self.total_input_size + size;
        self.total_output_size = self.total_output_size + size;
    }

    /// An accepted audio replacement.
    pub fn add_processed_audio(&mut self, original_size: u64, compressed_size: u64)
        requires
            old(self).audio_processed < u32::MAX,
            old(self).audio_original_size + original_size <= u64::MAX,
            old(self).audio_compressed_size + compressed_size <= u64::MAX,
            old(self).total_input_size + original_size <= u64::MAX,
            old(self).total_output_size + compressed_size <= u64::MAX,
        ensures
            *final(self) == (CompressionStats {
                audio_processed: (old(self).audio_processed + 1) as u32,
                audio_original_size: (old(self).audio_original_size + original_size) as u64,
                audio_compressed_size: (old(self).audio_compressed_size + compressed_size) as u64,
                total_input_size: (old(self).total_input_size + original_size) as u64,
                total_output_size: (old(self).total_output_size + compressed_size) as u64,
                ..*old(self)
            }),
    {
        self.audio_processed = self.audio_processed + 1;
        self.audio_original_size = self.audio_original_size + original_size;
        self.audio_compressed_size = self.audio_compressed_size + compressed_size;
        self.total_input_size = self.total_input_size + original_size;
        self.total_output_size = self.total_output_size + compressed_size;
    }

    /// An audio entry kept as-is because its compressed form was rejected.
    pub fn add_kept_original_audio(&mut self, size: u64)
        requires
            old(self).audio_kept_original < u32::MAX,
            old(self).audio_original_size + size <= u64::MAX,
            old(self).audio_compressed_size + size <= u64::MAX,
            old(self).total_input_size + size <= u64::MAX,
            old(self).total_output_size + size <= u64::MAX,
        ensures
            *final(self) == (CompressionStats {
                audio_kept_original: (old(self).audio_kept_original + 1) as u32,
                audio_original_size: (old(self).audio_original_size + size) as u64,
                audio_compressed_size: (old(self).audio_compressed_size + size) as u64,
                total_input_size: (old(self).total_input_size + size) as u64,
                total_output_size: (old(self).total_output_size + size) as u64,
                ..*old(self)
            }),
    {
        self.audio_kept_original = self.audio_kept_original + 1;
        self.audio_original_size = self.audio_original_size + size;
        self.audio_compressed_size = self.audio_compressed_size + size;
        self.total_input_size = self.total_input_size + size;
        self.total_output_size = self.total_output_size + size;
    }

    /// An audio entry whose compression failed; the original bytes were written.
    pub fn add_skipped_audio(&mut self, size: u64)
        requires
            old(self).audio_skipped < u32::MAX,
            old(self).audio_original_size + size <= u64::MAX,
            old(self).audio_compressed_size + size <= u64::MAX,
            old(self).total_input_size + size <= u64::MAX,
            old(self).total_output_size + size <= u64::MAX,
        ensures
            *final(self) == (CompressionStats {
                audio_skipped: (old(self).audio_skipped + 1) as u32,
                audio_original_size: (old(self).audio_original_size + size) as u64,
                audio_compressed_size: (old(self).audio_compressed_size + size) as u64,
                total_input_size: (old(self).total_input_size + size) as u64,
                total_output_size: (old(self).total_output_size + size) as u64,
                ..*old(self)
            }),
    {
        self.audio_skipped = self.audio_skipped + 1;
        self.audio_original_size = self.audio_original_size + size;
        self.audio_compressed_size = self.audio_compressed_size + size;
        self.total_input_size = self.total_input_size + size;
        self.total_output_size = self.total_output_size + size;
    }

    /// An accepted video replacement.
    pub fn add_processed_video(&mut self, original_size: u64, compressed_size: u64)
        requires
            old(self).video_processed < u32::MAX,
            old(self).video_original_size + original_size <= u64::MAX,
            old(self).video_compressed_size + compressed_size <= u64::MAX,
            old(self).total_input_size + original_size <= u64::MAX,
            old(self).total_output_size + compressed_size <= u64::MAX,
        ensures
            *final(self) == (CompressionStats {
                video_processed: (old(self).video_processed + 1) as u32,
                video_original_size: (old(self).video_original_size + original_size) as u64,
                video_compressed_size: (old(self).video_compressed_size + compressed_size) as u64,
                total_input_size: (old(self).total_input_size + original_size) as u64,
                total_output_size: (old(self).total_output_size + compressed_size) as u64,
                ..*old(self)
            }),
    {
        self.video_processed = self.video_processed + 1;
        self.video_original_size = self.video_original_size + original_size;
        self.video_compressed_size = self.video_compressed_size + compressed_size;
        self.total_input_size = self.total_input_size + original_size;
        self.total_output_size = self.total_output_size + compressed_size;
    }

    /// A video entry kept as-is because its compressed form was rejected.
    pub fn add_kept_original_video(&mut self, size: u64)
        requires
            old(self).video_kept_original < u32::MAX,
            old(self).video_original_size + size <= u64::MAX,
            old(self).video_compressed_size + size <= u64::MAX,
            old(self).total_input_size + size <= u64::MAX,
            old(self).total_output_size + size <= u64::MAX,
        ensures
            *final(self) == (CompressionStats {
                video_kept_original: (old(self).video_kept_original + 1) as u32,
                video_original_size: (old(self).video_original_size + size) as u64,
                video_compressed_size: (old(self).video_compressed_size + size) as u64,
                total_input_size: (old(self).total_input_size + size) as u64,
                total_output_size: (old(self).total_output_size + size) as u64,
                ..*old(self)
            }),
    {
        self.video_kept_original = self.video_kept_original + 1;
        self.video_original_size = self.video_original_size + size;
        self.video_compressed_size = self.video_compressed_size + size;
        self.total_input_size = self.total_input_size + size;
        self.total_output_size = self.total_output_size + size;
    }

    /// A video entry whose compression failed; the original bytes were written.
    pub fn add_skipped_video(&mut self, size: u64)
        requires
            old(self).video_skipped < u32::MAX,
            old(self).video_original_size + size <= u64::MAX,
            old(self).video_compressed_size + size <= u64::MAX,
            old(self).total_input_size + size <= u64::MAX,
            old(self).total_output_size + size <= u64::MAX,
        ensures
            *final(self) == (CompressionStats {
                video_skipped: (old(self).video_skipped + 1) as u32,
                video_original_size: (old(self).video_original_size + size) as u64,
                video_compressed_size: (old(self).video_compressed_size + size) as u64,
                total_input_size: (old(self).total_input_size + size) as u64,
                total_output_size: (old(self).total_output_size + size) as u64,
                ..*old(self)
            }),
    {
        self.video_skipped = self.video_skipped + 1;
        self.video_original_size = self.video_original_size + size;
        self.video_compressed_size = self.video_compressed_size + size;
        self.total_input_size = self.total_input_size + size;
        self.total_output_size = self.total_output_size + size;
    }

    /// An entry passed through unchanged: only the global totals move.
    pub fn add_other_file(&mut self, size: u64)
        requires
            old(self).total_input_size + size <= u64::MAX,
            old(self).total_output_size + size <= u64::MAX,
        ensures
            *final(self) == (CompressionStats {
                total_input_size: (old(self).total_input_size + size) as u64,
                total_output_size: (old(self).total_output_size + size) as u64,
                ..*old(self)
            }),
    {
        self.total_input_size = self.total_input_size + size;
        self.total_output_size = self.total_output_size + size;
    }

    /// The manifest rewrite pass reported `count` updated references.
    pub fn add_updated_refs(&mut self, count: u32)
        requires
            old(self).total_updated_refs + count <= u32::MAX,
        ensures
            *final(self) == (CompressionStats {
                total_updated_refs: (old(self).total_updated_refs + count) as u32,
                ..*old(self)
            }),
    {
        self.total_updated_refs = self.total_updated_refs + count;
    }

    pub fn images_processed(&self) -> (r: u32)
        ensures
            r == self.images_processed,
    {
        self.images_processed
    }

    pub fn images_skipped(&self) -> (r: u32)
        ensures
            r == self.images_skipped,
    {
        self.images_skipped
    }

    pub fn images_kept_original(&self) -> (r: u32)
        ensures
            r == self.images_kept_original,
    {
        self.images_kept_original
    }

    pub fn image_original_size(&self) -> (r: u64)
        ensures
            r == self.image_original_size,
    {
        self.image_original_size
    }

    pub fn image_compressed_size(&self) -> (r: u64)
        ensures
            r == self.image_compressed_size,
    {
        self.image_compressed_size
    }

    pub fn audio_processed(&self) -> (r: u32)
        ensures
            r == self.audio_processed,
    {
        self.audio_processed
    }

    pub fn audio_skipped(&self) -> (r: u32)
        ensures
            r == self.audio_skipped,
    {
        self.audio_skipped
    }

    pub fn audio_kept_original(&self) -> (r: u32)
        ensures
            r == self.audio_kept_original,
    {
        self.audio_kept_original
    }

    pub fn audio_original_size(&self) -> (r: u64)
        ensures
            r == self.audio_original_size,
    {
        self.audio_original_size
    }

    pub fn audio_compressed_size(&self) -> (r: u64)
        ensures
            r == self.audio_compressed_size,
    {
        self.audio_compressed_size
    }

    pub fn video_processed(&self) -> (r: u32)
        ensures
            r == self.video_processed,
    {
        self.video_processed
    }

    pub fn video_skipped(&self) -> (r: u32)
        ensures
            r == self.video_skipped,
    {
        self.video_skipped
    }

    pub fn video_kept_original(&self) -> (r: u32)
        ensures
            r == self.video_kept_original,
    {
        self.video_kept_original
    }

    pub fn video_original_size(&self) -> (r: u64)
        ensures
            r == self.video_original_size,
    {
        self.video_original_size
    }

    pub fn video_compressed_size(&self) -> (r: u64)
        ensures
            r == self.video_compressed_size,
    {
        self.video_compressed_size
    }

    pub fn total_input_size(&self) -> (r: u64)
        ensures
            r == self.total_input_size,
    {
        self.total_input_size
    }

    pub fn total_output_size(&self) -> (r: u64)
        ensures
            r == self.total_output_size,
    {
        self.total_output_size
    }
}

} // verus!
