//! The two-phase pipeline: the decisions of the stream phase (one call per
//! media entry) and of the finalize phase (the manifest rewrite), with all
//! run state — configuration, statistics, rename registry, buffered
//! manifest — owned by one `Pipeline` value.
//!
//! The caller streams entries in archive order, runs the codec for an
//! entry only when `wants_compression` says so, and writes, per entry,
//! exactly what the returned outcome names: the compressed bytes under
//! `Replaced`'s path, the original bytes under the original path for every
//! other outcome. The manifest entry is buffered instead of written;
//! `finalize` hands back its patched text, to be written last.

use vstd::prelude::*;

use crate::classify::{spec_to_webp_filename, to_webp_filename, EntryKind};
use crate::errors::SicomError;
use crate::policy::{decide, quality_in_range, spec_accepts, spec_quality_in_range, Decision};
use crate::rename::{spec_lookup, unique_keys, RenameRegistry};
use crate::rewrite::{
    cap_u64, rewrite_references, spec_record_tally, spec_rewrite_text, spec_rewrite_total,
};
use crate::stats::CompressionStats;
use crate::text::str_eq;
use vstd::utf8::encode_utf8;

verus! {

/// The operator-chosen parameters of one run, with the external encoder's
/// availability resolved once into an explicit input.
#[derive(Clone, Copy, Debug)]
pub struct RunConfig {
    pub image_quality: u8,
    pub audio_quality: u8,
    pub video_quality: u8,
    pub skip_image: bool,
    pub skip_audio: bool,
    pub skip_video: bool,
    pub always_compress: bool,
    pub ffmpeg_available: bool,
}

impl RunConfig {
    pub open spec fn is_valid(self) -> bool {
        &&& spec_quality_in_range(self.image_quality)
        &&& spec_quality_in_range(self.audio_quality)
        &&& spec_quality_in_range(self.video_quality)
    }

    /// Check the three quality parameters, reporting the first out-of-range
    /// one; runs with an invalid configuration abort before any entry is read.
    pub fn validate(&self) -> (r: Result<(), SicomError>)
        ensures
            r is Ok <==> self.is_valid(),
            !spec_quality_in_range(self.image_quality) ==> r == Result::<(), SicomError>::Err(
                SicomError::InvalidQuality { kind: EntryKind::Image, value: self.image_quality },
            ),
            spec_quality_in_range(self.image_quality) && !spec_quality_in_range(self.audio_quality)
                ==> r == Result::<(), SicomError>::Err(
                SicomError::InvalidQuality { kind: EntryKind::Audio, value: self.audio_quality },
            ),
            spec_quality_in_range(self.image_quality) && spec_quality_in_range(self.audio_quality)
                && !spec_quality_in_range(self.video_quality) ==> r == Result::<(), SicomError>::Err(
                SicomError::InvalidQuality { kind: EntryKind::Video, value: self.video_quality },
            ),
    {
        if !quality_in_range(self.image_quality) {
            Err(SicomError::InvalidQuality { kind: EntryKind::Image, value: self.image_quality })
        } else if !quality_in_range(self.audio_quality) {
            Err(SicomError::InvalidQuality { kind: EntryKind::Audio, value: self.audio_quality })
        } else if !quality_in_range(self.video_quality) {
            Err(SicomError::InvalidQuality { kind: EntryKind::Video, value: self.video_quality })
        } else {
            Ok(())
        }
    }
}

/// What one codec collaborator reported for one entry.
pub enum CodecOutcome {
    /// Encoding succeeded and produced this many bytes.
    Encoded { compressed_size: u64 },
    /// Decoding or encoding failed; the entry is kept as it was.
    Failed { reason: String },
}

/// The terminal outcome of one entry, naming exactly what the caller must
/// write to the destination archive.
pub enum ConversionOutcome {
    /// The compressed bytes are written under `new_path`.
    Replaced { new_path: String, original_size: u64, compressed_size: u64 },
    /// Compression succeeded but was rejected; the original bytes are
    /// written under the original path.
    KeptOriginal { size: u64 },
    /// Compression failed; the original bytes are written under the
    /// original path.
    Skipped { size: u64, reason: String },
    /// The entry was not eligible for compression; the original bytes are
    /// written under the original path.
    PassedThrough { size: u64 },
}

/// Whether entries of this kind are sent to a codec at all under the given
/// configuration. Video additionally needs the external encoder.
pub open spec fn spec_wants(c: RunConfig, kind: EntryKind) -> bool {
    match kind {
        EntryKind::Image => !c.skip_image,
        EntryKind::Audio => !c.skip_audio,
        EntryKind::Video => !c.skip_video && c.ffmpeg_available,
        _ => false,
    }
}

/// The path an accepted replacement is written under: images normalize to
/// the target format's extension, audio and video keep their path.
pub open spec fn spec_new_path(kind: EntryKind, path: Seq<char>) -> Seq<char> {
    if kind is Image {
        spec_to_webp_filename(path)
    } else {
        path
    }
}

pub open spec fn spec_codec_csize(codec: Option<CodecOutcome>) -> nat {
    match codec {
        Some(CodecOutcome::Encoded { compressed_size }) => compressed_size as nat,
        _ => 0,
    }
}

/// Room in the aggregator for one entry of `size` bytes whose compressed
/// form, if any, has `csize` bytes.
pub open spec fn stats_headroom(s: CompressionStats, size: nat, csize: nat) -> bool {
    &&& s.images_processed < u32::MAX
    &&& s.images_kept_original < u32::MAX
    &&& s.images_skipped < u32::MAX
    &&& s.audio_processed < u32::MAX
    &&& s.audio_kept_original < u32::MAX
    &&& s.audio_skipped < u32::MAX
    &&& s.video_processed < u32::MAX
    &&& s.video_kept_original < u32::MAX
    &&& s.video_skipped < u32::MAX
    &&& s.image_original_size + size <= u64::MAX
    &&& s.image_compressed_size + size + csize <= u64::MAX
    &&& s.audio_original_size + size <= u64::MAX
    &&& s.audio_compressed_size + size + csize <= u64::MAX
    &&& s.video_original_size + size <= u64::MAX
    &&& s.video_compressed_size + size + csize <= u64::MAX
    &&& s.total_input_size + size <= u64::MAX
    &&& s.total_output_size + size + csize <= u64::MAX
}

pub open spec fn stats_add_processed(
    s: CompressionStats,
    kind: EntryKind,
    size: u64,
    csize: u64,
) -> CompressionStats {
    match kind {
        EntryKind::Image => (CompressionStats {
            images_processed: (s.images_processed + 1) as u32,
            image_original_size: (s.image_original_size + size) as u64,
            image_compressed_size: (s.image_compressed_size + csize) as u64,
            total_input_size: (s.total_input_size + size) as u64,
            total_output_size: (s.total_output_size + csize) as u64,
            ..s
        }),
        EntryKind::Audio => (CompressionStats {
            audio_processed: (s.audio_processed + 1) as u32,
            audio_original_size: (s.audio_original_size + size) as u64,
            audio_compressed_size: (s.audio_compressed_size + csize) as u64,
            total_input_size: (s.total_input_size + size) as u64,
            total_output_size: (s.total_output_size + csize) as u64,
            ..s
        }),
        EntryKind::Video => (CompressionStats {
            video_processed: (s.video_processed + 1) as u32,
            video_original_size: (s.video_original_size + size) as u64,
            video_compressed_size: (s.video_compressed_size + csize) as u64,
            total_input_size: (s.total_input_size + size) as u64,
            total_output_size: (s.total_output_size + csize) as u64,
            ..s
        }),
        _ => s,
    }
}

pub open spec fn stats_add_kept(s: CompressionStats, kind: EntryKind, size: u64) -> CompressionStats {
    match kind {
        EntryKind::Image => (CompressionStats {
            images_kept_original: (s.images_kept_original + 1) as u32,
            image_original_size: (s.image_original_size + size) as u64,
            image_compressed_size: (s.image_compressed_size + size) as u64,
            total_input_size: (s.total_input_size + size) as u64,
            total_output_size: (s.total_output_size + size) as u64,
            ..s
        }),
        EntryKind::Audio => (CompressionStats {
            audio_kept_original: (s.audio_kept_original + 1) as u32,
            audio_original_size: (s.audio_original_size + size) as u64,
            audio_compressed_size: (s.audio_compressed_size + size) as u64,
            total_input_size: (s.total_input_size + size) as u64,
            total_output_size: (s.total_output_size + size) as u64,
            ..s
        }),
        EntryKind::Video => (CompressionStats {
            video_kept_original: (s.video_kept_original + 1) as u32,
            video_original_size: (s.video_original_size + size) as u64,
            video_compressed_size: (s.video_compressed_size + size) as u64,
            total_input_size: (s.total_input_size + size) as u64,
            total_output_size: (s.total_output_size + size) as u64,
            ..s
        }),
        _ => s,
    }
}

pub open spec fn stats_add_skipped(s: CompressionStats, kind: EntryKind, size: u64) -> CompressionStats {
    match kind {
        EntryKind::Image => (CompressionStats {
            images_skipped: (s.images_skipped + 1) as u32,
            image_original_size: (s.image_original_size + size) as u64,
            image_compressed_size: (s.image_compressed_size + size) as u64,
            total_input_size: (s.total_input_size + size) as u64,
            total_output_size: (s.total_output_size + size) as u64,
            ..s
        }),
        EntryKind::Audio => (CompressionStats {
            audio_skipped: (s.audio_skipped + 1) as u32,
            audio_original_size: (s.audio_original_size + size) as u64,
            audio_compressed_size: (s.audio_compressed_size + size) as u64,
            total_input_size: (s.total_input_size + size) as u64,
            total_output_size: (s.total_output_size + size) as u64,
            ..s
        }),
        EntryKind::Video => (CompressionStats {
            video_skipped: (s.video_skipped + 1) as u32,
            video_original_size: (s.video_original_size + size) as u64,
            video_compressed_size: (s.video_compressed_size + size) as u64,
            total_input_size: (s.total_input_size + size) as u64,
            total_output_size: (s.total_output_size + size) as u64,
            ..s
        }),
        _ => s,
    }
}

pub open spec fn stats_add_passthrough(s: CompressionStats, size: u64) -> CompressionStats {
    CompressionStats {
        total_input_size: (s.total_input_size + size) as u64,
        total_output_size: (s.total_output_size + size) as u64,
        ..s
    }
}

/// What the finalize phase returns.
pub enum ManifestPatch {
    /// The patched manifest text, to be written as the archive's last
    /// entry, with the total and per-record reference tallies. A record
    /// whose tally is zero is a reference-not-found warning.
    Patched { text: String, updated_refs: u64, record_tallies: Vec<u64> },
    /// No manifest entry was seen; the run completes with a warning.
    Missing,
}

/// All run state of the two-phase pipeline.
pub struct Pipeline {
    pub config: RunConfig,
    pub stats: CompressionStats,
    pub renames: RenameRegistry,
    pub manifest: Option<String>,
    pub video_warned: bool,
}

impl Pipeline {
    pub open spec fn wf(self) -> bool {
        &&& self.config.is_valid()
        &&& unique_keys(self.renames.entries@)
    }

    /// Start a run. The configuration is validated here, before any entry
    /// is streamed; an invalid quality aborts the run at once.
    pub fn new(config: RunConfig) -> (r: Result<Pipeline, SicomError>)
        ensures
            r is Ok <==> config.is_valid(),
            r matches Ok(p) ==> {
                &&& p.wf()
                &&& p.config == config
                &&& p.stats.is_zero()
                &&& p.renames.entries@.len() == 0
                &&& p.manifest is None
                &&& !p.video_warned
            },
            !spec_quality_in_range(config.image_quality) ==> r == Result::<
                Pipeline,
                SicomError,
            >::Err(
                SicomError::InvalidQuality { kind: EntryKind::Image, value: config.image_quality },
            ),
            spec_quality_in_range(config.image_quality) && !spec_quality_in_range(
                config.audio_quality,
            ) ==> r == Result::<Pipeline, SicomError>::Err(
                SicomError::InvalidQuality { kind: EntryKind::Audio, value: config.audio_quality },
            ),
            spec_quality_in_range(config.image_quality) && spec_quality_in_range(
                config.audio_quality,
            ) && !spec_quality_in_range(config.video_quality) ==> r == Result::<
                Pipeline,
                SicomError,
            >::Err(
                SicomError::InvalidQuality { kind: EntryKind::Video, value: config.video_quality },
            ),
    {
        match config.validate() {
            Ok(()) => Ok(
                Pipeline {
                    config,
                    stats: CompressionStats::new(),
                    renames: RenameRegistry::new(),
                    manifest: None,
                    video_warned: false,
                },
            ),
            Err(e) => Err(e),
        }
    }

    /// Whether entries of this kind should be handed to their codec.
    pub fn wants_compression(&self, kind: EntryKind) -> (b: bool)
        ensures
            b == spec_wants(self.config, kind),
    {
        match kind {
            EntryKind::Image => !self.config.skip_image,
            EntryKind::Audio => !self.config.skip_audio,
            EntryKind::Video => !self.config.skip_video && self.config.ffmpeg_available,
            _ => false,
        }
    }

    /// Report, once per run, that video compression is unavailable even
    /// though it was not skipped. Returns true only the first time a video
    /// entry meets that state.
    pub fn note_video_capability(&mut self, kind: EntryKind) -> (warn: bool)
        ensures
            warn == (kind is Video && !old(self).config.skip_video
                && !old(self).config.ffmpeg_available && !old(self).video_warned),
            *final(self) == (Pipeline {
                video_warned: old(self).video_warned || (kind is Video
                    && !old(self).config.skip_video && !old(self).config.ffmpeg_available),
                ..*old(self)
            }),
    {
        let applies = matches!(kind, EntryKind::Video) && !self.config.skip_video
            && !self.config.ffmpeg_available;
        let warn = applies && !self.video_warned;
        if applies {
            self.video_warned = true;
        }
        warn
    }

    /// Record an entry whose kind is never compressed (`Other`): its bytes
    /// are copied unchanged and only the global totals move.
    pub fn pass_through_entry(&mut self, size: u64)
        requires
            old(self).stats.total_input_size + size <= u64::MAX,
            old(self).stats.total_output_size + size <= u64::MAX,
        ensures
            *final(self) == (Pipeline {
                stats: stats_add_passthrough(old(self).stats, size),
                ..*old(self)
            }),
    {
        self.stats.add_other_file(size);
    }

    /// Buffer the manifest text for the finalize phase; only the global
    /// byte totals move now. A manifest buffered earlier is replaced.
    pub fn buffer_manifest(&mut self, text: String)
        requires
            encode_utf8(text@).len() <= usize::MAX,
            old(self).stats.total_input_size + encode_utf8(text@).len() <= u64::MAX,
            old(self).stats.total_output_size + encode_utf8(text@).len() <= u64::MAX,
        ensures
            *final(self) == (Pipeline {
                manifest: Some(text),
                stats: stats_add_passthrough(
                    old(self).stats,
                    encode_utf8(text@).len() as u64,
                ),
                ..*old(self)
            }),
    {
        let len = text.as_str().len();
        self.stats.add_other_file(len as u64);
        self.manifest = Some(text);
    }

    /// Resolve one media entry of `size` bytes. `codec` is the codec
    /// collaborator's report and must be present whenever
    /// `wants_compression` holds for the kind; it is ignored otherwise.
    ///
    /// The outcome names the one write the caller must make. A failed
    /// codec never fails the run: the entry falls back to its original
    /// bytes and the kind's skipped counter moves by exactly one. An
    /// accepted replacement is strictly smaller than the original unless
    /// the force-accept flag is set, and is recorded in the rename
    /// registry exactly when its path changed.
    pub fn process_media_entry(
        &mut self,
        path: &String,
        kind: EntryKind,
        size: u64,
        codec: Option<CodecOutcome>,
    ) -> (outcome: ConversionOutcome)
        requires
            old(self).wf(),
            kind is Image || kind is Audio || kind is Video,
            spec_wants(old(self).config, kind) ==> codec is Some,
            stats_headroom(old(self).stats, size as nat, spec_codec_csize(codec)),
        ensures
            final(self).wf(),
            final(self).config == old(self).config,
            final(self).manifest == old(self).manifest,
            final(self).video_warned == old(self).video_warned,
            // Ineligible kinds pass through: no codec ran, no counter moves.
            !spec_wants(old(self).config, kind) ==> {
                &&& outcome == (ConversionOutcome::PassedThrough { size })
                &&& final(self).stats == stats_add_passthrough(old(self).stats, size)
                &&& final(self).renames == old(self).renames
            },
            // A codec failure degrades to keeping the original bytes; the
            // kind's skipped counter moves by exactly one.
            spec_wants(old(self).config, kind) ==> (codec matches Some(CodecOutcome::Failed {
                reason,
            }) ==> {
                &&& outcome == (ConversionOutcome::Skipped { size, reason })
                &&& final(self).stats == stats_add_skipped(old(self).stats, kind, size)
                &&& final(self).renames == old(self).renames
            }),
            // A successful encode is accepted iff it shrinks the entry or
            // acceptance is forced.
            spec_wants(old(self).config, kind) ==> (codec matches Some(CodecOutcome::Encoded {
                compressed_size,
            }) ==> {
                if spec_accepts(size, compressed_size, old(self).config.always_compress) {
                    &&& outcome matches ConversionOutcome::Replaced {
                        new_path,
                        original_size,
                        compressed_size: cs,
                    } && new_path@ == spec_new_path(kind, path@) && original_size == size && cs
                        == compressed_size
                    &&& final(self).stats == stats_add_processed(
                        old(self).stats,
                        kind,
                        size,
                        compressed_size,
                    )
                    &&& (spec_new_path(kind, path@) != path@ ==> {
                        &&& spec_lookup(final(self).renames.entries@, path@) == Some(
                            spec_new_path(kind, path@),
                        )
                        &&& (spec_lookup(old(self).renames.entries@, path@) is None
                            ==> final(self).renames.entries@.len() == old(
                            self,
                        ).renames.entries@.len() + 1)
                    })
                    &&& (spec_new_path(kind, path@) == path@ ==> final(self).renames == old(
                        self,
                    ).renames)
                } else {
                    &&& outcome == (ConversionOutcome::KeptOriginal { size })
                    &&& final(self).stats == stats_add_kept(old(self).stats, kind, size)
                    &&& final(self).renames == old(self).renames
                }
            }),
            // Every accepted replacement shrank the entry, unless the
            // operator forced acceptance.
            outcome matches ConversionOutcome::Replaced { original_size, compressed_size, .. }
                ==> (compressed_size < original_size || old(self).config.always_compress),
    {
        if !self.wants_compression(kind) {
            self.stats.add_other_file(size);
            return ConversionOutcome::PassedThrough { size };
        }
        let c = codec.unwrap();
        match c {
            CodecOutcome::Failed { reason } => {
                match kind {
                    EntryKind::Image => self.stats.add_skipped_image(size),
                    EntryKind::Audio => self.stats.add_skipped_audio(size),
                    _ => self.stats.add_skipped_video(size),
                }
                ConversionOutcome::Skipped { size, reason }
            },
            CodecOutcome::Encoded { compressed_size } => {
                if matches!(
                    decide(size, compressed_size, self.config.always_compress),
                    Decision::Reject
                ) {
                    match kind {
                        EntryKind::Image => self.stats.add_kept_original_image(size),
                        EntryKind::Audio => self.stats.add_kept_original_audio(size),
                        _ => self.stats.add_kept_original_video(size),
                    }
                    ConversionOutcome::KeptOriginal { size }
                } else {
                    let new_path: String = match kind {
                        EntryKind::Image => to_webp_filename(path.as_str()),
                        _ => path.clone(),
                    };
                    match kind {
                        EntryKind::Image => self.stats.add_processed_image(size, compressed_size),
                        EntryKind::Audio => self.stats.add_processed_audio(size, compressed_size),
                        _ => self.stats.add_processed_video(size, compressed_size),
                    }
                    if !str_eq(new_path.as_str(), path.as_str()) {
                        proof {
                            crate::rename::lemma_lookup_none_iff(
                                old(self).renames.entries@,
                                path@,
                            );
                        }
                        self.renames.record(path.clone(), new_path.clone());
                    }
                    ConversionOutcome::Replaced {
                        new_path,
                        original_size: size,
                        compressed_size,
                    }
                }
            },
        }
    }

    /// Run the finalize phase: patch the buffered manifest against the
    /// rename registry and add the updated-reference count to the
    /// statistics, or report that no manifest was seen.
    pub fn finalize(&mut self) -> (r: ManifestPatch)
        requires
            old(self).wf(),
        ensures
            final(self).wf(),
            final(self).config == old(self).config,
            final(self).renames == old(self).renames,
            final(self).video_warned == old(self).video_warned,
            final(self).manifest is None,
            old(self).manifest is None ==> r is Missing && *final(self) == *old(self),
            old(self).manifest matches Some(m) ==> {
                &&& r matches ManifestPatch::Patched { text, updated_refs, record_tallies }
                    && text@ == spec_rewrite_text(m@, old(self).renames.entries@) && updated_refs
                    == cap_u64(spec_rewrite_total(m@, old(self).renames.entries@))
                    && record_tallies@.len() == old(self).renames.entries@.len() && (forall|i: int|
                    0 <= i < old(self).renames.entries@.len() ==> record_tallies@[i] == cap_u64(
                        spec_record_tally(m@, old(self).renames.entries@, i),
                    ))
                &&& final(self).stats == (CompressionStats {
                    total_updated_refs: (if old(self).stats.total_updated_refs + cap_u64(
                        spec_rewrite_total(m@, old(self).renames.entries@),
                    ) <= u32::MAX {
                        (old(self).stats.total_updated_refs + cap_u64(
                            spec_rewrite_total(m@, old(self).renames.entries@),
                        )) as u32
                    } else {
                        u32::MAX
                    }),
                    ..old(self).stats
                })
            },
    {
        let m_opt = self.manifest.take();
        match m_opt {
            None => ManifestPatch::Missing,
            Some(m) => {
                let rr = rewrite_references(m.as_str(), &self.renames);
                let room: u32 = u32::MAX - self.stats.total_updated_refs;
                let add: u32 = if rr.updated_refs > room as u64 {
                    room
                } else {
                    rr.updated_refs as u32
                };
                self.stats.add_updated_refs(add);
                ManifestPatch::Patched {
                    text: rr.text,
                    updated_refs: rr.updated_refs,
                    record_tallies: rr.record_tallies,
                }
            },
        }
    }
}

} // verus!
